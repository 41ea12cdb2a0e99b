//! The connection map: the networks of a zone as headings, with what is connected
//! to each hanging below, ordered from the outside in.

use vstd::prelude::*;

use crate::cloud_resources::{pairs_view, CloudResource, ResourceId};
use crate::order::{
    insertion_point, lemma_stable_sort, lemma_stable_sort_keeps_ties, sorted_by, stable_sort, strict_weak_order, tied,
};
use crate::text::{
    chars_of, lemma_text_lt_irreflexive, lemma_text_lt_total, lemma_text_lt_transitive, parse_unsigned,
    parse_unsigned_exec, str_eq, string_from_chars, text_less, text_lt,
};

verus! {

/// Power state of a server, as far as the map shows it.
#[derive(Debug, Clone, Copy, PartialEq, Eq, Structural)]
pub enum PowerStatus {
    Up,
    Down,
    Unknown,
}

/// What a NIC is connected to.
#[derive(Debug, Clone, PartialEq, Eq)]
pub enum NicConnection {
    /// The shared segment.
    Shared,
    /// A switch, known by identifier when the API gives one.
    Switch { id: Option<ResourceId>, name: String },
    /// Nothing.
    Disconnected,
}

impl NicConnection {
    pub open spec fn spec_switch_id(&self) -> Option<ResourceId> {
        match self {
            NicConnection::Switch { id, .. } => *id,
            _ => None,
        }
    }

    /// The switch the NIC is connected to.
    pub fn switch_id(&self) -> (r: Option<ResourceId>)
        ensures
            r == self.spec_switch_id(),
    {
        match self {
            NicConnection::Switch { id, .. } => *id,
            _ => None,
        }
    }
}

/// A NIC as the map reads it.
#[derive(Debug, Clone)]
pub struct MapNic {
    /// The name the NIC is shown by.
    pub name: String,
    pub ip_address: String,
    pub packet_filter: Option<String>,
    pub connection: NicConnection,
}

/// A server as the map reads it.
#[derive(Debug, Clone)]
pub struct MapServer {
    pub id: ResourceId,
    pub name: String,
    pub power: PowerStatus,
    pub nics: Vec<MapNic>,
}

/// A switch of the zone as the map reads it.
#[derive(Debug, Clone)]
pub struct MapSwitch {
    pub id: ResourceId,
    pub name: String,
    /// Appliances (routers, load balancers, ...) connected to the switch.
    pub appliance_count: usize,
}

/// What the map is built from; all three lists are needed.
#[derive(Debug, Clone)]
pub struct MapData {
    pub servers: Vec<MapServer>,
    pub switches: Vec<MapSwitch>,
    /// Routers with switch: the entrances from the internet.
    pub routers: Vec<CloudResource>,
}

/// The kind of a network: the mark of its heading and its place in the order.
#[derive(Debug, Clone, Copy, PartialEq, Eq, Structural)]
pub enum NetworkKind {
    /// Router with switch, the way out.
    Router,
    /// The shared segment.
    Shared,
    /// A switch of the zone.
    Switch,
    /// Where NICs connected to nothing are gathered.
    Unconnected,
}

impl NetworkKind {
    pub fn mark(self) -> (m: &'static str)
        ensures
            m@ == (match self {
                NetworkKind::Router => "☁"@,
                NetworkKind::Shared => "◉"@,
                NetworkKind::Switch => "▣"@,
                NetworkKind::Unconnected => "⚠"@,
            }),
    {
        match self {
            NetworkKind::Router => "☁",
            NetworkKind::Shared => "◉",
            NetworkKind::Switch => "▣",
            NetworkKind::Unconnected => "⚠",
        }
    }
}

/// One row of the map.
#[derive(Debug, Clone)]
pub enum MapRow {
    /// The heading of a network.
    Network {
        kind: NetworkKind,
        name: String,
        /// Bandwidth or network address, shown beside the heading.
        note: String,
        nics: usize,
        appliances: usize,
    },
    /// A connected NIC.
    Nic {
        server_id: ResourceId,
        server: String,
        power: PowerStatus,
        nic: String,
        ip: String,
        filter: Option<String>,
        last: bool,
    },
    /// Something other than servers is connected; only the count is known.
    Appliances { count: usize, last: bool },
    /// Nothing is connected to the network.
    Empty,
    /// The blank line between headings.
    Spacer,
}

/// A row by its plain values.
pub enum RowView {
    Network { kind: NetworkKind, name: Seq<char>, note: Seq<char>, nics: nat, appliances: nat },
    Nic {
        server_id: ResourceId,
        server: Seq<char>,
        power: PowerStatus,
        nic: Seq<char>,
        ip: Seq<char>,
        filter: Option<Seq<char>>,
        last: bool,
    },
    Appliances { count: nat, last: bool },
    Empty,
    Spacer,
}

pub open spec fn opt_view(o: Option<String>) -> Option<Seq<char>> {
    match o {
        Some(s) => Some(s@),
        None => None,
    }
}

impl View for MapRow {
    type V = RowView;

    open spec fn view(&self) -> RowView {
        match self {
            MapRow::Network { kind, name, note, nics, appliances } => RowView::Network {
                kind: *kind,
                name: name@,
                note: note@,
                nics: *nics as nat,
                appliances: *appliances as nat,
            },
            MapRow::Nic { server_id, server, power, nic, ip, filter, last } => RowView::Nic {
                server_id: *server_id,
                server: server@,
                power: *power,
                nic: nic@,
                ip: ip@,
                filter: opt_view(*filter),
                last: *last,
            },
            MapRow::Appliances { count, last } => RowView::Appliances { count: *count as nat, last: *last },
            MapRow::Empty => RowView::Empty,
            MapRow::Spacer => RowView::Spacer,
        }
    }
}

impl MapRow {
    /// Only NIC rows can be selected; headings and blank lines are skipped.
    pub fn is_selectable(&self) -> (r: bool)
        ensures
            r == (self@ is Nic),
    {
        match self {
            MapRow::Nic { .. } => true,
            _ => false,
        }
    }
}

/// The views of some rows.
pub open spec fn rows_view(rows: Seq<MapRow>) -> Seq<RowView> {
    rows.map_values(|r: MapRow| r@)
}

/// The row with its closing flag set to `is_last`; other rows are unchanged.
pub open spec fn spec_mark_last(row: RowView, is_last: bool) -> RowView {
    match row {
        RowView::Nic { server_id, server, power, nic, ip, filter, .. } => RowView::Nic {
            server_id,
            server,
            power,
            nic,
            ip,
            filter,
            last: is_last,
        },
        other => other,
    }
}

fn mark_last(row: MapRow, is_last: bool) -> (r: MapRow)
    ensures
        r@ == spec_mark_last(row@, is_last),
{
    match row {
        MapRow::Nic { server_id, server, power, nic, ip, filter, .. } => MapRow::Nic {
            server_id,
            server,
            power,
            nic,
            ip,
            filter,
            last: is_last,
        },
        other => other,
    }
}

/// The value of the first detail row labelled `label`, if any.
pub open spec fn detail_value(details: Seq<(Seq<char>, Seq<char>)>, label: Seq<char>) -> Option<Seq<char>>
    decreases details.len(),
{
    if details.len() == 0 {
        None
    } else if details[0].0 == label {
        Some(details[0].1)
    } else {
        detail_value(details.drop_first(), label)
    }
}

fn find_detail(details: &Vec<(String, String)>, label: &str) -> (r: Option<Vec<char>>)
    ensures
        r is Some <==> detail_value(pairs_view(details@), label@) is Some,
        r is Some ==> r->0@ == detail_value(pairs_view(details@), label@)->0,
{
    let ghost pv = pairs_view(details@);
    let mut i: usize = 0;
    assert(pv.subrange(0, pv.len() as int) =~= pv);
    while i < details.len()
        invariant
            i <= details.len(),
            pv == pairs_view(details@),
            detail_value(pv, label@) == detail_value(pv.subrange(i as int, pv.len() as int), label@),
        decreases details.len() - i,
    {
        let ghost rest = pv.subrange(i as int, pv.len() as int);
        assert(rest[0] == (details@[i as int].0@, details@[i as int].1@));
        if str_eq(details[i].0.as_str(), label) {
            return Some(chars_of(details[i].1.as_str()));
        }
        assert(rest.drop_first() =~= pv.subrange(i + 1, pv.len() as int));
        i = i + 1;
    }
    None
}

/// The switch a router with switch owns: the identifier in its `スイッチ` detail.
pub open spec fn spec_switch_id_of(router: CloudResource) -> Option<ResourceId> {
    match detail_value(pairs_view(router.details@), "スイッチ"@) {
        Some(v) => match parse_unsigned(v, u64::MAX as nat) {
            Some(n) => Some(ResourceId(n as u64)),
            None => None,
        },
        None => None,
    }
}

pub fn switch_id_of(router: &CloudResource) -> (r: Option<ResourceId>)
    ensures
        r == spec_switch_id_of(*router),
{
    match find_detail(&router.details, "スイッチ") {
        Some(v) => match parse_unsigned_exec(&v, u64::MAX) {
            Some(n) => Some(ResourceId(n)),
            None => None,
        },
        None => None,
    }
}

/// A detail value, or the empty text.
pub open spec fn detail_or_empty(router: CloudResource, label: Seq<char>) -> Seq<char> {
    match detail_value(pairs_view(router.details@), label) {
        Some(v) => v,
        None => Seq::empty(),
    }
}

/// The note beside a router heading: network address with mask, and bandwidth.
pub open spec fn spec_router_note(router: CloudResource) -> Seq<char> {
    let network = detail_or_empty(router, "ネットワーク"@);
    let mask = detail_or_empty(router, "マスク長"@);
    let bandwidth = detail_or_empty(router, "帯域(Mbps)"@);
    let first = if mask.len() == 0 { network } else { network + seq!['/'] + mask };
    let second = bandwidth + " Mbps"@;
    if network.len() > 0 && bandwidth.len() > 0 {
        first + "  "@ + second
    } else if network.len() > 0 {
        first
    } else if bandwidth.len() > 0 {
        second
    } else {
        Seq::empty()
    }
}

pub fn router_note(router: &CloudResource) -> (r: String)
    ensures
        r@ == spec_router_note(*router),
{
    let network = match find_detail(&router.details, "ネットワーク") { Some(v) => v, None => Vec::new() };
    let mask = match find_detail(&router.details, "マスク長") { Some(v) => v, None => Vec::new() };
    let bandwidth = match find_detail(&router.details, "帯域(Mbps)") { Some(v) => v, None => Vec::new() };
    let mut first = network.clone();
    if mask.len() > 0 {
        first.push('/');
        let mut m = mask.clone();
        first.append(&mut m);
    }
    let mut second = bandwidth.clone();
    let mut unit = chars_of(" Mbps");
    second.append(&mut unit);
    let out: Vec<char> = if network.len() > 0 && bandwidth.len() > 0 {
        let mut o = first;
        let mut gap = chars_of("  ");
        o.append(&mut gap);
        o.append(&mut second);
        o
    } else if network.len() > 0 {
        first
    } else if bandwidth.len() > 0 {
        second
    } else {
        Vec::new()
    };
    string_from_chars(&out)
}


/// Which NICs a network gathers.
#[derive(Debug, Clone, Copy, PartialEq, Eq, Structural)]
pub enum NicTarget {
    /// NICs on the shared segment.
    Shared,
    /// NICs on the switch with this identifier.
    Switch(ResourceId),
    /// NICs connected to nothing.
    Disconnected,
}

/// A NIC with this connection belongs to the network `t`.
pub open spec fn connects_to(c: NicConnection, t: NicTarget) -> bool {
    match t {
        NicTarget::Shared => c is Shared,
        NicTarget::Switch(id) => c.spec_switch_id() == Some(id),
        NicTarget::Disconnected => c is Disconnected,
    }
}

fn connection_matches(c: &NicConnection, t: NicTarget) -> (r: bool)
    ensures
        r == connects_to(*c, t),
{
    match t {
        NicTarget::Shared => match c {
            NicConnection::Shared => true,
            _ => false,
        },
        NicTarget::Switch(id) => match c.switch_id() {
            Some(s) => s.0 == id.0,
            None => false,
        },
        NicTarget::Disconnected => match c {
            NicConnection::Disconnected => true,
            _ => false,
        },
    }
}

/// The row of one NIC of a server (not yet closing its branch).
pub open spec fn nic_row(server: MapServer, nic: MapNic) -> RowView {
    RowView::Nic {
        server_id: server.id,
        server: server.name@,
        power: server.power,
        nic: nic.name@,
        ip: nic.ip_address@,
        filter: opt_view(nic.packet_filter),
        last: false,
    }
}

/// The rows of the NICs among `nics` of `server` that belong to `t`, in order.
pub open spec fn server_nic_rows(server: MapServer, nics: Seq<MapNic>, t: NicTarget) -> Seq<RowView>
    decreases nics.len(),
{
    if nics.len() == 0 {
        Seq::empty()
    } else {
        let rest = server_nic_rows(server, nics.drop_last(), t);
        if connects_to(nics.last().connection, t) {
            rest.push(nic_row(server, nics.last()))
        } else {
            rest
        }
    }
}

/// The rows of the NICs of all servers that belong to `t`, server by server.
pub open spec fn gathered(servers: Seq<MapServer>, t: NicTarget) -> Seq<RowView>
    decreases servers.len(),
{
    if servers.len() == 0 {
        Seq::empty()
    } else {
        gathered(servers.drop_last(), t) + server_nic_rows(servers.last(), servers.last().nics@, t)
    }
}

/// The key rows are ordered by: server name, then NIC name (empty for rows
/// that are not NICs).
pub open spec fn row_key(x: RowView) -> (Seq<char>, Seq<char>) {
    match x {
        RowView::Nic { server, nic, .. } => (server, nic),
        _ => (Seq::empty(), Seq::empty()),
    }
}

/// NIC rows ordered by server name, then NIC name.
pub open spec fn row_key_lt(x: RowView, y: RowView) -> bool {
    let (s1, n1) = row_key(x);
    let (s2, n2) = row_key(y);
    text_lt(s1, s2) || (s1 == s2 && text_lt(n1, n2))
}

/// The order of NIC rows, as a relation.
pub open spec fn nic_order() -> spec_fn(RowView, RowView) -> bool {
    |a: RowView, b: RowView| row_key_lt(a, b)
}

/// The NICs of the network `t`, stably ordered by server name, then NIC name.
pub open spec fn spec_nics_on(servers: Seq<MapServer>, t: NicTarget) -> Seq<RowView> {
    stable_sort(gathered(servers, t), nic_order())
}

fn key_of(x: &MapRow) -> (r: (&str, &str))
    ensures
        (r.0@, r.1@) == row_key(x@),
{
    match x {
        MapRow::Nic { server, nic, .. } => (server.as_str(), nic.as_str()),
        _ => {
            proof {
                reveal_strlit("");
            }
            ("", "")
        },
    }
}

fn key_less(x: &MapRow, y: &MapRow) -> (r: bool)
    ensures
        r == row_key_lt(x@, y@),
{
    let (s1, n1) = key_of(x);
    let (s2, n2) = key_of(y);
    if text_less(s1, s2) {
        true
    } else if str_eq(s1, s2) {
        text_less(n1, n2)
    } else {
        false
    }
}

fn clone_opt_string(o: &Option<String>) -> (r: Option<String>)
    ensures
        r == *o,
{
    match o {
        Some(s) => Some(s.clone()),
        None => None,
    }
}

fn server_rows_into(out: &mut Vec<MapRow>, server: &MapServer, t: NicTarget)
    ensures
        rows_view(final(out)@) == rows_view(old(out)@) + server_nic_rows(*server, server.nics@, t),
{
    let mut k: usize = 0;
    while k < server.nics.len()
        invariant
            k <= server.nics.len(),
            rows_view(out@) == rows_view(old(out)@) + server_nic_rows(
                *server,
                server.nics@.subrange(0, k as int),
                t,
            ),
        decreases server.nics.len() - k,
    {
        let nic = &server.nics[k];
        assert(server.nics@.subrange(0, k + 1).drop_last() =~= server.nics@.subrange(0, k as int));
        let ghost before = out@;
        if connection_matches(&nic.connection, t) {
            let row = MapRow::Nic {
                server_id: server.id,
                server: server.name.clone(),
                power: server.power,
                nic: nic.name.clone(),
                ip: nic.ip_address.clone(),
                filter: clone_opt_string(&nic.packet_filter),
                last: false,
            };
            out.push(row);
            assert(rows_view(out@) =~= rows_view(before).push(nic_row(*server, *nic)));
        }
        k = k + 1;
    }
    assert(server.nics@.subrange(0, server.nics@.len() as int) =~= server.nics@);
}

/// The rows of the NICs of the network `t`, ordered by server name, then NIC name.
pub fn nics_on(servers: &Vec<MapServer>, t: NicTarget) -> (rows: Vec<MapRow>)
    ensures
        rows_view(rows@) == spec_nics_on(servers@, t),
{
    let mut all: Vec<MapRow> = Vec::new();
    let mut i: usize = 0;
    while i < servers.len()
        invariant
            i <= servers.len(),
            rows_view(all@) == gathered(servers@.subrange(0, i as int), t),
        decreases servers.len() - i,
    {
        assert(servers@.subrange(0, i + 1).drop_last() =~= servers@.subrange(0, i as int));
        server_rows_into(&mut all, &servers[i], t);
        i = i + 1;
    }
    assert(servers@.subrange(0, servers@.len() as int) =~= servers@);
    let ghost g = rows_view(all@);
    let mut sorted: Vec<MapRow> = Vec::new();
    let mut k: usize = 0;
    while k < all.len()
        invariant
            k <= all.len(),
            g == rows_view(all@),
            rows_view(sorted@) == stable_sort(g.subrange(0, k as int), nic_order()),
        decreases all.len() - k,
    {
        let x = &all[k];
        let ghost sv = rows_view(sorted@);
        let mut j: usize = 0;
        while j < sorted.len() && !key_less(x, &sorted[j])
            invariant
                j <= sorted.len(),
                sv == rows_view(sorted@),
                insertion_point(sv, x@, nic_order(), 0) == insertion_point(sv, x@, nic_order(), j as int),
            decreases sorted.len() - j,
        {
            j = j + 1;
        }
        assert(g.subrange(0, k + 1).drop_last() =~= g.subrange(0, k as int));
        assert(g.subrange(0, k + 1).last() == x@);
        sorted.insert(j, clone_row(x));
        assert(rows_view(sorted@) =~= sv.insert(j as int, x@));
        k = k + 1;
    }
    assert(g.subrange(0, g.len() as int) =~= g);
    sorted
}

fn clone_row(r: &MapRow) -> (c: MapRow)
    ensures
        c@ == r@,
{
    match r {
        MapRow::Network { kind, name, note, nics, appliances } => MapRow::Network {
            kind: *kind,
            name: name.clone(),
            note: note.clone(),
            nics: *nics,
            appliances: *appliances,
        },
        MapRow::Nic { server_id, server, power, nic, ip, filter, last } => MapRow::Nic {
            server_id: *server_id,
            server: server.clone(),
            power: *power,
            nic: nic.clone(),
            ip: ip.clone(),
            filter: clone_opt_string(filter),
            last: *last,
        },
        MapRow::Appliances { count, last } => MapRow::Appliances { count: *count, last: *last },
        MapRow::Empty => MapRow::Empty,
        MapRow::Spacer => MapRow::Spacer,
    }
}

/// The order of NIC rows is a strict weak order.
proof fn lemma_nic_order()
    ensures
        strict_weak_order(nic_order()),
{
    assert forall|x: RowView| !#[trigger] nic_order()(x, x) by {
        lemma_text_lt_irreflexive(row_key(x).0);
        lemma_text_lt_irreflexive(row_key(x).1);
    }
    assert forall|x: RowView, y: RowView, z: RowView| #[trigger] nic_order()(x, y) && #[trigger] nic_order()(y, z)
        implies nic_order()(x, z) by {
        let (s1, n1) = row_key(x);
        let (s2, n2) = row_key(y);
        let (s3, n3) = row_key(z);
        if text_lt(s1, s2) && text_lt(s2, s3) {
            lemma_text_lt_transitive(s1, s2, s3);
        }
        if text_lt(n1, n2) && text_lt(n2, n3) {
            lemma_text_lt_transitive(n1, n2, n3);
        }
    }
    assert forall|x: RowView, y: RowView, z: RowView| #[trigger] nic_order()(x, y) implies nic_order()(x, z)
        || #[trigger] nic_order()(z, y) by {
        let (s1, n1) = row_key(x);
        let (s2, n2) = row_key(y);
        let (s3, n3) = row_key(z);
        if s3 != s1 {
            lemma_text_lt_total(s1, s3);
        }
        if s3 != s2 {
            lemma_text_lt_total(s2, s3);
        }
        if n3 != n1 {
            lemma_text_lt_total(n1, n3);
        }
        if n3 != n2 {
            lemma_text_lt_total(n2, n3);
        }
        if text_lt(s3, s1) && text_lt(s1, s2) {
            lemma_text_lt_transitive(s3, s1, s2);
        }
        if text_lt(s2, s3) && text_lt(s1, s2) {
            lemma_text_lt_transitive(s1, s2, s3);
        }
        if text_lt(n3, n1) && text_lt(n1, n2) {
            lemma_text_lt_transitive(n3, n1, n2);
        }
        if text_lt(n2, n3) && text_lt(n1, n2) {
            lemma_text_lt_transitive(n1, n2, n3);
        }
    }
}

/// The NICs of a network come ordered by server name, then NIC name;
/// ordering them neither drops nor repeats one, and NICs with the same server
/// and NIC names keep the order the servers listed them in.
pub proof fn law_nics_sorted(servers: Seq<MapServer>, t: NicTarget, x: RowView)
    ensures
        sorted_by(spec_nics_on(servers, t), nic_order()),
        spec_nics_on(servers, t).to_multiset() == gathered(servers, t).to_multiset(),
        spec_nics_on(servers, t).filter(|y: RowView| tied(nic_order(), x, y)) == gathered(servers, t).filter(
            |y: RowView| tied(nic_order(), x, y),
        ),
{
    lemma_nic_order();
    lemma_stable_sort(gathered(servers, t), nic_order());
    lemma_stable_sort_keeps_ties(gathered(servers, t), nic_order(), x);
}

proof fn lemma_server_rows_are_nics(server: MapServer, nics: Seq<MapNic>, t: NicTarget)
    ensures
        forall|k: int| 0 <= k < server_nic_rows(server, nics, t).len() ==> #[trigger] server_nic_rows(server, nics, t)[k] is Nic,
    decreases nics.len(),
{
    if nics.len() > 0 {
        lemma_server_rows_are_nics(server, nics.drop_last(), t);
    }
}

proof fn lemma_gathered_are_nics(servers: Seq<MapServer>, t: NicTarget)
    ensures
        forall|k: int| 0 <= k < gathered(servers, t).len() ==> #[trigger] gathered(servers, t)[k] is Nic,
    decreases servers.len(),
{
    if servers.len() > 0 {
        lemma_gathered_are_nics(servers.drop_last(), t);
        let a = gathered(servers.drop_last(), t);
        let b = server_nic_rows(servers.last(), servers.last().nics@, t);
        lemma_server_rows_are_nics(servers.last(), servers.last().nics@, t);
        assert forall|k: int| 0 <= k < gathered(servers, t).len() implies #[trigger] gathered(servers, t)[k] is Nic by {
            if k < a.len() {
                assert(gathered(servers, t)[k] == a[k]);
            } else {
                assert(gathered(servers, t)[k] == b[k - a.len()]);
            }
        }
    }
}

/// The rows of a network are NIC rows ordered by server name first: a later row
/// never has a smaller server name, and rows of one server never have a
/// smaller NIC name later.
pub proof fn law_nic_rows_by_server_then_nic(servers: Seq<MapServer>, t: NicTarget)
    ensures
        forall|i: int| 0 <= i < spec_nics_on(servers, t).len() ==> #[trigger] spec_nics_on(servers, t)[i] is Nic,
        forall|i: int, j: int|
            0 <= i < j < spec_nics_on(servers, t).len() ==> !text_lt(
                (#[trigger] spec_nics_on(servers, t)[j])->Nic_server,
                (#[trigger] spec_nics_on(servers, t)[i])->Nic_server,
            ),
        forall|i: int, j: int|
            0 <= i < j < spec_nics_on(servers, t).len() && (#[trigger] spec_nics_on(servers, t)[i])->Nic_server
                == (#[trigger] spec_nics_on(servers, t)[j])->Nic_server ==> !text_lt(
                spec_nics_on(servers, t)[j]->Nic_nic,
                spec_nics_on(servers, t)[i]->Nic_nic,
            ),
{
    let rows = spec_nics_on(servers, t);
    let g = gathered(servers, t);
    law_nics_sorted(servers, t, RowView::Empty);
    lemma_gathered_are_nics(servers, t);
    rows.to_multiset_ensures();
    g.to_multiset_ensures();
    assert forall|i: int| 0 <= i < rows.len() implies #[trigger] rows[i] is Nic by {
        assert(rows.contains(rows[i]));
        assert(g.to_multiset().count(rows[i]) > 0);
        assert(g.contains(rows[i]));
        let k = choose|k: int| 0 <= k < g.len() && g[k] == rows[i];
        assert(g[k] is Nic);
    }
    assert forall|i: int, j: int| 0 <= i < j < rows.len() implies !text_lt(
        (#[trigger] rows[j])->Nic_server,
        (#[trigger] rows[i])->Nic_server,
    ) by {
        assert(!nic_order()(rows[j], rows[i]));
        assert(rows[i] is Nic && rows[j] is Nic);
    }
    assert forall|i: int, j: int| 0 <= i < j < rows.len() && (#[trigger] rows[i])->Nic_server
        == (#[trigger] rows[j])->Nic_server implies !text_lt(rows[j]->Nic_nic, rows[i]->Nic_nic) by {
        assert(!nic_order()(rows[j], rows[i]));
        assert(rows[i] is Nic && rows[j] is Nic);
    }
}

/// One network of the map, before it is laid out as rows.
pub struct GroupView {
    pub kind: NetworkKind,
    pub name: Seq<char>,
    pub note: Seq<char>,
    pub nics: Seq<RowView>,
    pub appliances: nat,
}

/// The NIC rows of a network, the last one closing the branch unless
/// appliances follow.
pub open spec fn closed_nics(nics: Seq<RowView>, appliances: nat) -> Seq<RowView> {
    Seq::new(nics.len(), |i: int| spec_mark_last(nics[i], i == nics.len() - 1 && appliances == 0))
}

/// The rows of one network: a blank line unless it comes first, its heading,
/// then its NICs and appliances, or a line saying nothing is connected.
pub open spec fn group_rows(g: GroupView, first: bool) -> Seq<RowView> {
    let lead: Seq<RowView> = if first { Seq::empty() } else { seq![RowView::Spacer] };
    let head = lead.push(
        RowView::Network {
            kind: g.kind,
            name: g.name,
            note: g.note,
            nics: g.nics.len(),
            appliances: g.appliances,
        },
    );
    if g.nics.len() == 0 && g.appliances == 0 {
        head.push(RowView::Empty)
    } else if g.appliances > 0 {
        (head + closed_nics(g.nics, g.appliances)).push(
            RowView::Appliances { count: g.appliances, last: true },
        )
    } else {
        head + closed_nics(g.nics, g.appliances)
    }
}

/// The rows of the networks, in order.
pub open spec fn map_rows(groups: Seq<GroupView>) -> Seq<RowView>
    decreases groups.len(),
{
    if groups.len() == 0 {
        Seq::empty()
    } else {
        map_rows(groups.drop_last()) + group_rows(groups.last(), groups.len() == 1)
    }
}

/// The appliance count of the first switch with this identifier, or 0.
pub open spec fn switch_appliances(switches: Seq<MapSwitch>, id: ResourceId) -> nat
    decreases switches.len(),
{
    if switches.len() == 0 {
        0
    } else if switches[0].id == id {
        switches[0].appliance_count as nat
    } else {
        switch_appliances(switches.drop_first(), id)
    }
}

/// One network per router that owns a switch, in the routers' order.
pub open spec fn router_groups(data: MapData, routers: Seq<CloudResource>) -> Seq<GroupView>
    decreases routers.len(),
{
    if routers.len() == 0 {
        Seq::empty()
    } else {
        let rest = router_groups(data, routers.drop_last());
        let r = routers.last();
        match spec_switch_id_of(r) {
            Some(id) => rest.push(
                GroupView {
                    kind: NetworkKind::Router,
                    name: r.name@,
                    note: spec_router_note(r),
                    nics: spec_nics_on(data.servers@, NicTarget::Switch(id)),
                    appliances: switch_appliances(data.switches@, id),
                },
            ),
            None => rest,
        }
    }
}

/// Some router owns the switch with this identifier.
pub open spec fn owned_by_router(routers: Seq<CloudResource>, id: ResourceId) -> bool {
    exists|j: int| 0 <= j < routers.len() && spec_switch_id_of(#[trigger] routers[j]) == Some(id)
}

/// One network per switch of the zone that no router owns, in the switches' order.
pub open spec fn switch_groups(data: MapData, switches: Seq<MapSwitch>) -> Seq<GroupView>
    decreases switches.len(),
{
    if switches.len() == 0 {
        Seq::empty()
    } else {
        let rest = switch_groups(data, switches.drop_last());
        let sw = switches.last();
        if owned_by_router(data.routers@, sw.id) {
            rest
        } else {
            rest.push(
                GroupView {
                    kind: NetworkKind::Switch,
                    name: sw.name@,
                    note: Seq::empty(),
                    nics: spec_nics_on(data.servers@, NicTarget::Switch(sw.id)),
                    appliances: sw.appliance_count as nat,
                },
            )
        }
    }
}

/// The network, if anything is connected to it.
pub open spec fn when_connected(g: GroupView) -> Seq<GroupView> {
    if g.nics.len() > 0 {
        seq![g]
    } else {
        Seq::empty()
    }
}

pub open spec fn shared_group(data: MapData) -> GroupView {
    GroupView {
        kind: NetworkKind::Shared,
        name: "共有セグメント"@,
        note: "グローバルIPが自動で割り当てられます"@,
        nics: spec_nics_on(data.servers@, NicTarget::Shared),
        appliances: 0,
    }
}

pub open spec fn unconnected_group(data: MapData) -> GroupView {
    GroupView {
        kind: NetworkKind::Unconnected,
        name: "未接続"@,
        note: "どのネットワークにも繋がっていません"@,
        nics: spec_nics_on(data.servers@, NicTarget::Disconnected),
        appliances: 0,
    }
}

/// The networks of the map, from the outside in: routers with switch, the
/// shared segment, the switches of the zone, then the NICs connected to nothing.
pub open spec fn map_groups(data: MapData) -> Seq<GroupView> {
    router_groups(data, data.routers@) + when_connected(shared_group(data)) + switch_groups(
        data,
        data.switches@,
    ) + when_connected(unconnected_group(data))
}

fn push_group(
    rows: &mut Vec<MapRow>,
    first: bool,
    kind: NetworkKind,
    name: String,
    note: String,
    nics: Vec<MapRow>,
    appliances: usize,
)
    ensures
        rows_view(final(rows)@) == rows_view(old(rows)@) + group_rows(
            GroupView { kind, name: name@, note: note@, nics: rows_view(nics@), appliances: appliances as nat },
            first,
        ),
{
    let ghost g = GroupView {
        kind,
        name: name@,
        note: note@,
        nics: rows_view(nics@),
        appliances: appliances as nat,
    };
    let ghost start = rows_view(rows@);
    if !first {
        rows.push(MapRow::Spacer);
    }
    let n = nics.len();
    rows.push(MapRow::Network { kind, name, note, nics: n, appliances });
    let ghost lead: Seq<RowView> = if first { Seq::empty() } else { seq![RowView::Spacer] };
    let ghost head = lead.push(
        RowView::Network { kind: g.kind, name: g.name, note: g.note, nics: g.nics.len(), appliances: g.appliances },
    );
    assert(rows_view(rows@) =~= start + head);
    if n == 0 && appliances == 0 {
        rows.push(MapRow::Empty);
        assert(rows_view(rows@) =~= start + head.push(RowView::Empty));
        return;
    }
    let mut i: usize = 0;
    while i < n
        invariant
            i <= n,
            n == nics.len(),
            g.nics == rows_view(nics@),
            g.appliances == appliances,
            rows_view(rows@) == start + head + closed_nics(g.nics, g.appliances).subrange(0, i as int),
        decreases n - i,
    {
        let row = clone_row(&nics[i]);
        let marked = mark_last(row, i == n - 1 && appliances == 0);
        let ghost before = rows_view(rows@);
        rows.push(marked);
        assert(closed_nics(g.nics, g.appliances).subrange(0, i + 1) =~= closed_nics(
            g.nics,
            g.appliances,
        ).subrange(0, i as int).push(marked@));
        assert(rows_view(rows@) =~= before.push(marked@));
        i = i + 1;
    }
    assert(closed_nics(g.nics, g.appliances).subrange(0, n as int) =~= closed_nics(g.nics, g.appliances));
    if appliances > 0 {
        let ghost before = rows_view(rows@);
        rows.push(MapRow::Appliances { count: appliances, last: true });
        assert(rows_view(rows@) =~= before.push(RowView::Appliances { count: g.appliances, last: true }));
    }
}

fn appliances_of(switches: &Vec<MapSwitch>, id: ResourceId) -> (n: usize)
    ensures
        n == switch_appliances(switches@, id),
{
    let mut i: usize = 0;
    assert(switches@.skip(0) =~= switches@);
    while i < switches.len()
        invariant
            i <= switches.len(),
            switch_appliances(switches@, id) == switch_appliances(switches@.skip(i as int), id),
        decreases switches.len() - i,
    {
        assert(switches@.skip(i as int)[0] == switches@[i as int]);
        if switches[i].id.0 == id.0 {
            return switches[i].appliance_count;
        }
        assert(switches@.skip(i as int).drop_first() =~= switches@.skip(i + 1));
        i = i + 1;
    }
    0
}

fn is_owned_by_router(routers: &Vec<CloudResource>, id: ResourceId) -> (r: bool)
    ensures
        r == owned_by_router(routers@, id),
{
    let mut j: usize = 0;
    while j < routers.len()
        invariant
            j <= routers.len(),
            forall|k: int| 0 <= k < j ==> spec_switch_id_of(#[trigger] routers@[k]) != Some(id),
        decreases routers.len() - j,
    {
        match switch_id_of(&routers[j]) {
            Some(s) => {
                if s.0 == id.0 {
                    return true;
                }
            },
            None => {},
        }
        j = j + 1;
    }
    false
}

/// The rows of the map: each network as a heading with what is connected to it,
/// from the outside in.
pub fn build_rows(data: &MapData) -> (rows: Vec<MapRow>)
    ensures
        rows_view(rows@) == map_rows(map_groups(*data)),
{
    let mut rows: Vec<MapRow> = Vec::new();
    let ghost mut groups: Seq<GroupView> = Seq::empty();
    let mut first = true;
    let mut i: usize = 0;
    while i < data.routers.len()
        invariant
            i <= data.routers.len(),
            groups == router_groups(*data, data.routers@.subrange(0, i as int)),
            rows_view(rows@) == map_rows(groups),
            first == (groups.len() == 0),
        decreases data.routers.len() - i,
    {
        let router = &data.routers[i];
        assert(data.routers@.subrange(0, i + 1).drop_last() =~= data.routers@.subrange(0, i as int));
        match switch_id_of(router) {
            Some(id) => {
                let nics = nics_on(&data.servers, NicTarget::Switch(id));
                let count = appliances_of(&data.switches, id);
                let ghost g = GroupView {
                    kind: NetworkKind::Router,
                    name: router.name@,
                    note: spec_router_note(*router),
                    nics: spec_nics_on(data.servers@, NicTarget::Switch(id)),
                    appliances: switch_appliances(data.switches@, id),
                };
                push_group(&mut rows, first, NetworkKind::Router, router.name.clone(), router_note(router), nics, count);
                proof {
                    assert(groups.push(g).drop_last() =~= groups);
                    groups = groups.push(g);
                }
                first = false;
            },
            None => {},
        }
        i = i + 1;
    }
    assert(data.routers@.subrange(0, data.routers@.len() as int) =~= data.routers@);
    let ghost g1 = groups;

    let shared = nics_on(&data.servers, NicTarget::Shared);
    if shared.len() > 0 {
        let ghost g = shared_group(*data);
        push_group(
            &mut rows,
            first,
            NetworkKind::Shared,
            string_from_chars(&chars_of("共有セグメント")),
            string_from_chars(&chars_of("グローバルIPが自動で割り当てられます")),
            shared,
            0,
        );
        proof {
            assert(groups.push(g).drop_last() =~= groups);
            groups = groups.push(g);
        }
        first = false;
    }
    assert(groups =~= g1 + when_connected(shared_group(*data)));
    let ghost g2 = groups;

    let mut k: usize = 0;
    while k < data.switches.len()
        invariant
            k <= data.switches.len(),
            groups == g2 + switch_groups(*data, data.switches@.subrange(0, k as int)),
            rows_view(rows@) == map_rows(groups),
            first == (groups.len() == 0),
        decreases data.switches.len() - k,
    {
        let sw = &data.switches[k];
        assert(data.switches@.subrange(0, k + 1).drop_last() =~= data.switches@.subrange(0, k as int));
        if !is_owned_by_router(&data.routers, sw.id) {
            let nics = nics_on(&data.servers, NicTarget::Switch(sw.id));
            let ghost g = GroupView {
                kind: NetworkKind::Switch,
                name: sw.name@,
                note: Seq::empty(),
                nics: spec_nics_on(data.servers@, NicTarget::Switch(sw.id)),
                appliances: sw.appliance_count as nat,
            };
            push_group(&mut rows, first, NetworkKind::Switch, sw.name.clone(), String::new(), nics, sw.appliance_count);
            proof {
                assert(groups.push(g).drop_last() =~= groups);
                assert(g2 + switch_groups(*data, data.switches@.subrange(0, k + 1)) =~= groups.push(g));
                groups = groups.push(g);
            }
            first = false;
        } else {
            assert(g2 + switch_groups(*data, data.switches@.subrange(0, k + 1)) =~= groups);
        }
        k = k + 1;
    }
    assert(data.switches@.subrange(0, data.switches@.len() as int) =~= data.switches@);
    let ghost g3 = groups;

    let free = nics_on(&data.servers, NicTarget::Disconnected);
    if free.len() > 0 {
        let ghost g = unconnected_group(*data);
        push_group(
            &mut rows,
            first,
            NetworkKind::Unconnected,
            string_from_chars(&chars_of("未接続")),
            string_from_chars(&chars_of("どのネットワークにも繋がっていません")),
            free,
            0,
        );
        proof {
            assert(groups.push(g).drop_last() =~= groups);
            groups = groups.push(g);
        }
    }
    assert(groups =~= g3 + when_connected(unconnected_group(*data)));
    assert(groups =~= map_groups(*data));
    rows
}

/// The place of a kind of network in the map, from the outside in.
pub open spec fn kind_rank(k: NetworkKind) -> int {
    match k {
        NetworkKind::Router => 0,
        NetworkKind::Shared => 1,
        NetworkKind::Switch => 2,
        NetworkKind::Unconnected => 3,
    }
}

proof fn lemma_router_groups_kind(data: MapData, routers: Seq<CloudResource>)
    ensures
        forall|i: int| 0 <= i < router_groups(data, routers).len() ==> (#[trigger] router_groups(data, routers)[i]).kind == NetworkKind::Router,
    decreases routers.len(),
{
    if routers.len() > 0 {
        lemma_router_groups_kind(data, routers.drop_last());
    }
}

proof fn lemma_switch_groups_kind(data: MapData, switches: Seq<MapSwitch>)
    ensures
        forall|i: int| 0 <= i < switch_groups(data, switches).len() ==> (#[trigger] switch_groups(data, switches)[i]).kind == NetworkKind::Switch,
    decreases switches.len(),
{
    if switches.len() > 0 {
        lemma_switch_groups_kind(data, switches.drop_last());
    }
}

/// The networks of the map come from the outside in: routers with switch, then
/// the shared segment, then the switches of the zone, then the unconnected NICs.
pub proof fn law_networks_ordered(data: MapData)
    ensures
        forall|i: int, j: int|
            0 <= i < j < map_groups(data).len() ==> kind_rank((#[trigger] map_groups(data)[i]).kind) <= kind_rank(
                (#[trigger] map_groups(data)[j]).kind,
            ),
{
    let a = router_groups(data, data.routers@);
    let b = when_connected(shared_group(data));
    let c = switch_groups(data, data.switches@);
    let d = when_connected(unconnected_group(data));
    lemma_router_groups_kind(data, data.routers@);
    lemma_switch_groups_kind(data, data.switches@);
    let all = map_groups(data);
    assert(all == a + b + c + d);
    assert forall|i: int| 0 <= i < all.len() implies kind_rank((#[trigger] all[i]).kind) == (if i < a.len() {
        0int
    } else if i < a.len() + b.len() {
        1int
    } else if i < a.len() + b.len() + c.len() {
        2int
    } else {
        3int
    }) by {
        if i < a.len() {
            assert(all[i] == a[i]);
        } else if i < a.len() + b.len() {
            assert(all[i] == b[i - a.len()]);
        } else if i < a.len() + b.len() + c.len() {
            assert(all[i] == c[i - a.len() - b.len()]);
        } else {
            assert(all[i] == d[i - a.len() - b.len() - c.len()]);
        }
    }
}

/// The row ends a branch of the map.
pub open spec fn closes(r: RowView) -> bool {
    match r {
        RowView::Nic { last, .. } => last,
        RowView::Appliances { last, .. } => last,
        _ => false,
    }
}

/// In the rows of a network, only the final entry closes the branch, and it does
/// so whenever something is connected: NICs followed by appliances stay open.
pub proof fn law_branch_closed_once(g: GroupView, first: bool)
    requires
        forall|i: int| 0 <= i < g.nics.len() ==> #[trigger] g.nics[i] is Nic,
    ensures
        forall|i: int|
            0 <= i < group_rows(g, first).len() ==> (closes(#[trigger] group_rows(g, first)[i]) <==> (i
                == group_rows(g, first).len() - 1 && (g.nics.len() > 0 || g.appliances > 0))),
{
    let rows = group_rows(g, first);
    let lead: Seq<RowView> = if first { Seq::empty() } else { seq![RowView::Spacer] };
    let head = lead.push(
        RowView::Network { kind: g.kind, name: g.name, note: g.note, nics: g.nics.len(), appliances: g.appliances },
    );
    let body = closed_nics(g.nics, g.appliances);
    assert forall|i: int| 0 <= i < rows.len() implies (closes(#[trigger] rows[i]) <==> (i == rows.len() - 1 && (
    g.nics.len() > 0 || g.appliances > 0))) by {
        if i < head.len() {
            assert(rows[i] == head[i]);
        } else if g.nics.len() == 0 && g.appliances == 0 {
        } else if i < head.len() + body.len() {
            assert(rows[i] == body[i - head.len()]);
            assert(g.nics[i - head.len()] is Nic);
        }
    }
}

proof fn lemma_switch_group_present(data: MapData, switches: Seq<MapSwitch>, k: int)
    requires
        0 <= k < switches.len(),
        !owned_by_router(data.routers@, switches[k].id),
    ensures
        exists|i: int|
            0 <= i < switch_groups(data, switches).len() && (#[trigger] switch_groups(data, switches)[i]).kind
                == NetworkKind::Switch && switch_groups(data, switches)[i].name == switches[k].name@
                && switch_groups(data, switches)[i].appliances == switches[k].appliance_count,
    decreases switches.len(),
{
    let init = switches.drop_last();
    if k < switches.len() - 1 {
        assert(init[k] == switches[k]);
        lemma_switch_group_present(data, init, k);
        let i = choose|i: int|
            0 <= i < switch_groups(data, init).len() && (#[trigger] switch_groups(data, init)[i]).kind
                == NetworkKind::Switch && switch_groups(data, init)[i].name == init[k].name@
                && switch_groups(data, init)[i].appliances == init[k].appliance_count;
        assert(switch_groups(data, switches)[i] == switch_groups(data, init)[i]);
    } else {
        let i = switch_groups(data, init).len() as int;
        assert(switch_groups(data, switches)[i].name == switches[k].name@);
    }
}

/// Every switch of the zone that no router owns gets a heading of its own, with
/// its appliance count, even when nothing is connected to it.
pub proof fn law_every_free_switch_is_shown(data: MapData, k: int)
    requires
        0 <= k < data.switches@.len(),
        !owned_by_router(data.routers@, data.switches@[k].id),
    ensures
        exists|i: int|
            0 <= i < map_groups(data).len() && (#[trigger] map_groups(data)[i]).kind == NetworkKind::Switch
                && map_groups(data)[i].name == data.switches@[k].name@ && map_groups(data)[i].appliances
                == data.switches@[k].appliance_count,
{
    lemma_switch_group_present(data, data.switches@, k);
    let a = router_groups(data, data.routers@) + when_connected(shared_group(data));
    let c = switch_groups(data, data.switches@);
    let j = choose|j: int|
        0 <= j < c.len() && (#[trigger] c[j]).kind == NetworkKind::Switch && c[j].name == data.switches@[k].name@
            && c[j].appliances == data.switches@[k].appliance_count;
    assert(map_groups(data) == a + c + when_connected(unconnected_group(data)));
    assert(map_groups(data)[a.len() + j] == c[j]);
}

} // verus!
