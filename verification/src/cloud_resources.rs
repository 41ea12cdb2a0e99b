//! Read-only browser of IaaS resources (disks, routers, appliances): the kinds,
//! the resource record, and how a record is read from an API list item.

use vstd::prelude::*;

use crate::json::{as_array, get, spec_get, JsonNumber, JsonValue, number_text, number_to_string};
use crate::text::{char_views, chars_of, parse_unsigned, parse_unsigned_exec, str_eq, string_from_chars};

verus! {

/// Identifier of an IaaS resource.
#[derive(Debug, Clone, Copy, PartialEq, Eq, Hash, Structural)]
pub struct ResourceId(pub u64);

#[derive(Debug, Clone, Copy, PartialEq, Eq, Hash, Structural)]
pub enum CloudResourceKind {
    Disk,
    Internet,
    LoadBalancer,
    VpcRouter,
    Database,
    Nfs,
}

impl CloudResourceKind {
    pub open spec fn spec_title(self) -> Seq<char> {
        match self {
            CloudResourceKind::Disk => "ディスク"@,
            CloudResourceKind::Internet => "ルータ＋スイッチ"@,
            CloudResourceKind::LoadBalancer => "ロードバランサ"@,
            CloudResourceKind::VpcRouter => "VPCルータ"@,
            CloudResourceKind::Database => "データベース"@,
            CloudResourceKind::Nfs => "NFS"@,
        }
    }

    pub fn title(self) -> (t: &'static str)
        ensures
            t@ == self.spec_title(),
    {
        match self {
            CloudResourceKind::Disk => "ディスク",
            CloudResourceKind::Internet => "ルータ＋スイッチ",
            CloudResourceKind::LoadBalancer => "ロードバランサ",
            CloudResourceKind::VpcRouter => "VPCルータ",
            CloudResourceKind::Database => "データベース",
            CloudResourceKind::Nfs => "NFS",
        }
    }

    /// The API path the kind is listed under.
    pub open spec fn spec_endpoint(self) -> Seq<char> {
        match self {
            CloudResourceKind::Disk => "disk"@,
            CloudResourceKind::Internet => "internet"@,
            _ => "appliance"@,
        }
    }

    pub fn endpoint(self) -> (e: &'static str)
        ensures
            e@ == self.spec_endpoint(),
    {
        match self {
            CloudResourceKind::Disk => "disk",
            CloudResourceKind::Internet => "internet",
            _ => "appliance",
        }
    }

    /// The appliance class the list is filtered by, for appliance kinds.
    pub open spec fn spec_appliance_class(self) -> Option<Seq<char>> {
        match self {
            CloudResourceKind::LoadBalancer => Some("loadbalancer"@),
            CloudResourceKind::VpcRouter => Some("vpcrouter"@),
            CloudResourceKind::Database => Some("database"@),
            CloudResourceKind::Nfs => Some("nfs"@),
            _ => None,
        }
    }

    pub fn appliance_class(self) -> (c: Option<&'static str>)
        ensures
            c is Some <==> self.spec_appliance_class() is Some,
            c is Some ==> c->0@ == self.spec_appliance_class()->0,
    {
        match self {
            CloudResourceKind::LoadBalancer => Some("loadbalancer"),
            CloudResourceKind::VpcRouter => Some("vpcrouter"),
            CloudResourceKind::Database => Some("database"),
            CloudResourceKind::Nfs => Some("nfs"),
            _ => None,
        }
    }
}

/// A resource as listed, with the label/value pairs of its detail view.
#[derive(Debug, Clone)]
pub struct CloudResource {
    pub id: ResourceId,
    pub name: String,
    pub description: String,
    pub tags: Vec<String>,
    pub availability: String,
    pub class: String,
    pub status: String,
    pub plan: String,
    pub connection: String,
    pub created_at: String,
    pub details: Vec<(String, String)>,
}

/// The texts joined with `sep` between them (`join`).
pub open spec fn join(parts: Seq<Seq<char>>, sep: Seq<char>) -> Seq<char>
    decreases parts.len(),
{
    if parts.len() == 0 {
        Seq::empty()
    } else if parts.len() == 1 {
        parts[0]
    } else {
        join(parts.drop_last(), sep) + sep + parts.last()
    }
}

/// `join` over vectors of characters.
pub fn join_chars(parts: &Vec<Vec<char>>, sep: &Vec<char>) -> (r: Vec<char>)
    ensures
        r@ == join(char_views(parts@), sep@),
{
    let ghost views = char_views(parts@);
    let mut out: Vec<char> = Vec::new();
    let mut i: usize = 0;
    while i < parts.len()
        invariant
            i <= parts.len(),
            views == char_views(parts@),
            out@ == join(views.subrange(0, i as int), sep@),
        decreases parts.len() - i,
    {
        let ghost before = out@;
        if i > 0 {
            let mut s = sep.clone();
            out.append(&mut s);
        }
        let mut p = parts[i].clone();
        out.append(&mut p);
        proof {
            let sub = views.subrange(0, i + 1);
            assert(sub.drop_last() =~= views.subrange(0, i as int));
            if i == 0 {
                assert(out@ =~= sub[0]);
            } else {
                assert(out@ =~= before + sep@ + sub.last());
            }
        }
        i = i + 1;
    }
    assert(views.subrange(0, parts@.len() as int) =~= views);
    out
}

/// The views of some strings.
pub open spec fn views_of(v: Seq<String>) -> Seq<Seq<char>> {
    v.map_values(|s: String| s@)
}

pub fn strings_to_chars(v: &Vec<String>) -> (r: Vec<Vec<char>>)
    ensures
        char_views(r@) == views_of(v@),
{
    let mut out: Vec<Vec<char>> = Vec::new();
    let mut i: usize = 0;
    while i < v.len()
        invariant
            i <= v.len(),
            char_views(out@) == views_of(v@.subrange(0, i as int)),
        decreases v.len() - i,
    {
        let ghost before = out@;
        let c = chars_of(v[i].as_str());
        out.push(c);
        proof {
            assert(char_views(out@) =~= char_views(before).push(c@));
            assert(v@.subrange(0, i + 1) =~= v@.subrange(0, i as int).push(v@[i as int]));
            assert(views_of(v@.subrange(0, i + 1)) =~= views_of(v@.subrange(0, i as int)).push(v@[i as int]@));
        }
        i = i + 1;
        assert(char_views(out@) =~= views_of(v@.subrange(0, i as int)));
    }
    assert(v@.subrange(0, v@.len() as int) =~= v@);
    out
}

impl CloudResource {
    /// The text searched by the list filter.
    pub open spec fn spec_searchable(&self) -> Seq<char> {
        self.name@ + " "@ + self.description@ + " "@ + join(views_of(self.tags@), " "@) + " "@
            + self.status@ + " "@ + self.plan@
    }

    pub fn searchable(&self) -> (r: String)
        ensures
            r@ == self.spec_searchable(),
    {
        let space = chars_of(" ");
        let tags = join_chars(&strings_to_chars(&self.tags), &space);
        let mut out = chars_of(self.name.as_str());
        let mut s1 = space.clone();
        let mut d = chars_of(self.description.as_str());
        let mut s2 = space.clone();
        let mut t = tags;
        let mut s3 = space.clone();
        let mut st = chars_of(self.status.as_str());
        let mut s4 = space.clone();
        let mut p = chars_of(self.plan.as_str());
        out.append(&mut s1);
        out.append(&mut d);
        out.append(&mut s2);
        out.append(&mut t);
        out.append(&mut s3);
        out.append(&mut st);
        out.append(&mut s4);
        out.append(&mut p);
        string_from_chars(&out)
    }
}

/// The views of some string slices.
pub open spec fn str_views(s: Seq<&str>) -> Seq<Seq<char>> {
    s.map_values(|x: &str| x@)
}

/// An array index token as JSON pointers read it: decimal digits without a sign
/// and without leading zeros (except `0` itself), fitting `usize`.
pub open spec fn spec_index_token(t: Seq<char>) -> Option<nat> {
    if t.len() > 0 && (t[0] == '+' || (t[0] == '0' && t.len() != 1)) {
        None
    } else {
        parse_unsigned(t, usize::MAX as nat)
    }
}

/// The value reached from `v` by following `path`: object members by key, array
/// elements by index.
pub open spec fn spec_at_path(v: JsonValue, path: Seq<Seq<char>>) -> Option<JsonValue>
    decreases path.len(),
{
    if path.len() == 0 {
        Some(v)
    } else {
        let prefix = spec_at_path(v, path.drop_last());
        match prefix {
            Some(JsonValue::Object(m)) => spec_get(JsonValue::Object(m), path.last()),
            Some(JsonValue::Array(items)) => match spec_index_token(path.last()) {
                Some(i) => if i < items@.len() { Some(items@[i as int]) } else { None },
                None => None,
            },
            _ => None,
        }
    }
}

fn index_token(t: &str) -> (r: Option<usize>)
    ensures
        r is Some <==> spec_index_token(t@) is Some,
        r is Some ==> r->0 == spec_index_token(t@)->0,
{
    let c = chars_of(t);
    if c.len() > 0 && (c[0] == '+' || (c[0] == '0' && c.len() != 1)) {
        return None;
    }
    match parse_unsigned_exec(&c, usize::MAX as u64) {
        Some(n) => Some(n as usize),
        None => None,
    }
}

/// Follows `path` from `v`.
pub fn at_path<'a>(v: &'a JsonValue, path: &Vec<&str>) -> (r: Option<&'a JsonValue>)
    ensures
        r is Some <==> spec_at_path(*v, str_views(path@)) is Some,
        r is Some ==> *r->0 == spec_at_path(*v, str_views(path@))->0,
{
    let mut cur: &JsonValue = v;
    let mut i: usize = 0;
    while i < path.len()
        invariant
            i <= path.len(),
            spec_at_path(*v, str_views(path@.subrange(0, i as int))) == Some(*cur),
        decreases path.len() - i,
    {
        let ghost sub = str_views(path@.subrange(0, i + 1));
        proof {
            assert(sub.drop_last() =~= str_views(path@.subrange(0, i as int)));
            assert(sub.last() == path@[i as int]@);
        }
        let next: Option<&JsonValue> = match cur {
            JsonValue::Object(_) => get(cur, path[i]),
            JsonValue::Array(items) => match index_token(path[i]) {
                Some(k) => if k < items.len() { Some(&items[k]) } else { None },
                None => None,
            },
            _ => None,
        };
        match next {
            Some(n) => {
                cur = n;
            },
            None => {
                assert(str_views(path@).subrange(0, i + 1) =~= sub);
                assert(spec_at_path(*v, sub) is None);
                proof { lemma_at_path_stuck(*v, str_views(path@), i as int + 1); }
                return None;
            },
        }
        i = i + 1;
    }
    assert(path@.subrange(0, path@.len() as int) =~= path@);
    Some(cur)
}

/// Once a prefix of the path leads nowhere, so does the whole path.
proof fn lemma_at_path_stuck(v: JsonValue, path: Seq<Seq<char>>, n: int)
    requires
        0 <= n <= path.len(),
        spec_at_path(v, path.subrange(0, n)) is None,
    ensures
        spec_at_path(v, path) is None,
    decreases path.len() - n,
{
    if n < path.len() {
        assert(path.subrange(0, n + 1).drop_last() =~= path.subrange(0, n));
        lemma_at_path_stuck(v, path, n + 1);
    } else {
        assert(path.subrange(0, n) =~= path);
    }
}

/// The text shown for a scalar: strings as they are, numbers and booleans in
/// their JSON form, anything else empty.
pub open spec fn value_text(v: JsonValue) -> Seq<char> {
    match v {
        JsonValue::Str(s) => s@,
        JsonValue::Bool(b) => if b { "true"@ } else { "false"@ },
        JsonValue::Number(n) => number_text(n),
        _ => Seq::empty(),
    }
}

pub fn value_string(v: &JsonValue) -> (r: Vec<char>)
    ensures
        r@ == value_text(*v),
{
    match v {
        JsonValue::Str(s) => chars_of(s.as_str()),
        JsonValue::Bool(b) => if *b { chars_of("true") } else { chars_of("false") },
        JsonValue::Number(n) => number_to_string(n),
        _ => Vec::new(),
    }
}

/// The text at `path`, empty when nothing is there.
pub open spec fn spec_string_at(v: JsonValue, path: Seq<Seq<char>>) -> Seq<char> {
    match spec_at_path(v, path) {
        Some(x) => value_text(x),
        None => Seq::empty(),
    }
}

pub fn string_at(v: &JsonValue, path: &Vec<&str>) -> (r: Vec<char>)
    ensures
        r@ == spec_string_at(*v, str_views(path@)),
{
    match at_path(v, path) {
        Some(x) => value_string(x),
        None => Vec::new(),
    }
}

/// The views of a list of paths.
pub open spec fn path_views(paths: Seq<Vec<&str>>) -> Seq<Seq<Seq<char>>> {
    paths.map_values(|p: Vec<&str>| str_views(p@))
}

/// The first non-empty text among the paths, or the empty text.
pub open spec fn spec_first_non_empty(v: JsonValue, paths: Seq<Seq<Seq<char>>>) -> Seq<char>
    decreases paths.len(),
{
    if paths.len() == 0 {
        Seq::empty()
    } else if spec_string_at(v, paths[0]).len() > 0 {
        spec_string_at(v, paths[0])
    } else {
        spec_first_non_empty(v, paths.drop_first())
    }
}

pub fn first_non_empty(v: &JsonValue, paths: &Vec<Vec<&str>>) -> (r: Vec<char>)
    ensures
        r@ == spec_first_non_empty(*v, path_views(paths@)),
{
    let mut i: usize = 0;
    assert(path_views(paths@).subrange(0, paths@.len() as int) =~= path_views(paths@));
    while i < paths.len()
        invariant
            i <= paths.len(),
            spec_first_non_empty(*v, path_views(paths@))
                == spec_first_non_empty(*v, path_views(paths@).subrange(i as int, paths@.len() as int)),
        decreases paths.len() - i,
    {
        let s = string_at(v, &paths[i]);
        let ghost rest = path_views(paths@).subrange(i as int, paths@.len() as int);
        assert(rest[0] == str_views(paths@[i as int]@));
        if s.len() > 0 {
            return s;
        }
        assert(rest.drop_first() =~= path_views(paths@).subrange(i + 1, paths@.len() as int));
        i = i + 1;
    }
    Vec::new()
}

/// Where the status of a resource is looked for, in order.
pub open spec fn spec_status_paths() -> Seq<Seq<Seq<char>>> {
    seq![seq!["Instance"@, "Status"@], seq!["Status"@, "Status"@], seq!["Availability"@]]
}

fn status_paths() -> (r: Vec<Vec<&'static str>>)
    ensures
        path_views(r@) == spec_status_paths(),
{
    let r = vec![vec!["Instance", "Status"], vec!["Status", "Status"], vec!["Availability"]];
    assert(path_views(r@) =~~= spec_status_paths());
    r
}
/// Where the plan of a resource is looked for, in order.
pub open spec fn spec_plan_paths() -> Seq<Seq<Seq<char>>> {
    seq![seq!["Plan"@, "Name"@], seq!["Remark"@, "Plan"@, "Name"@], seq!["ServiceClass"@]]
}

fn plan_paths() -> (r: Vec<Vec<&'static str>>)
    ensures
        path_views(r@) == spec_plan_paths(),
{
    let r = vec![vec!["Plan", "Name"], vec!["Remark", "Plan", "Name"], vec!["ServiceClass"]];
    assert(path_views(r@) =~~= spec_plan_paths());
    r
}
/// Where what a resource is connected to is looked for, in order.
pub open spec fn spec_connection_paths(kind: CloudResourceKind) -> Seq<Seq<Seq<char>>> {
        match kind {
            CloudResourceKind::Disk => seq![seq!["Server"@, "Name"@], seq!["Connection"@]],
            CloudResourceKind::Internet => seq![seq!["Switch"@, "Name"@], seq!["BandWidthMbps"@]],
            _ => seq![seq!["Switch"@, "Name"@], seq!["Interfaces"@, "0"@, "Switch"@, "Name"@]],
        }
}

fn connection_paths(kind: CloudResourceKind) -> (r: Vec<Vec<&'static str>>)
    ensures
        path_views(r@) == spec_connection_paths(kind),
{
    let r = match kind {
            CloudResourceKind::Disk => vec![vec!["Server", "Name"], vec!["Connection"]],
            CloudResourceKind::Internet => vec![vec!["Switch", "Name"], vec!["BandWidthMbps"]],
            _ => vec![vec!["Switch", "Name"], vec!["Interfaces", "0", "Switch", "Name"]],
    };
    assert(path_views(r@) =~~= spec_connection_paths(kind));
    r
}
/// The views of a detail-field table.
pub open spec fn fields_view(v: Seq<(&str, Vec<Vec<&str>>)>) -> Seq<(Seq<char>, Seq<Seq<Seq<char>>>)> {
    v.map_values(|f: (&str, Vec<Vec<&str>>)| (f.0@, path_views(f.1@)))
}

/// The extra detail rows of each kind: a label and where its value is looked for.
pub open spec fn spec_detail_fields(kind: CloudResourceKind) -> Seq<(Seq<char>, Seq<Seq<Seq<char>>>)> {
    match kind {
        CloudResourceKind::Disk => seq![("サイズ"@, seq![seq!["SizeMB"@]]), ("接続方式"@, seq![seq!["Connection"@]]), ("サーバー"@, seq![seq!["Server"@, "Name"@], seq!["Server"@, "ID"@]]), ("暗号化"@, seq![seq!["EncryptionAlgorithm"@]])],
        CloudResourceKind::Internet => seq![("帯域(Mbps)"@, seq![seq!["BandWidthMbps"@]]), ("スイッチ"@, seq![seq!["Switch"@, "Name"@], seq!["Switch"@, "ID"@]]), ("ネットワーク"@, seq![seq!["Switch"@, "Subnets"@, "0"@, "NetworkAddress"@]]), ("マスク長"@, seq![seq!["Switch"@, "Subnets"@, "0"@, "NetworkMaskLen"@]]), ("ゲートウェイ"@, seq![seq!["Switch"@, "Subnets"@, "0"@, "DefaultRoute"@]])],
        _ => seq![("サービスクラス"@, seq![seq!["ServiceClass"@]]), ("スイッチ"@, seq![seq!["Switch"@, "Name"@], seq!["Switch"@, "ID"@]]), ("IPアドレス"@, seq![seq!["Interfaces"@, "0"@, "IPAddress"@], seq!["Remark"@, "Servers"@, "0"@, "IPAddress"@]]), ("デフォルトルート"@, seq![seq!["Remark"@, "Network"@, "DefaultRoute"@]]), ("マスク長"@, seq![seq!["Remark"@, "Network"@, "NetworkMaskLen"@]])],
    }
}

pub fn detail_fields(kind: CloudResourceKind) -> (r: Vec<(&'static str, Vec<Vec<&'static str>>)>)
    ensures
        fields_view(r@) == spec_detail_fields(kind),
{
    let r = match kind {
        CloudResourceKind::Disk => vec![("サイズ", vec![vec!["SizeMB"]]), ("接続方式", vec![vec!["Connection"]]), ("サーバー", vec![vec!["Server", "Name"], vec!["Server", "ID"]]), ("暗号化", vec![vec!["EncryptionAlgorithm"]])],
        CloudResourceKind::Internet => vec![("帯域(Mbps)", vec![vec!["BandWidthMbps"]]), ("スイッチ", vec![vec!["Switch", "Name"], vec!["Switch", "ID"]]), ("ネットワーク", vec![vec!["Switch", "Subnets", "0", "NetworkAddress"]]), ("マスク長", vec![vec!["Switch", "Subnets", "0", "NetworkMaskLen"]]), ("ゲートウェイ", vec![vec!["Switch", "Subnets", "0", "DefaultRoute"]])],
        _ => vec![("サービスクラス", vec![vec!["ServiceClass"]]), ("スイッチ", vec![vec!["Switch", "Name"], vec!["Switch", "ID"]]), ("IPアドレス", vec![vec!["Interfaces", "0", "IPAddress"], vec!["Remark", "Servers", "0", "IPAddress"]]), ("デフォルトルート", vec![vec!["Remark", "Network", "DefaultRoute"]]), ("マスク長", vec![vec!["Remark", "Network", "NetworkMaskLen"]])],
    };
    proof {
        let f = fields_view(r@);
        let g = spec_detail_fields(kind);
        assert(f.len() == g.len());
        assert forall|i: int| 0 <= i < f.len() implies f[i] == g[i] by {
            assert(path_views(r@[i].1@) =~~= g[i].1);
        }
        assert(f =~= g);
    }
    r
}

/// The strings among some values, in order (non-strings are skipped).
pub open spec fn strings_in(items: Seq<JsonValue>) -> Seq<Seq<char>>
    decreases items.len(),
{
    if items.len() == 0 {
        Seq::empty()
    } else {
        let prev = strings_in(items.drop_last());
        match items.last() {
            JsonValue::Str(t) => prev.push(t@),
            _ => prev,
        }
    }
}

/// The tags of a resource: the strings of its `Tags` array.
pub open spec fn spec_tags(v: JsonValue) -> Seq<Seq<char>> {
    match spec_get(v, "Tags"@) {
        Some(JsonValue::Array(items)) => strings_in(items@),
        _ => Seq::empty(),
    }
}

fn tags_of(v: &JsonValue) -> (r: Vec<String>)
    ensures
        views_of(r@) == spec_tags(*v),
{
    let mut out: Vec<String> = Vec::new();
    match get(v, "Tags") {
        Some(JsonValue::Array(items)) => {
            let mut i: usize = 0;
            while i < items.len()
                invariant
                    i <= items.len(),
                    views_of(out@) == strings_in(items@.subrange(0, i as int)),
                decreases items.len() - i,
            {
                let ghost sub = items@.subrange(0, i + 1);
                assert(sub.drop_last() =~= items@.subrange(0, i as int));
                match &items[i] {
                    JsonValue::Str(t) => {
                        out.push(t.clone());
                        assert(views_of(out@) =~= strings_in(sub));
                    },
                    _ => {},
                }
                i = i + 1;
            }
            assert(items@.subrange(0, items@.len() as int) =~= items@);
        },
        _ => {},
    }
    out
}

/// Adds a detail row when its value is not empty.
pub open spec fn with_detail(acc: Seq<(Seq<char>, Seq<char>)>, label: Seq<char>, value: Seq<char>) -> Seq<(Seq<char>, Seq<char>)> {
    if value.len() > 0 {
        acc.push((label, value))
    } else {
        acc
    }
}

/// The views of detail rows.
pub open spec fn pairs_view(v: Seq<(String, String)>) -> Seq<(Seq<char>, Seq<char>)> {
    v.map_values(|p: (String, String)| (p.0@, p.1@))
}

fn add_detail(details: &mut Vec<(String, String)>, label: &str, value: Vec<char>)
    ensures
        pairs_view(final(details)@) == with_detail(pairs_view(old(details)@), label@, value@),
{
    if value.len() > 0 {
        details.push((label.to_string(), string_from_chars(&value)));
        assert(pairs_view(details@) =~= pairs_view(old(details)@).push((label@, value@)));
    }
}

/// The detail rows read from the extra fields of a kind, added after `acc`.
pub open spec fn spec_extra_details(
    v: JsonValue,
    fields: Seq<(Seq<char>, Seq<Seq<Seq<char>>>)>,
    acc: Seq<(Seq<char>, Seq<char>)>,
) -> Seq<(Seq<char>, Seq<char>)>
    decreases fields.len(),
{
    if fields.len() == 0 {
        acc
    } else {
        spec_extra_details(v, fields.drop_first(), with_detail(acc, fields[0].0, spec_first_non_empty(v, fields[0].1)))
    }
}

/// The identifier of a list item: a number, or a decimal string.
pub open spec fn spec_resource_id(v: JsonValue) -> Result<u64, Seq<char>> {
    match spec_get(v, "ID"@) {
        None => Err("リソースIDがありません"@),
        Some(JsonValue::Number(JsonNumber::Unsigned(n))) => Ok(n),
        Some(JsonValue::Str(t)) => match parse_unsigned(t@, u64::MAX as nat) {
            Some(n) => Ok(n as u64),
            None => Err("リソースIDを解析できません"@),
        },
        Some(_) => Err("リソースIDを解析できません"@),
    }
}

/// The detail rows of a resource: identifier, kind, status, plan, connection,
/// the kind's extra fields, tags and creation time, each only when not empty.
pub open spec fn spec_resource_details(v: JsonValue, kind: CloudResourceKind, id: u64) -> Seq<(Seq<char>, Seq<char>)> {
    let d0 = with_detail(Seq::empty(), "ID"@, crate::text::decimal(id as nat));
    let d1 = with_detail(d0, "種別"@, kind.spec_title());
    let d2 = with_detail(d1, "状態"@, spec_first_non_empty(v, spec_status_paths()));
    let d3 = with_detail(d2, "プラン"@, spec_first_non_empty(v, spec_plan_paths()));
    let d4 = with_detail(d3, "接続先"@, spec_first_non_empty(v, spec_connection_paths(kind)));
    let d5 = spec_extra_details(v, spec_detail_fields(kind), d4);
    let d6 = with_detail(d5, "タグ"@, join(spec_tags(v), ", "@));
    with_detail(d6, "作成日時"@, spec_string_at(v, seq!["CreatedAt"@]))
}

/// The fields of `r` are those read from the list item `v` of kind `kind`.
pub open spec fn resource_fields(r: &CloudResource, v: &JsonValue, kind: CloudResourceKind) -> bool {
    &&& spec_resource_id(*v) == Ok::<u64, Seq<char>>(r.id.0)
    &&& r.name@ == spec_string_at(*v, seq!["Name"@])
    &&& r.description@ == spec_string_at(*v, seq!["Description"@])
    &&& views_of(r.tags@) == spec_tags(*v)
    &&& r.availability@ == spec_string_at(*v, seq!["Availability"@])
    &&& r.class@ == spec_string_at(*v, seq!["Class"@])
    &&& r.status@ == spec_first_non_empty(*v, spec_status_paths())
    &&& r.plan@ == spec_first_non_empty(*v, spec_plan_paths())
    &&& r.connection@ == spec_first_non_empty(*v, spec_connection_paths(kind))
    &&& r.created_at@ == spec_string_at(*v, seq!["CreatedAt"@])
    &&& pairs_view(r.details@) == spec_resource_details(*v, kind, r.id.0)
}

fn single_path(key: &'static str) -> (r: Vec<&'static str>)
    ensures
        str_views(r@) == seq![key@],
{
    let r = vec![key];
    assert(str_views(r@) =~= seq![key@]);
    r
}

/// Reads one list item as a resource of `kind`.
pub fn parse_resource(value: &JsonValue, kind: CloudResourceKind) -> (r: Result<CloudResource, String>)
    ensures
        r is Ok <==> spec_resource_id(*value) is Ok,
        r is Err ==> r->Err_0@ == spec_resource_id(*value)->Err_0,
        r is Ok ==> resource_fields(&r->Ok_0, value, kind),
{
    let id: u64 = match get(value, "ID") {
        None => return Err("リソースIDがありません".to_string()),
        Some(JsonValue::Number(JsonNumber::Unsigned(n))) => *n,
        Some(JsonValue::Str(t)) => match parse_unsigned_exec(&chars_of(t.as_str()), u64::MAX) {
            Some(n) => n,
            None => return Err("リソースIDを解析できません".to_string()),
        },
        Some(_) => return Err("リソースIDを解析できません".to_string()),
    };
    let tags = tags_of(value);
    let status = first_non_empty(value, &status_paths());
    let plan = first_non_empty(value, &plan_paths());
    let connection = first_non_empty(value, &connection_paths(kind));
    let mut details: Vec<(String, String)> = Vec::new();
    add_detail(&mut details, "ID", crate::text::u64_to_decimal(id));
    add_detail(&mut details, "種別", chars_of(kind.title()));
    add_detail(&mut details, "状態", status.clone());
    add_detail(&mut details, "プラン", plan.clone());
    add_detail(&mut details, "接続先", connection.clone());
    let fields = detail_fields(kind);
    let ghost fv = fields_view(fields@);
    assert(pairs_view(details@) == spec_resource_details_prefix(*value, kind, id));
    assert(fv.subrange(0, fv.len() as int) =~= fv);
    let mut i: usize = 0;
    while i < fields.len()
        invariant
            i <= fields.len(),
            fv == fields_view(fields@),
            fv == spec_detail_fields(kind),
            spec_extra_details(*value, fv.subrange(i as int, fv.len() as int), pairs_view(details@))
                == spec_extra_details(*value, fv, spec_resource_details_prefix(*value, kind, id)),
        decreases fields.len() - i,
    {
        let ghost rest = fv.subrange(i as int, fv.len() as int);
        let text = first_non_empty(value, &fields[i].1);
        add_detail(&mut details, fields[i].0, text);
        proof {
            assert(rest[0] == fv[i as int]);
            assert(rest.drop_first() =~= fv.subrange(i + 1, fv.len() as int));
        }
        i = i + 1;
    }
    let tag_chars = strings_to_chars(&tags);
    add_detail(&mut details, "タグ", join_chars(&tag_chars, &chars_of(", ")));
    let name_path = single_path("Name");
    let created = string_at(value, &single_path("CreatedAt"));
    add_detail(&mut details, "作成日時", created.clone());
    Ok(CloudResource {
        id: ResourceId(id),
        name: string_from_chars(&string_at(value, &name_path)),
        description: string_from_chars(&string_at(value, &single_path("Description"))),
        tags,
        availability: string_from_chars(&string_at(value, &single_path("Availability"))),
        class: string_from_chars(&string_at(value, &single_path("Class"))),
        status: string_from_chars(&status),
        plan: string_from_chars(&plan),
        connection: string_from_chars(&connection),
        created_at: string_from_chars(&created),
        details,
    })
}

/// The first five detail rows (identifier, kind, status, plan, connection).
pub open spec fn spec_resource_details_prefix(v: JsonValue, kind: CloudResourceKind, id: u64) -> Seq<(Seq<char>, Seq<char>)> {
    let d0 = with_detail(Seq::empty(), "ID"@, crate::text::decimal(id as nat));
    let d1 = with_detail(d0, "種別"@, kind.spec_title());
    let d2 = with_detail(d1, "状態"@, spec_first_non_empty(v, spec_status_paths()));
    let d3 = with_detail(d2, "プラン"@, spec_first_non_empty(v, spec_plan_paths()));
    with_detail(d3, "接続先"@, spec_first_non_empty(v, spec_connection_paths(kind)))
}

/// Keys under which a list page holds its items, in the order tried.
pub open spec fn spec_item_keys(endpoint: Seq<char>) -> Seq<Seq<char>> {
    if endpoint == "disk"@ {
        seq!["Disks"@, "Disk"@]
    } else if endpoint == "internet"@ {
        seq!["Internet"@, "Internets"@]
    } else {
        seq!["Appliances"@, "Appliance"@]
    }
}

/// The items of a list page: the first of the keys that holds an array.
pub open spec fn spec_items_under(v: JsonValue, keys: Seq<Seq<char>>) -> Seq<JsonValue>
    decreases keys.len(),
{
    if keys.len() == 0 {
        Seq::empty()
    } else {
        match spec_get(v, keys[0]) {
            Some(JsonValue::Array(items)) => items@,
            _ => spec_items_under(v, keys.drop_first()),
        }
    }
}

pub open spec fn spec_find_items(v: JsonValue, endpoint: Seq<char>) -> Seq<JsonValue> {
    spec_items_under(v, spec_item_keys(endpoint))
}

fn item_keys(endpoint: &str) -> (r: Vec<&'static str>)
    ensures
        str_views(r@) == spec_item_keys(endpoint@),
{
    let r = if str_eq(endpoint, "disk") {
        vec!["Disks", "Disk"]
    } else if str_eq(endpoint, "internet") {
        vec!["Internet", "Internets"]
    } else {
        vec!["Appliances", "Appliance"]
    };
    assert(str_views(r@) =~= spec_item_keys(endpoint@));
    r
}

/// The items of a list page (`find_items`).
pub fn find_items<'a>(value: &'a JsonValue, endpoint: &str) -> (r: Vec<&'a JsonValue>)
    ensures
        r@.map_values(|x: &JsonValue| *x) == spec_find_items(*value, endpoint@),
{
    let keys = item_keys(endpoint);
    let ghost kv = str_views(keys@);
    let mut i: usize = 0;
    assert(kv.subrange(0, kv.len() as int) =~= kv);
    while i < keys.len()
        invariant
            i <= keys.len(),
            kv == str_views(keys@),
            kv == spec_item_keys(endpoint@),
            spec_find_items(*value, endpoint@) == spec_items_under(*value, kv.subrange(i as int, kv.len() as int)),
        decreases keys.len() - i,
    {
        let ghost rest = kv.subrange(i as int, kv.len() as int);
        assert(rest[0] == keys@[i as int]@);
        match get(value, keys[i]) {
            Some(JsonValue::Array(items)) => {
                let mut out: Vec<&JsonValue> = Vec::new();
                let mut k: usize = 0;
                while k < items.len()
                    invariant
                        k <= items.len(),
                        out@.map_values(|x: &JsonValue| *x) == items@.subrange(0, k as int),
                    decreases items.len() - k,
                {
                    let ghost before = out@;
                    out.push(&items[k]);
                    assert(out@.map_values(|x: &JsonValue| *x) =~= before.map_values(|x: &JsonValue| *x).push(items@[k as int]));
                    k = k + 1;
                    assert(out@.map_values(|x: &JsonValue| *x) =~= items@.subrange(0, k as int));
                }
                assert(items@.subrange(0, items@.len() as int) =~= items@);
                return out;
            },
            _ => {},
        }
        assert(rest.drop_first() =~= kv.subrange(i + 1, kv.len() as int));
        i = i + 1;
    }
    Vec::new()
}

/// A count as the API gives it: an unsigned number, or a decimal string.
pub open spec fn spec_value_usize(v: JsonValue) -> Option<nat> {
    match v {
        JsonValue::Number(JsonNumber::Unsigned(n)) => if n <= usize::MAX { Some(n as nat) } else { None },
        JsonValue::Str(t) => parse_unsigned(t@, usize::MAX as nat),
        _ => None,
    }
}

pub fn value_usize(v: &JsonValue) -> (r: Option<usize>)
    ensures
        r is Some <==> spec_value_usize(*v) is Some,
        r is Some ==> r->0 == spec_value_usize(*v)->0,
{
    match v {
        JsonValue::Number(JsonNumber::Unsigned(n)) => if *n <= usize::MAX as u64 { Some(*n as usize) } else { None },
        JsonValue::Str(t) => match parse_unsigned_exec(&chars_of(t.as_str()), usize::MAX as u64) {
            Some(n) => Some(n as usize),
            None => None,
        },
        _ => None,
    }
}

/// The `Total` of a list page, when it reads as a count.
pub open spec fn spec_page_total(v: JsonValue) -> Option<nat> {
    match spec_get(v, "Total"@) {
        Some(t) => spec_value_usize(t),
        None => None,
    }
}

fn page_total(v: &JsonValue) -> (r: Option<usize>)
    ensures
        r is Some <==> spec_page_total(*v) is Some,
        r is Some ==> r->0 == spec_page_total(*v)->0,
{
    match get(v, "Total") {
        Some(t) => value_usize(t),
        None => None,
    }
}

/// The number of resources of a kind: the page's `Total`, or else the number of
/// items on it.
pub fn count_in_page(value: &JsonValue, kind: CloudResourceKind) -> (r: usize)
    ensures
        r == (match spec_page_total(*value) {
            Some(t) => t,
            None => spec_find_items(*value, kind.spec_endpoint()).len(),
        }),
{
    match page_total(value) {
        Some(t) => t,
        None => find_items(value, kind.endpoint()).len(),
    }
}

/// An item belongs to the listed kind: appliance lists hold every appliance class,
/// so items of another class are skipped.
pub open spec fn item_of_kind(item: JsonValue, kind: CloudResourceKind) -> bool {
    match kind.spec_appliance_class() {
        Some(class) => spec_string_at(item, seq!["Class"@]) == class,
        None => true,
    }
}

/// The error of the first item that does not read, if any.
pub open spec fn first_failure(items: Seq<JsonValue>, kind: CloudResourceKind) -> Option<Seq<char>>
    decreases items.len(),
{
    if items.len() == 0 {
        None
    } else if item_of_kind(items[0], kind) && spec_resource_id(items[0]) is Err {
        Some(spec_resource_id(items[0])->Err_0)
    } else {
        first_failure(items.drop_first(), kind)
    }
}

/// A list page read into resources.
pub struct ResourcePage {
    /// The resources of the listed kind, in page order.
    pub resources: Vec<CloudResource>,
    /// The page's `Total`, 0 when it does not read.
    pub total: usize,
    /// How many items the page held, of any class.
    pub received: usize,
}

/// Reads a list page of `kind`: keeps the items of the kind and reads each.
pub fn read_resource_page(value: &JsonValue, kind: CloudResourceKind) -> (r: Result<ResourcePage, String>)
    ensures
        r is Err <==> first_failure(spec_find_items(*value, kind.spec_endpoint()), kind) is Some,
        r is Err ==> r->Err_0@ == first_failure(spec_find_items(*value, kind.spec_endpoint()), kind)->0,
        r is Ok ==> r->Ok_0.total == (match spec_page_total(*value) {
            Some(t) => t,
            None => 0,
        }),
        r is Ok ==> r->Ok_0.received == spec_find_items(*value, kind.spec_endpoint()).len(),
        r is Ok ==> r->Ok_0.resources@.len() == spec_find_items(*value, kind.spec_endpoint()).filter(|it: JsonValue| item_of_kind(it, kind)).len(),
        r is Ok ==> forall|i: int| 0 <= i < r->Ok_0.resources@.len() ==> resource_fields(
            &#[trigger] r->Ok_0.resources@[i],
            &spec_find_items(*value, kind.spec_endpoint()).filter(|it: JsonValue| item_of_kind(it, kind))[i],
            kind,
        ),
{
    let items = find_items(value, kind.endpoint());
    let ghost all = spec_find_items(*value, kind.spec_endpoint());
    let ghost pred = |it: JsonValue| item_of_kind(it, kind);
    let class = kind.appliance_class();
    let class_path = single_path("Class");
    let mut out: Vec<CloudResource> = Vec::new();
    let mut i: usize = 0;
    assert(all.subrange(0, 0) =~= Seq::<JsonValue>::empty());
    assert(all.subrange(0, all.len() as int) =~= all);
    while i < items.len()
        invariant
            i <= items.len(),
            all == items@.map_values(|x: &JsonValue| *x),
            all == spec_find_items(*value, kind.spec_endpoint()),
            pred == (|it: JsonValue| item_of_kind(it, kind)),
            class is Some <==> kind.spec_appliance_class() is Some,
            class is Some ==> class->0@ == kind.spec_appliance_class()->0,
            str_views(class_path@) == seq!["Class"@],
            first_failure(all, kind) == first_failure(all.subrange(i as int, all.len() as int), kind),
            out@.len() == all.subrange(0, i as int).filter(pred).len(),
            forall|k: int| 0 <= k < out@.len() ==> resource_fields(&#[trigger] out@[k], &all.subrange(0, i as int).filter(pred)[k], kind),
        decreases items.len() - i,
    {
        let ghost item = all[i as int];
        let ghost rest = all.subrange(i as int, all.len() as int);
        assert(*items@[i as int] == item);
        assert(rest[0] == item);
        assert(rest.drop_first() =~= all.subrange(i + 1, all.len() as int));
        let ghost pre = all.subrange(0, i as int);
        proof {
            assert(all.subrange(0, i + 1) =~= pre.push(item));
            pre.lemma_filter_push(item, pred);
        }
        let keep: bool = match class {
            Some(c) => {
                let found = string_at(items[i], &class_path);
                crate::text::vec_eq(&found, &chars_of(c))
            },
            None => true,
        };
        assert(keep == item_of_kind(item, kind));
        if keep {
            match parse_resource(items[i], kind) {
                Ok(res) => {
                    let ghost before = out@;
                    out.push(res);
                    proof {
                        let f = all.subrange(0, i + 1).filter(pred);
                        assert(f == pre.filter(pred).push(item));
                        assert forall|k: int| 0 <= k < out@.len() implies resource_fields(&#[trigger] out@[k], &f[k], kind) by {
                            if k < before.len() {
                                assert(out@[k] == before[k]);
                                assert(f[k] == pre.filter(pred)[k]);
                            }
                        }
                    }
                },
                Err(e) => return Err(e),
            }
        }
        i = i + 1;
    }
    assert(all.subrange(0, all.len() as int) =~= all);
    let total = match page_total(value) {
        Some(t) => t,
        None => 0,
    };
    Ok(ResourcePage { resources: out, total, received: items.len() })
}

/// Most pages asked for in one listing.
pub const MAX_PAGES: usize = 100;

/// Where the next page of a listing starts. The page just read, the `pages`-th
/// one asked for, started at `from` and brought `received` items of `total`. The
/// listing stops when that page brought nothing, when `from + received` reaches
/// `total`, or when [`MAX_PAGES`] pages were asked for; it goes on at
/// `from + received` otherwise.
pub open spec fn spec_next_page_from(pages: int, from: int, received: int, total: int) -> Option<int> {
    if received == 0 || from + received >= total || pages >= MAX_PAGES {
        None
    } else {
        Some(from + received)
    }
}

/// Decides whether a listing asks for another page, and from where.
pub fn next_page_from(pages: usize, from: usize, received: usize, total: usize) -> (r: Option<usize>)
    ensures
        r matches Some(n) ==> spec_next_page_from(pages as int, from as int, received as int, total as int) == Some(n as int),
        r is None <==> spec_next_page_from(pages as int, from as int, received as int, total as int) is None,
{
    if received == 0 || from >= total || received >= total - from || pages >= MAX_PAGES {
        None
    } else {
        Some(from + received)
    }
}

} // verus!
