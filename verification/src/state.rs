//! Screen-independent state of the client: lazily loaded data, list panes and
//! their filters, list selections, modes and the normalisation of pasted text.

use vstd::prelude::*;

use crate::text::{
    char_is_control, chars_of, has_substring, is_control, spec_to_lowercase, string_from_chars,
    to_lowercase, trim, trim_chars, vec_has_substring,
};

verus! {

/// The state of data that is loaded on demand.
#[derive(Debug, Clone)]
pub enum Loadable<T> {
    Idle,
    Loading,
    Ready(T),
    Failed(String),
}

impl<T> Loadable<T> {
    pub fn ready(&self) -> (r: Option<&T>)
        ensures
            r == (match self {
                Loadable::Ready(v) => Some(v),
                _ => None,
            }),
    {
        match self {
            Loadable::Ready(v) => Some(v),
            _ => None,
        }
    }

    pub fn is_idle(&self) -> (r: bool)
        ensures
            r == (*self is Idle),
    {
        match self {
            Loadable::Idle => true,
            _ => false,
        }
    }
}

impl<T> Default for Loadable<T> {
    fn default() -> (r: Loadable<T>)
        ensures
            r is Idle,
    {
        Loadable::Idle
    }
}

/// The state cached for the parent `id`: that of its first entry, if any.
pub open spec fn cached_state<T>(cache: Seq<(String, Loadable<T>)>, id: Seq<char>) -> Option<Loadable<T>>
    decreases cache.len(),
{
    if cache.len() == 0 {
        None
    } else if cache[0].0@ == id {
        Some(cache[0].1)
    } else {
        cached_state(cache.drop_first(), id)
    }
}

/// No parent id occurs twice in the cache, as in a map keyed by id.
pub open spec fn cache_keys_distinct<T>(cache: Seq<(String, Loadable<T>)>) -> bool {
    forall|i: int, j: int| 0 <= i < j < cache.len() ==> cache[i].0@ != cache[j].0@
}

/// In a cache keyed by distinct ids, what is cached for `id` is the state of the
/// one entry with that id, and nothing when no entry has it.
pub proof fn law_cached_state_is_the_entry<T>(cache: Seq<(String, Loadable<T>)>, id: Seq<char>)
    requires
        cache_keys_distinct(cache),
    ensures
        forall|k: int| 0 <= k < cache.len() && #[trigger] cache[k].0@ == id ==> cached_state(cache, id) == Some(cache[k].1),
        cached_state(cache, id) is None <==> forall|k: int| 0 <= k < cache.len() ==> #[trigger] cache[k].0@ != id,
    decreases cache.len(),
{
    if cache.len() > 0 {
        let rest = cache.drop_first();
        assert(cache_keys_distinct(rest)) by {
            assert forall|i: int, j: int| 0 <= i < j < rest.len() implies rest[i].0@ != rest[j].0@ by {
                assert(rest[i] == cache[i + 1] && rest[j] == cache[j + 1]);
            }
        }
        law_cached_state_is_the_entry(rest, id);
        assert forall|k: int| 0 <= k < cache.len() && #[trigger] cache[k].0@ == id implies cached_state(cache, id) == Some(cache[k].1) by {
            if k > 0 {
                assert(rest[k - 1] == cache[k]);
                assert(cache[0].0@ != cache[k].0@);
            }
        }
        if cached_state(cache, id) is None {
            assert forall|k: int| 0 <= k < cache.len() implies #[trigger] cache[k].0@ != id by {
                if k > 0 {
                    assert(rest[k - 1] == cache[k]);
                }
            }
        }
        if forall|k: int| 0 <= k < cache.len() ==> #[trigger] cache[k].0@ != id {
            assert(cache[0].0@ != id);
            assert forall|k: int| 0 <= k < rest.len() implies #[trigger] rest[k].0@ != id by {
                assert(rest[k] == cache[k + 1]);
            }
        }
    }
}

/// The selected parent whose children are to be loaded now: only when nothing
/// is cached for it yet or its entry is idle, so that one parent is not asked
/// for again and again. The cache holds each parent id at most once.
pub fn child_id_to_load<T>(selected_id: Option<String>, cache: &Vec<(String, Loadable<T>)>) -> (r: Option<String>)
    requires
        cache_keys_distinct(cache@),
    ensures
        r is Some <==> (selected_id matches Some(id) && (cached_state(cache@, id@) matches None || cached_state(
            cache@,
            id@,
        ) matches Some(Loadable::Idle))),
        r is Some ==> r == selected_id,
{
    let id = match selected_id {
        Some(id) => id,
        None => return None,
    };
    let mut i: usize = 0;
    assert(cache@.skip(0) =~= cache@);
    while i < cache.len()
        invariant
            i <= cache.len(),
            selected_id == Some(id),
            cached_state(cache@, id@) == cached_state(cache@.skip(i as int), id@),
        decreases cache.len() - i,
    {
        assert(cache@.skip(i as int)[0] == cache@[i as int]);
        if crate::text::str_eq(cache[i].0.as_str(), id.as_str()) {
            if cache[i].1.is_idle() {
                return Some(id);
            } else {
                return None;
            }
        }
        assert(cache@.skip(i as int).drop_first() =~= cache@.skip(i + 1));
        i = i + 1;
    }
    Some(id)
}

/// The lists that can be filtered; unique across services.
#[derive(Debug, Clone, Copy, PartialEq, Eq, Hash, Structural)]
pub enum Pane {
    Registries,
    Users,
    Repositories,
    Tags,
    Applications,
    Versions,
    Clusters,
    DedicatedApplications,
    ScalingGroups,
    Certificates,
    Servers,
    Nics,
    SshKeys,
    PacketFilters,
    PacketFilterRules,
    NetworkMap,
    Switches,
    CloudResources,
    ManagedResources,
    AiEngineModels,
    ApiGatewaySubscriptions,
    ApiGatewayServices,
    ApiGatewayRoutes,
    ApiGatewayUsers,
    ApiGatewayGroups,
    ApiGatewayDomains,
    ApiGatewayCertificates,
    ApiGatewayOidcs,
    NoSqlDatabases,
    NoSqlNodes,
    NoSqlBackups,
    NoSqlParameters,
    SegGateways,
    SegServices,
    SecurityControlRules,
    SecurityControlActions,
    CloudHsmHsms,
    CloudHsmClients,
    CloudHsmLicenses,
    CloudHsmDocuments,
    NetworkingSuiteGroups,
    NetworkingSuiteSubnets,
    NetworkingSuiteAddresses,
    AiEngineDocuments,
    DnsZones,
    DnsRecords,
    Monitors,
    Vaults,
    Secrets,
    Projects,
    Rules,
    LogMeasureRules,
    LogRoutings,
    MetricsRoutings,
    Dashboards,
    Histories,
    NotificationTargets,
    NotificationRoutings,
    Storages,
    StorageKeys,
    Bills,
    BillDetails,
    BillSummary,
    Account,
    /// No filterable list (an overview tab, for instance).
    NoList,
}

/// Filter text per pane. Each pane appears at most once and [`Pane::NoList`] never
/// has a filter.
#[derive(Debug)]
pub struct Filters {
    entries: Vec<(Pane, String)>,
}

/// Position of the entry for `pane`, if any.
pub open spec fn entry_index(entries: Seq<(Pane, String)>, pane: Pane) -> int
    decreases entries.len(),
{
    if entries.len() == 0 {
        -1
    } else if entries.last().0 == pane {
        entries.len() - 1
    } else {
        entry_index(entries.drop_last(), pane)
    }
}

proof fn lemma_entry_index(entries: Seq<(Pane, String)>, pane: Pane)
    ensures
        -1 <= entry_index(entries, pane) < entries.len(),
        entry_index(entries, pane) >= 0 ==> entries[entry_index(entries, pane)].0 == pane,
        entry_index(entries, pane) == -1 ==> forall|k: int| 0 <= k < entries.len() ==> entries[k].0 != pane,
    decreases entries.len(),
{
    if entries.len() > 0 && entries.last().0 != pane {
        lemma_entry_index(entries.drop_last(), pane);
        assert forall|k: int| 0 <= k < entries.len() && entry_index(entries, pane) == -1 implies entries[k].0 != pane by {
            if k < entries.len() - 1 {
                assert(entries.drop_last()[k] == entries[k]);
            }
        }
    }
}

/// With distinct panes, `entry_index` finds the one entry of a pane.
proof fn lemma_entry_index_unique(entries: Seq<(Pane, String)>, pane: Pane, k: int)
    requires
        0 <= k < entries.len(),
        entries[k].0 == pane,
        forall|i: int, j: int| 0 <= i < j < entries.len() ==> entries[i].0 != entries[j].0,
    ensures
        entry_index(entries, pane) == k,
    decreases entries.len(),
{
    if k < entries.len() - 1 {
        assert(entries[entries.len() - 1].0 != pane);
        lemma_entry_index_unique(entries.drop_last(), pane, k);
    }
}

impl Filters {
    #[verifier::type_invariant]
    spec fn well_formed(self) -> bool {
        &&& forall|i: int, j: int|
            0 <= i < j < self.entries.len() ==> self.entries[i].0 != self.entries[j].0
        &&& forall|i: int| 0 <= i < self.entries.len() ==> self.entries[i].0 != Pane::NoList
    }

    /// The filter text of `pane`; empty when none was typed.
    pub closed spec fn text_of(&self, pane: Pane) -> Seq<char> {
        let k = entry_index(self.entries@, pane);
        if k >= 0 {
            self.entries@[k].1@
        } else {
            Seq::empty()
        }
    }

    pub fn new() -> (f: Filters)
        ensures
            forall|p: Pane| f.text_of(p) == Seq::<char>::empty(),
    {
        Filters { entries: Vec::new() }
    }

    fn find(&self, pane: Pane) -> (r: Option<usize>)
        ensures
            r is Some <==> entry_index(self.entries@, pane) >= 0,
            r is Some ==> r->0 == entry_index(self.entries@, pane) && r->0 < self.entries.len(),
    {
        proof { lemma_entry_index(self.entries@, pane); }
        let mut i = self.entries.len();
        assert(self.entries@.subrange(0, i as int) =~= self.entries@);
        while i > 0
            invariant
                i <= self.entries.len(),
                forall|k: int| i <= k < self.entries.len() ==> self.entries@[k].0 != pane,
                entry_index(self.entries@, pane) == entry_index(self.entries@.subrange(0, i as int), pane),
            decreases i,
        {
            let ghost s = self.entries@.subrange(0, i as int);
            if self.entries[i - 1].0 == pane {
                return Some(i - 1);
            }
            assert(s.drop_last() =~= self.entries@.subrange(0, i - 1));
            i = i - 1;
        }
        None
    }

    /// The filter text of `pane`.
    pub fn get(&self, pane: Pane) -> (r: &str)
        ensures
            r@ == self.text_of(pane),
    {
        proof { reveal_strlit(""); }
        match self.find(pane) {
            Some(k) => self.entries[k].1.as_str(),
            None => "",
        }
    }

    /// Replaces the filter text of `pane`. Returns `false`, changing nothing, for
    /// [`Pane::NoList`], which cannot be filtered.
    pub fn set(&mut self, pane: Pane, text: String) -> (r: bool)
        ensures
            r == (pane != Pane::NoList),
            r ==> final(self).text_of(pane) == text@,
            forall|p: Pane| p != pane || !r ==> final(self).text_of(p) == old(self).text_of(p),
    {
        proof { use_type_invariant(&*self); }
        if pane == Pane::NoList {
            return false;
        }
        let ghost before = self.entries@;
        match self.find(pane) {
            Some(k) => {
                let mut entries: Vec<(Pane, String)> = Vec::new();
                std::mem::swap(&mut entries, &mut self.entries);
                assert(entries@ == before);
                proof { lemma_entry_index(before, pane); }
                entries.set(k, (pane, text));
                let ghost after = entries@;
                proof {
                    assert(after.len() == before.len());
                    assert forall|i: int| 0 <= i < after.len() implies #[trigger] after[i].0 == before[i].0 by {}
                    assert forall|i: int, j: int| 0 <= i < j < after.len() implies after[i].0 != after[j].0 by {
                        assert(after[i].0 == before[i].0);
                        assert(after[j].0 == before[j].0);
                    }
                    assert forall|p: Pane| p != pane implies entry_index(after, p) == entry_index(before, p)
                        && (entry_index(before, p) >= 0 ==> after[entry_index(before, p)] == before[entry_index(before, p)]) by {
                        lemma_entry_index(before, p);
                        if entry_index(before, p) >= 0 {
                            lemma_entry_index_unique(after, p, entry_index(before, p));
                        } else {
                            lemma_entry_index(after, p);
                            if entry_index(after, p) >= 0 {
                                let w = entry_index(after, p);
                                assert(after[w].0 == p);
                                assert(before[w].0 == after[w].0);
                            }
                        }
                    }
                    lemma_entry_index_unique(after, pane, k as int);
                }
                self.entries = entries;
            },
            None => {
                let mut entries: Vec<(Pane, String)> = Vec::new();
                std::mem::swap(&mut entries, &mut self.entries);
                assert(entries@ == before);
                entries.push((pane, text));
                let ghost after = entries@;
                proof {
                    lemma_entry_index(before, pane);
                    assert(after.drop_last() =~= before);
                    assert forall|i: int, j: int| 0 <= i < j < after.len() implies after[i].0 != after[j].0 by {
                        if j == after.len() - 1 {
                            assert(after[i] == before[i]);
                        } else {
                            assert(after[i] == before[i]);
                            assert(after[j] == before[j]);
                        }
                    }
                    lemma_entry_index_unique(after, pane, after.len() - 1);
                    assert forall|p: Pane| p != pane implies entry_index(after, p) == entry_index(before, p)
                        && (entry_index(before, p) >= 0 ==> after[entry_index(before, p)] == before[entry_index(before, p)]) by {
                        assert(after.drop_last() =~= before);
                        lemma_entry_index(before, p);
                    }
                }
                self.entries = entries;
            },
        }
        true
    }
}

impl Filters {
    /// Appends a character to the filter of `pane` (typing while filtering).
    pub fn push(&mut self, pane: Pane, c: char) -> (r: bool)
        ensures
            r == (pane != Pane::NoList),
            r ==> final(self).text_of(pane) == old(self).text_of(pane).push(c),
            forall|p: Pane| p != pane || !r ==> final(self).text_of(p) == old(self).text_of(p),
    {
        let mut chars = chars_of(self.get(pane));
        chars.push(c);
        self.set(pane, string_from_chars(&chars))
    }

    /// Appends pasted text to the filter of `pane`.
    pub fn push_str(&mut self, pane: Pane, text: &str) -> (r: bool)
        ensures
            r == (pane != Pane::NoList),
            r ==> final(self).text_of(pane) == old(self).text_of(pane) + text@,
            forall|p: Pane| p != pane || !r ==> final(self).text_of(p) == old(self).text_of(p),
    {
        let mut chars = chars_of(self.get(pane));
        let mut more = chars_of(text);
        chars.append(&mut more);
        self.set(pane, string_from_chars(&chars))
    }

    /// Removes the last character of the filter of `pane` (backspace).
    pub fn pop(&mut self, pane: Pane) -> (r: bool)
        ensures
            r == (pane != Pane::NoList),
            r ==> final(self).text_of(pane) == (if old(self).text_of(pane).len() == 0 {
                old(self).text_of(pane)
            } else {
                old(self).text_of(pane).drop_last()
            }),
            forall|p: Pane| p != pane || !r ==> final(self).text_of(p) == old(self).text_of(p),
    {
        let mut chars = chars_of(self.get(pane));
        if chars.len() > 0 {
            chars.pop();
        }
        self.set(pane, string_from_chars(&chars))
    }

    /// Empties the filter of `pane`.
    pub fn clear(&mut self, pane: Pane) -> (r: bool)
        ensures
            r == (pane != Pane::NoList),
            r ==> final(self).text_of(pane) == Seq::<char>::empty(),
            forall|p: Pane| p != pane || !r ==> final(self).text_of(p) == old(self).text_of(p),
    {
        self.set(pane, String::new())
    }
}

impl Default for Filters {
    fn default() -> (f: Filters)
        ensures
            forall|p: Pane| f.text_of(p) == Seq::<char>::empty(),
    {
        Filters::new()
    }
}

/// A list item passes a filter: the filter is empty, or its lower-cased text
/// occurs in the lower-cased text of one of the fields.
pub open spec fn spec_matches(filter: Seq<char>, fields: Seq<Seq<char>>) -> bool {
    ||| filter.len() == 0
    ||| exists|i: int|
        0 <= i < fields.len() && has_substring(spec_to_lowercase(#[trigger] fields[i]), spec_to_lowercase(filter))
}

/// Whether a list item passes the filter (substring, case-insensitive, any field).
pub fn matches(filter: &str, fields: &[&str]) -> (r: bool)
    ensures
        r == spec_matches(filter@, fields@.map_values(|f: &str| f@)),
{
    if filter.unicode_len() == 0 {
        return true;
    }
    let needle = chars_of(to_lowercase(filter).as_str());
    let ghost views = fields@.map_values(|f: &str| f@);
    let mut i: usize = 0;
    while i < fields.len()
        invariant
            i <= fields.len(),
            views == fields@.map_values(|f: &str| f@),
            needle@ == spec_to_lowercase(filter@),
            forall|k: int| 0 <= k < i ==> !has_substring(spec_to_lowercase(#[trigger] views[k]), needle@),
        decreases fields.len() - i,
    {
        let field = chars_of(to_lowercase(fields[i]).as_str());
        if vec_has_substring(&field, &needle) {
            assert(views[i as int] == fields@[i as int]@);
            return true;
        }
        i = i + 1;
    }
    false
}

/// A filter keeps an item exactly when the filter is empty or the item has a
/// field, at any position, whose lower-cased text contains the lower-cased
/// filter: no field is left out of the search.
pub proof fn law_filter_searches_every_field(filter: Seq<char>, fields: Seq<Seq<char>>)
    ensures
        filter.len() == 0 ==> spec_matches(filter, fields),
        forall|k: int|
            0 <= k < fields.len() && has_substring(spec_to_lowercase(#[trigger] fields[k]), spec_to_lowercase(filter))
                ==> spec_matches(filter, fields),
        spec_matches(filter, fields) && filter.len() > 0 ==> exists|k: int|
            0 <= k < fields.len() && has_substring(spec_to_lowercase(#[trigger] fields[k]), spec_to_lowercase(filter)),
{
}

/// Filtering an item by two groups of fields keeps it exactly when either group
/// alone keeps it; in particular, adding fields never hides an item.
pub proof fn law_filter_over_joined_fields(filter: Seq<char>, a: Seq<Seq<char>>, b: Seq<Seq<char>>)
    ensures
        spec_matches(filter, a + b) == (spec_matches(filter, a) || spec_matches(filter, b)),
{
    let ab = a + b;
    let needle = spec_to_lowercase(filter);
    if filter.len() > 0 {
        if spec_matches(filter, ab) {
            let k = choose|k: int| 0 <= k < ab.len() && has_substring(spec_to_lowercase(#[trigger] ab[k]), needle);
            if k < a.len() {
                assert(ab[k] == a[k]);
            } else {
                assert(ab[k] == b[k - a.len()]);
            }
        }
        if spec_matches(filter, a) {
            let k = choose|k: int| 0 <= k < a.len() && has_substring(spec_to_lowercase(#[trigger] a[k]), needle);
            assert(ab[k] == a[k]);
        }
        if spec_matches(filter, b) {
            let k = choose|k: int| 0 <= k < b.len() && has_substring(spec_to_lowercase(#[trigger] b[k]), needle);
            assert(ab[k + a.len()] == b[k]);
        }
    }
}

/// Tabs of the container registry screen.
#[derive(Debug, Clone, Copy, PartialEq, Eq, Structural)]
pub enum Tab {
    Overview,
    Users,
    Images,
}

impl Default for Tab {
    fn default() -> (t: Tab)
        ensures
            t == Tab::Overview,
    {
        Tab::Overview
    }
}

impl Tab {
    pub const ALL: [Tab; 3] = [Tab::Overview, Tab::Users, Tab::Images];

    pub fn title(self) -> (t: &'static str)
        ensures
            t@ == (match self {
                Tab::Overview => "概要"@,
                Tab::Users => "ユーザー"@,
                Tab::Images => "イメージ"@,
            }),
    {
        match self {
            Tab::Overview => "概要",
            Tab::Users => "ユーザー",
            Tab::Images => "イメージ",
        }
    }
}

/// Operating mode. Read-only by default; writes need an explicit switch.
#[derive(Debug, Clone, Copy, PartialEq, Eq, Structural)]
pub enum Mode {
    ReadOnly,
    Write,
}

impl Mode {
    pub fn label(self) -> (l: &'static str)
        ensures
            l@ == (match self {
                Mode::ReadOnly => "読取専用"@,
                Mode::Write => "書込可"@,
            }),
    {
        match self {
            Mode::ReadOnly => "読取専用",
            Mode::Write => "書込可",
        }
    }

    pub open spec fn spec_toggled(self) -> Mode {
        match self {
            Mode::ReadOnly => Mode::Write,
            Mode::Write => Mode::ReadOnly,
        }
    }

    /// The other mode.
    pub fn toggled(self) -> (m: Mode)
        ensures
            m == self.spec_toggled(),
    {
        match self {
            Mode::ReadOnly => Mode::Write,
            Mode::Write => Mode::ReadOnly,
        }
    }
}

/// Toggling changes the mode, and toggling twice gives back the starting mode.
pub proof fn law_mode_toggle_involution(m: Mode)
    ensures
        m.spec_toggled() != m,
        m.spec_toggled().spec_toggled() == m,
{
}

#[derive(Debug, Clone, Copy, PartialEq, Eq, Structural)]
pub enum Focus {
    Registries,
    Detail,
}

impl Default for Focus {
    fn default() -> (f: Focus)
        ensures
            f == Focus::Registries,
    {
        Focus::Registries
    }
}

/// The pane selected inside the image tab.
#[derive(Debug, Clone, Copy, PartialEq, Eq, Structural)]
pub enum ImagePane {
    Repositories,
    Tags,
}

impl Default for ImagePane {
    fn default() -> (p: ImagePane)
        ensures
            p == ImagePane::Repositories,
    {
        ImagePane::Repositories
    }
}

#[derive(Debug, Clone, Copy, PartialEq, Eq, Structural)]
pub enum StatusKind {
    Info,
    Success,
    Error,
}

/// Which of two side-by-side lists is operated on. Kept explicitly: deciding from
/// whether the right list has a selection would make the left one unreachable.
#[derive(Debug, Clone, Copy, PartialEq, Eq, Structural)]
pub enum ListFocus {
    Left,
    Right,
}

impl Default for ListFocus {
    fn default() -> (f: ListFocus)
        ensures
            f == ListFocus::Left,
    {
        ListFocus::Left
    }
}

/// A list whose selected row can be read and set.
pub trait SelectableList {
    spec fn selection(&self) -> Option<usize>;

    fn selected(&self) -> (r: Option<usize>)
        ensures
            r == self.selection(),
    ;

    fn select(&mut self, index: Option<usize>)
        ensures
            final(self).selection() == index,
    ;
}

/// The selected row of a list.
#[derive(Debug, Clone, Copy, PartialEq, Eq, Structural)]
pub struct ListSelection {
    pub selected: Option<usize>,
}

impl SelectableList for ListSelection {
    open spec fn selection(&self) -> Option<usize> {
        self.selected
    }

    fn selected(&self) -> (r: Option<usize>) {
        self.selected
    }

    fn select(&mut self, index: Option<usize>) {
        self.selected = index;
    }
}

/// The selection after the list shrank or grew to `len` rows: nothing in an
/// empty list, the last row when the selection fell off the end, the first row
/// when nothing was selected.
pub open spec fn spec_clamp_selection(selected: Option<usize>, len: usize) -> Option<usize> {
    if len == 0 {
        None
    } else {
        match selected {
            Some(index) => if index >= len { Some((len - 1) as usize) } else { Some(index) },
            None => Some(0),
        }
    }
}

/// Keeps the selection inside a list of `len` rows (after filtering, for instance).
pub fn clamp_selection<S: SelectableList>(state: &mut S, len: usize)
    ensures
        final(state).selection() == spec_clamp_selection(old(state).selection(), len),
{
    match (state.selected(), len) {
        (_, 0) => state.select(None),
        (Some(index), len) if index >= len => state.select(Some(len - 1)),
        (None, _) => state.select(Some(0)),
        _ => {},
    }
}

/// Selects the first row of a non-empty list that has no selection yet.
pub fn fill_selection<S: SelectableList>(state: &mut S, len: usize)
    ensures
        final(state).selection() == (if len > 0 && old(state).selection() is None {
            Some(0usize)
        } else {
            old(state).selection()
        }),
{
    if len > 0 && state.selected().is_none() {
        state.select(Some(0));
    }
}

/// The selection after moving `delta` rows from the current one (or from the
/// top), stopping at both ends; unchanged for an empty list.
pub open spec fn spec_move_selection(selected: Option<usize>, len: usize, delta: int) -> Option<usize> {
    if len == 0 {
        selected
    } else {
        let current = match selected {
            Some(i) => i as int,
            None => 0,
        };
        let next = current + delta;
        Some(if next < 0 { 0 } else if next > len - 1 { (len - 1) as usize } else { next as usize })
    }
}

/// Moves the selection by `delta` rows, clamped to the list.
pub fn move_selection<S: SelectableList>(state: &mut S, len: usize, delta: i32)
    requires
        len <= i32::MAX,
        len > 0 ==> (match old(state).selection() {
            Some(i) => i <= i32::MAX && i + delta <= i32::MAX,
            None => true,
        }),
    ensures
        final(state).selection() == spec_move_selection(old(state).selection(), len, delta as int),
{
    if len == 0 {
        return;
    }
    let current: i32 = match state.selected() {
        Some(i) => i as i32,
        None => 0,
    };
    let last: i32 = len as i32 - 1;
    let sum = current + delta;
    let next: i32 = if sum < 0 { 0 } else if sum > last { last } else { sum };
    state.select(Some(next as usize));
}

/// Jumps to the first or the last row; unchanged for an empty list.
pub fn jump_selection<S: SelectableList>(state: &mut S, len: usize, to_top: bool)
    ensures
        final(state).selection() == (if len == 0 {
            old(state).selection()
        } else if to_top {
            Some(0usize)
        } else {
            Some((len - 1) as usize)
        }),
{
    if len == 0 {
        return;
    }
    state.select(Some(if to_top { 0 } else { len - 1 }));
}

/// A clamped selection is inside the list, and only empty lists have none.
pub proof fn law_clamped_selection_in_range(selected: Option<usize>, len: usize)
    ensures
        match spec_clamp_selection(selected, len) {
            Some(i) => i < len,
            None => len == 0,
        },
        selected is Some && selected->0 < len ==> spec_clamp_selection(selected, len) == selected,
{
}

/// A moved selection of a non-empty list is inside the list.
pub proof fn law_moved_selection_in_range(selected: Option<usize>, len: usize, delta: int)
    requires
        len > 0,
    ensures
        spec_move_selection(selected, len, delta) is Some,
        spec_move_selection(selected, len, delta)->0 < len,
{
}

/// Pasted text for an ordinary field: control characters become spaces and the
/// surrounding whitespace is removed.
pub open spec fn spec_sanitize_paste(text: Seq<char>) -> Seq<char> {
    trim(text.map_values(|c: char| if is_control(c) { ' ' } else { c }))
}

/// Normalises pasted text so that line breaks and tabs cannot break a field.
pub fn sanitize_paste(text: &str) -> (r: String)
    ensures
        r@ == spec_sanitize_paste(text@),
{
    let chars = chars_of(text);
    let mut mapped: Vec<char> = Vec::new();
    let mut i: usize = 0;
    while i < chars.len()
        invariant
            i <= chars.len(),
            mapped@ == chars@.subrange(0, i as int).map_values(|c: char| if is_control(c) { ' ' } else { c }),
        decreases chars.len() - i,
    {
        let c = chars[i];
        mapped.push(if char_is_control(c) { ' ' } else { c });
        i = i + 1;
        assert(mapped@ =~= chars@.subrange(0, i as int).map_values(|c: char| if is_control(c) { ' ' } else { c }));
    }
    assert(chars@.subrange(0, chars@.len() as int) =~= chars@);
    string_from_chars(&trim_chars(&mapped))
}

/// A pasted identifier: surrounding whitespace removed, then line breaks and tabs
/// dropped.
pub open spec fn spec_paste_identifier(text: Seq<char>) -> Seq<char> {
    trim(text).filter(|c: char| c != '\r' && c != '\n' && c != '\t')
}

/// Normalises text pasted into an identifier field of the credential form.
pub fn paste_identifier(text: &str) -> (r: String)
    ensures
        r@ == spec_paste_identifier(text@),
{
    let t = trim_chars(&chars_of(text));
    let mut out: Vec<char> = Vec::new();
    let mut i: usize = 0;
    while i < t.len()
        invariant
            i <= t.len(),
            out@ == t@.subrange(0, i as int).filter(|c: char| c != '\r' && c != '\n' && c != '\t'),
        decreases t.len() - i,
    {
        let c = t[i];
        proof {
            let ghost p = t@.subrange(0, i as int);
            assert(t@.subrange(0, i + 1) =~= p.push(c));
            p.lemma_filter_push(c, |c: char| c != '\r' && c != '\n' && c != '\t');
        }
        if c != '\r' && c != '\n' && c != '\t' {
            out.push(c);
        }
        i = i + 1;
    }
    assert(t@.subrange(0, t@.len() as int) =~= t@);
    string_from_chars(&out)
}

/// Where the item at `index` moves one step down (or up) a list of `len`
/// items: `None` at either end.
pub open spec fn spec_step_target(index: int, len: int, down: bool) -> Option<int> {
    let target = if down { index + 1 } else { index - 1 };
    if 0 <= target < len {
        Some(target)
    } else {
        None
    }
}

/// The sequence with the items at `i` and `j` exchanged.
pub open spec fn swapped<T>(s: Seq<T>, i: int, j: int) -> Seq<T> {
    s.update(i, s[j]).update(j, s[i])
}

/// Moves the item at `index` one step down (or up), exchanging it with its
/// neighbour, as the rules of a packet filter are reordered. Returns where the
/// item went, or `None`, changing nothing, at the end of the list.
pub fn move_item<T>(items: &mut Vec<T>, index: usize, down: bool) -> (r: Option<usize>)
    requires
        index < old(items).len(),
    ensures
        opt_int(r) == spec_step_target(index as int, old(items).len() as int, down),
        r is Some ==> final(items)@ == swapped(old(items)@, index as int, r->0 as int),
        r is None ==> final(items)@ == old(items)@,
{
    let target: usize = if down {
        index + 1
    } else if index == 0 {
        return None;
    } else {
        index - 1
    };
    if target >= items.len() {
        return None;
    }
    let ghost before = items@;
    let low = if down { index } else { target };
    let x = items.remove(low + 1);
    items.insert(low, x);
    assert(items@ =~= swapped(before, index as int, target as int));
    Some(target)
}

/// An optional position as an integer.
pub open spec fn opt_int(o: Option<usize>) -> Option<int> {
    match o {
        Some(n) => Some(n as int),
        None => None,
    }
}

/// Moving an item one step and back again restores the list and the position.
pub proof fn law_move_item_round_trip<T>(s: Seq<T>, index: int, down: bool)
    requires
        0 <= index < s.len(),
        spec_step_target(index, s.len() as int, down) is Some,
    ensures
        spec_step_target(spec_step_target(index, s.len() as int, down)->0, s.len() as int, !down) == Some(index),
        swapped(
            swapped(s, index, spec_step_target(index, s.len() as int, down)->0),
            spec_step_target(index, s.len() as int, down)->0,
            index,
        ) == s,
{
    let j = spec_step_target(index, s.len() as int, down)->0;
    assert(swapped(swapped(s, index, j), j, index) =~= s);
}

} // verus!
