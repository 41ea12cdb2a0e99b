//! The resource counts shown beside each service in the picker, and per zone in
//! the zone picker: which are counted, which reuse a list already loaded on
//! screen and which are asked for, and the availability read from them.

use vstd::prelude::*;

use crate::service::{availability_reason, spec_availability_reason, Availability, Service};
use crate::service_names::{law_short_names_distinct, name_at};
use crate::state::Loadable;
use crate::text::seq_ascii_eq_ignore_case;

verus! {

/// Each service occurs at most once, as in a map keyed by service.
pub open spec fn services_distinct<V>(entries: Seq<(Service, V)>) -> bool {
    forall|i: int, j: int| 0 <= i < j < entries.len() ==> entries[i].0 != entries[j].0
}

/// The value held for `s`, if any.
pub open spec fn entry_of<V>(entries: Seq<(Service, V)>, s: Service) -> Option<V> {
    if exists|k: int| 0 <= k < entries.len() && entries[k].0 == s {
        Some(entries[choose|k: int| 0 <= k < entries.len() && entries[k].0 == s].1)
    } else {
        None
    }
}

/// With distinct services, the value held for `s` is that of its entry.
pub proof fn lemma_entry_of<V>(entries: Seq<(Service, V)>, k: int)
    requires
        services_distinct(entries),
        0 <= k < entries.len(),
    ensures
        entry_of(entries, entries[k].0) == Some(entries[k].1),
{
    let s = entries[k].0;
    let w = choose|w: int| 0 <= w < entries.len() && entries[w].0 == s;
    assert(0 <= w < entries.len() && entries[w].0 == s);
    if w != k {
        if w < k {
            assert(entries[w].0 != entries[k].0);
        } else {
            assert(entries[k].0 != entries[w].0);
        }
    }
}

/// Whether the count of `s` is to be filled in: the service has a count, and
/// nothing is held for it yet or its entry is idle. Counts loaded or loading are
/// left alone.
pub open spec fn needs_count(counts: Seq<(Service, Loadable<usize>)>, s: Service) -> bool {
    &&& s.spec_meta().count_label is Some
    &&& (entry_of(counts, s) matches None || entry_of(counts, s) matches Some(Loadable::Idle))
}

/// The count state of `s` after planning: the count already on screen when there
/// is one, loading otherwise; unchanged for services that need no count.
pub open spec fn planned_entry(
    counts: Seq<(Service, Loadable<usize>)>,
    shown: Seq<(Service, usize)>,
    s: Service,
) -> Option<Loadable<usize>> {
    if needs_count(counts, s) {
        match entry_of(shown, s) {
            Some(n) => Some(Loadable::Ready(n)),
            None => Some(Loadable::Loading),
        }
    } else {
        entry_of(counts, s)
    }
}

/// Whether `s` is asked for: it needs a count and none is on screen.
pub open spec fn is_requested(
    counts: Seq<(Service, Loadable<usize>)>,
    shown: Seq<(Service, usize)>,
    s: Service,
) -> bool {
    needs_count(counts, s) && entry_of(shown, s) is None
}

/// The services of the catalogue are pairwise different.
pub proof fn lemma_catalogue_distinct(i: int, j: int)
    requires
        0 <= i < 45,
        0 <= j < 45,
        i != j,
    ensures
        Service::ALL@[i] != Service::ALL@[j],
{
    law_short_names_distinct(i, j);
    if Service::ALL@[i] == Service::ALL@[j] {
        assert(seq_ascii_eq_ignore_case(name_at(i), name_at(j)));
    }
}

fn find_entry<V>(entries: &Vec<(Service, V)>, s: Service) -> (r: Option<usize>)
    ensures
        r matches Some(k) ==> k < entries.len() && entries@[k as int].0 == s,
        r is None ==> forall|k: int| 0 <= k < entries.len() ==> entries@[k].0 != s,
{
    let mut i: usize = 0;
    while i < entries.len()
        invariant
            i <= entries.len(),
            forall|k: int| 0 <= k < i ==> entries@[k].0 != s,
        decreases entries.len() - i,
    {
        if entries[i].0 == s {
            return Some(i);
        }
        i = i + 1;
    }
    None
}

/// Sets the value held for `s`, replacing its entry or adding one.
pub fn insert_entry<V>(entries: &mut Vec<(Service, V)>, s: Service, value: V)
    requires
        services_distinct(old(entries)@),
    ensures
        services_distinct(final(entries)@),
        entry_of(final(entries)@, s) == Some(value),
        forall|t: Service| t != s ==> #[trigger] entry_of(final(entries)@, t) == entry_of(old(entries)@, t),
{
    let ghost before = entries@;
    let at = find_entry(entries, s);
    match at {
        Some(i) => {
            entries[i] = (s, value);
            proof {
                assert(services_distinct(entries@)) by {
                    assert forall|a: int, b: int| 0 <= a < b < entries@.len() implies entries@[a].0 != entries@[b].0 by {
                        assert(entries@[a].0 == before[a].0);
                        assert(entries@[b].0 == before[b].0);
                    }
                }
                lemma_entry_of(entries@, i as int);
                assert forall|t: Service| t != s implies #[trigger] entry_of(entries@, t) == entry_of(before, t) by {
                    lemma_entry_of_unchanged(before, entries@, t);
                }
            }
        },
        None => {
            entries.push((s, value));
            proof {
                assert(services_distinct(entries@)) by {
                    assert forall|a: int, b: int| 0 <= a < b < entries@.len() implies entries@[a].0 != entries@[b].0 by {
                        if b < before.len() {
                            assert(entries@[a] == before[a] && entries@[b] == before[b]);
                        } else {
                            assert(entries@[a] == before[a]);
                        }
                    }
                }
                lemma_entry_of(entries@, before.len() as int);
                assert forall|t: Service| t != s implies #[trigger] entry_of(entries@, t) == entry_of(before, t) by {
                    lemma_entry_of_unchanged(before, entries@, t);
                }
            }
        },
    }
}

/// The count state a count result leaves: the count, or the failure.
pub open spec fn count_result_state(result: Result<usize, String>) -> Loadable<usize> {
    match result {
        Ok(n) => Loadable::Ready(n),
        Err(e) => Loadable::Failed(e),
    }
}

/// Records the count of `service` that arrived. A failure is kept quietly: some
/// services cannot be counted without a contract or a permission.
pub fn record_service_count(counts: &mut Vec<(Service, Loadable<usize>)>, service: Service, result: Result<usize, String>)
    requires
        services_distinct(old(counts)@),
    ensures
        services_distinct(final(counts)@),
        entry_of(final(counts)@, service) == Some(count_result_state(result)),
        forall|t: Service| t != service ==> #[trigger] entry_of(final(counts)@, t) == entry_of(old(counts)@, t),
{
    let state = match result {
        Ok(n) => Loadable::Ready(n),
        Err(e) => Loadable::Failed(e),
    };
    insert_entry(counts, service, state);
}

/// Whether a service can be used, judged only from what counting it gave: usable
/// once counted, unusable with a short reason when counting failed, unknown
/// otherwise.
pub fn service_availability(counts: &Vec<(Service, Loadable<usize>)>, s: Service) -> (r: Availability)
    requires
        services_distinct(counts@),
    ensures
        entry_of(counts@, s) matches Some(Loadable::Failed(e)) ==> (r matches Availability::Unusable(reason)
            && reason@ == spec_availability_reason(e@)),
        entry_of(counts@, s) matches Some(Loadable::Ready(_)) ==> r == Availability::Usable,
        !(entry_of(counts@, s) matches Some(Loadable::Failed(_))) && !(entry_of(counts@, s) matches Some(
            Loadable::Ready(_),
        )) ==> r == Availability::Unknown,
{
    match find_entry(counts, s) {
        Some(i) => {
            proof { lemma_entry_of(counts@, i as int); }
            match &counts[i].1 {
                Loadable::Failed(e) => Availability::Unusable(availability_reason(e.as_str())),
                Loadable::Ready(_) => Availability::Usable,
                _ => Availability::Unknown,
            }
        },
        None => Availability::Unknown,
    }
}

/// Fills in the counts of the services shown in the picker. Every service that
/// has a count and holds nothing, or an idle entry, gets the count already loaded
/// on screen (`shown`) when there is one, and is marked loading otherwise; those
/// are returned, in catalogue order, for their counts to be asked for. Counts
/// loaded or loading are left alone. Both lists hold each service at most once.
pub fn plan_service_counts(
    counts: &mut Vec<(Service, Loadable<usize>)>,
    shown: &Vec<(Service, usize)>,
) -> (requested: Vec<Service>)
    requires
        services_distinct(old(counts)@),
        services_distinct(shown@),
    ensures
        services_distinct(final(counts)@),
        forall|s: Service| #[trigger] entry_of(final(counts)@, s) == planned_entry(old(counts)@, shown@, s),
        requested@ == Service::ALL@.filter(|s: Service| is_requested(old(counts)@, shown@, s)),
{
    let ghost start = counts@;
    let ghost pred = |s: Service| is_requested(start, shown@, s);
    let mut requested: Vec<Service> = Vec::new();
    let mut k: usize = 0;
    while k < 45
        invariant
            k <= 45,
            services_distinct(shown@),
            services_distinct(counts@),
            pred == (|s: Service| is_requested(start, shown@, s)),
            forall|j: int| 0 <= j < k ==> #[trigger] entry_of(counts@, Service::ALL@[j]) == planned_entry(start, shown@, Service::ALL@[j]),
            forall|s: Service| (forall|j: int| 0 <= j < k ==> Service::ALL@[j] != s) ==> #[trigger] entry_of(counts@, s) == entry_of(start, s),
            requested@ == Service::ALL@.subrange(0, k as int).filter(pred),
        decreases 45 - k,
    {
        let s = Service::ALL[k];
        let ghost before = counts@;
        proof {
            assert forall|j: int| 0 <= j < k implies Service::ALL@[j] != s by {
                lemma_catalogue_distinct(j, k as int);
            }
            assert(entry_of(before, s) == entry_of(start, s));
            assert(Service::ALL@.subrange(0, k + 1) =~= Service::ALL@.subrange(0, k as int).push(s));
            Service::ALL@.subrange(0, k as int).lemma_filter_push(s, pred);
        }
        let at = find_entry(counts, s);
        proof {
            match at {
                Some(i) => { lemma_entry_of(before, i as int); },
                None => {},
            }
        }
        let has_count = s.count_label().is_some();
        let busy = match at {
            Some(i) => !counts[i].1.is_idle(),
            None => false,
        };
        if has_count && !busy {
            let on_screen = find_entry(shown, s);
            proof {
                match on_screen {
                    Some(i) => { lemma_entry_of(shown@, i as int); },
                    None => {},
                }
            }
            let value = match on_screen {
                Some(i) => Loadable::Ready(shown[i].1),
                None => Loadable::Loading,
            };
            insert_entry(counts, s, value);
            if on_screen.is_none() {
                requested.push(s);
            }
        }
        proof {
            assert forall|j: int| 0 <= j < k + 1 implies #[trigger] entry_of(counts@, Service::ALL@[j]) == planned_entry(start, shown@, Service::ALL@[j]) by {
                if j < k {
                    assert(Service::ALL@[j] != s) by { lemma_catalogue_distinct(j, k as int); }
                }
            }
            assert forall|t: Service| (forall|j: int| 0 <= j < k + 1 ==> Service::ALL@[j] != t) implies #[trigger] entry_of(counts@, t) == entry_of(start, t) by {
                assert(Service::ALL@[k as int] != t);
            }
        }
        k = k + 1;
    }
    assert(Service::ALL@.subrange(0, 45) =~= Service::ALL@);
    requested
}

/// After planning no service needs a count any more, so planning again asks for
/// nothing: every counted service is loaded, loading or failed.
pub proof fn law_planning_twice_asks_for_nothing(
    counts: Seq<(Service, Loadable<usize>)>,
    shown: Seq<(Service, usize)>,
    after: Seq<(Service, Loadable<usize>)>,
)
    requires
        forall|s: Service| #[trigger] entry_of(after, s) == planned_entry(counts, shown, s),
    ensures
        forall|s: Service| !#[trigger] needs_count(after, s),
        forall|s: Service| !#[trigger] is_requested(after, shown, s),
{
    assert forall|s: Service| !#[trigger] needs_count(after, s) by {
        assert(entry_of(after, s) == planned_entry(counts, shown, s));
    }
    assert forall|s: Service| !#[trigger] is_requested(after, shown, s) by {
        assert(!needs_count(after, s));
    }
}

/// An update that keeps the services of the entries, and the values of those of
/// service `t`, keeps what is held for `t`.
proof fn lemma_entry_of_unchanged<V>(a: Seq<(Service, V)>, b: Seq<(Service, V)>, t: Service)
    requires
        services_distinct(a),
        services_distinct(b),
        forall|k: int| 0 <= k < a.len() && a[k].0 == t ==> k < b.len() && b[k] == a[k],
        forall|k: int| 0 <= k < b.len() && b[k].0 == t ==> k < a.len() && a[k] == b[k],
    ensures
        entry_of(b, t) == entry_of(a, t),
{
    if exists|k: int| 0 <= k < a.len() && a[k].0 == t {
        let k = choose|k: int| 0 <= k < a.len() && a[k].0 == t;
        lemma_entry_of(a, k);
        lemma_entry_of(b, k);
    } else if exists|k: int| 0 <= k < b.len() && b[k].0 == t {
        let k = choose|k: int| 0 <= k < b.len() && b[k].0 == t;
        assert(a[k].0 == t);
    }
}

/// Each (service, zone) pair occurs at most once, as in a map keyed by both.
pub open spec fn zone_keys_distinct(counts: Seq<((Service, String), Loadable<usize>)>) -> bool {
    forall|i: int, j: int|
        0 <= i < j < counts.len() ==> !(counts[i].0.0 == counts[j].0.0 && counts[i].0.1@ == counts[j].0.1@)
}

/// Whether the entry at `k` is the one of `service` in `zone`.
pub open spec fn is_zone_key(counts: Seq<((Service, String), Loadable<usize>)>, k: int, service: Service, zone: Seq<char>) -> bool {
    counts[k].0.0 == service && counts[k].0.1@ == zone
}

/// The count held for `service` in `zone`, if any.
pub open spec fn zone_entry(counts: Seq<((Service, String), Loadable<usize>)>, service: Service, zone: Seq<char>) -> Option<Loadable<usize>> {
    if exists|k: int| 0 <= k < counts.len() && is_zone_key(counts, k, service, zone) {
        Some(counts[choose|k: int| 0 <= k < counts.len() && is_zone_key(counts, k, service, zone)].1)
    } else {
        None
    }
}

proof fn lemma_zone_entry(counts: Seq<((Service, String), Loadable<usize>)>, k: int)
    requires
        zone_keys_distinct(counts),
        0 <= k < counts.len(),
    ensures
        zone_entry(counts, counts[k].0.0, counts[k].0.1@) == Some(counts[k].1),
{
    let s = counts[k].0.0;
    let z = counts[k].0.1@;
    assert(is_zone_key(counts, k, s, z));
    let w = choose|w: int| 0 <= w < counts.len() && is_zone_key(counts, w, s, z);
    if w != k {
        if w < k {
            assert(!(counts[w].0.0 == counts[k].0.0 && counts[w].0.1@ == counts[k].0.1@));
        } else {
            assert(!(counts[k].0.0 == counts[w].0.0 && counts[k].0.1@ == counts[w].0.1@));
        }
    }
}

/// Whether `service` is to be counted in `zone`: it is counted per zone, and
/// nothing is held for the pair yet or its entry is idle.
pub open spec fn needs_zone_count(counts: Seq<((Service, String), Loadable<usize>)>, service: Service, zone: Seq<char>) -> bool {
    &&& service.spec_meta().countable_label is Some
    &&& (zone_entry(counts, service, zone) matches None || zone_entry(counts, service, zone) matches Some(Loadable::Idle))
}

pub open spec fn zone_names(zones: Seq<String>) -> Seq<Seq<char>> {
    zones.map_values(|z: String| z@)
}

fn find_zone_entry(counts: &Vec<((Service, String), Loadable<usize>)>, service: Service, zone: &str) -> (r: Option<usize>)
    ensures
        r matches Some(k) ==> k < counts.len() && is_zone_key(counts@, k as int, service, zone@),
        r is None ==> forall|k: int| 0 <= k < counts.len() ==> !is_zone_key(counts@, k, service, zone@),
{
    let mut i: usize = 0;
    while i < counts.len()
        invariant
            i <= counts.len(),
            forall|k: int| 0 <= k < i ==> !is_zone_key(counts@, k, service, zone@),
        decreases counts.len() - i,
    {
        if counts[i].0.0 == service && crate::text::str_eq(counts[i].0.1.as_str(), zone) {
            return Some(i);
        }
        i = i + 1;
    }
    None
}

/// The zones asked for, in order: those that need a count, each once.
pub open spec fn requested_zones(
    counts: Seq<((Service, String), Loadable<usize>)>,
    service: Service,
    names: Seq<Seq<char>>,
) -> Seq<Seq<char>>
    decreases names.len(),
{
    if names.len() == 0 {
        Seq::empty()
    } else {
        let earlier = names.drop_last();
        let z = names.last();
        if needs_zone_count(counts, service, z) && !earlier.contains(z) {
            requested_zones(counts, service, earlier).push(z)
        } else {
            requested_zones(counts, service, earlier)
        }
    }
}

/// Marks the counts of `service` in the `zones` as loading where they are to be
/// counted, and returns those zones in order, each once, for their counts to be
/// asked for. Counts loaded or loading are left alone, and so is every other
/// pair. The pairs held are distinct.
pub fn plan_zone_counts(
    counts: &mut Vec<((Service, String), Loadable<usize>)>,
    service: Service,
    zones: &Vec<String>,
) -> (requested: Vec<String>)
    requires
        zone_keys_distinct(old(counts)@),
    ensures
        zone_keys_distinct(final(counts)@),
        forall|s: Service, z: Seq<char>| #[trigger] zone_entry(final(counts)@, s, z) == if s == service && zone_names(zones@).contains(z) && needs_zone_count(old(counts)@, s, z) {
            Some(Loadable::<usize>::Loading)
        } else {
            zone_entry(old(counts)@, s, z)
        },
        zone_names(requested@) == requested_zones(old(counts)@, service, zone_names(zones@)),
{
    let ghost start = counts@;
    let ghost names = zone_names(zones@);
    let mut requested: Vec<String> = Vec::new();
    let countable = service.countable_label().is_some();
    let mut k: usize = 0;
    while k < zones.len()
        invariant
            k <= zones.len(),
            names == zone_names(zones@),
            countable == service.spec_meta().countable_label is Some,
            zone_keys_distinct(counts@),
            forall|s: Service, z: Seq<char>| #[trigger] zone_entry(counts@, s, z) == if s == service && names.subrange(0, k as int).contains(z) && needs_zone_count(start, s, z) {
                Some(Loadable::<usize>::Loading)
            } else {
                zone_entry(start, s, z)
            },
            zone_names(requested@) == requested_zones(start, service, names.subrange(0, k as int)),
        decreases zones.len() - k,
    {
        let zone = &zones[k];
        let ghost z = zone@;
        let ghost before = counts@;
        proof {
            assert(names[k as int] == z);
            assert(zone_entry(before, service, z) == (if names.subrange(0, k as int).contains(z) && needs_zone_count(start, service, z) {
                Some(Loadable::<usize>::Loading)
            } else {
                zone_entry(start, service, z)
            }));
            assert(names.subrange(0, k + 1).drop_last() =~= names.subrange(0, k as int));
            assert(names.subrange(0, k + 1).last() == z);
        }
        let found = find_zone_entry(counts, service, zone.as_str());
        proof {
            match found {
                Some(j) => { lemma_zone_entry(before, j as int); },
                None => {},
            }
        }
        let busy = match found {
            Some(j) => !counts[j].1.is_idle(),
            None => false,
        };
        if countable && !busy {
            match found {
                Some(j) => {
                    counts[j] = ((service, zone.clone()), Loadable::Loading);
                    proof {
                        assert(zone_keys_distinct(counts@)) by {
                            assert forall|a: int, b: int| 0 <= a < b < counts@.len() implies !(counts@[a].0.0 == counts@[b].0.0 && counts@[a].0.1@ == counts@[b].0.1@) by {
                                assert(counts@[a].0.0 == before[a].0.0 && counts@[a].0.1@ == before[a].0.1@);
                                assert(counts@[b].0.0 == before[b].0.0 && counts@[b].0.1@ == before[b].0.1@);
                            }
                        }
                        lemma_zone_entry(counts@, j as int);
                        assert forall|s: Service, y: Seq<char>| !(s == service && y == z) implies #[trigger] zone_entry(counts@, s, y) == zone_entry(before, s, y) by {
                            lemma_zone_entry_unchanged(before, counts@, s, y);
                        }
                    }
                },
                None => {
                    counts.push(((service, zone.clone()), Loadable::Loading));
                    proof {
                        assert(zone_keys_distinct(counts@)) by {
                            assert forall|a: int, b: int| 0 <= a < b < counts@.len() implies !(counts@[a].0.0 == counts@[b].0.0 && counts@[a].0.1@ == counts@[b].0.1@) by {
                                if b < before.len() {
                                    assert(counts@[a] == before[a] && counts@[b] == before[b]);
                                } else {
                                    assert(counts@[a] == before[a]);
                                    assert(!is_zone_key(before, a, service, z));
                                }
                            }
                        }
                        lemma_zone_entry(counts@, before.len() as int);
                        assert forall|s: Service, y: Seq<char>| !(s == service && y == z) implies #[trigger] zone_entry(counts@, s, y) == zone_entry(before, s, y) by {
                            lemma_zone_entry_unchanged(before, counts@, s, y);
                        }
                    }
                },
            }
            let ghost before_requested = requested@;
            requested.push(zone.clone());
            proof {
                assert(zone_names(requested@) =~= zone_names(before_requested).push(z));
            }
        }
        proof {
            let pre = names.subrange(0, k as int);
            let post = names.subrange(0, k + 1);
            assert forall|s: Service, y: Seq<char>| #[trigger] zone_entry(counts@, s, y) == (if s == service && post.contains(y) && needs_zone_count(start, s, y) {
                Some(Loadable::<usize>::Loading)
            } else {
                zone_entry(start, s, y)
            }) by {
                if s == service && y == z {
                    assert(post[k as int] == z);
                    assert(post.contains(z));
                } else {
                    assert(zone_entry(counts@, s, y) == zone_entry(before, s, y));
                    if s == service {
                        if post.contains(y) {
                            let j = choose|j: int| 0 <= j < post.len() && post[j] == y;
                            assert(post[k as int] == z);
                            assert(pre[j] == y);
                        }
                        if pre.contains(y) {
                            let j = choose|j: int| 0 <= j < pre.len() && pre[j] == y;
                            assert(post[j] == y);
                        }
                    }
                }
            }
        }
        k = k + 1;
    }
    assert(names.subrange(0, zones.len() as int) =~= names);
    requested
}

/// After planning the zone counts of a service, none of its zones needs a count
/// any more, so planning again asks for nothing.
pub proof fn law_zone_planning_twice_asks_for_nothing(
    counts: Seq<((Service, String), Loadable<usize>)>,
    service: Service,
    zones: Seq<Seq<char>>,
    after: Seq<((Service, String), Loadable<usize>)>,
)
    requires
        forall|s: Service, z: Seq<char>| #[trigger] zone_entry(after, s, z) == if s == service && zones.contains(z) && needs_zone_count(counts, s, z) {
            Some(Loadable::<usize>::Loading)
        } else {
            zone_entry(counts, s, z)
        },
    ensures
        forall|z: Seq<char>| zones.contains(z) ==> !#[trigger] needs_zone_count(after, service, z),
{
    assert forall|z: Seq<char>| zones.contains(z) implies !#[trigger] needs_zone_count(after, service, z) by {
        assert(zone_entry(after, service, z) == (if service == service && zones.contains(z) && needs_zone_count(counts, service, z) {
            Some(Loadable::<usize>::Loading)
        } else {
            zone_entry(counts, service, z)
        }));
    }
}

proof fn lemma_zone_entry_unchanged(
    a: Seq<((Service, String), Loadable<usize>)>,
    b: Seq<((Service, String), Loadable<usize>)>,
    s: Service,
    y: Seq<char>,
)
    requires
        zone_keys_distinct(a),
        zone_keys_distinct(b),
        forall|k: int| 0 <= k < a.len() && is_zone_key(a, k, s, y) ==> k < b.len() && b[k] == a[k],
        forall|k: int| 0 <= k < b.len() && is_zone_key(b, k, s, y) ==> k < a.len() && a[k] == b[k],
    ensures
        zone_entry(b, s, y) == zone_entry(a, s, y),
{
    if exists|k: int| 0 <= k < a.len() && is_zone_key(a, k, s, y) {
        let k = choose|k: int| 0 <= k < a.len() && is_zone_key(a, k, s, y);
        lemma_zone_entry(a, k);
        lemma_zone_entry(b, k);
    } else if exists|k: int| 0 <= k < b.len() && is_zone_key(b, k, s, y) {
        let k = choose|k: int| 0 <= k < b.len() && is_zone_key(b, k, s, y);
        assert(is_zone_key(a, k, s, y));
    }
}

} // verus!
