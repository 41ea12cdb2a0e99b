//! The short names of the services resolve back to their services.

use vstd::prelude::*;

use crate::service::{spec_from_arg, Service};
use crate::text::{ascii_lower, ascii_upper, seq_ascii_eq_ignore_case};

verus! {

/// Position of a service in [`Service::ALL`].
pub open spec fn catalogue_position(s: Service) -> int {
    match s {
        Service::Server => 0,
        Service::SshKey => 1,
        Service::Registry => 2,
        Service::AppRun => 3,
        Service::Dedicated => 4,
        Service::AiEngine => 5,
        Service::SimpleMq => 6,
        Service::SimpleNotification => 7,
        Service::EventBus => 8,
        Service::Workflows => 9,
        Service::ApiGateway => 10,
        Service::NetworkMap => 11,
        Service::Switch => 12,
        Service::Internet => 13,
        Service::PacketFilter => 14,
        Service::Bridge => 15,
        Service::LoadBalancer => 16,
        Service::EnhancedLoadBalancer => 17,
        Service::VpcRouter => 18,
        Service::Gslb => 19,
        Service::MobileGateway => 20,
        Service::LocalRouter => 21,
        Service::Dns => 22,
        Service::Seg => 23,
        Service::NetworkingSuite => 24,
        Service::WebAccel => 25,
        Service::Disk => 26,
        Service::Archive => 27,
        Service::IsoImage => 28,
        Service::Database => 29,
        Service::NoSql => 30,
        Service::Nfs => 31,
        Service::ObjectStorage => 32,
        Service::EnhancedDb => 33,
        Service::AutoBackup => 34,
        Service::Secrets => 35,
        Service::Kms => 36,
        Service::Iam => 37,
        Service::SecurityControl => 38,
        Service::CloudHsm => 39,
        Service::SimpleMonitor => 40,
        Service::Monitoring => 41,
        Service::AutoScale => 42,
        Service::Account => 43,
        Service::Billing => 44,
    }
}

/// The short name at catalogue position `k`.
pub open spec fn name_at(k: int) -> Seq<char> {
    Service::ALL@[k].spec_meta().arg_name@
}

/// The text with its ASCII letters upper-cased (as `str::to_ascii_uppercase`).
pub open spec fn seq_ascii_upper(s: Seq<char>) -> Seq<char> {
    s.map_values(|c: char| ascii_upper(c))
}

/// Two names tell apart, ignoring ASCII case, by their lengths or by their
/// characters at positions 0 and 2 or at the end.
spec fn names_differ(a: Seq<char>, b: Seq<char>) -> bool {
    ||| a.len() != b.len()
    ||| ascii_lower(a[0]) != ascii_lower(b[0])
    ||| ascii_lower(a[2]) != ascii_lower(b[2])
    ||| ascii_lower(a[a.len() - 1]) != ascii_lower(b[b.len() - 1])
}

proof fn lemma_names_differ(a: Seq<char>, b: Seq<char>)
    requires
        b.len() >= 3,
        names_differ(a, b),
    ensures
        !seq_ascii_eq_ignore_case(a, b),
{
    if seq_ascii_eq_ignore_case(a, b) {
        assert(ascii_lower(a[0]) == ascii_lower(b[0]));
        assert(ascii_lower(a[2]) == ascii_lower(b[2]));
        assert(ascii_lower(a[a.len() - 1]) == ascii_lower(b[b.len() - 1]));
    }
}

/// Whether the names at positions `k..p` all differ from the name at `p`.
spec fn differs_from_earlier(p: int, k: int) -> bool
    decreases p - k,
{
    if k < 0 || k >= p {
        true
    } else {
        names_differ(name_at(k), name_at(p)) && differs_from_earlier(p, k + 1)
    }
}

/// Whether every name at a position `p..45` is at least three characters long and
/// differs from all names before it.
spec fn all_differ_from(p: int) -> bool
    decreases 45 - p,
{
    if p < 0 || p >= 45 {
        true
    } else {
        name_at(p).len() >= 3 && differs_from_earlier(p, 0) && all_differ_from(p + 1)
    }
}

/// The short names of the catalogue tell apart pairwise.
#[verifier::rlimit(100)]
proof fn lemma_catalogue_names_differ()
    ensures
        all_differ_from(0),
{
    reveal_strlit("server");
    reveal_strlit("ssh-key");
    reveal_strlit("registry");
    reveal_strlit("apprun");
    reveal_strlit("dedicated");
    reveal_strlit("ai-engine");
    reveal_strlit("simplemq");
    reveal_strlit("simple-notification");
    reveal_strlit("eventbus");
    reveal_strlit("workflows");
    reveal_strlit("api-gateway");
    reveal_strlit("network-map");
    reveal_strlit("switch");
    reveal_strlit("internet");
    reveal_strlit("packet-filter");
    reveal_strlit("bridge");
    reveal_strlit("loadbalancer");
    reveal_strlit("enhanced-loadbalancer");
    reveal_strlit("vpcrouter");
    reveal_strlit("gslb");
    reveal_strlit("mobile-gateway");
    reveal_strlit("local-router");
    reveal_strlit("dns");
    reveal_strlit("seg");
    reveal_strlit("networking-suite");
    reveal_strlit("webaccel");
    reveal_strlit("disk");
    reveal_strlit("archive");
    reveal_strlit("iso-image");
    reveal_strlit("database");
    reveal_strlit("nosql");
    reveal_strlit("nfs");
    reveal_strlit("object-storage");
    reveal_strlit("enhanced-db");
    reveal_strlit("auto-backup");
    reveal_strlit("secrets");
    reveal_strlit("kms");
    reveal_strlit("iam");
    reveal_strlit("security-control");
    reveal_strlit("cloudhsm");
    reveal_strlit("monitor");
    reveal_strlit("monitoring");
    reveal_strlit("autoscale");
    reveal_strlit("account");
    reveal_strlit("billing");
    assert(all_differ_from(40)) by {
        reveal_with_fuel(all_differ_from, 6);
        reveal_with_fuel(differs_from_earlier, 45);
    }
    assert(all_differ_from(35)) by {
        reveal_with_fuel(all_differ_from, 6);
        reveal_with_fuel(differs_from_earlier, 45);
    }
    assert(all_differ_from(30)) by {
        reveal_with_fuel(all_differ_from, 6);
        reveal_with_fuel(differs_from_earlier, 45);
    }
    assert(all_differ_from(25)) by {
        reveal_with_fuel(all_differ_from, 6);
        reveal_with_fuel(differs_from_earlier, 45);
    }
    assert(all_differ_from(20)) by {
        reveal_with_fuel(all_differ_from, 6);
        reveal_with_fuel(differs_from_earlier, 45);
    }
    assert(all_differ_from(15)) by {
        reveal_with_fuel(all_differ_from, 6);
        reveal_with_fuel(differs_from_earlier, 45);
    }
    assert(all_differ_from(10)) by {
        reveal_with_fuel(all_differ_from, 6);
        reveal_with_fuel(differs_from_earlier, 45);
    }
    assert(all_differ_from(5)) by {
        reveal_with_fuel(all_differ_from, 6);
        reveal_with_fuel(differs_from_earlier, 45);
    }
    assert(all_differ_from(0)) by {
        reveal_with_fuel(all_differ_from, 6);
        reveal_with_fuel(differs_from_earlier, 45);
    }
}

proof fn lemma_differs_from_earlier(p: int, k: int, j: int)
    requires
        0 <= k <= j < p,
        differs_from_earlier(p, k),
    ensures
        names_differ(name_at(j), name_at(p)),
    decreases j - k,
{
    if k < j {
        lemma_differs_from_earlier(p, k + 1, j);
    }
}

proof fn lemma_all_differ_from(p: int, q: int)
    requires
        0 <= p <= q < 45,
        all_differ_from(p),
    ensures
        name_at(q).len() >= 3,
        differs_from_earlier(q, 0),
    decreases q - p,
{
    if p < q {
        lemma_all_differ_from(p + 1, q);
    }
}

/// No two short names of the catalogue are equal, even when ASCII case is ignored.
pub proof fn law_short_names_distinct(i: int, j: int)
    requires
        0 <= i < 45,
        0 <= j < 45,
        i != j,
    ensures
        !seq_ascii_eq_ignore_case(name_at(i), name_at(j)),
{
    lemma_catalogue_names_differ();
    if i < j {
        lemma_all_differ_from(0, j);
        lemma_differs_from_earlier(j, 0, i);
        lemma_names_differ(name_at(i), name_at(j));
    } else {
        lemma_all_differ_from(0, i);
        lemma_differs_from_earlier(i, 0, j);
        lemma_names_differ(name_at(j), name_at(i));
        if seq_ascii_eq_ignore_case(name_at(i), name_at(j)) {
            assert(seq_ascii_eq_ignore_case(name_at(j), name_at(i)));
        }
    }
}

/// The search from position `k` finds the service at `p` when no name in between
/// matches.
proof fn lemma_from_arg_reaches(name: Seq<char>, k: int, p: int)
    requires
        0 <= k <= p < 45,
        seq_ascii_eq_ignore_case(name_at(p), name),
        forall|j: int| k <= j < p ==> !seq_ascii_eq_ignore_case(#[trigger] name_at(j), name),
    ensures
        spec_from_arg(name, k) == Some(Service::ALL@[p]),
    decreases p - k,
{
    if k < p {
        assert(!seq_ascii_eq_ignore_case(name_at(k), name));
        lemma_from_arg_reaches(name, k + 1, p);
    }
}

/// Every service is found again from its own short name: the short names are
/// pairwise different, even when ASCII case is ignored.
pub proof fn law_from_arg_round_trip(s: Service)
    ensures
        spec_from_arg(s.spec_meta().arg_name@, 0) == Some(s),
{
    let p = catalogue_position(s);
    assert(Service::ALL@[p] == s);
    let name = name_at(p);
    assert forall|j: int| 0 <= j < p implies !seq_ascii_eq_ignore_case(#[trigger] name_at(j), name) by {
        law_short_names_distinct(j, p);
    }
    lemma_from_arg_reaches(name, 0, p);
}

/// Upper-casing a character does not change its lower-case form.
proof fn lemma_lower_of_upper(c: char)
    ensures
        ascii_lower(ascii_upper(c)) == ascii_lower(c),
{
}

/// Upper-casing the second text does not change a comparison that ignores ASCII case.
proof fn lemma_eq_ignore_case_upper(a: Seq<char>, b: Seq<char>)
    ensures
        seq_ascii_eq_ignore_case(a, seq_ascii_upper(b)) == seq_ascii_eq_ignore_case(a, b),
{
    let u = seq_ascii_upper(b);
    assert forall|i: int| 0 <= i < b.len() implies ascii_lower(#[trigger] u[i]) == ascii_lower(b[i]) by {
        lemma_lower_of_upper(b[i]);
    }
    if seq_ascii_eq_ignore_case(a, b) {
        assert forall|i: int| 0 <= i < a.len() implies ascii_lower(#[trigger] a[i]) == ascii_lower(u[i]) by {
            assert(ascii_lower(u[i]) == ascii_lower(b[i]));
        }
    }
    if seq_ascii_eq_ignore_case(a, u) {
        assert forall|i: int| 0 <= i < a.len() implies ascii_lower(#[trigger] a[i]) == ascii_lower(b[i]) by {
            assert(ascii_lower(u[i]) == ascii_lower(b[i]));
        }
    }
}

proof fn lemma_from_arg_upper(name: Seq<char>, k: int)
    ensures
        spec_from_arg(seq_ascii_upper(name), k) == spec_from_arg(name, k),
    decreases 45 - k,
{
    if 0 <= k < 45 {
        lemma_eq_ignore_case_upper(name_at(k), name);
        lemma_from_arg_upper(name, k + 1);
    }
}

/// A short name written in upper case resolves to the same service.
pub proof fn law_from_arg_upper_case(s: Service)
    ensures
        spec_from_arg(seq_ascii_upper(s.spec_meta().arg_name@), 0) == Some(s),
{
    law_from_arg_round_trip(s);
    lemma_from_arg_upper(s.spec_meta().arg_name@, 0);
}

proof fn lemma_from_arg_none(name: Seq<char>, k: int)
    requires
        0 <= k <= 45,
    ensures
        spec_from_arg(name, k) is None
            <==> forall|j: int| k <= j < 45 ==> !seq_ascii_eq_ignore_case(#[trigger] name_at(j), name),
    decreases 45 - k,
{
    if k < 45 {
        lemma_from_arg_none(name, k + 1);
        if seq_ascii_eq_ignore_case(name_at(k), name) {
            assert(spec_from_arg(name, k) == Some(Service::ALL@[k]));
        } else {
            assert(spec_from_arg(name, k) == spec_from_arg(name, k + 1));
            if forall|j: int| k + 1 <= j < 45 ==> !seq_ascii_eq_ignore_case(#[trigger] name_at(j), name) {
                assert forall|j: int| k <= j < 45 implies !seq_ascii_eq_ignore_case(#[trigger] name_at(j), name) by {
                    if j > k {
                        assert(k + 1 <= j < 45);
                    }
                }
            }
        }
    }
}

/// A name resolves to nothing exactly when no short name of the catalogue equals
/// it, ignoring ASCII case; what it resolves to has a short name equal to it.
pub proof fn law_from_arg_none(name: Seq<char>)
    ensures
        spec_from_arg(name, 0) is None
            <==> forall|j: int| 0 <= j < 45 ==> !seq_ascii_eq_ignore_case(#[trigger] name_at(j), name),
        forall|s: Service| spec_from_arg(name, 0) == Some(s) ==> seq_ascii_eq_ignore_case(s.spec_meta().arg_name@, name),
{
    lemma_from_arg_none(name, 0);
    lemma_from_arg_found(name, 0);
}

proof fn lemma_from_arg_found(name: Seq<char>, k: int)
    ensures
        forall|s: Service| spec_from_arg(name, k) == Some(s) ==> seq_ascii_eq_ignore_case(s.spec_meta().arg_name@, name),
    decreases 45 - k,
{
    if 0 <= k < 45 {
        lemma_from_arg_found(name, k + 1);
    }
}

} // verus!
