//! What the results of background requests do to the screens: each result is
//! stored where its screen reads it, a failure goes to the status bar, and the
//! client is told what to load or select next. Results sent under earlier
//! credentials are dropped (see [`crate::session`]).
//!
//! The screens held here are those of AppRun, dedicated AppRun, billing and
//! CloudHSM, the zone list and the service counts.

use vstd::prelude::*;

use crate::apprun::{Application, ApplicationDetail, Traffic, Version};
use crate::apprun_dedicated::{self as ded, AutoScalingGroup, Certificate, Cluster};
use crate::billing::{Bill, BillDetail};
use crate::cloudhsm::{CloudHsm, CloudHsmClient, CloudHsmDocument, CloudHsmLicense};
use crate::service::Service;
use crate::service_counts::{count_result_state, entry_of, record_service_count, services_distinct};
use crate::session::{spec_accepts_message, MessageKind, Session};
use crate::state::{Loadable, Pane, StatusKind};
use crate::text::{chars_of, decimal, str_eq, string_from_chars, u64_to_decimal};

verus! {

/// A result handed back by a background request.
pub enum Message {
    Zones(Result<Vec<String>, String>),
    ServiceCount { service: Service, result: Result<usize, String> },
    Bills(Result<Vec<Bill>, String>),
    BillDetails { id: String, result: Result<Vec<BillDetail>, String> },
    CloudHsmHsms { zone: String, result: Result<Vec<CloudHsm>, String> },
    CloudHsmClients { hsm_id: String, result: Result<Vec<CloudHsmClient>, String> },
    CloudHsmLicenses { zone: String, result: Result<Vec<CloudHsmLicense>, String> },
    CloudHsmDocuments { license_id: String, result: Result<Vec<CloudHsmDocument>, String> },
    Applications(Result<Vec<Application>, String>),
    ApplicationDetail { id: String, result: Result<ApplicationDetail, String> },
    Versions { id: String, result: Result<Vec<Version>, String> },
    Traffics { id: String, result: Result<Vec<Traffic>, String> },
    /// The outcome of an action on the AppRun application `id`, named `label`.
    AppRunAction { id: String, label: String, result: Result<(), String> },
    Clusters(Result<Vec<Cluster>, String>),
    ClusterDetail { id: String, result: Result<Cluster, String> },
    DedicatedApplications { cluster: String, result: Result<Vec<ded::Application>, String> },
    ScalingGroups { cluster: String, result: Result<Vec<AutoScalingGroup>, String> },
    Certificates { cluster: String, result: Result<Vec<Certificate>, String> },
}

impl Message {
    /// None of these results holds across a switch of credentials.
    pub open spec fn spec_kind(self) -> MessageKind {
        MessageKind::Other
    }
}

/// What the client does after a result is stored.
#[derive(Debug, Clone, PartialEq, Eq)]
pub enum FollowUp {
    /// Show a message dialog with this title and body.
    ShowError { title: String, body: String },
    /// Load what the screen shown still lacks.
    EnsureLoaded,
    /// Select the first row of the list when nothing is selected.
    FillSelection(Pane),
    /// The cluster list changed: reset what hangs below the cluster.
    AfterClusterChange,
    /// Load what the CloudHSM screen still lacks.
    CloudHsmEnsureLoaded,
    /// Count the resources of the service shown in each zone.
    LoadZoneCounts,
    /// Open the zone picker that was asked for while the zones were loading.
    OpenZonePicker,
}

/// The AppRun screen.
pub struct AppRunState {
    pub applications: Loadable<Vec<Application>>,
    pub application_selected: Option<usize>,
    pub details: Vec<(String, Loadable<ApplicationDetail>)>,
    pub versions: Vec<(String, Loadable<Vec<Version>>)>,
    pub version_selected: Option<usize>,
    pub traffics: Vec<(String, Loadable<Vec<Traffic>>)>,
}

/// The dedicated AppRun screen.
pub struct DedicatedState {
    pub clusters: Loadable<Vec<Cluster>>,
    pub cluster_selected: Option<usize>,
    pub details: Vec<(String, Loadable<Cluster>)>,
    pub applications: Vec<(String, Loadable<Vec<ded::Application>>)>,
    pub application_selected: Option<usize>,
    pub scaling_groups: Vec<(String, Loadable<Vec<AutoScalingGroup>>)>,
    pub scaling_group_selected: Option<usize>,
    pub certificates: Vec<(String, Loadable<Vec<Certificate>>)>,
    pub certificate_selected: Option<usize>,
}

/// The billing screen.
pub struct BillingState {
    pub bills: Loadable<Vec<Bill>>,
    pub bill_selected: Option<usize>,
    pub details: Vec<(String, Loadable<Vec<BillDetail>>)>,
    pub detail_selected: Option<usize>,
    pub summary_selected: Option<usize>,
}

/// The CloudHSM screen; the HSMs and licenses are held per zone.
pub struct CloudHsmState {
    pub hsms: Vec<(String, Loadable<Vec<CloudHsm>>)>,
    pub clients: Vec<(String, Loadable<Vec<CloudHsmClient>>)>,
    pub client_selected: Option<usize>,
    pub licenses: Vec<(String, Loadable<Vec<CloudHsmLicense>>)>,
    pub documents: Vec<(String, Loadable<Vec<CloudHsmDocument>>)>,
    pub document_selected: Option<usize>,
}

/// What the results fill in.
pub struct Screens {
    pub status: Option<(String, StatusKind)>,
    pub zones: Loadable<Vec<String>>,
    /// The zone picker was asked for while the zones were loading.
    pub pending_zone_picker: bool,
    pub service_counts: Vec<(Service, Loadable<usize>)>,
    pub apprun: AppRunState,
    pub dedicated: DedicatedState,
    pub billing: BillingState,
    pub cloudhsm: CloudHsmState,
}

impl Screens {
    /// Nothing loaded, nothing selected, no status.
    pub fn new() -> (s: Screens)
        ensures
            screens_wf(s),
            s.status is None,
            s.zones is Idle,
            !s.pending_zone_picker,
            s.service_counts@.len() == 0,
            s.apprun.applications is Idle,
            s.dedicated.clusters is Idle,
            s.billing.bills is Idle,
            s.cloudhsm.hsms@.len() == 0,
    {
        Screens {
            status: None,
            zones: Loadable::Idle,
            pending_zone_picker: false,
            service_counts: Vec::new(),
            apprun: AppRunState {
                applications: Loadable::Idle,
                application_selected: None,
                details: Vec::new(),
                versions: Vec::new(),
                version_selected: None,
                traffics: Vec::new(),
            },
            dedicated: DedicatedState {
                clusters: Loadable::Idle,
                cluster_selected: None,
                details: Vec::new(),
                applications: Vec::new(),
                application_selected: None,
                scaling_groups: Vec::new(),
                scaling_group_selected: None,
                certificates: Vec::new(),
                certificate_selected: None,
            },
            billing: BillingState {
                bills: Loadable::Idle,
                bill_selected: None,
                details: Vec::new(),
                detail_selected: None,
                summary_selected: None,
            },
            cloudhsm: CloudHsmState {
                hsms: Vec::new(),
                clients: Vec::new(),
                client_selected: None,
                licenses: Vec::new(),
                documents: Vec::new(),
                document_selected: None,
            },
        }
    }
}

impl Screens {
    /// What `R` drops before loading again: every service count and everything
    /// the CloudHSM screen loaded or selected. The zones, and the status line,
    /// stay.
    pub fn invalidate_all(&mut self)
        requires
            screens_wf(*old(self)),
        ensures
            screens_wf(*final(self)),
            final(self).service_counts@.len() == 0,
            final(self).cloudhsm.hsms@.len() == 0,
            final(self).cloudhsm.clients@.len() == 0,
            final(self).cloudhsm.licenses@.len() == 0,
            final(self).cloudhsm.documents@.len() == 0,
            final(self).cloudhsm.client_selected is None,
            final(self).cloudhsm.document_selected is None,
            final(self).status == old(self).status,
            final(self).zones == old(self).zones,
            final(self).pending_zone_picker == old(self).pending_zone_picker,
    {
        self.service_counts = Vec::new();
        self.cloudhsm = CloudHsmState {
            hsms: Vec::new(),
            clients: Vec::new(),
            client_selected: None,
            licenses: Vec::new(),
            documents: Vec::new(),
            document_selected: None,
        };
    }
}

/// Each key occurs at most once, as in a map keyed by text.
pub open spec fn text_keys_distinct<V>(entries: Seq<(String, V)>) -> bool {
    forall|i: int, j: int| 0 <= i < j < entries.len() ==> entries[i].0@ != entries[j].0@
}

/// The value held for `key`, if any.
pub open spec fn text_entry<V>(entries: Seq<(String, V)>, key: Seq<char>) -> Option<V> {
    if exists|k: int| 0 <= k < entries.len() && entries[k].0@ == key {
        Some(entries[choose|k: int| 0 <= k < entries.len() && entries[k].0@ == key].1)
    } else {
        None
    }
}

/// `after` holds `value` for `key` and, for every other key, what `before` held.
pub open spec fn text_map_put<V>(before: Seq<(String, V)>, after: Seq<(String, V)>, key: Seq<char>, value: V) -> bool {
    &&& text_keys_distinct(after)
    &&& text_entry(after, key) == Some(value)
    &&& forall|k: Seq<char>| k != key ==> #[trigger] text_entry(after, k) == text_entry(before, k)
}

proof fn lemma_text_entry<V>(entries: Seq<(String, V)>, k: int)
    requires
        text_keys_distinct(entries),
        0 <= k < entries.len(),
    ensures
        text_entry(entries, entries[k].0@) == Some(entries[k].1),
{
    let key = entries[k].0@;
    let w = choose|w: int| 0 <= w < entries.len() && entries[w].0@ == key;
    assert(0 <= w < entries.len() && entries[w].0@ == key);
    if w != k {
        if w < k {
            assert(entries[w].0@ != entries[k].0@);
        } else {
            assert(entries[k].0@ != entries[w].0@);
        }
    }
}

proof fn lemma_text_entry_unchanged<V>(a: Seq<(String, V)>, b: Seq<(String, V)>, key: Seq<char>)
    requires
        text_keys_distinct(a),
        text_keys_distinct(b),
        forall|k: int| 0 <= k < a.len() && a[k].0@ == key ==> k < b.len() && b[k] == a[k],
        forall|k: int| 0 <= k < b.len() && b[k].0@ == key ==> k < a.len() && a[k] == b[k],
    ensures
        text_entry(b, key) == text_entry(a, key),
{
    if exists|k: int| 0 <= k < a.len() && a[k].0@ == key {
        let k = choose|k: int| 0 <= k < a.len() && a[k].0@ == key;
        lemma_text_entry(a, k);
        lemma_text_entry(b, k);
    } else if exists|k: int| 0 <= k < b.len() && b[k].0@ == key {
        let k = choose|k: int| 0 <= k < b.len() && b[k].0@ == key;
        assert(a[k].0@ == key);
    }
}

fn find_text_entry<V>(entries: &Vec<(String, V)>, key: &str) -> (r: Option<usize>)
    ensures
        r matches Some(k) ==> k < entries.len() && entries@[k as int].0@ == key@,
        r is None ==> forall|k: int| 0 <= k < entries.len() ==> entries@[k].0@ != key@,
{
    let mut i: usize = 0;
    while i < entries.len()
        invariant
            i <= entries.len(),
            forall|m: int| 0 <= m < i ==> entries@[m].0@ != key@,
        decreases entries.len() - i,
    {
        if str_eq(entries[i].0.as_str(), key) {
            return Some(i);
        }
        i = i + 1;
    }
    None
}

/// Sets the value held for `key`, replacing its entry or adding one.
pub fn put_text_entry<V>(entries: &mut Vec<(String, V)>, key: String, value: V)
    requires
        text_keys_distinct(old(entries)@),
    ensures
        text_map_put(old(entries)@, final(entries)@, key@, value),
{
    let ghost before = entries@;
    let ghost k = key@;
    let at = find_text_entry(entries, key.as_str());
    match at {
        Some(j) => {
            entries[j] = (key, value);
            proof {
                assert forall|a: int, b: int| 0 <= a < b < entries@.len() implies entries@[a].0@ != entries@[b].0@ by {
                    assert(entries@[a].0@ == before[a].0@);
                    assert(entries@[b].0@ == before[b].0@);
                }
                lemma_text_entry(entries@, j as int);
                assert forall|y: Seq<char>| y != k implies #[trigger] text_entry(entries@, y) == text_entry(before, y) by {
                    lemma_text_entry_unchanged(before, entries@, y);
                }
            }
        },
        None => {
            entries.push((key, value));
            proof {
                assert forall|a: int, b: int| 0 <= a < b < entries@.len() implies entries@[a].0@ != entries@[b].0@ by {
                    if b < before.len() {
                        assert(entries@[a] == before[a] && entries@[b] == before[b]);
                    } else {
                        assert(entries@[a] == before[a]);
                    }
                }
                lemma_text_entry(entries@, before.len() as int);
                assert forall|y: Seq<char>| y != k implies #[trigger] text_entry(entries@, y) == text_entry(before, y) by {
                    lemma_text_entry_unchanged(before, entries@, y);
                }
            }
        },
    }
}

/// The state a result leaves: the value, or the failure.
pub open spec fn loadable_of<T>(result: Result<T, String>) -> Loadable<T> {
    match result {
        Ok(v) => Loadable::Ready(v),
        Err(e) => Loadable::Failed(e),
    }
}

/// The status bar after a result that reports its failure.
pub open spec fn status_after<T>(status: Option<(String, StatusKind)>, result: Result<T, String>) -> Option<(String, StatusKind)> {
    match result {
        Ok(_) => status,
        Err(e) => Some((e, StatusKind::Error)),
    }
}

/// The status bar holds `text` as information.
pub open spec fn status_says(status: Option<(String, StatusKind)>, text: Seq<char>) -> bool {
    status matches Some((t, StatusKind::Info)) && t@ == text
}

/// Every map of the screens holds each key at most once.
pub open spec fn screens_wf(s: Screens) -> bool {
    &&& services_distinct(s.service_counts@)
    &&& text_keys_distinct(s.apprun.details@)
    &&& text_keys_distinct(s.apprun.versions@)
    &&& text_keys_distinct(s.apprun.traffics@)
    &&& text_keys_distinct(s.dedicated.details@)
    &&& text_keys_distinct(s.dedicated.applications@)
    &&& text_keys_distinct(s.dedicated.scaling_groups@)
    &&& text_keys_distinct(s.dedicated.certificates@)
    &&& text_keys_distinct(s.billing.details@)
    &&& text_keys_distinct(s.cloudhsm.hsms@)
    &&& text_keys_distinct(s.cloudhsm.clients@)
    &&& text_keys_distinct(s.cloudhsm.licenses@)
    &&& text_keys_distinct(s.cloudhsm.documents@)
}

/// What message `m` does to the screens `old`: `new` is the screens after it and
/// `follow` what the client does next.
pub open spec fn applied(old: Screens, m: Message, new: Screens, follow: Seq<FollowUp>) -> bool {
    match m {
        Message::Zones(Ok(zones)) => {
            &&& new == Screens { zones: Loadable::Ready(zones), pending_zone_picker: false, ..old }
            &&& follow == if old.pending_zone_picker {
                seq![FollowUp::LoadZoneCounts, FollowUp::OpenZonePicker]
            } else {
                seq![FollowUp::LoadZoneCounts]
            }
        },
        Message::Zones(Err(e)) => {
            &&& new == Screens {
                zones: Loadable::Failed(e),
                pending_zone_picker: false,
                status: Some((e, StatusKind::Error)),
                ..old
            }
            &&& follow == Seq::<FollowUp>::empty()
        },
        Message::ServiceCount { service, result } => {
            &&& services_distinct(new.service_counts@)
            &&& entry_of(new.service_counts@, service) == Some(count_result_state(result))
            &&& forall|t: Service| t != service ==> #[trigger] entry_of(new.service_counts@, t) == entry_of(old.service_counts@, t)
            &&& new == Screens { service_counts: new.service_counts, ..old }
            &&& follow == Seq::<FollowUp>::empty()
        },
        Message::Bills(result) => {
            &&& new == Screens {
                status: status_after(old.status, result),
                billing: BillingState { bills: loadable_of(result), bill_selected: None, ..old.billing },
                ..old
            }
            &&& follow == seq![FollowUp::EnsureLoaded]
        },
        Message::BillDetails { id, result } => {
            &&& text_map_put(old.billing.details@, new.billing.details@, id@, loadable_of(result))
            &&& new == Screens {
                status: status_after(old.status, result),
                billing: BillingState {
                    details: new.billing.details,
                    detail_selected: None,
                    summary_selected: None,
                    ..old.billing
                },
                ..old
            }
            &&& follow == seq![FollowUp::EnsureLoaded]
        },
        Message::CloudHsmHsms { zone, result } => {
            &&& text_map_put(old.cloudhsm.hsms@, new.cloudhsm.hsms@, zone@, loadable_of(result))
            &&& new == Screens {
                status: status_after(old.status, result),
                cloudhsm: CloudHsmState { hsms: new.cloudhsm.hsms, client_selected: None, ..old.cloudhsm },
                ..old
            }
            &&& follow == seq![FollowUp::FillSelection(Pane::CloudHsmHsms), FollowUp::CloudHsmEnsureLoaded]
        },
        Message::CloudHsmClients { hsm_id, result } => {
            &&& text_map_put(old.cloudhsm.clients@, new.cloudhsm.clients@, hsm_id@, loadable_of(result))
            &&& new == Screens {
                status: status_after(old.status, result),
                cloudhsm: CloudHsmState { clients: new.cloudhsm.clients, ..old.cloudhsm },
                ..old
            }
            &&& follow == seq![FollowUp::FillSelection(Pane::CloudHsmClients)]
        },
        Message::CloudHsmLicenses { zone, result } => {
            &&& text_map_put(old.cloudhsm.licenses@, new.cloudhsm.licenses@, zone@, loadable_of(result))
            &&& new == Screens {
                status: status_after(old.status, result),
                cloudhsm: CloudHsmState { licenses: new.cloudhsm.licenses, document_selected: None, ..old.cloudhsm },
                ..old
            }
            &&& follow == seq![FollowUp::FillSelection(Pane::CloudHsmLicenses), FollowUp::CloudHsmEnsureLoaded]
        },
        Message::CloudHsmDocuments { license_id, result } => {
            &&& text_map_put(old.cloudhsm.documents@, new.cloudhsm.documents@, license_id@, loadable_of(result))
            &&& new == Screens {
                status: status_after(old.status, result),
                cloudhsm: CloudHsmState { documents: new.cloudhsm.documents, ..old.cloudhsm },
                ..old
            }
            &&& follow == seq![FollowUp::FillSelection(Pane::CloudHsmDocuments)]
        },
        Message::Applications(Ok(items)) => {
            &&& status_says(new.status, "AppRun アプリ "@ + decimal(items@.len()) + " 件"@)
            &&& new == Screens {
                status: new.status,
                apprun: AppRunState { applications: Loadable::Ready(items), application_selected: None, ..old.apprun },
                ..old
            }
            &&& follow == seq![FollowUp::EnsureLoaded]
        },
        Message::Applications(Err(e)) => {
            &&& new == Screens {
                status: Some((e, StatusKind::Error)),
                apprun: AppRunState { applications: Loadable::Failed(e), ..old.apprun },
                ..old
            }
            &&& follow == Seq::<FollowUp>::empty()
        },
        Message::ApplicationDetail { id, result } => {
            &&& text_map_put(old.apprun.details@, new.apprun.details@, id@, loadable_of(result))
            &&& new == Screens { apprun: AppRunState { details: new.apprun.details, ..old.apprun }, ..old }
            &&& follow == Seq::<FollowUp>::empty()
        },
        Message::Versions { id, result } => {
            &&& text_map_put(old.apprun.versions@, new.apprun.versions@, id@, loadable_of(result))
            &&& new == Screens {
                status: status_after(old.status, result),
                apprun: AppRunState {
                    versions: new.apprun.versions,
                    version_selected: if result is Ok { None } else { old.apprun.version_selected },
                    ..old.apprun
                },
                ..old
            }
            &&& follow == if result is Ok { seq![FollowUp::EnsureLoaded] } else { Seq::<FollowUp>::empty() }
        },
        Message::Traffics { id, result } => {
            &&& text_map_put(old.apprun.traffics@, new.apprun.traffics@, id@, loadable_of(result))
            &&& new == Screens { apprun: AppRunState { traffics: new.apprun.traffics, ..old.apprun }, ..old }
            &&& follow == Seq::<FollowUp>::empty()
        },
        Message::AppRunAction { id, label, result } => match result {
            Ok(_) => {
                &&& new.status matches Some((t, StatusKind::Success)) && t@ == label@ + "しました"@
                &&& text_map_put(old.apprun.traffics@, new.apprun.traffics@, id@, Loadable::Idle)
                &&& text_map_put(old.apprun.versions@, new.apprun.versions@, id@, Loadable::Idle)
                &&& new == Screens {
                    status: new.status,
                    apprun: AppRunState { traffics: new.apprun.traffics, versions: new.apprun.versions, ..old.apprun },
                    ..old
                }
                &&& follow == seq![FollowUp::EnsureLoaded]
            },
            Err(e) => {
                &&& new == Screens { status: Some((e, StatusKind::Error)), ..old }
                &&& follow.len() == 1
                &&& follow[0] matches FollowUp::ShowError { title, body } && title@ == label@ + "に失敗しました"@ && body == e
            },
        },
        Message::Clusters(Ok(items)) => {
            &&& status_says(new.status, "クラスタ "@ + decimal(items@.len()) + " 件"@)
            &&& new == Screens {
                status: new.status,
                dedicated: DedicatedState { clusters: Loadable::Ready(items), cluster_selected: None, ..old.dedicated },
                ..old
            }
            &&& follow == seq![FollowUp::AfterClusterChange, FollowUp::EnsureLoaded]
        },
        Message::Clusters(Err(e)) => {
            &&& new == Screens {
                status: Some((e, StatusKind::Error)),
                dedicated: DedicatedState { clusters: Loadable::Failed(e), ..old.dedicated },
                ..old
            }
            &&& follow == Seq::<FollowUp>::empty()
        },
        Message::ClusterDetail { id, result } => {
            &&& text_map_put(old.dedicated.details@, new.dedicated.details@, id@, loadable_of(result))
            &&& new == Screens { dedicated: DedicatedState { details: new.dedicated.details, ..old.dedicated }, ..old }
            &&& follow == Seq::<FollowUp>::empty()
        },
        Message::DedicatedApplications { cluster, result } => {
            &&& text_map_put(old.dedicated.applications@, new.dedicated.applications@, cluster@, loadable_of(result))
            &&& new == Screens {
                status: status_after(old.status, result),
                dedicated: DedicatedState {
                    applications: new.dedicated.applications,
                    application_selected: None,
                    ..old.dedicated
                },
                ..old
            }
            &&& follow == seq![FollowUp::EnsureLoaded]
        },
        Message::ScalingGroups { cluster, result } => {
            &&& text_map_put(old.dedicated.scaling_groups@, new.dedicated.scaling_groups@, cluster@, loadable_of(result))
            &&& new == Screens {
                status: status_after(old.status, result),
                dedicated: DedicatedState {
                    scaling_groups: new.dedicated.scaling_groups,
                    scaling_group_selected: None,
                    ..old.dedicated
                },
                ..old
            }
            &&& follow == seq![FollowUp::EnsureLoaded]
        },
        Message::Certificates { cluster, result } => {
            &&& text_map_put(old.dedicated.certificates@, new.dedicated.certificates@, cluster@, loadable_of(result))
            &&& new == Screens {
                status: status_after(old.status, result),
                dedicated: DedicatedState {
                    certificates: new.dedicated.certificates,
                    certificate_selected: None,
                    ..old.dedicated
                },
                ..old
            }
            &&& follow == seq![FollowUp::EnsureLoaded]
        },
    }
}

/// `prefix`, the count in decimal, then `suffix`.
fn count_text(prefix: &str, n: usize, suffix: &str) -> (r: String)
    ensures
        r@ == prefix@ + decimal(n as nat) + suffix@,
{
    let mut out = chars_of(prefix);
    let mut digits = u64_to_decimal(n as u64);
    out.append(&mut digits);
    let mut tail = chars_of(suffix);
    out.append(&mut tail);
    string_from_chars(&out)
}

/// `text` followed by `suffix`.
fn count_free_text(text: &str, suffix: &str) -> (r: String)
    ensures
        r@ == text@ + suffix@,
{
    let mut out = chars_of(text);
    let mut tail = chars_of(suffix);
    out.append(&mut tail);
    string_from_chars(&out)
}

/// Stores a result, reporting its failure in the status bar.
fn store<T>(status: &mut Option<(String, StatusKind)>, result: Result<T, String>) -> (r: Loadable<T>)
    ensures
        r == loadable_of(result),
        *final(status) == status_after(*old(status), result),
{
    match result {
        Ok(v) => Loadable::Ready(v),
        Err(e) => {
            *status = Some((e.clone(), StatusKind::Error));
            Loadable::Failed(e)
        },
    }
}

/// Applies a result that arrived from a request sent under credential
/// generation `sent`. A result of earlier credentials is dropped and leaves the
/// screens as they were; otherwise it is stored as [`applied`] states, and the
/// follow-ups are returned.
pub fn apply_message(state: &mut Screens, session: &mut Session, sent: u64, m: Message) -> (follow: Vec<FollowUp>)
    requires
        screens_wf(*old(state)),
    ensures
        screens_wf(*final(state)),
        final(session).epoch == old(session).epoch,
        final(session).inflight == if old(session).inflight == 0 { 0 } else { old(session).inflight - 1 },
        spec_accepts_message(old(session).epoch, sent, m.spec_kind()) ==> applied(*old(state), m, *final(state), follow@),
        !spec_accepts_message(old(session).epoch, sent, m.spec_kind()) ==> (*final(state) == *old(state) && follow@ == Seq::<FollowUp>::empty()),
{
    if !session.result_arrived(sent, MessageKind::Other) {
        return Vec::new();
    }
    let mut follow: Vec<FollowUp> = Vec::new();
    match m {
        Message::Zones(Ok(zones)) => {
            state.zones = Loadable::Ready(zones);
            follow.push(FollowUp::LoadZoneCounts);
            if state.pending_zone_picker {
                state.pending_zone_picker = false;
                follow.push(FollowUp::OpenZonePicker);
                assert(follow@ =~= seq![FollowUp::LoadZoneCounts, FollowUp::OpenZonePicker]);
            } else {
                assert(follow@ =~= seq![FollowUp::LoadZoneCounts]);
            }
        },
        Message::Zones(Err(e)) => {
            state.zones = Loadable::Failed(e.clone());
            state.pending_zone_picker = false;
            state.status = Some((e, StatusKind::Error));
        },
        Message::ServiceCount { service, result } => {
            record_service_count(&mut state.service_counts, service, result);
        },
        Message::Bills(result) => {
            state.billing.bills = store(&mut state.status, result);
            state.billing.bill_selected = None;
            follow.push(FollowUp::EnsureLoaded);
        },
        Message::BillDetails { id, result } => {
            let loadable = store(&mut state.status, result);
            put_text_entry(&mut state.billing.details, id, loadable);
            state.billing.detail_selected = None;
            state.billing.summary_selected = None;
            follow.push(FollowUp::EnsureLoaded);
        },
        Message::CloudHsmHsms { zone, result } => {
            let loadable = store(&mut state.status, result);
            put_text_entry(&mut state.cloudhsm.hsms, zone, loadable);
            state.cloudhsm.client_selected = None;
            follow.push(FollowUp::FillSelection(Pane::CloudHsmHsms));
            follow.push(FollowUp::CloudHsmEnsureLoaded);
            assert(follow@ =~= seq![FollowUp::FillSelection(Pane::CloudHsmHsms), FollowUp::CloudHsmEnsureLoaded]);
        },
        Message::CloudHsmClients { hsm_id, result } => {
            let loadable = store(&mut state.status, result);
            put_text_entry(&mut state.cloudhsm.clients, hsm_id, loadable);
            follow.push(FollowUp::FillSelection(Pane::CloudHsmClients));
        },
        Message::CloudHsmLicenses { zone, result } => {
            let loadable = store(&mut state.status, result);
            put_text_entry(&mut state.cloudhsm.licenses, zone, loadable);
            state.cloudhsm.document_selected = None;
            follow.push(FollowUp::FillSelection(Pane::CloudHsmLicenses));
            follow.push(FollowUp::CloudHsmEnsureLoaded);
            assert(follow@ =~= seq![FollowUp::FillSelection(Pane::CloudHsmLicenses), FollowUp::CloudHsmEnsureLoaded]);
        },
        Message::CloudHsmDocuments { license_id, result } => {
            let loadable = store(&mut state.status, result);
            put_text_entry(&mut state.cloudhsm.documents, license_id, loadable);
            follow.push(FollowUp::FillSelection(Pane::CloudHsmDocuments));
        },
        Message::Applications(Ok(items)) => {
            let text = count_text("AppRun アプリ ", items.len(), " 件");
            state.apprun.applications = Loadable::Ready(items);
            state.apprun.application_selected = None;
            state.status = Some((text, StatusKind::Info));
            follow.push(FollowUp::EnsureLoaded);
        },
        Message::Applications(Err(e)) => {
            state.apprun.applications = Loadable::Failed(e.clone());
            state.status = Some((e, StatusKind::Error));
        },
        Message::ApplicationDetail { id, result } => {
            let loadable = match result {
                Ok(detail) => Loadable::Ready(detail),
                Err(e) => Loadable::Failed(e),
            };
            put_text_entry(&mut state.apprun.details, id, loadable);
        },
        Message::Versions { id, result } => {
            match result {
                Ok(versions) => {
                    state.apprun.version_selected = None;
                    put_text_entry(&mut state.apprun.versions, id, Loadable::Ready(versions));
                    follow.push(FollowUp::EnsureLoaded);
                },
                Err(e) => {
                    state.status = Some((e.clone(), StatusKind::Error));
                    put_text_entry(&mut state.apprun.versions, id, Loadable::Failed(e));
                },
            }
        },
        Message::Traffics { id, result } => {
            let loadable = match result {
                Ok(t) => Loadable::Ready(t),
                Err(e) => Loadable::Failed(e),
            };
            put_text_entry(&mut state.apprun.traffics, id, loadable);
        },
        Message::AppRunAction { id, label, result } => match result {
            Ok(()) => {
                let text = count_free_text(label.as_str(), "しました");
                state.status = Some((text, StatusKind::Success));
                let again = id.clone();
                put_text_entry(&mut state.apprun.traffics, id, Loadable::Idle);
                put_text_entry(&mut state.apprun.versions, again, Loadable::Idle);
                follow.push(FollowUp::EnsureLoaded);
            },
            Err(e) => {
                let title = count_free_text(label.as_str(), "に失敗しました");
                state.status = Some((e.clone(), StatusKind::Error));
                follow.push(FollowUp::ShowError { title, body: e });
            },
        },
        Message::Clusters(Ok(items)) => {
            let text = count_text("クラスタ ", items.len(), " 件");
            state.dedicated.clusters = Loadable::Ready(items);
            state.dedicated.cluster_selected = None;
            state.status = Some((text, StatusKind::Info));
            follow.push(FollowUp::AfterClusterChange);
            follow.push(FollowUp::EnsureLoaded);
            assert(follow@ =~= seq![FollowUp::AfterClusterChange, FollowUp::EnsureLoaded]);
        },
        Message::Clusters(Err(e)) => {
            state.dedicated.clusters = Loadable::Failed(e.clone());
            state.status = Some((e, StatusKind::Error));
        },
        Message::ClusterDetail { id, result } => {
            let loadable = match result {
                Ok(detail) => Loadable::Ready(detail),
                Err(e) => Loadable::Failed(e),
            };
            put_text_entry(&mut state.dedicated.details, id, loadable);
        },
        Message::DedicatedApplications { cluster, result } => {
            let loadable = store(&mut state.status, result);
            put_text_entry(&mut state.dedicated.applications, cluster, loadable);
            state.dedicated.application_selected = None;
            follow.push(FollowUp::EnsureLoaded);
        },
        Message::ScalingGroups { cluster, result } => {
            let loadable = store(&mut state.status, result);
            put_text_entry(&mut state.dedicated.scaling_groups, cluster, loadable);
            state.dedicated.scaling_group_selected = None;
            follow.push(FollowUp::EnsureLoaded);
        },
        Message::Certificates { cluster, result } => {
            let loadable = store(&mut state.status, result);
            put_text_entry(&mut state.dedicated.certificates, cluster, loadable);
            state.dedicated.certificate_selected = None;
            follow.push(FollowUp::EnsureLoaded);
        },
    }
    follow
}

/// A result of the credentials in use is stored; one sent under earlier
/// credentials leaves every screen as it was.
pub proof fn law_stale_results_change_nothing(epoch: u64, sent: u64, m: Message)
    ensures
        sent == epoch ==> spec_accepts_message(epoch, sent, m.spec_kind()),
        sent != epoch ==> !spec_accepts_message(epoch, sent, m.spec_kind()),
{
}

} // verus!
