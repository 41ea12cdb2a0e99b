//! AppRun (dedicated type), read only: clusters with their auto scaling groups,
//! worker nodes and certificates, listed page by page with a cursor.

use vstd::prelude::*;

use crate::api_error::{build_error_message, deref_opt, error_message};
use crate::json::{
    bool_field, int_field, is_missing_in_array, is_record, list_field, member, missing_in_array, opt_i64_field,
    opt_text_field, record_shape, spec_bool_field, spec_int_field, spec_list_field, spec_member,
    spec_opt_i64_field, spec_opt_text_field, spec_text_field, spec_text_list_field, text_field, text_list_field,
    texts_view, JsonValue,
};
use crate::text::{chars_of, decimal, str_eq, string_from_chars, trim_end_matches, trim_end_matches_str, u64_to_decimal};

verus! {

/// Items asked for per page.
pub const PAGE_SIZE: usize = 100;

/// Pages followed at most, so that an API that keeps answering with the same
/// cursor cannot keep the paging going.
pub const MAX_PAGES: usize = 100;

/// A port the load balancer listens on.
#[derive(Debug, Clone)]
pub struct Port {
    pub port: u32,
    pub protocol: String,
}

impl Port {
    /// The port as shown: number, `/`, protocol.
    pub fn to_string(&self) -> (r: String)
        ensures
            r@ == decimal(self.port as nat) + seq!['/'] + self.protocol@,
    {
        let mut out = u64_to_decimal(self.port as u64);
        out.push('/');
        let mut protocol = chars_of(self.protocol.as_str());
        out.append(&mut protocol);
        string_from_chars(&out)
    }
}

/// One cluster.
#[derive(Debug, Clone)]
pub struct Cluster {
    pub id: String,
    pub name: String,
    /// Creation time, in Unix seconds.
    pub created: Option<i64>,
    /// Filled by the detail request only.
    pub ports: Vec<Port>,
    pub service_principal_id: String,
    pub has_lets_encrypt_email: bool,
}

/// One application of a cluster.
#[derive(Debug, Clone)]
pub struct Application {
    pub id: String,
    pub name: String,
    pub active_version: Option<i64>,
    pub desired_count: Option<i64>,
    pub scaling_cooldown_seconds: Option<i64>,
}

/// One auto scaling group.
#[derive(Debug, Clone)]
pub struct AutoScalingGroup {
    pub id: String,
    pub name: String,
    pub zone: String,
    pub service_class: String,
    pub min_nodes: Option<i64>,
    pub max_nodes: Option<i64>,
    pub worker_node_count: Option<i64>,
    pub deleting: bool,
}

/// One worker node.
#[derive(Debug, Clone)]
pub struct WorkerNode {
    pub id: String,
    pub status: String,
    pub draining: bool,
    pub archive_version: String,
    pub created: Option<i64>,
    pub error_message: String,
}

/// One certificate.
#[derive(Debug, Clone)]
pub struct Certificate {
    pub name: String,
    pub common_name: String,
    pub alternative_names: Vec<String>,
    /// Expiry, in Unix seconds.
    pub not_after: Option<i64>,
}

/// The root of the dedicated AppRun API, from the root of the IaaS API.
pub open spec fn spec_api_root(iaas_root: Seq<char>) -> Seq<char> {
    trim_end_matches(iaas_root, "/zone"@) + "/api/apprun-dedicated/1.0"@
}

pub fn api_root(iaas_root: &str) -> (r: String)
    ensures
        r@ == spec_api_root(iaas_root@),
{
    let mut out = trim_end_matches_str(iaas_root, "/zone");
    let mut tail = chars_of("/api/apprun-dedicated/1.0");
    out.append(&mut tail);
    string_from_chars(&out)
}

/// The cursor to fetch next after `pages` pages, or `None` to stop: a page must
/// have brought something and the API must have moved to a different cursor,
/// within the page limit.
pub open spec fn spec_advance_cursor(current: Option<Seq<char>>, received: nat, next: Option<Seq<char>>, pages: nat) -> Option<Seq<char>> {
    match next {
        Some(n) => if received > 0 && current != Some(n) && pages < MAX_PAGES {
            Some(n)
        } else {
            None
        },
        None => None,
    }
}

pub fn advance_cursor(current: &Option<String>, received: usize, next: Option<String>, pages: usize) -> (r: Option<String>)
    ensures
        crate::billing::opt_text(r) == spec_advance_cursor(
            crate::billing::opt_text(*current),
            received as nat,
            crate::billing::opt_text(next),
            pages as nat,
        ),
{
    match next {
        Some(n) => {
            let same = match current {
                Some(c) => str_eq(c.as_str(), n.as_str()),
                None => false,
            };
            if received > 0 && !same && pages < MAX_PAGES {
                Some(n)
            } else {
                None
            }
        },
        None => None,
    }
}

/// The query of a page request: the page size, and the cursor when there is one.
pub fn page_query(cursor: Option<String>) -> (r: Vec<(&'static str, String)>)
    ensures
        r@.len() == (if cursor is Some { 2int } else { 1int }),
        r@[0].0@ == "maxItems"@ && r@[0].1@ == decimal(PAGE_SIZE as nat),
        cursor is Some ==> r@[1].0@ == "cursor"@ && r@[1].1@ == cursor->0@,
{
    let mut query: Vec<(&'static str, String)> = Vec::new();
    query.push(("maxItems", string_from_chars(&u64_to_decimal(PAGE_SIZE as u64))));
    match cursor {
        Some(c) => query.push(("cursor", c)),
        None => {},
    }
    query
}

/// The list of a cursor page under `key`.
pub open spec fn page_items(v: JsonValue, key: Seq<char>) -> Seq<JsonValue> {
    spec_list_field(spec_member(v, key, 0))->0
}

/// The cursor of the next page, if any.
pub open spec fn next_cursor_field(v: JsonValue) -> Option<Seq<char>> {
    spec_opt_text_field(spec_member(v, "nextCursor"@, 1))->0
}

/// A cursor page decodes: a record with the list under `key` (`null` or absent
/// meaning none) and `nextCursor`.
pub open spec fn cursor_page_ok(v: JsonValue, key: Seq<char>) -> bool {
    &&& record_shape(v, 2)
    &&& spec_list_field(spec_member(v, key, 0)) is Some
    &&& !missing_in_array(v, 1)
    &&& spec_opt_text_field(spec_member(v, "nextCursor"@, 1)) is Some
}

fn cursor_page_parts<'a>(v: &'a JsonValue, key: &str) -> (r: Option<(Option<&'a Vec<JsonValue>>, Option<String>)>)
    ensures
        r is Some <==> cursor_page_ok(*v, key@),
        r is Some && (r->0).0 is None ==> page_items(*v, key@).len() == 0,
        r is Some && (r->0).0 is Some ==> (r->0).0->0@ == page_items(*v, key@),
        r is Some ==> crate::billing::opt_text((r->0).1) == next_cursor_field(*v),
{
    if !is_record(v, 2) {
        return None;
    }
    let list = match list_field(v, key, 0) {
        Some(l) => l,
        None => return None,
    };
    if is_missing_in_array(v, 1) {
        return None;
    }
    match opt_text_field(v, "nextCursor", 1) {
        Some(next) => Some((list, next)),
        None => None,
    }
}

/// The ports field decodes: a list of port records (`null` or absent meaning none).
pub open spec fn ports_ok(f: Option<JsonValue>) -> bool {
    &&& spec_list_field(f) is Some
    &&& forall|i: int| 0 <= i < spec_list_field(f)->0.len() ==> decode_port_ok(&#[trigger] spec_list_field(f)->0[i])
}

/// The ports read from the ports field.
pub open spec fn ports_match(ports: Seq<Port>, f: Option<JsonValue>) -> bool {
    &&& ports.len() == spec_list_field(f)->0.len()
    &&& forall|i: int| 0 <= i < ports.len() ==> port_fields(&#[trigger] ports[i], &spec_list_field(f)->0[i])
}

fn ports_field(rec: &JsonValue, key: &str, pos: usize) -> (r: Option<Vec<Port>>)
    ensures
        r is Some <==> ports_ok(spec_member(*rec, key@, pos as int)),
        r is Some ==> ports_match(r->0@, spec_member(*rec, key@, pos as int)),
{
    let ghost items = spec_list_field(spec_member(*rec, key@, pos as int))->0;
    let mut out: Vec<Port> = Vec::new();
    match list_field(rec, key, pos) {
        None => return None,
        Some(None) => {},
        Some(Some(list)) => {
            let mut i: usize = 0;
            while i < list.len()
                invariant
                    i <= list.len(),
                    list@ == items,
                    items == spec_list_field(spec_member(*rec, key@, pos as int))->0,
                    out.len() == i,
                    forall|m: int| 0 <= m < i ==> decode_port_ok(&#[trigger] items[m]),
                    forall|m: int| 0 <= m < i ==> port_fields(&#[trigger] out@[m], &items[m]),
                decreases list.len() - i,
            {
                match decode_port(&list[i]) {
                    Some(p) => out.push(p),
                    None => {
                        assert(!decode_port_ok(&items[i as int]));
                        return None;
                    },
                }
                i = i + 1;
            }
        },
    }
    Some(out)
}

/// The cluster of a detail response: the record under `cluster`, which must be there.
pub fn cluster_detail(v: &JsonValue) -> (r: Option<Cluster>)
    ensures
        r is Some <==> (record_shape(*v, 1) && (spec_member(*v, "cluster"@, 0) matches Some(c) && decode_cluster_ok(&c))),
        r is Some ==> cluster_fields(&r->0, &spec_member(*v, "cluster"@, 0)->0),
{
    if !is_record(v, 1) {
        return None;
    }
    match member(v, "cluster", 0) {
        Some(c) => decode_cluster(c),
        None => None,
    }
}

/// The advice added to a 403 answer: the dedicated API needs the permission on
/// the API key and a service principal set on the cluster.
pub open spec fn forbidden_hint() -> Seq<char> {
    "\n\nAppRun専有型 API には、APIキーに専有型の権限があることと、\n\
     クラスタに紐づくサービスプリンシパルが設定されていることが必要です。"@
}

/// The message for an error answer: the status, the summary and detail of the
/// error record (or the head of the body), and advice for 401 and 403. `parsed`
/// is the body read as JSON, when it is JSON.
pub fn format_api_error(code: u16, body: &str, parsed: Option<&JsonValue>) -> (r: String)
    requires
        100 <= code <= 999,
    ensures
        r@ == error_message(
            "AppRun専有型"@,
            code,
            body@,
            deref_opt(parsed),
            forbidden_hint(),
        ),
{
    let hint = chars_of(
        "\n\nAppRun専有型 API には、APIキーに専有型の権限があることと、\n\
     クラスタに紐づくサービスプリンシパルが設定されていることが必要です。",
    );
    build_error_message("AppRun専有型", code, body, parsed, &hint)
}

/// The fields of `value` are those read from `rec`.
pub open spec fn port_fields(value: &Port, rec: &JsonValue) -> bool {
    &&& value.port as int == spec_int_field(spec_member(*rec, "port"@, 0), 0, u32::MAX as int)->0
    &&& value.protocol@ == spec_text_field(spec_member(*rec, "protocol"@, 1))->0
}

/// The record decodes: it has a record's shape and every field reads.
pub open spec fn decode_port_ok(rec: &JsonValue) -> bool {
    &&& record_shape(*rec, 2)
    &&& spec_int_field(spec_member(*rec, "port"@, 0), 0, u32::MAX as int) is Some
    &&& spec_text_field(spec_member(*rec, "protocol"@, 1)) is Some
}

/// Reads one port of a cluster.
pub fn decode_port(rec: &JsonValue) -> (r: Option<Port>)
    ensures
        r is Some <==> decode_port_ok(rec),
        r is Some ==> port_fields(&r->0, rec),
{
    if !is_record(rec, 2) {
        return None;
    }
    let v_port: u32 = match int_field(rec, "port", 0, 0, u32::MAX as u64) { Some(x) => x as u32, None => return None };
    let v_protocol = match text_field(rec, "protocol", 1) { Some(x) => x, None => return None };
    Some(Port { port: v_port, protocol: v_protocol })
}

/// The fields of `value` are those read from `rec`.
pub open spec fn cluster_fields(value: &Cluster, rec: &JsonValue) -> bool {
    &&& value.id@ == spec_text_field(spec_member(*rec, "clusterID"@, 0))->0
    &&& value.name@ == spec_text_field(spec_member(*rec, "name"@, 1))->0
    &&& value.created == spec_opt_i64_field(spec_member(*rec, "created"@, 2))->0
    &&& ports_match(value.ports@, spec_member(*rec, "ports"@, 3))
    &&& value.service_principal_id@ == spec_text_field(spec_member(*rec, "servicePrincipalID"@, 4))->0
    &&& value.has_lets_encrypt_email == spec_bool_field(spec_member(*rec, "hasLetsEncryptEmail"@, 5))->0
}

/// The record decodes: it has a record's shape and every field reads.
pub open spec fn decode_cluster_ok(rec: &JsonValue) -> bool {
    &&& record_shape(*rec, 6)
    &&& spec_text_field(spec_member(*rec, "clusterID"@, 0)) is Some
    &&& spec_text_field(spec_member(*rec, "name"@, 1)) is Some
    &&& !missing_in_array(*rec, 2) && spec_opt_i64_field(spec_member(*rec, "created"@, 2)) is Some
    &&& ports_ok(spec_member(*rec, "ports"@, 3))
    &&& spec_text_field(spec_member(*rec, "servicePrincipalID"@, 4)) is Some
    &&& spec_bool_field(spec_member(*rec, "hasLetsEncryptEmail"@, 5)) is Some
}

/// Reads one cluster.
pub fn decode_cluster(rec: &JsonValue) -> (r: Option<Cluster>)
    ensures
        r is Some <==> decode_cluster_ok(rec),
        r is Some ==> cluster_fields(&r->0, rec),
{
    if !is_record(rec, 6) {
        return None;
    }
    let v_id = match text_field(rec, "clusterID", 0) { Some(x) => x, None => return None };
    let v_name = match text_field(rec, "name", 1) { Some(x) => x, None => return None };
    if is_missing_in_array(rec, 2) { return None; }
    let v_created = match opt_i64_field(rec, "created", 2) { Some(x) => x, None => return None };
    let v_ports = match ports_field(rec, "ports", 3) { Some(x) => x, None => return None };
    let v_service_principal_id = match text_field(rec, "servicePrincipalID", 4) { Some(x) => x, None => return None };
    let v_has_lets_encrypt_email = match bool_field(rec, "hasLetsEncryptEmail", 5) { Some(x) => x, None => return None };
    Some(Cluster { id: v_id, name: v_name, created: v_created, ports: v_ports, service_principal_id: v_service_principal_id, has_lets_encrypt_email: v_has_lets_encrypt_email })
}

/// The fields of `value` are those read from `rec`.
pub open spec fn application_fields(value: &Application, rec: &JsonValue) -> bool {
    &&& value.id@ == spec_text_field(spec_member(*rec, "applicationID"@, 0))->0
    &&& value.name@ == spec_text_field(spec_member(*rec, "name"@, 1))->0
    &&& value.active_version == spec_opt_i64_field(spec_member(*rec, "activeVersion"@, 2))->0
    &&& value.desired_count == spec_opt_i64_field(spec_member(*rec, "desiredCount"@, 3))->0
    &&& value.scaling_cooldown_seconds == spec_opt_i64_field(spec_member(*rec, "scalingCooldownSeconds"@, 4))->0
}

/// The record decodes: it has a record's shape and every field reads.
pub open spec fn decode_application_ok(rec: &JsonValue) -> bool {
    &&& record_shape(*rec, 5)
    &&& spec_text_field(spec_member(*rec, "applicationID"@, 0)) is Some
    &&& spec_text_field(spec_member(*rec, "name"@, 1)) is Some
    &&& !missing_in_array(*rec, 2) && spec_opt_i64_field(spec_member(*rec, "activeVersion"@, 2)) is Some
    &&& !missing_in_array(*rec, 3) && spec_opt_i64_field(spec_member(*rec, "desiredCount"@, 3)) is Some
    &&& !missing_in_array(*rec, 4) && spec_opt_i64_field(spec_member(*rec, "scalingCooldownSeconds"@, 4)) is Some
}

/// Reads one application.
pub fn decode_application(rec: &JsonValue) -> (r: Option<Application>)
    ensures
        r is Some <==> decode_application_ok(rec),
        r is Some ==> application_fields(&r->0, rec),
{
    if !is_record(rec, 5) {
        return None;
    }
    let v_id = match text_field(rec, "applicationID", 0) { Some(x) => x, None => return None };
    let v_name = match text_field(rec, "name", 1) { Some(x) => x, None => return None };
    if is_missing_in_array(rec, 2) { return None; }
    let v_active_version = match opt_i64_field(rec, "activeVersion", 2) { Some(x) => x, None => return None };
    if is_missing_in_array(rec, 3) { return None; }
    let v_desired_count = match opt_i64_field(rec, "desiredCount", 3) { Some(x) => x, None => return None };
    if is_missing_in_array(rec, 4) { return None; }
    let v_scaling_cooldown_seconds = match opt_i64_field(rec, "scalingCooldownSeconds", 4) { Some(x) => x, None => return None };
    Some(Application { id: v_id, name: v_name, active_version: v_active_version, desired_count: v_desired_count, scaling_cooldown_seconds: v_scaling_cooldown_seconds })
}

/// The fields of `value` are those read from `rec`.
pub open spec fn asg_fields(value: &AutoScalingGroup, rec: &JsonValue) -> bool {
    &&& value.id@ == spec_text_field(spec_member(*rec, "autoScalingGroupID"@, 0))->0
    &&& value.name@ == spec_text_field(spec_member(*rec, "name"@, 1))->0
    &&& value.zone@ == spec_text_field(spec_member(*rec, "zone"@, 2))->0
    &&& value.service_class@ == spec_text_field(spec_member(*rec, "workerServiceClassPath"@, 3))->0
    &&& value.min_nodes == spec_opt_i64_field(spec_member(*rec, "minNodes"@, 4))->0
    &&& value.max_nodes == spec_opt_i64_field(spec_member(*rec, "maxNodes"@, 5))->0
    &&& value.worker_node_count == spec_opt_i64_field(spec_member(*rec, "workerNodeCount"@, 6))->0
    &&& value.deleting == spec_bool_field(spec_member(*rec, "deleting"@, 7))->0
}

/// The record decodes: it has a record's shape and every field reads.
pub open spec fn decode_asg_ok(rec: &JsonValue) -> bool {
    &&& record_shape(*rec, 8)
    &&& spec_text_field(spec_member(*rec, "autoScalingGroupID"@, 0)) is Some
    &&& spec_text_field(spec_member(*rec, "name"@, 1)) is Some
    &&& spec_text_field(spec_member(*rec, "zone"@, 2)) is Some
    &&& spec_text_field(spec_member(*rec, "workerServiceClassPath"@, 3)) is Some
    &&& !missing_in_array(*rec, 4) && spec_opt_i64_field(spec_member(*rec, "minNodes"@, 4)) is Some
    &&& !missing_in_array(*rec, 5) && spec_opt_i64_field(spec_member(*rec, "maxNodes"@, 5)) is Some
    &&& !missing_in_array(*rec, 6) && spec_opt_i64_field(spec_member(*rec, "workerNodeCount"@, 6)) is Some
    &&& spec_bool_field(spec_member(*rec, "deleting"@, 7)) is Some
}

/// Reads one auto scaling group.
pub fn decode_asg(rec: &JsonValue) -> (r: Option<AutoScalingGroup>)
    ensures
        r is Some <==> decode_asg_ok(rec),
        r is Some ==> asg_fields(&r->0, rec),
{
    if !is_record(rec, 8) {
        return None;
    }
    let v_id = match text_field(rec, "autoScalingGroupID", 0) { Some(x) => x, None => return None };
    let v_name = match text_field(rec, "name", 1) { Some(x) => x, None => return None };
    let v_zone = match text_field(rec, "zone", 2) { Some(x) => x, None => return None };
    let v_service_class = match text_field(rec, "workerServiceClassPath", 3) { Some(x) => x, None => return None };
    if is_missing_in_array(rec, 4) { return None; }
    let v_min_nodes = match opt_i64_field(rec, "minNodes", 4) { Some(x) => x, None => return None };
    if is_missing_in_array(rec, 5) { return None; }
    let v_max_nodes = match opt_i64_field(rec, "maxNodes", 5) { Some(x) => x, None => return None };
    if is_missing_in_array(rec, 6) { return None; }
    let v_worker_node_count = match opt_i64_field(rec, "workerNodeCount", 6) { Some(x) => x, None => return None };
    let v_deleting = match bool_field(rec, "deleting", 7) { Some(x) => x, None => return None };
    Some(AutoScalingGroup { id: v_id, name: v_name, zone: v_zone, service_class: v_service_class, min_nodes: v_min_nodes, max_nodes: v_max_nodes, worker_node_count: v_worker_node_count, deleting: v_deleting })
}

/// The fields of `value` are those read from `rec`.
pub open spec fn worker_node_fields(value: &WorkerNode, rec: &JsonValue) -> bool {
    &&& value.id@ == spec_text_field(spec_member(*rec, "workerNodeID"@, 0))->0
    &&& value.status@ == spec_text_field(spec_member(*rec, "status"@, 1))->0
    &&& value.draining == spec_bool_field(spec_member(*rec, "draining"@, 2))->0
    &&& value.archive_version@ == spec_text_field(spec_member(*rec, "archiveVersion"@, 3))->0
    &&& value.created == spec_opt_i64_field(spec_member(*rec, "created"@, 4))->0
    &&& value.error_message@ == spec_text_field(spec_member(*rec, "createErrorMessage"@, 5))->0
}

/// The record decodes: it has a record's shape and every field reads.
pub open spec fn decode_worker_node_ok(rec: &JsonValue) -> bool {
    &&& record_shape(*rec, 6)
    &&& spec_text_field(spec_member(*rec, "workerNodeID"@, 0)) is Some
    &&& spec_text_field(spec_member(*rec, "status"@, 1)) is Some
    &&& spec_bool_field(spec_member(*rec, "draining"@, 2)) is Some
    &&& spec_text_field(spec_member(*rec, "archiveVersion"@, 3)) is Some
    &&& !missing_in_array(*rec, 4) && spec_opt_i64_field(spec_member(*rec, "created"@, 4)) is Some
    &&& spec_text_field(spec_member(*rec, "createErrorMessage"@, 5)) is Some
}

/// Reads one worker node.
pub fn decode_worker_node(rec: &JsonValue) -> (r: Option<WorkerNode>)
    ensures
        r is Some <==> decode_worker_node_ok(rec),
        r is Some ==> worker_node_fields(&r->0, rec),
{
    if !is_record(rec, 6) {
        return None;
    }
    let v_id = match text_field(rec, "workerNodeID", 0) { Some(x) => x, None => return None };
    let v_status = match text_field(rec, "status", 1) { Some(x) => x, None => return None };
    let v_draining = match bool_field(rec, "draining", 2) { Some(x) => x, None => return None };
    let v_archive_version = match text_field(rec, "archiveVersion", 3) { Some(x) => x, None => return None };
    if is_missing_in_array(rec, 4) { return None; }
    let v_created = match opt_i64_field(rec, "created", 4) { Some(x) => x, None => return None };
    let v_error_message = match text_field(rec, "createErrorMessage", 5) { Some(x) => x, None => return None };
    Some(WorkerNode { id: v_id, status: v_status, draining: v_draining, archive_version: v_archive_version, created: v_created, error_message: v_error_message })
}

/// The fields of `value` are those read from `rec`.
pub open spec fn certificate_fields(value: &Certificate, rec: &JsonValue) -> bool {
    &&& value.name@ == spec_text_field(spec_member(*rec, "name"@, 0))->0
    &&& value.common_name@ == spec_text_field(spec_member(*rec, "commonName"@, 1))->0
    &&& texts_view(value.alternative_names@) == spec_text_list_field(spec_member(*rec, "subjectAlternativeNames"@, 2))->0
    &&& value.not_after == spec_opt_i64_field(spec_member(*rec, "notAfterSec"@, 3))->0
}

/// The record decodes: it has a record's shape and every field reads.
pub open spec fn decode_certificate_ok(rec: &JsonValue) -> bool {
    &&& record_shape(*rec, 4)
    &&& spec_text_field(spec_member(*rec, "name"@, 0)) is Some
    &&& spec_text_field(spec_member(*rec, "commonName"@, 1)) is Some
    &&& spec_text_list_field(spec_member(*rec, "subjectAlternativeNames"@, 2)) is Some
    &&& !missing_in_array(*rec, 3) && spec_opt_i64_field(spec_member(*rec, "notAfterSec"@, 3)) is Some
}

/// Reads one certificate.
pub fn decode_certificate(rec: &JsonValue) -> (r: Option<Certificate>)
    ensures
        r is Some <==> decode_certificate_ok(rec),
        r is Some ==> certificate_fields(&r->0, rec),
{
    if !is_record(rec, 4) {
        return None;
    }
    let v_name = match text_field(rec, "name", 0) { Some(x) => x, None => return None };
    let v_common_name = match text_field(rec, "commonName", 1) { Some(x) => x, None => return None };
    let v_alternative_names = match text_list_field(rec, "subjectAlternativeNames", 2) { Some(x) => x, None => return None };
    if is_missing_in_array(rec, 3) { return None; }
    let v_not_after = match opt_i64_field(rec, "notAfterSec", 3) { Some(x) => x, None => return None };
    Some(Certificate { name: v_name, common_name: v_common_name, alternative_names: v_alternative_names, not_after: v_not_after })
}

/// One page of clusters and the cursor of the next page.
pub fn clusters_page(v: &JsonValue) -> (r: Option<(Vec<Cluster>, Option<String>)>)
    ensures
        r is Some <==> cursor_page_ok(*v, "clusters"@) && forall|i: int| 0 <= i < page_items(*v, "clusters"@).len() ==> decode_cluster_ok(&#[trigger] page_items(*v, "clusters"@)[i]),
        r is Some ==> (r->0).0@.len() == page_items(*v, "clusters"@).len(),
        r is Some ==> forall|i: int| 0 <= i < (r->0).0@.len() ==> cluster_fields(&#[trigger] (r->0).0@[i], &page_items(*v, "clusters"@)[i]),
        r is Some ==> crate::billing::opt_text((r->0).1) == next_cursor_field(*v),
{
    let (list, next) = match cursor_page_parts(v, "clusters") {
        Some(p) => p,
        None => return None,
    };
    let ghost items = page_items(*v, "clusters"@);
    let mut out: Vec<Cluster> = Vec::new();
    match list {
        None => {},
        Some(list) => {
            let mut i: usize = 0;
            while i < list.len()
                invariant
                    i <= list.len(),
                    list@ == items,
                    items == page_items(*v, "clusters"@),
                    out.len() == i,
                    forall|m: int| 0 <= m < i ==> decode_cluster_ok(&#[trigger] items[m]),
                    forall|m: int| 0 <= m < i ==> cluster_fields(&#[trigger] out@[m], &items[m]),
                decreases list.len() - i,
            {
                match decode_cluster(&list[i]) {
                    Some(x) => out.push(x),
                    None => {
                        assert(!decode_cluster_ok(&items[i as int]));
                        return None;
                    },
                }
                i = i + 1;
            }
        },
    }
    Some((out, next))
}

/// One page of applications and the cursor of the next page.
pub fn applications_page(v: &JsonValue) -> (r: Option<(Vec<Application>, Option<String>)>)
    ensures
        r is Some <==> cursor_page_ok(*v, "applications"@) && forall|i: int| 0 <= i < page_items(*v, "applications"@).len() ==> decode_application_ok(&#[trigger] page_items(*v, "applications"@)[i]),
        r is Some ==> (r->0).0@.len() == page_items(*v, "applications"@).len(),
        r is Some ==> forall|i: int| 0 <= i < (r->0).0@.len() ==> application_fields(&#[trigger] (r->0).0@[i], &page_items(*v, "applications"@)[i]),
        r is Some ==> crate::billing::opt_text((r->0).1) == next_cursor_field(*v),
{
    let (list, next) = match cursor_page_parts(v, "applications") {
        Some(p) => p,
        None => return None,
    };
    let ghost items = page_items(*v, "applications"@);
    let mut out: Vec<Application> = Vec::new();
    match list {
        None => {},
        Some(list) => {
            let mut i: usize = 0;
            while i < list.len()
                invariant
                    i <= list.len(),
                    list@ == items,
                    items == page_items(*v, "applications"@),
                    out.len() == i,
                    forall|m: int| 0 <= m < i ==> decode_application_ok(&#[trigger] items[m]),
                    forall|m: int| 0 <= m < i ==> application_fields(&#[trigger] out@[m], &items[m]),
                decreases list.len() - i,
            {
                match decode_application(&list[i]) {
                    Some(x) => out.push(x),
                    None => {
                        assert(!decode_application_ok(&items[i as int]));
                        return None;
                    },
                }
                i = i + 1;
            }
        },
    }
    Some((out, next))
}

/// One page of auto scaling groups and the cursor of the next page.
pub fn asg_page(v: &JsonValue) -> (r: Option<(Vec<AutoScalingGroup>, Option<String>)>)
    ensures
        r is Some <==> cursor_page_ok(*v, "autoScalingGroups"@) && forall|i: int| 0 <= i < page_items(*v, "autoScalingGroups"@).len() ==> decode_asg_ok(&#[trigger] page_items(*v, "autoScalingGroups"@)[i]),
        r is Some ==> (r->0).0@.len() == page_items(*v, "autoScalingGroups"@).len(),
        r is Some ==> forall|i: int| 0 <= i < (r->0).0@.len() ==> asg_fields(&#[trigger] (r->0).0@[i], &page_items(*v, "autoScalingGroups"@)[i]),
        r is Some ==> crate::billing::opt_text((r->0).1) == next_cursor_field(*v),
{
    let (list, next) = match cursor_page_parts(v, "autoScalingGroups") {
        Some(p) => p,
        None => return None,
    };
    let ghost items = page_items(*v, "autoScalingGroups"@);
    let mut out: Vec<AutoScalingGroup> = Vec::new();
    match list {
        None => {},
        Some(list) => {
            let mut i: usize = 0;
            while i < list.len()
                invariant
                    i <= list.len(),
                    list@ == items,
                    items == page_items(*v, "autoScalingGroups"@),
                    out.len() == i,
                    forall|m: int| 0 <= m < i ==> decode_asg_ok(&#[trigger] items[m]),
                    forall|m: int| 0 <= m < i ==> asg_fields(&#[trigger] out@[m], &items[m]),
                decreases list.len() - i,
            {
                match decode_asg(&list[i]) {
                    Some(x) => out.push(x),
                    None => {
                        assert(!decode_asg_ok(&items[i as int]));
                        return None;
                    },
                }
                i = i + 1;
            }
        },
    }
    Some((out, next))
}

/// One page of worker nodes and the cursor of the next page.
pub fn worker_nodes_page(v: &JsonValue) -> (r: Option<(Vec<WorkerNode>, Option<String>)>)
    ensures
        r is Some <==> cursor_page_ok(*v, "workerNodes"@) && forall|i: int| 0 <= i < page_items(*v, "workerNodes"@).len() ==> decode_worker_node_ok(&#[trigger] page_items(*v, "workerNodes"@)[i]),
        r is Some ==> (r->0).0@.len() == page_items(*v, "workerNodes"@).len(),
        r is Some ==> forall|i: int| 0 <= i < (r->0).0@.len() ==> worker_node_fields(&#[trigger] (r->0).0@[i], &page_items(*v, "workerNodes"@)[i]),
        r is Some ==> crate::billing::opt_text((r->0).1) == next_cursor_field(*v),
{
    let (list, next) = match cursor_page_parts(v, "workerNodes") {
        Some(p) => p,
        None => return None,
    };
    let ghost items = page_items(*v, "workerNodes"@);
    let mut out: Vec<WorkerNode> = Vec::new();
    match list {
        None => {},
        Some(list) => {
            let mut i: usize = 0;
            while i < list.len()
                invariant
                    i <= list.len(),
                    list@ == items,
                    items == page_items(*v, "workerNodes"@),
                    out.len() == i,
                    forall|m: int| 0 <= m < i ==> decode_worker_node_ok(&#[trigger] items[m]),
                    forall|m: int| 0 <= m < i ==> worker_node_fields(&#[trigger] out@[m], &items[m]),
                decreases list.len() - i,
            {
                match decode_worker_node(&list[i]) {
                    Some(x) => out.push(x),
                    None => {
                        assert(!decode_worker_node_ok(&items[i as int]));
                        return None;
                    },
                }
                i = i + 1;
            }
        },
    }
    Some((out, next))
}

/// One page of certificates and the cursor of the next page.
pub fn certificates_page(v: &JsonValue) -> (r: Option<(Vec<Certificate>, Option<String>)>)
    ensures
        r is Some <==> cursor_page_ok(*v, "certificates"@) && forall|i: int| 0 <= i < page_items(*v, "certificates"@).len() ==> decode_certificate_ok(&#[trigger] page_items(*v, "certificates"@)[i]),
        r is Some ==> (r->0).0@.len() == page_items(*v, "certificates"@).len(),
        r is Some ==> forall|i: int| 0 <= i < (r->0).0@.len() ==> certificate_fields(&#[trigger] (r->0).0@[i], &page_items(*v, "certificates"@)[i]),
        r is Some ==> crate::billing::opt_text((r->0).1) == next_cursor_field(*v),
{
    let (list, next) = match cursor_page_parts(v, "certificates") {
        Some(p) => p,
        None => return None,
    };
    let ghost items = page_items(*v, "certificates"@);
    let mut out: Vec<Certificate> = Vec::new();
    match list {
        None => {},
        Some(list) => {
            let mut i: usize = 0;
            while i < list.len()
                invariant
                    i <= list.len(),
                    list@ == items,
                    items == page_items(*v, "certificates"@),
                    out.len() == i,
                    forall|m: int| 0 <= m < i ==> decode_certificate_ok(&#[trigger] items[m]),
                    forall|m: int| 0 <= m < i ==> certificate_fields(&#[trigger] out@[m], &items[m]),
                decreases list.len() - i,
            {
                match decode_certificate(&list[i]) {
                    Some(x) => out.push(x),
                    None => {
                        assert(!decode_certificate_ok(&items[i as int]));
                        return None;
                    },
                }
                i = i + 1;
            }
        },
    }
    Some((out, next))
}

/// The message for a response of the dedicated API that does not read as JSON.
pub fn response_error(text: &str) -> (r: String)
    ensures
        r@ == crate::json::spec_unreadable_response("AppRun専有型APIのレスポンス解析に失敗しました: "@, text@),
{
    crate::json::unreadable_response("AppRun専有型APIのレスポンス解析に失敗しました: ", text)
}

} // verus!
