//! Cloud HSM: partitions, their clients, licences and licence documents, read
//! from the list pages of the API.
//!
//! The list keys differ per resource (`CloudHSMs`, `Clients`, `Licenses`,
//! `CloudHSMDocuments`) and paging is by `Count` / `From` offsets.

use vstd::prelude::*;

use crate::json::{
    as_array, as_u64, bool_field, flexible_field, get, int_field, is_missing_in_array, is_record,
    missing_in_array, opt_i64_field, opt_text_field, opt_u32_field, record_shape, spec_as_u64,
    spec_bool_field, spec_flexible_field, spec_get, spec_int_field, spec_member,
    spec_opt_i64_field, spec_opt_text_field, spec_opt_u32_field, spec_text_field,
    spec_text_list_field, text_field, text_list_field, texts_view, JsonValue,
};
use crate::text::{chars_of, decimal, string_from_chars, u64_to_decimal};

verus! {

/// An HSM partition.
#[derive(Debug, Clone, PartialEq, Eq)]
pub struct CloudHsm {
    pub id: String,
    pub name: String,
    pub description: String,
    pub tags: Vec<String>,
    pub availability: String,
    pub service_class: String,
    pub ipv4_address: String,
    pub ipv4_network_address: String,
    pub ipv4_prefix_length: u32,
    pub local_router: String,
    pub created_at: String,
    pub modified_at: String,
}

impl Default for CloudHsm {
    fn default() -> (d: CloudHsm)
        ensures
            d.id@ == Seq::<char>::empty(),
            d.name@ == Seq::<char>::empty(),
            d.description@ == Seq::<char>::empty(),
            d.tags@.len() == 0,
            d.availability@ == Seq::<char>::empty(),
            d.service_class@ == Seq::<char>::empty(),
            d.ipv4_address@ == Seq::<char>::empty(),
            d.ipv4_network_address@ == Seq::<char>::empty(),
            d.ipv4_prefix_length == 0,
            d.local_router@ == Seq::<char>::empty(),
            d.created_at@ == Seq::<char>::empty(),
            d.modified_at@ == Seq::<char>::empty(),
    {
        CloudHsm { id: String::new(), name: String::new(), description: String::new(), tags: Vec::new(), availability: String::new(), service_class: String::new(), ipv4_address: String::new(), ipv4_network_address: String::new(), ipv4_prefix_length: 0, local_router: String::new(), created_at: String::new(), modified_at: String::new() }
    }
}

/// A client registered to an HSM.
#[derive(Debug, Clone, PartialEq, Eq)]
pub struct CloudHsmClient {
    pub id: String,
    pub name: String,
    pub availability: String,
    pub certificate: String,
    pub created_at: String,
    pub modified_at: String,
}

impl Default for CloudHsmClient {
    fn default() -> (d: CloudHsmClient)
        ensures
            d.id@ == Seq::<char>::empty(),
            d.name@ == Seq::<char>::empty(),
            d.availability@ == Seq::<char>::empty(),
            d.certificate@ == Seq::<char>::empty(),
            d.created_at@ == Seq::<char>::empty(),
            d.modified_at@ == Seq::<char>::empty(),
    {
        CloudHsmClient { id: String::new(), name: String::new(), availability: String::new(), certificate: String::new(), created_at: String::new(), modified_at: String::new() }
    }
}

/// A software licence.
#[derive(Debug, Clone, PartialEq, Eq)]
pub struct CloudHsmLicense {
    pub id: String,
    pub name: String,
    pub description: String,
    pub tags: Vec<String>,
    pub service_class: String,
    pub created_at: String,
    pub modified_at: String,
}

impl Default for CloudHsmLicense {
    fn default() -> (d: CloudHsmLicense)
        ensures
            d.id@ == Seq::<char>::empty(),
            d.name@ == Seq::<char>::empty(),
            d.description@ == Seq::<char>::empty(),
            d.tags@.len() == 0,
            d.service_class@ == Seq::<char>::empty(),
            d.created_at@ == Seq::<char>::empty(),
            d.modified_at@ == Seq::<char>::empty(),
    {
        CloudHsmLicense { id: String::new(), name: String::new(), description: String::new(), tags: Vec::new(), service_class: String::new(), created_at: String::new(), modified_at: String::new() }
    }
}

/// A document attached to a licence.
#[derive(Debug, Clone, PartialEq, Eq)]
pub struct CloudHsmDocument {
    pub id: String,
    pub name: String,
    pub license_id: String,
    pub created_at: String,
    pub modified_at: String,
}

impl Default for CloudHsmDocument {
    fn default() -> (d: CloudHsmDocument)
        ensures
            d.id@ == Seq::<char>::empty(),
            d.name@ == Seq::<char>::empty(),
            d.license_id@ == Seq::<char>::empty(),
            d.created_at@ == Seq::<char>::empty(),
            d.modified_at@ == Seq::<char>::empty(),
    {
        CloudHsmDocument { id: String::new(), name: String::new(), license_id: String::new(), created_at: String::new(), modified_at: String::new() }
    }
}

impl CloudHsm {
    /// The network shown for the partition: address and prefix length.
    pub open spec fn spec_network_label(&self) -> Seq<char> {
        if self.ipv4_network_address@.len() == 0 {
            Seq::empty()
        } else if self.ipv4_prefix_length == 0 {
            self.ipv4_network_address@
        } else {
            self.ipv4_network_address@ + seq!['/'] + decimal(self.ipv4_prefix_length as nat)
        }
    }

    pub fn network_label(&self) -> (r: String)
        ensures
            r@ == self.spec_network_label(),
    {
        if self.ipv4_network_address.as_str().unicode_len() == 0 {
            return String::new();
        }
        if self.ipv4_prefix_length == 0 {
            return self.ipv4_network_address.clone();
        }
        let mut out = chars_of(self.ipv4_network_address.as_str());
        out.push('/');
        let mut digits = u64_to_decimal(self.ipv4_prefix_length as u64);
        out.append(&mut digits);
        string_from_chars(&out)
    }
}

impl CloudHsmClient {
    /// Only whether a certificate is present is listed; the text is in the detail.
    pub fn certificate_label(&self) -> (r: &'static str)
        ensures
            r@ == (if self.certificate@.len() == 0 { ""@ } else { "あり"@ }),
    {
        if self.certificate.as_str().unicode_len() == 0 {
            ""
        } else {
            "あり"
        }
    }
}

/// Japanese label of `precreate` / `available` / `discontinued`; other values
/// are shown as they are.
pub open spec fn spec_availability_label(raw: Seq<char>) -> Seq<char> {
    if raw == "available"@ {
        "利用可能"@
    } else if raw == "precreate"@ {
        "準備中"@
    } else if raw == "discontinued"@ {
        "廃止"@
    } else {
        raw
    }
}

pub fn availability_label(raw: &str) -> (r: String)
    ensures
        r@ == spec_availability_label(raw@),
{
    if crate::text::str_eq(raw, "available") {
        "利用可能".to_string()
    } else if crate::text::str_eq(raw, "precreate") {
        "準備中".to_string()
    } else if crate::text::str_eq(raw, "discontinued") {
        "廃止".to_string()
    } else {
        raw.to_string()
    }
}

/// The non-null elements of the array under `key`; none when the key is absent
/// or does not hold an array.
pub open spec fn page_entries(value: &JsonValue, key: Seq<char>) -> Seq<JsonValue> {
    match spec_get(*value, key) {
        Some(JsonValue::Array(items)) => items@.filter(|x: JsonValue| !(x is Null)),
        _ => Seq::empty(),
    }
}

/// The `Total` count of a page; 0 when absent or not an unsigned integer.
pub open spec fn page_total(value: &JsonValue) -> usize {
    match spec_get(*value, "Total"@) {
        Some(t) => match spec_as_u64(t) {
            Some(n) => n as usize,
            None => 0,
        },
        None => 0,
    }
}

/// The error reported when an element of the list under `key` does not decode.
pub open spec fn page_error(key: Seq<char>) -> Seq<char> {
    "クラウドHSMの"@ + key + "の解析に失敗しました"@
}

fn page_error_text(key: &str) -> (r: String)
    ensures
        r@ == page_error(key@),
{
    let mut out = chars_of("クラウドHSMの");
    let mut k = chars_of(key);
    let mut tail = chars_of("の解析に失敗しました");
    out.append(&mut k);
    out.append(&mut tail);
    string_from_chars(&out)
}

fn page_total_exec(value: &JsonValue) -> (r: usize)
    ensures
        r == page_total(value),
{
    match get(value, "Total") {
        Some(t) => match as_u64(t) {
            Some(n) => n as usize,
            None => 0,
        },
        None => 0,
    }
}

fn page_items<'a>(value: &'a JsonValue, key: &str) -> (r: Vec<&'a JsonValue>)
    ensures
        r@.map_values(|x: &JsonValue| *x) == page_entries(value, key@),
{
    let mut out: Vec<&JsonValue> = Vec::new();
    match get(value, key) {
        Some(JsonValue::Array(items)) => {
            let mut i: usize = 0;
            while i < items.len()
                invariant
                    i <= items.len(),
                    out@.map_values(|x: &JsonValue| *x) == items@.subrange(0, i as int).filter(|x: JsonValue| !(x is Null)),
                decreases items.len() - i,
            {
                let ghost p = items@.subrange(0, i as int);
                proof {
                    assert(items@.subrange(0, i + 1) =~= p.push(items@[i as int]));
                    p.lemma_filter_push(items@[i as int], |x: JsonValue| !(x is Null));
                }
                match &items[i] {
                    JsonValue::Null => {},
                    _ => {
                        let ghost before = out@;
                        out.push(&items[i]);
                        assert(out@.map_values(|x: &JsonValue| *x) =~= before.map_values(|x: &JsonValue| *x).push(items@[i as int]));
                    },
                }
                i = i + 1;
            }
            assert(items@.subrange(0, items@.len() as int) =~= items@);
        },
        _ => {},
    }
    out
}

/// The fields of `value` are those read from `rec`.
pub open spec fn hsm_fields(value: &CloudHsm, rec: &JsonValue) -> bool {
    &&& value.id@ == spec_text_field(spec_member(*rec, "ID"@, 0))->0
    &&& value.name@ == spec_text_field(spec_member(*rec, "Name"@, 1))->0
    &&& value.description@ == spec_text_field(spec_member(*rec, "Description"@, 2))->0
    &&& texts_view(value.tags@) == spec_text_list_field(spec_member(*rec, "Tags"@, 3))->0
    &&& value.availability@ == spec_text_field(spec_member(*rec, "Availability"@, 4))->0
    &&& value.service_class@ == spec_text_field(spec_member(*rec, "ServiceClass"@, 5))->0
    &&& value.ipv4_address@ == spec_text_field(spec_member(*rec, "IPv4Address"@, 6))->0
    &&& value.ipv4_network_address@ == spec_text_field(spec_member(*rec, "IPv4NetworkAddress"@, 7))->0
    &&& value.ipv4_prefix_length as int == spec_flexible_field(spec_member(*rec, "IPv4PrefixLength"@, 8), 0, u32::MAX as int)->0
    &&& value.local_router@ == spec_text_field(spec_member(*rec, "LocalRouter"@, 9))->0
    &&& value.created_at@ == spec_text_field(spec_member(*rec, "CreatedAt"@, 10))->0
    &&& value.modified_at@ == spec_text_field(spec_member(*rec, "ModifiedAt"@, 11))->0
}

/// The record decodes: it has a record's shape and every field reads.
pub open spec fn decode_hsm_ok(rec: &JsonValue) -> bool {
    &&& record_shape(*rec, 12)
    &&& spec_text_field(spec_member(*rec, "ID"@, 0)) is Some
    &&& spec_text_field(spec_member(*rec, "Name"@, 1)) is Some
    &&& spec_text_field(spec_member(*rec, "Description"@, 2)) is Some
    &&& spec_text_list_field(spec_member(*rec, "Tags"@, 3)) is Some
    &&& spec_text_field(spec_member(*rec, "Availability"@, 4)) is Some
    &&& spec_text_field(spec_member(*rec, "ServiceClass"@, 5)) is Some
    &&& spec_text_field(spec_member(*rec, "IPv4Address"@, 6)) is Some
    &&& spec_text_field(spec_member(*rec, "IPv4NetworkAddress"@, 7)) is Some
    &&& spec_flexible_field(spec_member(*rec, "IPv4PrefixLength"@, 8), 0, u32::MAX as int) is Some
    &&& spec_text_field(spec_member(*rec, "LocalRouter"@, 9)) is Some
    &&& spec_text_field(spec_member(*rec, "CreatedAt"@, 10)) is Some
    &&& spec_text_field(spec_member(*rec, "ModifiedAt"@, 11)) is Some
}

/// Reads one HSM partition of a list page.
pub fn decode_hsm(rec: &JsonValue) -> (r: Option<CloudHsm>)
    ensures
        r is Some <==> decode_hsm_ok(rec),
        r is Some ==> hsm_fields(&r->0, rec),
{
    if !is_record(rec, 12) {
        return None;
    }
    let v_id = match text_field(rec, "ID", 0) { Some(x) => x, None => return None };
    let v_name = match text_field(rec, "Name", 1) { Some(x) => x, None => return None };
    let v_description = match text_field(rec, "Description", 2) { Some(x) => x, None => return None };
    let v_tags = match text_list_field(rec, "Tags", 3) { Some(x) => x, None => return None };
    let v_availability = match text_field(rec, "Availability", 4) { Some(x) => x, None => return None };
    let v_service_class = match text_field(rec, "ServiceClass", 5) { Some(x) => x, None => return None };
    let v_ipv4_address = match text_field(rec, "IPv4Address", 6) { Some(x) => x, None => return None };
    let v_ipv4_network_address = match text_field(rec, "IPv4NetworkAddress", 7) { Some(x) => x, None => return None };
    let v_ipv4_prefix_length: u32 = match flexible_field(rec, "IPv4PrefixLength", 8, 0, u32::MAX as u64) { Some(x) => x as u32, None => return None };
    let v_local_router = match text_field(rec, "LocalRouter", 9) { Some(x) => x, None => return None };
    let v_created_at = match text_field(rec, "CreatedAt", 10) { Some(x) => x, None => return None };
    let v_modified_at = match text_field(rec, "ModifiedAt", 11) { Some(x) => x, None => return None };
    Some(CloudHsm { id: v_id, name: v_name, description: v_description, tags: v_tags, availability: v_availability, service_class: v_service_class, ipv4_address: v_ipv4_address, ipv4_network_address: v_ipv4_network_address, ipv4_prefix_length: v_ipv4_prefix_length, local_router: v_local_router, created_at: v_created_at, modified_at: v_modified_at })
}

/// The fields of `value` are those read from `rec`.
pub open spec fn client_fields(value: &CloudHsmClient, rec: &JsonValue) -> bool {
    &&& value.id@ == spec_text_field(spec_member(*rec, "ID"@, 0))->0
    &&& value.name@ == spec_text_field(spec_member(*rec, "Name"@, 1))->0
    &&& value.availability@ == spec_text_field(spec_member(*rec, "Availability"@, 2))->0
    &&& value.certificate@ == spec_text_field(spec_member(*rec, "Certificate"@, 3))->0
    &&& value.created_at@ == spec_text_field(spec_member(*rec, "CreatedAt"@, 4))->0
    &&& value.modified_at@ == spec_text_field(spec_member(*rec, "ModifiedAt"@, 5))->0
}

/// The record decodes: it has a record's shape and every field reads.
pub open spec fn decode_client_ok(rec: &JsonValue) -> bool {
    &&& record_shape(*rec, 6)
    &&& spec_text_field(spec_member(*rec, "ID"@, 0)) is Some
    &&& spec_text_field(spec_member(*rec, "Name"@, 1)) is Some
    &&& spec_text_field(spec_member(*rec, "Availability"@, 2)) is Some
    &&& spec_text_field(spec_member(*rec, "Certificate"@, 3)) is Some
    &&& spec_text_field(spec_member(*rec, "CreatedAt"@, 4)) is Some
    &&& spec_text_field(spec_member(*rec, "ModifiedAt"@, 5)) is Some
}

/// Reads one client of a list page.
pub fn decode_client(rec: &JsonValue) -> (r: Option<CloudHsmClient>)
    ensures
        r is Some <==> decode_client_ok(rec),
        r is Some ==> client_fields(&r->0, rec),
{
    if !is_record(rec, 6) {
        return None;
    }
    let v_id = match text_field(rec, "ID", 0) { Some(x) => x, None => return None };
    let v_name = match text_field(rec, "Name", 1) { Some(x) => x, None => return None };
    let v_availability = match text_field(rec, "Availability", 2) { Some(x) => x, None => return None };
    let v_certificate = match text_field(rec, "Certificate", 3) { Some(x) => x, None => return None };
    let v_created_at = match text_field(rec, "CreatedAt", 4) { Some(x) => x, None => return None };
    let v_modified_at = match text_field(rec, "ModifiedAt", 5) { Some(x) => x, None => return None };
    Some(CloudHsmClient { id: v_id, name: v_name, availability: v_availability, certificate: v_certificate, created_at: v_created_at, modified_at: v_modified_at })
}

/// The fields of `value` are those read from `rec`.
pub open spec fn license_fields(value: &CloudHsmLicense, rec: &JsonValue) -> bool {
    &&& value.id@ == spec_text_field(spec_member(*rec, "ID"@, 0))->0
    &&& value.name@ == spec_text_field(spec_member(*rec, "Name"@, 1))->0
    &&& value.description@ == spec_text_field(spec_member(*rec, "Description"@, 2))->0
    &&& texts_view(value.tags@) == spec_text_list_field(spec_member(*rec, "Tags"@, 3))->0
    &&& value.service_class@ == spec_text_field(spec_member(*rec, "ServiceClass"@, 4))->0
    &&& value.created_at@ == spec_text_field(spec_member(*rec, "CreatedAt"@, 5))->0
    &&& value.modified_at@ == spec_text_field(spec_member(*rec, "ModifiedAt"@, 6))->0
}

/// The record decodes: it has a record's shape and every field reads.
pub open spec fn decode_license_ok(rec: &JsonValue) -> bool {
    &&& record_shape(*rec, 7)
    &&& spec_text_field(spec_member(*rec, "ID"@, 0)) is Some
    &&& spec_text_field(spec_member(*rec, "Name"@, 1)) is Some
    &&& spec_text_field(spec_member(*rec, "Description"@, 2)) is Some
    &&& spec_text_list_field(spec_member(*rec, "Tags"@, 3)) is Some
    &&& spec_text_field(spec_member(*rec, "ServiceClass"@, 4)) is Some
    &&& spec_text_field(spec_member(*rec, "CreatedAt"@, 5)) is Some
    &&& spec_text_field(spec_member(*rec, "ModifiedAt"@, 6)) is Some
}

/// Reads one software licence of a list page.
pub fn decode_license(rec: &JsonValue) -> (r: Option<CloudHsmLicense>)
    ensures
        r is Some <==> decode_license_ok(rec),
        r is Some ==> license_fields(&r->0, rec),
{
    if !is_record(rec, 7) {
        return None;
    }
    let v_id = match text_field(rec, "ID", 0) { Some(x) => x, None => return None };
    let v_name = match text_field(rec, "Name", 1) { Some(x) => x, None => return None };
    let v_description = match text_field(rec, "Description", 2) { Some(x) => x, None => return None };
    let v_tags = match text_list_field(rec, "Tags", 3) { Some(x) => x, None => return None };
    let v_service_class = match text_field(rec, "ServiceClass", 4) { Some(x) => x, None => return None };
    let v_created_at = match text_field(rec, "CreatedAt", 5) { Some(x) => x, None => return None };
    let v_modified_at = match text_field(rec, "ModifiedAt", 6) { Some(x) => x, None => return None };
    Some(CloudHsmLicense { id: v_id, name: v_name, description: v_description, tags: v_tags, service_class: v_service_class, created_at: v_created_at, modified_at: v_modified_at })
}

/// The fields of `value` are those read from `rec`.
pub open spec fn document_fields(value: &CloudHsmDocument, rec: &JsonValue) -> bool {
    &&& value.id@ == spec_text_field(spec_member(*rec, "ID"@, 0))->0
    &&& value.name@ == spec_text_field(spec_member(*rec, "Name"@, 1))->0
    &&& value.created_at@ == spec_text_field(spec_member(*rec, "CreatedAt"@, 2))->0
    &&& value.modified_at@ == spec_text_field(spec_member(*rec, "ModifiedAt"@, 3))->0
}

/// The record decodes: it has a record's shape and every field reads.
pub open spec fn decode_document_ok(rec: &JsonValue) -> bool {
    &&& record_shape(*rec, 4)
    &&& spec_text_field(spec_member(*rec, "ID"@, 0)) is Some
    &&& spec_text_field(spec_member(*rec, "Name"@, 1)) is Some
    &&& spec_text_field(spec_member(*rec, "CreatedAt"@, 2)) is Some
    &&& spec_text_field(spec_member(*rec, "ModifiedAt"@, 3)) is Some
}

/// Reads one document of a list page; the parent licence is not in the record and is supplied.
pub fn decode_document(rec: &JsonValue, license_id: &str) -> (r: Option<CloudHsmDocument>)
    ensures
        r is Some <==> decode_document_ok(rec),
        r is Some ==> document_fields(&r->0, rec),
        r is Some ==> r->0.license_id@ == license_id@,
{
    if !is_record(rec, 4) {
        return None;
    }
    let v_id = match text_field(rec, "ID", 0) { Some(x) => x, None => return None };
    let v_name = match text_field(rec, "Name", 1) { Some(x) => x, None => return None };
    let v_created_at = match text_field(rec, "CreatedAt", 2) { Some(x) => x, None => return None };
    let v_modified_at = match text_field(rec, "ModifiedAt", 3) { Some(x) => x, None => return None };
    Some(CloudHsmDocument { id: v_id, name: v_name, created_at: v_created_at, modified_at: v_modified_at, license_id: license_id.to_string() })
}

/// One page of the list under `CloudHSMs`: the records and the `Total` count.
/// Fails when a non-null element does not decode.
pub fn parse_hsms(value: &JsonValue) -> (r: Result<(Vec<CloudHsm>, usize), String>)
    ensures
        r is Ok <==> (forall|i: int| 0 <= i < page_entries(value, "CloudHSMs"@).len() ==> decode_hsm_ok(&#[trigger] page_entries(value, "CloudHSMs"@)[i])),
        r is Ok ==> r->Ok_0.1 == page_total(value),
        r is Ok ==> r->Ok_0.0@.len() == page_entries(value, "CloudHSMs"@).len(),
        r is Ok ==> forall|i: int| 0 <= i < r->Ok_0.0@.len() ==> hsm_fields(&#[trigger] r->Ok_0.0@[i], &page_entries(value, "CloudHSMs"@)[i]),
        r is Err ==> r->Err_0@ == page_error("CloudHSMs"@),
{
    let items = page_items(value, "CloudHSMs");
    let ghost entries = page_entries(value, "CloudHSMs"@);
    let mut out: Vec<CloudHsm> = Vec::new();
    let mut i: usize = 0;
    while i < items.len()
        invariant
            i <= items.len(),
            entries == page_entries(value, "CloudHSMs"@),
            entries == items@.map_values(|x: &JsonValue| *x),
            out@.len() == i,
            forall|k: int| 0 <= k < i ==> decode_hsm_ok(&#[trigger] entries[k]),
            forall|k: int| 0 <= k < i ==> hsm_fields(&#[trigger] out@[k], &entries[k]),
        decreases items.len() - i,
    {
        assert(entries[i as int] == *items@[i as int]);
        match decode_hsm(items[i]) {
            Some(x) => out.push(x),
            None => return Err(page_error_text("CloudHSMs")),
        }
        i = i + 1;
    }
    Ok((out, page_total_exec(value)))
}

/// One page of the list under `Clients`: the records and the `Total` count.
/// Fails when a non-null element does not decode.
pub fn parse_clients(value: &JsonValue) -> (r: Result<(Vec<CloudHsmClient>, usize), String>)
    ensures
        r is Ok <==> (forall|i: int| 0 <= i < page_entries(value, "Clients"@).len() ==> decode_client_ok(&#[trigger] page_entries(value, "Clients"@)[i])),
        r is Ok ==> r->Ok_0.1 == page_total(value),
        r is Ok ==> r->Ok_0.0@.len() == page_entries(value, "Clients"@).len(),
        r is Ok ==> forall|i: int| 0 <= i < r->Ok_0.0@.len() ==> client_fields(&#[trigger] r->Ok_0.0@[i], &page_entries(value, "Clients"@)[i]),
        r is Err ==> r->Err_0@ == page_error("Clients"@),
{
    let items = page_items(value, "Clients");
    let ghost entries = page_entries(value, "Clients"@);
    let mut out: Vec<CloudHsmClient> = Vec::new();
    let mut i: usize = 0;
    while i < items.len()
        invariant
            i <= items.len(),
            entries == page_entries(value, "Clients"@),
            entries == items@.map_values(|x: &JsonValue| *x),
            out@.len() == i,
            forall|k: int| 0 <= k < i ==> decode_client_ok(&#[trigger] entries[k]),
            forall|k: int| 0 <= k < i ==> client_fields(&#[trigger] out@[k], &entries[k]),
        decreases items.len() - i,
    {
        assert(entries[i as int] == *items@[i as int]);
        match decode_client(items[i]) {
            Some(x) => out.push(x),
            None => return Err(page_error_text("Clients")),
        }
        i = i + 1;
    }
    Ok((out, page_total_exec(value)))
}

/// One page of the list under `Licenses`: the records and the `Total` count.
/// Fails when a non-null element does not decode.
pub fn parse_licenses(value: &JsonValue) -> (r: Result<(Vec<CloudHsmLicense>, usize), String>)
    ensures
        r is Ok <==> (forall|i: int| 0 <= i < page_entries(value, "Licenses"@).len() ==> decode_license_ok(&#[trigger] page_entries(value, "Licenses"@)[i])),
        r is Ok ==> r->Ok_0.1 == page_total(value),
        r is Ok ==> r->Ok_0.0@.len() == page_entries(value, "Licenses"@).len(),
        r is Ok ==> forall|i: int| 0 <= i < r->Ok_0.0@.len() ==> license_fields(&#[trigger] r->Ok_0.0@[i], &page_entries(value, "Licenses"@)[i]),
        r is Err ==> r->Err_0@ == page_error("Licenses"@),
{
    let items = page_items(value, "Licenses");
    let ghost entries = page_entries(value, "Licenses"@);
    let mut out: Vec<CloudHsmLicense> = Vec::new();
    let mut i: usize = 0;
    while i < items.len()
        invariant
            i <= items.len(),
            entries == page_entries(value, "Licenses"@),
            entries == items@.map_values(|x: &JsonValue| *x),
            out@.len() == i,
            forall|k: int| 0 <= k < i ==> decode_license_ok(&#[trigger] entries[k]),
            forall|k: int| 0 <= k < i ==> license_fields(&#[trigger] out@[k], &entries[k]),
        decreases items.len() - i,
    {
        assert(entries[i as int] == *items@[i as int]);
        match decode_license(items[i]) {
            Some(x) => out.push(x),
            None => return Err(page_error_text("Licenses")),
        }
        i = i + 1;
    }
    Ok((out, page_total_exec(value)))
}

/// One page of the list under `CloudHSMDocuments`: the records and the `Total` count.
/// Fails when a non-null element does not decode.
pub fn parse_documents(value: &JsonValue, license_id: &str) -> (r: Result<(Vec<CloudHsmDocument>, usize), String>)
    ensures
        r is Ok <==> (forall|i: int| 0 <= i < page_entries(value, "CloudHSMDocuments"@).len() ==> decode_document_ok(&#[trigger] page_entries(value, "CloudHSMDocuments"@)[i])),
        r is Ok ==> r->Ok_0.1 == page_total(value),
        r is Ok ==> r->Ok_0.0@.len() == page_entries(value, "CloudHSMDocuments"@).len(),
        r is Ok ==> forall|i: int| 0 <= i < r->Ok_0.0@.len() ==> document_fields(&#[trigger] r->Ok_0.0@[i], &page_entries(value, "CloudHSMDocuments"@)[i]) && r->Ok_0.0@[i].license_id@ == license_id@,
        r is Err ==> r->Err_0@ == page_error("CloudHSMDocuments"@),
{
    let items = page_items(value, "CloudHSMDocuments");
    let ghost entries = page_entries(value, "CloudHSMDocuments"@);
    let mut out: Vec<CloudHsmDocument> = Vec::new();
    let mut i: usize = 0;
    while i < items.len()
        invariant
            i <= items.len(),
            entries == page_entries(value, "CloudHSMDocuments"@),
            entries == items@.map_values(|x: &JsonValue| *x),
            out@.len() == i,
            forall|k: int| 0 <= k < i ==> decode_document_ok(&#[trigger] entries[k]),
            forall|k: int| 0 <= k < i ==> document_fields(&#[trigger] out@[k], &entries[k]) && out@[k].license_id@ == license_id@,
        decreases items.len() - i,
    {
        assert(entries[i as int] == *items@[i as int]);
        match decode_document(items[i], license_id) {
            Some(x) => out.push(x),
            None => return Err(page_error_text("CloudHSMDocuments")),
        }
        i = i + 1;
    }
    Ok((out, page_total_exec(value)))
}

/// The message for a CloudHSM response that does not read as JSON.
pub fn response_error(body: &str) -> (r: String)
    ensures
        r@ == crate::json::spec_unreadable_response("クラウドHSM APIレスポンスの解析に失敗しました: "@, body@),
{
    crate::json::unreadable_response("クラウドHSM APIレスポンスの解析に失敗しました: ", body)
}

} // verus!
