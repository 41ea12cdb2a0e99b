//! AppRun (shared type): its records as the API lists them, the pages they come
//! in, and the messages for its error answers.

use vstd::prelude::*;

use crate::api_error::{build_error_message, deref_opt, error_message};
use crate::json::{
    int_field, is_missing_in_array, is_record, list_field, missing_in_array, opt_text_field, opt_u32_field,
    present, present_member, record_shape, spec_int_field, spec_list_field, spec_member, spec_opt_text_field,
    spec_opt_u32_field, spec_text_field, bool_field, spec_bool_field, text_field, JsonValue,
};
use crate::text::{chars_of, string_from_chars, trim_end_matches, trim_end_matches_str};

verus! {

/// Items asked for per page (the API's limit).
pub const PAGE_SIZE: usize = 100;

/// Pages followed at most, so that a wrong total from the API cannot keep the
/// paging going.
pub const MAX_PAGES: usize = 100;

/// One application, as listed.
#[derive(Debug, Clone)]
pub struct Application {
    pub id: String,
    pub name: String,
    pub status: String,
    pub public_url: String,
    pub created_at: Option<String>,
}

/// The details of an application.
#[derive(Debug, Clone)]
pub struct ApplicationDetail {
    pub port: Option<u32>,
    pub timeout_seconds: Option<u32>,
    pub min_scale: Option<u32>,
    pub max_scale: Option<u32>,
    /// Container images (references into a registry).
    pub images: Vec<String>,
}

impl Default for ApplicationDetail {
    fn default() -> (r: Self)
        ensures
            r.port is None && r.timeout_seconds is None && r.min_scale is None && r.max_scale is None,
            r.images@.len() == 0,
    {
        ApplicationDetail { port: None, timeout_seconds: None, min_scale: None, max_scale: None, images: Vec::new() }
    }
}

/// One version of an application.
#[derive(Debug, Clone)]
pub struct Version {
    pub name: String,
    pub status: String,
    pub created_at: Option<String>,
}

/// How traffic is shared out to a version.
#[derive(Debug, Clone)]
pub struct Traffic {
    pub version_name: String,
    pub is_latest: bool,
    pub percent: i32,
}

/// One page of a list: its records (`None` when the API gave `null` or
/// nothing) and its count information.
#[derive(Debug, Clone)]
pub struct Paged<T> {
    pub data: Option<Vec<T>>,
    pub meta: Option<Meta>,
}

/// The count information of a page.
#[derive(Debug, Clone, Copy)]
pub struct Meta {
    pub object_total: usize,
}

impl<T> Paged<T> {
    pub open spec fn spec_items(&self) -> Seq<T> {
        match self.data {
            Some(v) => v@,
            None => Seq::empty(),
        }
    }

    pub open spec fn spec_total(&self) -> nat {
        match self.meta {
            Some(m) => m.object_total as nat,
            None => 0,
        }
    }

    /// The records of the page; none when the API gave `null`.
    pub fn items(self) -> (r: Vec<T>)
        ensures
            r@ == self.spec_items(),
    {
        match self.data {
            Some(v) => v,
            None => Vec::new(),
        }
    }

    /// The total count the API reports; 0 without count information.
    pub fn total(&self) -> (r: usize)
        ensures
            r == self.spec_total(),
    {
        match &self.meta {
            Some(m) => m.object_total,
            None => 0,
        }
    }
}

/// The root of the AppRun API, from the root of the IaaS API: its trailing
/// `/zone` dropped and the AppRun path added.
pub open spec fn spec_api_root(iaas_root: Seq<char>) -> Seq<char> {
    trim_end_matches(iaas_root, "/zone"@) + "/api/apprun/1.0/apprun/api"@
}

pub fn api_root(iaas_root: &str) -> (r: String)
    ensures
        r@ == spec_api_root(iaas_root@),
{
    let mut out = trim_end_matches_str(iaas_root, "/zone");
    let mut tail = chars_of("/api/apprun/1.0/apprun/api");
    out.append(&mut tail);
    string_from_chars(&out)
}

/// Whether to ask for the page after `page` (counted from 1): the last page
/// brought something, fewer than `total` items are collected, and the page
/// limit is not reached.
pub fn should_fetch_next_page(page: usize, received: usize, collected: usize, total: usize) -> (r: bool)
    ensures
        r == (received != 0 && collected < total && page < MAX_PAGES),
{
    received != 0 && collected < total && page < MAX_PAGES
}

/// A page response decodes: a record with `data` (a list, `null` or absent
/// meaning none) and `meta` (absent, `null`, or a record whose `object_total`
/// is an unsigned count).
pub open spec fn paged_ok(v: JsonValue) -> bool {
    &&& record_shape(v, 2)
    &&& !missing_in_array(v, 0)
    &&& !missing_in_array(v, 1)
    &&& spec_list_field(spec_member(v, "data"@, 0)) is Some
    &&& (present(spec_member(v, "meta"@, 1)) matches Some(m) ==> record_shape(m, 1) && spec_int_field(
        spec_member(m, "object_total"@, 0),
        0,
        usize::MAX as int,
    ) is Some)
}

/// The records of a page.
pub open spec fn paged_data(v: JsonValue) -> Seq<JsonValue> {
    spec_list_field(spec_member(v, "data"@, 0))->0
}

/// The total count a page reports; 0 without `meta`.
pub open spec fn paged_total(v: JsonValue) -> int {
    match present(spec_member(v, "meta"@, 1)) {
        Some(m) => spec_int_field(spec_member(m, "object_total"@, 0), 0, usize::MAX as int)->0,
        None => 0,
    }
}

fn paged_parts(v: &JsonValue) -> (r: Option<(Option<&Vec<JsonValue>>, Option<usize>)>)
    ensures
        r is Some <==> paged_ok(*v),
        r is Some ==> ((r->0).1 is Some <==> present(spec_member(*v, "meta"@, 1)) is Some),
        r is Some && (r->0).1 is Some ==> (r->0).1->0 == paged_total(*v),
        r is Some && (r->0).1 is None ==> paged_total(*v) == 0,
        r is Some && (r->0).0 is None ==> paged_data(*v).len() == 0,
        r is Some && (r->0).0 is Some ==> (r->0).0->0@ == paged_data(*v),
{
    if !is_record(v, 2) || is_missing_in_array(v, 0) || is_missing_in_array(v, 1) {
        return None;
    }
    let list = match list_field(v, "data", 0) {
        Some(l) => l,
        None => return None,
    };
    let total: Option<usize> = match present_member(v, "meta", 1) {
        Some(m) => {
            if !is_record(m, 1) {
                return None;
            }
            match int_field(m, "object_total", 0, 0, usize::MAX as u64) {
                Some(t) => Some(t as usize),
                None => return None,
            }
        },
        None => None,
    };
    Some((list, total))
}

/// The image of a component deployed from a container registry, if it is one.
pub open spec fn component_image(c: JsonValue) -> Option<Seq<char>> {
    match present(spec_member(c, "deploy_source"@, 0)) {
        Some(source) => match present(spec_member(source, "container_registry"@, 0)) {
            Some(registry) => Some(spec_text_field(spec_member(registry, "image"@, 0))->0),
            None => None,
        },
        None => None,
    }
}

/// A component record decodes; its deploy source may be of another kind.
pub open spec fn component_ok(c: JsonValue) -> bool {
    &&& record_shape(c, 1)
    &&& !missing_in_array(c, 0)
    &&& (present(spec_member(c, "deploy_source"@, 0)) matches Some(source) ==> {
        &&& record_shape(source, 1)
        &&& !missing_in_array(source, 0)
        &&& (present(spec_member(source, "container_registry"@, 0)) matches Some(registry) ==> record_shape(
            registry,
            1,
        ) && spec_text_field(spec_member(registry, "image"@, 0)) is Some)
    })
}

/// The non-empty registry images of the components, in order.
pub open spec fn images_of(components: Seq<JsonValue>) -> Seq<Seq<char>>
    decreases components.len(),
{
    if components.len() == 0 {
        Seq::empty()
    } else {
        let rest = images_of(components.drop_last());
        match component_image(components.last()) {
            Some(image) => if image.len() > 0 {
                rest.push(image)
            } else {
                rest
            },
            None => rest,
        }
    }
}

/// The detail record decodes.
pub open spec fn detail_ok(v: JsonValue) -> bool {
    &&& record_shape(v, 5)
    &&& !missing_in_array(v, 0) && spec_opt_u32_field(spec_member(v, "port"@, 0)) is Some
    &&& !missing_in_array(v, 1) && spec_opt_u32_field(spec_member(v, "timeout_seconds"@, 1)) is Some
    &&& !missing_in_array(v, 2) && spec_opt_u32_field(spec_member(v, "min_scale"@, 2)) is Some
    &&& !missing_in_array(v, 3) && spec_opt_u32_field(spec_member(v, "max_scale"@, 3)) is Some
    &&& spec_list_field(spec_member(v, "components"@, 4)) is Some
    &&& forall|i: int|
        0 <= i < spec_list_field(spec_member(v, "components"@, 4))->0.len() ==> component_ok(
            #[trigger] spec_list_field(spec_member(v, "components"@, 4))->0[i],
        )
}

fn component_image_of(c: &JsonValue) -> (r: Option<Option<String>>)
    ensures
        r is Some <==> component_ok(*c),
        r is Some ==> (r->0 is Some <==> component_image(*c) is Some),
        r is Some && r->0 is Some ==> r->0->0@ == component_image(*c)->0,
{
    if !is_record(c, 1) || is_missing_in_array(c, 0) {
        return None;
    }
    match present_member(c, "deploy_source", 0) {
        None => Some(None),
        Some(source) => {
            if !is_record(source, 1) || is_missing_in_array(source, 0) {
                return None;
            }
            match present_member(source, "container_registry", 0) {
                None => Some(None),
                Some(registry) => {
                    if !is_record(registry, 1) {
                        return None;
                    }
                    match text_field(registry, "image", 0) {
                        Some(image) => Some(Some(image)),
                        None => None,
                    }
                },
            }
        },
    }
}

/// The details of an application from its record: the settings, and the
/// non-empty images of the components deployed from a container registry.
pub fn application_detail(v: &JsonValue) -> (r: Option<ApplicationDetail>)
    ensures
        r is Some <==> detail_ok(*v),
        r is Some ==> {
            &&& r->0.port == spec_opt_u32_field(spec_member(*v, "port"@, 0))->0
            &&& r->0.timeout_seconds == spec_opt_u32_field(spec_member(*v, "timeout_seconds"@, 1))->0
            &&& r->0.min_scale == spec_opt_u32_field(spec_member(*v, "min_scale"@, 2))->0
            &&& r->0.max_scale == spec_opt_u32_field(spec_member(*v, "max_scale"@, 3))->0
            &&& crate::json::texts_view(r->0.images@) == images_of(spec_list_field(spec_member(*v, "components"@, 4))->0)
        },
{
    if !is_record(v, 5) || is_missing_in_array(v, 0) || is_missing_in_array(v, 1) || is_missing_in_array(v, 2)
        || is_missing_in_array(v, 3) {
        return None;
    }
    let port = match opt_u32_field(v, "port", 0) {
        Some(x) => x,
        None => return None,
    };
    let timeout_seconds = match opt_u32_field(v, "timeout_seconds", 1) {
        Some(x) => x,
        None => return None,
    };
    let min_scale = match opt_u32_field(v, "min_scale", 2) {
        Some(x) => x,
        None => return None,
    };
    let max_scale = match opt_u32_field(v, "max_scale", 3) {
        Some(x) => x,
        None => return None,
    };
    let ghost items = spec_list_field(spec_member(*v, "components"@, 4))->0;
    let mut images: Vec<String> = Vec::new();
    match list_field(v, "components", 4) {
        None => return None,
        Some(None) => {},
        Some(Some(list)) => {
            let mut i: usize = 0;
            while i < list.len()
                invariant
                    i <= list.len(),
                    list@ == items,
                    items == spec_list_field(spec_member(*v, "components"@, 4))->0,
                    forall|m: int| 0 <= m < i ==> component_ok(#[trigger] items[m]),
                    crate::json::texts_view(images@) == images_of(items.subrange(0, i as int)),
                decreases list.len() - i,
            {
                assert(items.subrange(0, i + 1).drop_last() =~= items.subrange(0, i as int));
                let ghost before = crate::json::texts_view(images@);
                match component_image_of(&list[i]) {
                    None => {
                        assert(!component_ok(items[i as int]));
                        return None;
                    },
                    Some(None) => {},
                    Some(Some(image)) => {
                        if chars_of(image.as_str()).len() > 0 {
                            images.push(image);
                            assert(crate::json::texts_view(images@) =~= before.push(component_image(items[i as int])->0));
                        }
                    },
                }
                i = i + 1;
            }
            assert(items.subrange(0, items.len() as int) =~= items);
        },
    }
    Some(ApplicationDetail { port, timeout_seconds, min_scale, max_scale, images })
}

/// The advice added to a 403 answer: the API needs both the AppRun permission
/// on the API key and an AppRun user, and the answer cannot tell which is missing.
pub open spec fn forbidden_hint() -> Seq<char> {
    "\n\nAppRun API には次の2つが必要です:\n\
     1. APIキーの作成時に「AppRun」の権限にチェックが入っていること\n\
        （アクセスレベルとは別の項目です）\n\
     2. AppRun のユーザーが作成済みであること\n\
        コントロールパネルで AppRun を一度開くか、次のコマンドで作成できます:\n\
        curl -X POST -u \"$SAKURA_ACCESS_TOKEN:$SAKURA_ACCESS_TOKEN_SECRET\" \\\n\
          https://secure.sakura.ad.jp/cloud/api/apprun/1.0/apprun/api/user"@
}

/// The message for an error answer: the status, the summary and detail of the
/// error record (or the head of the body), and advice for 401 and 403. `parsed`
/// is the body read as JSON, when it is JSON.
pub fn format_api_error(code: u16, body: &str, parsed: Option<&JsonValue>) -> (r: String)
    requires
        100 <= code <= 999,
    ensures
        r@ == error_message(
            "AppRun "@,
            code,
            body@,
            deref_opt(parsed),
            forbidden_hint(),
        ),
{
    let hint = chars_of(
        "\n\nAppRun API には次の2つが必要です:\n\
     1. APIキーの作成時に「AppRun」の権限にチェックが入っていること\n\
        （アクセスレベルとは別の項目です）\n\
     2. AppRun のユーザーが作成済みであること\n\
        コントロールパネルで AppRun を一度開くか、次のコマンドで作成できます:\n\
        curl -X POST -u \"$SAKURA_ACCESS_TOKEN:$SAKURA_ACCESS_TOKEN_SECRET\" \\\n\
          https://secure.sakura.ad.jp/cloud/api/apprun/1.0/apprun/api/user",
    );
    build_error_message("AppRun ", code, body, parsed, &hint)
}

/// The fields of `value` are those read from `rec`.
pub open spec fn application_fields(value: &Application, rec: &JsonValue) -> bool {
    &&& value.id@ == spec_text_field(spec_member(*rec, "id"@, 0))->0
    &&& value.name@ == spec_text_field(spec_member(*rec, "name"@, 1))->0
    &&& value.status@ == spec_text_field(spec_member(*rec, "status"@, 2))->0
    &&& value.public_url@ == spec_text_field(spec_member(*rec, "public_url"@, 3))->0
    &&& (value.created_at is Some <==> spec_opt_text_field(spec_member(*rec, "created_at"@, 4))->0 is Some) && (value.created_at is Some ==> value.created_at->0@ == spec_opt_text_field(spec_member(*rec, "created_at"@, 4))->0->0)
}

/// The record decodes: it has a record's shape and every field reads.
pub open spec fn decode_application_ok(rec: &JsonValue) -> bool {
    &&& record_shape(*rec, 5)
    &&& spec_text_field(spec_member(*rec, "id"@, 0)) is Some
    &&& spec_text_field(spec_member(*rec, "name"@, 1)) is Some
    &&& spec_text_field(spec_member(*rec, "status"@, 2)) is Some
    &&& spec_text_field(spec_member(*rec, "public_url"@, 3)) is Some
    &&& !missing_in_array(*rec, 4) && spec_opt_text_field(spec_member(*rec, "created_at"@, 4)) is Some
}

/// Reads one application of a list page.
pub fn decode_application(rec: &JsonValue) -> (r: Option<Application>)
    ensures
        r is Some <==> decode_application_ok(rec),
        r is Some ==> application_fields(&r->0, rec),
{
    if !is_record(rec, 5) {
        return None;
    }
    let v_id = match text_field(rec, "id", 0) { Some(x) => x, None => return None };
    let v_name = match text_field(rec, "name", 1) { Some(x) => x, None => return None };
    let v_status = match text_field(rec, "status", 2) { Some(x) => x, None => return None };
    let v_public_url = match text_field(rec, "public_url", 3) { Some(x) => x, None => return None };
    if is_missing_in_array(rec, 4) { return None; }
    let v_created_at = match opt_text_field(rec, "created_at", 4) { Some(x) => x, None => return None };
    Some(Application { id: v_id, name: v_name, status: v_status, public_url: v_public_url, created_at: v_created_at })
}

/// The fields of `value` are those read from `rec`.
pub open spec fn version_fields(value: &Version, rec: &JsonValue) -> bool {
    &&& value.name@ == spec_text_field(spec_member(*rec, "name"@, 0))->0
    &&& value.status@ == spec_text_field(spec_member(*rec, "status"@, 1))->0
    &&& (value.created_at is Some <==> spec_opt_text_field(spec_member(*rec, "created_at"@, 2))->0 is Some) && (value.created_at is Some ==> value.created_at->0@ == spec_opt_text_field(spec_member(*rec, "created_at"@, 2))->0->0)
}

/// The record decodes: it has a record's shape and every field reads.
pub open spec fn decode_version_ok(rec: &JsonValue) -> bool {
    &&& record_shape(*rec, 3)
    &&& spec_text_field(spec_member(*rec, "name"@, 0)) is Some
    &&& spec_text_field(spec_member(*rec, "status"@, 1)) is Some
    &&& !missing_in_array(*rec, 2) && spec_opt_text_field(spec_member(*rec, "created_at"@, 2)) is Some
}

/// Reads one version of an application.
pub fn decode_version(rec: &JsonValue) -> (r: Option<Version>)
    ensures
        r is Some <==> decode_version_ok(rec),
        r is Some ==> version_fields(&r->0, rec),
{
    if !is_record(rec, 3) {
        return None;
    }
    let v_name = match text_field(rec, "name", 0) { Some(x) => x, None => return None };
    let v_status = match text_field(rec, "status", 1) { Some(x) => x, None => return None };
    if is_missing_in_array(rec, 2) { return None; }
    let v_created_at = match opt_text_field(rec, "created_at", 2) { Some(x) => x, None => return None };
    Some(Version { name: v_name, status: v_status, created_at: v_created_at })
}

/// The fields of `value` are those read from `rec`.
pub open spec fn traffic_fields(value: &Traffic, rec: &JsonValue) -> bool {
    &&& value.version_name@ == spec_text_field(spec_member(*rec, "version_name"@, 0))->0
    &&& value.is_latest == spec_bool_field(spec_member(*rec, "is_latest_version"@, 1))->0
    &&& value.percent as int == spec_int_field(spec_member(*rec, "percent"@, 2), i32::MIN as int, i32::MAX as int)->0
}

/// The record decodes: it has a record's shape and every field reads.
pub open spec fn decode_traffic_ok(rec: &JsonValue) -> bool {
    &&& record_shape(*rec, 3)
    &&& spec_text_field(spec_member(*rec, "version_name"@, 0)) is Some
    &&& spec_bool_field(spec_member(*rec, "is_latest_version"@, 1)) is Some
    &&& spec_int_field(spec_member(*rec, "percent"@, 2), i32::MIN as int, i32::MAX as int) is Some
}

/// Reads one traffic share of an application.
pub fn decode_traffic(rec: &JsonValue) -> (r: Option<Traffic>)
    ensures
        r is Some <==> decode_traffic_ok(rec),
        r is Some ==> traffic_fields(&r->0, rec),
{
    if !is_record(rec, 3) {
        return None;
    }
    let v_version_name = match text_field(rec, "version_name", 0) { Some(x) => x, None => return None };
    let v_is_latest = match bool_field(rec, "is_latest_version", 1) { Some(x) => x, None => return None };
    let v_percent: i32 = match int_field(rec, "percent", 2, i32::MIN as i64, i32::MAX as u64) { Some(x) => x as i32, None => return None };
    Some(Traffic { version_name: v_version_name, is_latest: v_is_latest, percent: v_percent })
}

/// One page of applications and the total count the API reports.
pub fn applications_page(v: &JsonValue) -> (r: Option<Paged<Application>>)
    ensures
        r is Some <==> paged_ok(*v) && forall|i: int| 0 <= i < paged_data(*v).len() ==> decode_application_ok(&#[trigger] paged_data(*v)[i]),
        r is Some ==> r->0.spec_items().len() == paged_data(*v).len(),
        r is Some ==> forall|i: int| 0 <= i < r->0.spec_items().len() ==> application_fields(&#[trigger] r->0.spec_items()[i], &paged_data(*v)[i]),
        r is Some ==> r->0.spec_total() == paged_total(*v),
{
    let (list, total) = match paged_parts(v) {
        Some(p) => p,
        None => return None,
    };
    let ghost items = paged_data(*v);
    let meta = match total {
        Some(t) => Some(Meta { object_total: t }),
        None => None,
    };
    match list {
        None => Some(Paged { data: None, meta }),
        Some(list) => {
            let mut out: Vec<Application> = Vec::new();
            let mut i: usize = 0;
            while i < list.len()
                invariant
                    i <= list.len(),
                    list@ == items,
                    items == paged_data(*v),
                    out.len() == i,
                    forall|m: int| 0 <= m < i ==> decode_application_ok(&#[trigger] items[m]),
                    forall|m: int| 0 <= m < i ==> application_fields(&#[trigger] out@[m], &items[m]),
                decreases list.len() - i,
            {
                match decode_application(&list[i]) {
                    Some(x) => out.push(x),
                    None => {
                        assert(!decode_application_ok(&items[i as int]));
                        return None;
                    },
                }
                i = i + 1;
            }
            Some(Paged { data: Some(out), meta })
        },
    }
}

/// The versions of an application.
pub fn versions_page(v: &JsonValue) -> (r: Option<Paged<Version>>)
    ensures
        r is Some <==> paged_ok(*v) && forall|i: int| 0 <= i < paged_data(*v).len() ==> decode_version_ok(&#[trigger] paged_data(*v)[i]),
        r is Some ==> r->0.spec_items().len() == paged_data(*v).len(),
        r is Some ==> forall|i: int| 0 <= i < r->0.spec_items().len() ==> version_fields(&#[trigger] r->0.spec_items()[i], &paged_data(*v)[i]),
        r is Some ==> r->0.spec_total() == paged_total(*v),
{
    let (list, total) = match paged_parts(v) {
        Some(p) => p,
        None => return None,
    };
    let ghost items = paged_data(*v);
    let meta = match total {
        Some(t) => Some(Meta { object_total: t }),
        None => None,
    };
    match list {
        None => Some(Paged { data: None, meta }),
        Some(list) => {
            let mut out: Vec<Version> = Vec::new();
            let mut i: usize = 0;
            while i < list.len()
                invariant
                    i <= list.len(),
                    list@ == items,
                    items == paged_data(*v),
                    out.len() == i,
                    forall|m: int| 0 <= m < i ==> decode_version_ok(&#[trigger] items[m]),
                    forall|m: int| 0 <= m < i ==> version_fields(&#[trigger] out@[m], &items[m]),
                decreases list.len() - i,
            {
                match decode_version(&list[i]) {
                    Some(x) => out.push(x),
                    None => {
                        assert(!decode_version_ok(&items[i as int]));
                        return None;
                    },
                }
                i = i + 1;
            }
            Some(Paged { data: Some(out), meta })
        },
    }
}

/// The traffic shares of an application.
pub fn traffics_page(v: &JsonValue) -> (r: Option<Paged<Traffic>>)
    ensures
        r is Some <==> paged_ok(*v) && forall|i: int| 0 <= i < paged_data(*v).len() ==> decode_traffic_ok(&#[trigger] paged_data(*v)[i]),
        r is Some ==> r->0.spec_items().len() == paged_data(*v).len(),
        r is Some ==> forall|i: int| 0 <= i < r->0.spec_items().len() ==> traffic_fields(&#[trigger] r->0.spec_items()[i], &paged_data(*v)[i]),
        r is Some ==> r->0.spec_total() == paged_total(*v),
{
    let (list, total) = match paged_parts(v) {
        Some(p) => p,
        None => return None,
    };
    let ghost items = paged_data(*v);
    let meta = match total {
        Some(t) => Some(Meta { object_total: t }),
        None => None,
    };
    match list {
        None => Some(Paged { data: None, meta }),
        Some(list) => {
            let mut out: Vec<Traffic> = Vec::new();
            let mut i: usize = 0;
            while i < list.len()
                invariant
                    i <= list.len(),
                    list@ == items,
                    items == paged_data(*v),
                    out.len() == i,
                    forall|m: int| 0 <= m < i ==> decode_traffic_ok(&#[trigger] items[m]),
                    forall|m: int| 0 <= m < i ==> traffic_fields(&#[trigger] out@[m], &items[m]),
                decreases list.len() - i,
            {
                match decode_traffic(&list[i]) {
                    Some(x) => out.push(x),
                    None => {
                        assert(!decode_traffic_ok(&items[i as int]));
                        return None;
                    },
                }
                i = i + 1;
            }
            Some(Paged { data: Some(out), meta })
        },
    }
}

/// The message for an AppRun response that does not read as JSON.
pub fn response_error(text: &str) -> (r: String)
    ensures
        r@ == crate::json::spec_unreadable_response("AppRun APIのレスポンス解析に失敗しました: "@, text@),
{
    crate::json::unreadable_response("AppRun APIのレスポンス解析に失敗しました: ", text)
}

/// The query of the request for page `page` (counted from 1).
pub fn page_query(page: usize) -> (r: Vec<(&'static str, String)>)
    ensures
        r@.len() == 2,
        r@[0].0@ == "page_num"@ && r@[0].1@ == crate::text::decimal(page as nat),
        r@[1].0@ == "page_size"@ && r@[1].1@ == crate::text::decimal(PAGE_SIZE as nat),
{
    let mut query: Vec<(&'static str, String)> = Vec::new();
    query.push(("page_num", string_from_chars(&crate::text::u64_to_decimal(page as u64))));
    query.push(("page_size", string_from_chars(&crate::text::u64_to_decimal(PAGE_SIZE as u64))));
    query
}

} // verus!
