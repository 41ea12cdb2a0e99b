//! The error messages of the AppRun APIs, built from the status and the body
//! that the API answered with.

use vstd::prelude::*;

use crate::json::{is_record, record_shape, spec_member, spec_text_field, text_field, JsonValue};
use crate::text::{chars_of, decimal, string_from_chars, trim, trim_str};

verus! {

/// What `StatusCode`'s `Display` writes for a code: the code, a space and the
/// canonical reason phrase (or a fixed text for a code without one).
pub uninterp spec fn spec_status_text(code: u16) -> Seq<char>;

/// `reqwest::StatusCode::from_u16(code)` written with `Display`, as in
/// "404 Not Found". The text is named, not spelled out; the contract states only
/// what the source shows plainly: it starts with the code in decimal and a space.
#[verifier::external_body]
pub(crate) fn status_text(code: u16) -> (r: String)
    requires
        100 <= code <= 999,
    ensures
        r@ == spec_status_text(code),
        decimal(code as nat).len() < r@.len(),
        r@.subrange(0, decimal(code as nat).len() as int + 1) == decimal(code as nat).push(' '),
{
    match reqwest::StatusCode::from_u16(code) {
        Ok(status) => status.to_string(),
        Err(_) => String::new(),
    }
}

/// The error body decodes as the error record: `message`, `detail`, `error_msg`
/// and `error_code`, each a string, `null` or absent.
pub open spec fn api_error_ok(v: JsonValue) -> bool {
    &&& record_shape(v, 4)
    &&& spec_text_field(spec_member(v, "message"@, 0)) is Some
    &&& spec_text_field(spec_member(v, "detail"@, 1)) is Some
    &&& spec_text_field(spec_member(v, "error_msg"@, 2)) is Some
    &&& spec_text_field(spec_member(v, "error_code"@, 3)) is Some
}

/// A field of the error record; empty when the body is not such a record.
pub open spec fn api_error_field(parsed: Option<JsonValue>, key: Seq<char>, pos: int) -> Seq<char> {
    match parsed {
        Some(v) => if api_error_ok(v) {
            spec_text_field(spec_member(v, key, pos))->0
        } else {
            Seq::empty()
        },
        None => Seq::empty(),
    }
}

/// The summary and the detail of an error, from either form the API uses: its
/// own (`message`, `detail`) or the one of the IaaS API (`error_msg`,
/// `error_code`).
pub open spec fn error_parts(parsed: Option<JsonValue>) -> Option<(Seq<char>, Seq<char>)> {
    let message = api_error_field(parsed, "message"@, 0);
    let error_msg = api_error_field(parsed, "error_msg"@, 2);
    if message.len() > 0 {
        Some((message, api_error_field(parsed, "detail"@, 1)))
    } else if error_msg.len() > 0 {
        Some((error_msg, api_error_field(parsed, "error_code"@, 3)))
    } else {
        None
    }
}

/// The advice added to a 401 answer.
pub open spec fn unauthorized_hint() -> Seq<char> {
    "\n\n     同じキーで他のサービスが見えているなら、次のどちらかです:\n\
     ・この環境に AppRun が無い（社内テスト環境では未提供のことがあります）\n\
     ・AppRun 側のユーザーが未作成\n\
     --trace を付けて起動すると、実際に叩いた URL を確認できます。"@
}

fn unauthorized_hint_text() -> (r: Vec<char>)
    ensures
        r@ == unauthorized_hint(),
{
    chars_of(
        "\n\n     同じキーで他のサービスが見えているなら、次のどちらかです:\n\
     ・この環境に AppRun が無い（社内テスト環境では未提供のことがあります）\n\
     ・AppRun 側のユーザーが未作成\n\
     --trace を付けて起動すると、実際に叩いた URL を確認できます。",
    )
}

/// The advice added for a status: `forbidden` for 403, the 401 advice for 401,
/// nothing otherwise.
pub open spec fn hint_for(code: u16, forbidden: Seq<char>) -> Seq<char> {
    if code == 403 {
        forbidden
    } else if code == 401 {
        unauthorized_hint()
    } else {
        Seq::empty()
    }
}

/// The first 200 characters of the trimmed body.
pub open spec fn body_head(body: Seq<char>) -> Seq<char> {
    let t = trim(body);
    if t.len() <= 200 {
        t
    } else {
        t.subrange(0, 200)
    }
}

/// The message for an error answer of `service`'s API: the status, then the
/// summary and detail of the error record, or else the head of the body, then
/// the advice for the status.
pub open spec fn error_message(
    service: Seq<char>,
    code: u16,
    body: Seq<char>,
    parsed: Option<JsonValue>,
    forbidden: Seq<char>,
) -> Seq<char> {
    error_message_with_status(service, code, spec_status_text(code), body, parsed, forbidden)
}

/// The message for an error answer whose status reads `status`.
pub open spec fn error_message_with_status(
    service: Seq<char>,
    code: u16,
    status: Seq<char>,
    body: Seq<char>,
    parsed: Option<JsonValue>,
    forbidden: Seq<char>,
) -> Seq<char> {
    let prefix = service + "APIエラー ("@ + status + ")"@;
    let hint = hint_for(code, forbidden);
    match error_parts(parsed) {
        Some((summary, detail)) => if detail.len() == 0 {
            prefix + ": "@ + summary + hint
        } else {
            prefix + ": "@ + summary + " ["@ + detail + "]"@ + hint
        },
        None => if body_head(body).len() == 0 {
            prefix + hint
        } else {
            prefix + ": "@ + body_head(body) + hint
        },
    }
}

/// The value of an optional reference.
pub open spec fn deref_opt(parsed: Option<&JsonValue>) -> Option<JsonValue> {
    match parsed {
        Some(v) => Some(*v),
        None => None,
    }
}

/// The record the AppRun APIs answer an error with: their own form
/// (`message`, `detail`) or, when authentication fails, the form of the IaaS API
/// (`error_msg`, `error_code`).
#[derive(Debug, Clone)]
pub struct ApiError {
    pub message: String,
    pub detail: String,
    pub error_msg: String,
    pub error_code: String,
}

impl Default for ApiError {
    fn default() -> (r: ApiError)
        ensures
            r.message@.len() == 0 && r.detail@.len() == 0 && r.error_msg@.len() == 0 && r.error_code@.len() == 0,
    {
        ApiError { message: String::new(), detail: String::new(), error_msg: String::new(), error_code: String::new() }
    }
}

impl ApiError {
    /// The error record of a body (`parsed` is the body read as JSON, when it
    /// is JSON); an empty record when the body is not one.
    pub fn from_body(parsed: Option<&JsonValue>) -> (r: ApiError)
        ensures
            r.message@ == api_error_field(deref_opt(parsed), "message"@, 0),
            r.detail@ == api_error_field(deref_opt(parsed), "detail"@, 1),
            r.error_msg@ == api_error_field(deref_opt(parsed), "error_msg"@, 2),
            r.error_code@ == api_error_field(deref_opt(parsed), "error_code"@, 3),
    {
        let v = match parsed {
            Some(v) => v,
            None => return ApiError::default(),
        };
        if !is_record(v, 4) {
            return ApiError::default();
        }
        let message = text_field(v, "message", 0);
        let detail = text_field(v, "detail", 1);
        let error_msg = text_field(v, "error_msg", 2);
        let error_code = text_field(v, "error_code", 3);
        match (message, detail, error_msg, error_code) {
            (Some(message), Some(detail), Some(error_msg), Some(error_code)) => ApiError {
                message,
                detail,
                error_msg,
                error_code,
            },
            _ => ApiError::default(),
        }
    }

    /// The summary and the detail to show, from whichever form is filled.
    pub fn parts(&self) -> (r: Option<(&str, &str)>)
        ensures
            r is Some <==> (self.message@.len() > 0 || self.error_msg@.len() > 0),
            self.message@.len() > 0 ==> (r matches Some((s, d)) && s@ == self.message@ && d@ == self.detail@),
            self.message@.len() == 0 && self.error_msg@.len() > 0 ==> (r matches Some((s, d)) && s@
                == self.error_msg@ && d@ == self.error_code@),
    {
        if self.message.as_str().unicode_len() > 0 {
            return Some((self.message.as_str(), self.detail.as_str()));
        }
        if self.error_msg.as_str().unicode_len() > 0 {
            return Some((self.error_msg.as_str(), self.error_code.as_str()));
        }
        None
    }
}

fn append_text(out: &mut Vec<char>, s: &str)
    ensures
        final(out)@ == old(out)@ + s@,
{
    let mut t = chars_of(s);
    out.append(&mut t);
}

/// Builds the message for an error answer of `service`'s API. `parsed` is the
/// body read as JSON, when it is JSON.
pub(crate) fn build_error_message(
    service: &str,
    code: u16,
    body: &str,
    parsed: Option<&JsonValue>,
    forbidden: &Vec<char>,
) -> (r: String)
    requires
        100 <= code <= 999,
    ensures
        r@ == error_message(
            service@,
            code,
            body@,
            deref_opt(parsed),
            forbidden@,
        ),
{
    let status = status_text(code);
    compose_error_message(service, code, status.as_str(), body, parsed, forbidden)
}

/// The message for an error answer of `service`'s API whose status reads
/// `status` (as "404 Not Found"): the status, the summary and detail of the error
/// record or else the head of the body, and the advice for 401 and 403.
pub fn compose_error_message(
    service: &str,
    code: u16,
    status: &str,
    body: &str,
    parsed: Option<&JsonValue>,
    forbidden: &Vec<char>,
) -> (r: String)
    ensures
        r@ == error_message_with_status(
            service@,
            code,
            status@,
            body@,
            deref_opt(parsed),
            forbidden@,
        ),
{
    let mut out = chars_of(service);
    append_text(&mut out, "APIエラー (");
    append_text(&mut out, status);
    append_text(&mut out, ")");
    let mut hint: Vec<char> = if code == 403 {
        forbidden.clone()
    } else if code == 401 {
        unauthorized_hint_text()
    } else {
        Vec::new()
    };
    assert(hint@ == hint_for(code, forbidden@));
    let record = ApiError::from_body(parsed);
    let parts = record.parts();
    match parts {
        Some((summary, detail)) => {
            append_text(&mut out, ": ");
            append_text(&mut out, summary);
            if detail.unicode_len() > 0 {
                append_text(&mut out, " [");
                append_text(&mut out, detail);
                append_text(&mut out, "]");
            }
        },
        None => {
            let t = trim_str(body);
            let mut head: Vec<char> = Vec::new();
            let mut i: usize = 0;
            while i < t.len() && i < 200
                invariant
                    i <= t.len(),
                    i <= 200,
                    head@ == t@.subrange(0, i as int),
                decreases t.len() - i,
            {
                head.push(t[i]);
                assert(head@ =~= t@.subrange(0, i + 1));
                i = i + 1;
            }
            assert(head@ == body_head(body@)) by {
                if t@.len() <= 200 {
                    assert(t@.subrange(0, t@.len() as int) =~= t@);
                }
            }
            if head.len() > 0 {
                append_text(&mut out, ": ");
                out.append(&mut head);
            }
        },
    }
    out.append(&mut hint);
    string_from_chars(&out)
}

} // verus!
