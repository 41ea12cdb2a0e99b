//! A JSON document as plain values, and the field readers that the API decoders
//! are built from. Text is turned into a [`JsonValue`] outside the library, by
//! `serde_json`; the readers here follow what `serde` does when it fills a field.

use vstd::prelude::*;

use crate::text::{all_digits, chars_of, decimal, digits_value, parse_decimal_u64, trim, trim_str, u64_to_decimal};

verus! {

/// A JSON number, as `serde_json` keeps it.
#[derive(Debug, Clone, PartialEq, Eq)]
pub enum JsonNumber {
    /// A non-negative integer that fits in `u64`.
    Unsigned(u64),
    /// A negative integer that fits in `i64`.
    Negative(i64),
    /// Any other number, by its textual form.
    Float(String),
}

/// A JSON value. Object members keep their order; their keys are distinct.
#[derive(Debug)]
pub enum JsonValue {
    Null,
    Bool(bool),
    Number(JsonNumber),
    Str(String),
    Array(Vec<JsonValue>),
    Object(Vec<(String, JsonValue)>),
}

/// Position of the member `key` among `members`, or -1.
pub open spec fn member_index(members: Seq<(String, JsonValue)>, key: Seq<char>) -> int
    decreases members.len(),
{
    if members.len() == 0 {
        -1
    } else if members.last().0@ == key {
        members.len() - 1
    } else {
        member_index(members.drop_last(), key)
    }
}

pub proof fn lemma_member_index(members: Seq<(String, JsonValue)>, key: Seq<char>)
    ensures
        -1 <= member_index(members, key) < members.len(),
        member_index(members, key) >= 0 ==> members[member_index(members, key)].0@ == key,
        member_index(members, key) == -1 ==> forall|k: int| 0 <= k < members.len() ==> members[k].0@ != key,
    decreases members.len(),
{
    if members.len() > 0 && members.last().0@ != key {
        lemma_member_index(members.drop_last(), key);
        assert forall|k: int| 0 <= k < members.len() && member_index(members, key) == -1 implies members[k].0@ != key by {
            if k < members.len() - 1 {
                assert(members.drop_last()[k] == members[k]);
            }
        }
    }
}

/// The member `key` of an object (`Value::get`); `None` for a missing member or a
/// value that is not an object.
pub open spec fn spec_get(v: JsonValue, key: Seq<char>) -> Option<JsonValue> {
    match v {
        JsonValue::Object(members) => {
            let k = member_index(members@, key);
            if k >= 0 {
                Some(members@[k].1)
            } else {
                None
            }
        },
        _ => None,
    }
}

/// `Value::get` with a string key.
pub fn get<'a>(v: &'a JsonValue, key: &str) -> (r: Option<&'a JsonValue>)
    ensures
        r is Some <==> spec_get(*v, key@) is Some,
        r is Some ==> *r->0 == spec_get(*v, key@)->0,
{
    match v {
        JsonValue::Object(members) => {
            proof { lemma_member_index(members@, key@); }
            let mut i = members.len();
            assert(members@.subrange(0, i as int) =~= members@);
            while i > 0
                invariant
                    i <= members.len(),
                    member_index(members@, key@) == member_index(members@.subrange(0, i as int), key@),
                    spec_get(*v, key@) == (if member_index(members@, key@) >= 0 {
                        Some(members@[member_index(members@, key@)].1)
                    } else {
                        None::<JsonValue>
                    }),
                decreases i,
            {
                let ghost s = members@.subrange(0, i as int);
                if crate::text::str_eq(members[i - 1].0.as_str(), key) {
                    assert(s.last() == members@[i - 1]);
                    assert(member_index(s, key@) == i - 1);
                    assert(spec_get(*v, key@) == Some(members@[i - 1].1));
                    return Some(&members[i - 1].1);
                }
                assert(s.drop_last() =~= members@.subrange(0, i - 1));
                i = i - 1;
            }
            None
        },
        _ => None,
    }
}

/// `Value::as_u64`.
pub open spec fn spec_as_u64(v: JsonValue) -> Option<u64> {
    match v {
        JsonValue::Number(JsonNumber::Unsigned(n)) => Some(n),
        _ => None,
    }
}

pub fn as_u64(v: &JsonValue) -> (r: Option<u64>)
    ensures
        r == spec_as_u64(*v),
{
    match v {
        JsonValue::Number(JsonNumber::Unsigned(n)) => Some(*n),
        _ => None,
    }
}

/// `Value::as_i64`.
pub open spec fn spec_as_i64(v: JsonValue) -> Option<i64> {
    match v {
        JsonValue::Number(JsonNumber::Unsigned(n)) => if n <= i64::MAX { Some(n as i64) } else { None },
        JsonValue::Number(JsonNumber::Negative(n)) => Some(n),
        _ => None,
    }
}

pub fn as_i64(v: &JsonValue) -> (r: Option<i64>)
    ensures
        r == spec_as_i64(*v),
{
    match v {
        JsonValue::Number(JsonNumber::Unsigned(n)) => if *n <= i64::MAX as u64 { Some(*n as i64) } else { None },
        JsonValue::Number(JsonNumber::Negative(n)) => Some(*n),
        _ => None,
    }
}

/// The textual form of a number (`Number`'s `Display`).
pub open spec fn number_text(n: JsonNumber) -> Seq<char> {
    match n {
        JsonNumber::Unsigned(u) => decimal(u as nat),
        JsonNumber::Negative(i) => if i < 0 {
            seq!['-'].add(decimal((-i) as nat))
        } else {
            decimal(i as nat)
        },
        JsonNumber::Float(t) => t@,
    }
}

pub fn number_to_string(n: &JsonNumber) -> (r: Vec<char>)
    ensures
        r@ == number_text(*n),
{
    match n {
        JsonNumber::Unsigned(u) => u64_to_decimal(*u),
        JsonNumber::Negative(i) => {
            if *i >= 0 {
                return u64_to_decimal(*i as u64);
            }
            let magnitude: u64 = if *i == i64::MIN { 9223372036854775808u64 } else { (-*i) as u64 };
            let mut out = vec!['-'];
            let mut digits = u64_to_decimal(magnitude);
            out.append(&mut digits);
            assert(out@ =~= seq!['-'].add(decimal((-*i) as nat)));
            out
        },
        JsonNumber::Float(t) => crate::text::chars_of(t.as_str()),
    }
}

/// `Value::as_array`.
pub fn as_array(v: &JsonValue) -> (r: Option<&Vec<JsonValue>>)
    ensures
        r is Some <==> *v is Array,
        r is Some ==> *r->0 == v->Array_0,
{
    match v {
        JsonValue::Array(items) => Some(items),
        _ => None,
    }
}

/// The value of field `key` of a record, the field being the `pos`-th of its
/// record type: the member `key` of an object, or the `pos`-th element of an
/// array (serde fills a record from either). `None` when the field is absent.
pub open spec fn spec_member(rec: JsonValue, key: Seq<char>, pos: int) -> Option<JsonValue> {
    match rec {
        JsonValue::Object(_) => spec_get(rec, key),
        JsonValue::Array(items) => if 0 <= pos < items@.len() { Some(items@[pos]) } else { None },
        _ => None,
    }
}

/// A value that serde accepts as a record with `fields` fields: an object, or an
/// array of at most `fields` elements.
pub open spec fn record_shape(rec: JsonValue, fields: int) -> bool {
    match rec {
        JsonValue::Object(_) => true,
        JsonValue::Array(items) => items@.len() <= fields,
        _ => false,
    }
}

pub fn is_record(rec: &JsonValue, fields: usize) -> (r: bool)
    ensures
        r == record_shape(*rec, fields as int),
{
    match rec {
        JsonValue::Object(_) => true,
        JsonValue::Array(items) => items.len() <= fields,
        _ => false,
    }
}

/// A field given as an array element that the array does not reach.
pub open spec fn missing_in_array(rec: JsonValue, pos: int) -> bool {
    rec is Array && pos >= rec->Array_0@.len()
}

pub fn is_missing_in_array(rec: &JsonValue, pos: usize) -> (r: bool)
    ensures
        r == missing_in_array(*rec, pos as int),
{
    match rec {
        JsonValue::Array(items) => pos >= items.len(),
        _ => false,
    }
}

/// Reads field `key` (the `pos`-th) of a record.
pub fn member<'a>(rec: &'a JsonValue, key: &str, pos: usize) -> (r: Option<&'a JsonValue>)
    ensures
        r is Some <==> spec_member(*rec, key@, pos as int) is Some,
        r is Some ==> *r->0 == spec_member(*rec, key@, pos as int)->0,
{
    match rec {
        JsonValue::Object(_) => get(rec, key),
        JsonValue::Array(items) => if pos < items.len() { Some(&items[pos]) } else { None },
        _ => None,
    }
}

/// A `String` field filled with a default for null: absent or `null` gives the
/// empty text, a string gives itself, anything else is an error (`None`).
pub open spec fn spec_text_field(f: Option<JsonValue>) -> Option<Seq<char>> {
    match f {
        None => Some(Seq::empty()),
        Some(JsonValue::Null) => Some(Seq::empty()),
        Some(JsonValue::Str(s)) => Some(s@),
        _ => None,
    }
}

/// Reads a `String` field that defaults when absent or `null`.
pub fn text_field(rec: &JsonValue, key: &str, pos: usize) -> (r: Option<String>)
    ensures
        r is Some <==> spec_text_field(spec_member(*rec, key@, pos as int)) is Some,
        r is Some ==> r->0@ == spec_text_field(spec_member(*rec, key@, pos as int))->0,
{
    match member(rec, key, pos) {
        None => Some(String::new()),
        Some(JsonValue::Null) => Some(String::new()),
        Some(JsonValue::Str(s)) => Some(s.clone()),
        _ => None,
    }
}

/// An optional `String` field: absent or `null` is `None`, a string is `Some`,
/// anything else is an error.
pub open spec fn spec_opt_text_field(f: Option<JsonValue>) -> Option<Option<Seq<char>>> {
    match f {
        None => Some(None),
        Some(JsonValue::Null) => Some(None),
        Some(JsonValue::Str(s)) => Some(Some(s@)),
        _ => None,
    }
}

/// Reads an `Option<String>` field.
pub fn opt_text_field(rec: &JsonValue, key: &str, pos: usize) -> (r: Option<Option<String>>)
    ensures
        r is Some <==> spec_opt_text_field(spec_member(*rec, key@, pos as int)) is Some,
        r is Some ==> (r->0 is Some <==> spec_opt_text_field(spec_member(*rec, key@, pos as int))->0 is Some),
        r is Some && r->0 is Some ==> r->0->0@ == spec_opt_text_field(spec_member(*rec, key@, pos as int))->0->0,
{
    match member(rec, key, pos) {
        None => Some(None),
        Some(JsonValue::Null) => Some(None),
        Some(JsonValue::Str(s)) => Some(Some(s.clone())),
        _ => None,
    }
}

/// The texts of an array of strings, or `None` when an element is not a string.
pub open spec fn spec_text_items(items: Seq<JsonValue>) -> Option<Seq<Seq<char>>>
    decreases items.len(),
{
    if items.len() == 0 {
        Some(Seq::empty())
    } else {
        match (spec_text_items(items.drop_last()), items.last()) {
            (Some(prev), JsonValue::Str(s)) => Some(prev.push(s@)),
            _ => None,
        }
    }
}

/// A `Vec<String>` field filled with a default for null: absent or `null` gives
/// no texts, an array of strings gives its texts, anything else is an error.
pub open spec fn spec_text_list_field(f: Option<JsonValue>) -> Option<Seq<Seq<char>>> {
    match f {
        None => Some(Seq::empty()),
        Some(JsonValue::Null) => Some(Seq::empty()),
        Some(JsonValue::Array(items)) => spec_text_items(items@),
        _ => None,
    }
}

/// The views of a vector of strings.
pub open spec fn texts_view(v: Seq<String>) -> Seq<Seq<char>> {
    v.map_values(|s: String| s@)
}

/// Reads a `Vec<String>` field that defaults when absent or `null`.
pub fn text_list_field(rec: &JsonValue, key: &str, pos: usize) -> (r: Option<Vec<String>>)
    ensures
        r is Some <==> spec_text_list_field(spec_member(*rec, key@, pos as int)) is Some,
        r is Some ==> texts_view(r->0@) == spec_text_list_field(spec_member(*rec, key@, pos as int))->0,
{
    match member(rec, key, pos) {
        None => Some(Vec::new()),
        Some(JsonValue::Null) => Some(Vec::new()),
        Some(JsonValue::Array(items)) => {
            let mut out: Vec<String> = Vec::new();
            let mut i: usize = 0;
            while i < items.len()
                invariant
                    i <= items.len(),
                    spec_text_list_field(spec_member(*rec, key@, pos as int)) == spec_text_items(items@),
                    spec_text_items(items@.subrange(0, i as int)) is Some,
                    texts_view(out@) == spec_text_items(items@.subrange(0, i as int))->0,
                decreases items.len() - i,
            {
                let ghost p = items@.subrange(0, i + 1);
                assert(p.drop_last() =~= items@.subrange(0, i as int));
                match &items[i] {
                    JsonValue::Str(s) => {
                        out.push(s.clone());
                        assert(texts_view(out@) =~= spec_text_items(p)->0);
                    },
                    _ => {
                        assert(spec_text_items(p) is None);
                        proof { lemma_text_items_prefix(items@, i + 1); }
                        return None;
                    },
                }
                i = i + 1;
            }
            assert(items@.subrange(0, items@.len() as int) =~= items@);
            Some(out)
        },
        _ => None,
    }
}

/// A failing prefix makes the whole array fail.
proof fn lemma_text_items_prefix(items: Seq<JsonValue>, n: int)
    requires
        0 <= n <= items.len(),
        spec_text_items(items.subrange(0, n)) is None,
    ensures
        spec_text_items(items) is None,
    decreases items.len() - n,
{
    if n < items.len() {
        let p = items.subrange(0, n + 1);
        assert(p.drop_last() =~= items.subrange(0, n));
        lemma_text_items_prefix(items, n + 1);
    } else {
        assert(items.subrange(0, n) =~= items);
    }
}

/// An `Option<i64>` field: absent or `null` is `None`, a number that fits `i64`
/// is `Some`, anything else is an error.
pub open spec fn spec_opt_i64_field(f: Option<JsonValue>) -> Option<Option<i64>> {
    match f {
        None => Some(None),
        Some(JsonValue::Null) => Some(None),
        Some(v) => match spec_as_i64(v) {
            Some(n) => Some(Some(n)),
            None => None,
        },
    }
}

pub fn opt_i64_field(rec: &JsonValue, key: &str, pos: usize) -> (r: Option<Option<i64>>)
    ensures
        r == spec_opt_i64_field(spec_member(*rec, key@, pos as int)),
{
    match member(rec, key, pos) {
        None => Some(None),
        Some(JsonValue::Null) => Some(None),
        Some(v) => match as_i64(v) {
            Some(n) => Some(Some(n)),
            None => None,
        },
    }
}

/// An `Option<u32>` field: absent or `null` is `None`, a number that fits `u32`
/// is `Some`, anything else is an error.
pub open spec fn spec_opt_u32_field(f: Option<JsonValue>) -> Option<Option<u32>> {
    match f {
        None => Some(None),
        Some(JsonValue::Null) => Some(None),
        Some(JsonValue::Number(JsonNumber::Unsigned(n))) => if n <= u32::MAX { Some(Some(n as u32)) } else { None },
        _ => None,
    }
}

pub fn opt_u32_field(rec: &JsonValue, key: &str, pos: usize) -> (r: Option<Option<u32>>)
    ensures
        r == spec_opt_u32_field(spec_member(*rec, key@, pos as int)),
{
    match member(rec, key, pos) {
        None => Some(None),
        Some(JsonValue::Null) => Some(None),
        Some(JsonValue::Number(JsonNumber::Unsigned(n))) => if *n <= u32::MAX as u64 { Some(Some(*n as u32)) } else { None },
        _ => None,
    }
}

/// A `bool` field with a default: absent is `false`, a boolean is itself,
/// anything else (`null` included) is an error.
pub open spec fn spec_bool_field(f: Option<JsonValue>) -> Option<bool> {
    match f {
        None => Some(false),
        Some(JsonValue::Bool(b)) => Some(b),
        _ => None,
    }
}

pub fn bool_field(rec: &JsonValue, key: &str, pos: usize) -> (r: Option<bool>)
    ensures
        r == spec_bool_field(spec_member(*rec, key@, pos as int)),
{
    match member(rec, key, pos) {
        None => Some(false),
        Some(JsonValue::Bool(b)) => Some(*b),
        _ => None,
    }
}

/// An integer field with a default: absent is 0, a number in `min..=max` is
/// itself, anything else (`null` included) is an error.
pub open spec fn spec_int_field(f: Option<JsonValue>, min: int, max: int) -> Option<int> {
    match f {
        None => Some(0),
        Some(JsonValue::Number(JsonNumber::Unsigned(n))) => if n <= max { Some(n as int) } else { None },
        Some(JsonValue::Number(JsonNumber::Negative(n))) => if min <= n && n <= max { Some(n as int) } else { None },
        _ => None,
    }
}

/// Reads an integer field with a default, within `min..=max`.
pub fn int_field(rec: &JsonValue, key: &str, pos: usize, min: i64, max: u64) -> (r: Option<i128>)
    requires
        min <= 0,
    ensures
        r is Some <==> spec_int_field(spec_member(*rec, key@, pos as int), min as int, max as int) is Some,
        r is Some ==> r->0 == spec_int_field(spec_member(*rec, key@, pos as int), min as int, max as int)->0,
        r is Some ==> min <= r->0 <= max,
{
    match member(rec, key, pos) {
        None => Some(0),
        Some(JsonValue::Number(JsonNumber::Unsigned(n))) => if *n <= max { Some(*n as i128) } else { None },
        Some(JsonValue::Number(JsonNumber::Negative(n))) => if min <= *n && (*n < 0 || *n as u64 <= max) { Some(*n as i128) } else { None },
        _ => None,
    }
}

/// A number field that also accepts a numeric string: absent or `null` is 0, an
/// integer in `min..=max` is itself, a string of decimal digits (with an optional
/// sign) is its value when in range, anything else is an error.
pub open spec fn spec_flexible_field(f: Option<JsonValue>, min: int, max: int) -> Option<int> {
    match f {
        None => Some(0),
        Some(JsonValue::Null) => Some(0),
        Some(JsonValue::Number(JsonNumber::Unsigned(n))) => if n <= max { Some(n as int) } else { None },
        Some(JsonValue::Number(JsonNumber::Negative(n))) => if min <= n && n <= max { Some(n as int) } else { None },
        Some(JsonValue::Str(s)) => {
            let t = s@;
            if t.len() > 0 && t[0] == '-' {
                match crate::text::parse_unsigned(t.drop_first(), (-min) as nat) {
                    Some(m) => if m > 0 { Some(-m) } else { Some(0) },
                    None => None,
                }
            } else {
                match crate::text::parse_unsigned(t, max as nat) {
                    Some(m) => Some(m as int),
                    None => None,
                }
            }
        },
        _ => None,
    }
}

/// Reads a number field that also accepts a numeric string, within `min..=max`.
pub fn flexible_field(rec: &JsonValue, key: &str, pos: usize, min: i64, max: u64) -> (r: Option<i128>)
    requires
        min <= 0,
    ensures
        r is Some <==> spec_flexible_field(spec_member(*rec, key@, pos as int), min as int, max as int) is Some,
        r is Some ==> r->0 == spec_flexible_field(spec_member(*rec, key@, pos as int), min as int, max as int)->0,
        r is Some ==> min <= r->0 <= max,
{
    match member(rec, key, pos) {
        None => Some(0),
        Some(JsonValue::Null) => Some(0),
        Some(JsonValue::Number(JsonNumber::Unsigned(n))) => if *n <= max { Some(*n as i128) } else { None },
        Some(JsonValue::Number(JsonNumber::Negative(n))) => if min <= *n && (*n < 0 || *n as u64 <= max) { Some(*n as i128) } else { None },
        Some(JsonValue::Str(s)) => {
            let t = crate::text::chars_of(s.as_str());
            if t.len() > 0 && t[0] == '-' {
                let mut rest: Vec<char> = Vec::new();
                let mut i: usize = 1;
                while i < t.len()
                    invariant
                        1 <= i <= t.len(),
                        rest@ == t@.subrange(1, i as int),
                    decreases t.len() - i,
                {
                    rest.push(t[i]);
                    i = i + 1;
                    assert(rest@ =~= t@.subrange(1, i as int));
                }
                assert(rest@ =~= t@.drop_first());
                let bound: u64 = if min == i64::MIN { 9223372036854775808u64 } else { (-min) as u64 };
                match crate::text::parse_unsigned_exec(&rest, bound) {
                    Some(m) => if m > 0 { Some(-(m as i128)) } else { Some(0) },
                    None => None,
                }
            } else {
                match crate::text::parse_unsigned_exec(&t, max) {
                    Some(m) => Some(m as i128),
                    None => None,
                }
            }
        },
        _ => None,
    }
}

/// A `Vec` field filled with a default for null: absent or `null` gives no
/// elements, an array gives its elements, anything else is an error.
pub open spec fn spec_list_field(f: Option<JsonValue>) -> Option<Seq<JsonValue>> {
    match f {
        None => Some(Seq::empty()),
        Some(JsonValue::Null) => Some(Seq::empty()),
        Some(JsonValue::Array(items)) => Some(items@),
        _ => None,
    }
}

/// Reads a `Vec` field that defaults when absent or `null`: `Some(None)` when
/// the field gives no elements that way, `Some(Some(items))` for an array.
pub fn list_field<'a>(rec: &'a JsonValue, key: &str, pos: usize) -> (r: Option<Option<&'a Vec<JsonValue>>>)
    ensures
        r is Some <==> spec_list_field(spec_member(*rec, key@, pos as int)) is Some,
        r is Some && r->0 is None ==> spec_list_field(spec_member(*rec, key@, pos as int))->0.len() == 0,
        r is Some && r->0 is Some ==> r->0->0@ == spec_list_field(spec_member(*rec, key@, pos as int))->0,
{
    match member(rec, key, pos) {
        None => Some(None),
        Some(JsonValue::Null) => Some(None),
        Some(JsonValue::Array(items)) => Some(Some(items)),
        _ => None,
    }
}

/// A field that is there and not `null`.
pub open spec fn present(f: Option<JsonValue>) -> Option<JsonValue> {
    match f {
        Some(JsonValue::Null) => None,
        other => other,
    }
}

/// Reads field `key` (the `pos`-th) of a record when it is there and not `null`.
pub fn present_member<'a>(rec: &'a JsonValue, key: &str, pos: usize) -> (r: Option<&'a JsonValue>)
    ensures
        r is Some <==> present(spec_member(*rec, key@, pos as int)) is Some,
        r is Some ==> *r->0 == present(spec_member(*rec, key@, pos as int))->0,
{
    match member(rec, key, pos) {
        Some(JsonValue::Null) => None,
        other => other,
    }
}

/// The text that is read as JSON for a response body: `{}` for a blank body.
pub open spec fn spec_json_text(body: Seq<char>) -> Seq<char> {
    if trim(body).len() == 0 {
        "{}"@
    } else {
        body
    }
}

/// The text to read as JSON for a response body: `{}` when the body is blank.
pub fn json_text(body: &str) -> (r: &str)
    ensures
        r@ == spec_json_text(body@),
{
    if trim_str(body).len() == 0 {
        "{}"
    } else {
        body
    }
}

/// The first `n` characters of a text.
pub open spec fn text_head(s: Seq<char>, n: nat) -> Seq<char> {
    if s.len() <= n {
        s
    } else {
        s.subrange(0, n as int)
    }
}

/// The first `n` characters of a text (`chars().take(n)`).
pub fn head_of(s: &str, n: usize) -> (r: Vec<char>)
    ensures
        r@ == text_head(s@, n as nat),
{
    let v = chars_of(s);
    let mut out: Vec<char> = Vec::new();
    let mut i: usize = 0;
    while i < v.len() && i < n
        invariant
            i <= v.len(),
            i <= n,
            v@ == s@,
            out@ == v@.subrange(0, i as int),
        decreases v.len() - i,
    {
        out.push(v[i]);
        assert(out@ =~= v@.subrange(0, i + 1));
        i = i + 1;
    }
    assert(v@.len() <= n ==> v@.subrange(0, v@.len() as int) =~= v@);
    out
}

/// The message for a response that does not read as JSON: `prefix`, then the
/// first 200 characters of the text that was read.
pub open spec fn spec_unreadable_response(prefix: Seq<char>, body: Seq<char>) -> Seq<char> {
    prefix + text_head(spec_json_text(body), 200)
}

pub fn unreadable_response(prefix: &str, body: &str) -> (r: String)
    ensures
        r@ == spec_unreadable_response(prefix@, body@),
{
    let mut out = chars_of(prefix);
    let mut head = head_of(json_text(body), 200);
    out.append(&mut head);
    crate::text::string_from_chars(&out)
}

} // verus!
