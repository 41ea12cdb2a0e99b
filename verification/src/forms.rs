//! The checks and normalisations of the input forms: switches, DNS zones and
//! records, simple monitors, and the label conditions of notifications.

use vstd::prelude::*;

use crate::cloud_resources::{pairs_view, ResourceId};
use crate::text::{
    char_views, lemma_split_on_nonempty, occurs_at, split_chars, split_on, utf8_len, utf8_len_exceeds, ascii_lower, ascii_upper, char_ascii_lower, char_ascii_upper, char_is_white_space, chars_of, has_substring,
    is_white_space, trim_chars, trim_end, trim_start, parse_u16_text, parse_u32_text, parse_unsigned, string_from_chars, trim, trim_str,
    vec_has_substring,
};

verus! {

/// Whether a switch form creates or edits.
#[derive(Debug, Clone, Copy, PartialEq, Eq, Structural)]
pub enum SwitchFormMode {
    Create,
    Edit,
}

/// The switch form.
#[derive(Debug, Clone)]
pub struct SwitchForm {
    pub mode: SwitchFormMode,
    /// The switch being edited.
    pub target: Option<ResourceId>,
    pub name: String,
    pub description: String,
    /// The field being typed into.
    pub field: usize,
}

/// Some character of the text is whitespace.
pub open spec fn has_white_space(s: Seq<char>) -> bool {
    exists|i: int| 0 <= i < s.len() && is_white_space(#[trigger] s[i])
}

fn any_white_space(s: &Vec<char>) -> (r: bool)
    ensures
        r == has_white_space(s@),
{
    let mut i: usize = 0;
    while i < s.len()
        invariant
            i <= s.len(),
            forall|k: int| 0 <= k < i ==> !is_white_space(#[trigger] s@[k]),
        decreases s.len() - i,
    {
        if char_is_white_space(s[i]) {
            return true;
        }
        i = i + 1;
    }
    false
}

/// What is wrong with a switch form, if anything: the name is required and at
/// most 64 characters, the description at most 512.
pub open spec fn switch_form_error(name: Seq<char>, description: Seq<char>) -> Option<Seq<char>> {
    if trim(name).len() == 0 {
        Some("名前を入力してください"@)
    } else if name.len() > 64 {
        Some("名前は64文字以内で入力してください"@)
    } else if description.len() > 512 {
        Some("説明は512文字以内で入力してください"@)
    } else {
        None
    }
}

/// Checks a switch form.
pub fn validate_switch_form(form: &SwitchForm) -> (r: Result<(), &'static str>)
    ensures
        r is Ok <==> switch_form_error(form.name@, form.description@) is None,
        r is Err ==> r->Err_0@ == switch_form_error(form.name@, form.description@)->0,
{
    if trim_str(form.name.as_str()).len() == 0 {
        return Err("名前を入力してください");
    }
    if chars_of(form.name.as_str()).len() > 64 {
        return Err("名前は64文字以内で入力してください");
    }
    if chars_of(form.description.as_str()).len() > 512 {
        return Err("説明は512文字以内で入力してください");
    }
    Ok(())
}

/// The DNS record form; every field is typed text.
#[derive(Debug, Clone)]
pub struct DnsRecordForm {
    pub name: String,
    pub record_type: String,
    pub data: String,
    pub ttl: String,
}

/// A DNS record as the zone holds it.
#[derive(Debug, Clone, PartialEq, Eq)]
pub struct DnsRecord {
    pub name: String,
    pub record_type: String,
    pub data: String,
    pub ttl: u32,
}

/// ASCII letter or digit.
pub open spec fn is_ascii_alphanumeric(c: char) -> bool {
    ('a' <= c && c <= 'z') || ('A' <= c && c <= 'Z') || ('0' <= c && c <= '9')
}

/// The text with its ASCII letters in upper case (`to_ascii_uppercase`).
pub open spec fn ascii_uppercase(s: Seq<char>) -> Seq<char> {
    Seq::new(s.len(), |i: int| ascii_upper(s[i]))
}

/// The text with its ASCII letters in lower case (`to_ascii_lowercase`).
pub open spec fn ascii_lowercase(s: Seq<char>) -> Seq<char> {
    Seq::new(s.len(), |i: int| ascii_lower(s[i]))
}

fn to_ascii_uppercase(s: &Vec<char>) -> (r: Vec<char>)
    ensures
        r@ == ascii_uppercase(s@),
{
    let mut out: Vec<char> = Vec::new();
    let mut i: usize = 0;
    while i < s.len()
        invariant
            i <= s.len(),
            out@ =~= ascii_uppercase(s@.subrange(0, i as int)),
        decreases s.len() - i,
    {
        out.push(char_ascii_upper(s[i]));
        i = i + 1;
    }
    assert(s@.subrange(0, s@.len() as int) =~= s@);
    out
}

fn to_ascii_lowercase(s: &Vec<char>) -> (r: Vec<char>)
    ensures
        r@ == ascii_lowercase(s@),
{
    let mut out: Vec<char> = Vec::new();
    let mut i: usize = 0;
    while i < s.len()
        invariant
            i <= s.len(),
            out@ =~= ascii_lowercase(s@.subrange(0, i as int)),
        decreases s.len() - i,
    {
        out.push(char_ascii_lower(s[i]));
        i = i + 1;
    }
    assert(s@.subrange(0, s@.len() as int) =~= s@);
    out
}

/// Every character is an ASCII letter, digit or hyphen.
pub open spec fn record_type_chars(s: Seq<char>) -> bool {
    forall|i: int| 0 <= i < s.len() ==> is_ascii_alphanumeric(#[trigger] s[i]) || s[i] == '-'
}

/// What is wrong with a DNS record form, if anything.
pub open spec fn dns_record_error(form: DnsRecordForm) -> Option<Seq<char>> {
    let name = trim(form.name@);
    let record_type = ascii_uppercase(trim(form.record_type@));
    if has_white_space(name) {
        Some("名前に空白は使用できません"@)
    } else if record_type.len() == 0 {
        Some("レコード種別を入力してください"@)
    } else if !record_type_chars(record_type) {
        Some("レコード種別には英数字とハイフンだけを使用できます"@)
    } else if trim(form.data@).len() == 0 {
        Some("値を入力してください"@)
    } else if parse_unsigned(trim(form.ttl@), u32::MAX as nat) is None {
        Some("TTLは0以上の整数で入力してください"@)
    } else {
        None
    }
}

/// The record a valid DNS record form gives: trimmed fields, `@` for an empty
/// name, the type in upper case, the TTL as a number.
pub fn dns_record_from_form(form: &DnsRecordForm) -> (r: Result<DnsRecord, &'static str>)
    ensures
        r is Ok <==> dns_record_error(*form) is None,
        r is Err ==> r->Err_0@ == dns_record_error(*form)->0,
        r is Ok ==> {
            let rec = r->Ok_0;
            &&& rec.name@ == (if trim(form.name@).len() == 0 { "@"@ } else { trim(form.name@) })
            &&& rec.record_type@ == ascii_uppercase(trim(form.record_type@))
            &&& rec.data@ == trim(form.data@)
            &&& rec.ttl == parse_unsigned(trim(form.ttl@), u32::MAX as nat)->0
        },
{
    let name = trim_str(form.name.as_str());
    if any_white_space(&name) {
        return Err("名前に空白は使用できません");
    }
    let record_type = to_ascii_uppercase(&trim_str(form.record_type.as_str()));
    if record_type.len() == 0 {
        return Err("レコード種別を入力してください");
    }
    let mut i: usize = 0;
    while i < record_type.len()
        invariant
            i <= record_type.len(),
            record_type@ == ascii_uppercase(trim(form.record_type@)),
            record_type@.len() > 0,
            !has_white_space(trim(form.name@)),
            forall|k: int| 0 <= k < i ==> is_ascii_alphanumeric(#[trigger] record_type@[k]) || record_type@[k] == '-',
        decreases record_type.len() - i,
    {
        let c = record_type[i];
        let ok = ('a' <= c && c <= 'z') || ('A' <= c && c <= 'Z') || ('0' <= c && c <= '9') || c == '-';
        if !ok {
            return Err("レコード種別には英数字とハイフンだけを使用できます");
        }
        i = i + 1;
    }
    let data = trim_str(form.data.as_str());
    if data.len() == 0 {
        return Err("値を入力してください");
    }
    let ttl = match parse_u32_text(&trim_str(form.ttl.as_str())) {
        Some(t) => t,
        None => return Err("TTLは0以上の整数で入力してください"),
    };
    let name_text = if name.len() == 0 {
        string_from_chars(&chars_of("@"))
    } else {
        string_from_chars(&name)
    };
    Ok(DnsRecord {
        name: name_text,
        record_type: string_from_chars(&record_type),
        data: string_from_chars(&data),
        ttl,
    })
}

/// Upper-casing keeps an ASCII letter a letter and leaves digits and hyphens.
proof fn lemma_upper_keeps_type_chars(c: char)
    requires
        ('a' <= c && c <= 'z') || ('A' <= c && c <= 'Z') || ('0' <= c && c <= '9') || c == '-',
    ensures
        ('A' <= ascii_upper(c) && ascii_upper(c) <= 'Z') || ('0' <= ascii_upper(c) && ascii_upper(c) <= '9')
            || ascii_upper(c) == '-',
{
    if 'a' <= c && c <= 'z' {
        assert(('a' as u32) <= (c as u32) && (c as u32) <= ('z' as u32));
        assert((((c as u32) - 32) as char) as u32 == (c as u32) - 32);
    }
}

/// A record form is accepted whenever the trimmed name has no white space, the
/// trimmed type is non-empty and made of ASCII letters, digits and hyphens, the
/// trimmed data is non-empty, and the trimmed TTL reads as a `u32`: every `u32`
/// is a TTL, and it is the record's TTL.
pub proof fn law_dns_record_accepts_any_u32_ttl(form: DnsRecordForm, ttl: u32)
    requires
        forall|i: int| 0 <= i < trim(form.name@).len() ==> !is_white_space(#[trigger] trim(form.name@)[i]),
        trim(form.record_type@).len() > 0,
        forall|i: int|
            0 <= i < trim(form.record_type@).len() ==> ('a' <= #[trigger] trim(form.record_type@)[i]
                && trim(form.record_type@)[i] <= 'z') || ('A' <= trim(form.record_type@)[i] && trim(
                form.record_type@,
            )[i] <= 'Z') || ('0' <= trim(form.record_type@)[i] && trim(form.record_type@)[i] <= '9') || trim(
                form.record_type@,
            )[i] == '-',
        trim(form.data@).len() > 0,
        parse_unsigned(trim(form.ttl@), u32::MAX as nat) == Some(ttl as nat),
    ensures
        dns_record_error(form) is None,
        parse_unsigned(trim(form.ttl@), u32::MAX as nat)->0 == ttl,
{
    let t = trim(form.record_type@);
    let u = ascii_uppercase(t);
    assert forall|i: int| 0 <= i < u.len() implies is_ascii_alphanumeric(#[trigger] u[i]) || u[i] == '-' by {
        lemma_upper_keeps_type_chars(t[i]);
    }
    assert(!has_white_space(trim(form.name@)));
}

/// An accepted record form has a trimmed name without white space, a trimmed
/// type that is non-empty and made of ASCII letters, digits and hyphens, a
/// non-empty trimmed value, and a trimmed TTL that reads as a `u32`.
pub proof fn law_dns_record_accepts_only_valid_forms(form: DnsRecordForm)
    requires
        dns_record_error(form) is None,
    ensures
        forall|i: int| 0 <= i < trim(form.name@).len() ==> !is_white_space(#[trigger] trim(form.name@)[i]),
        trim(form.record_type@).len() > 0,
        forall|i: int|
            0 <= i < trim(form.record_type@).len() ==> ('a' <= #[trigger] trim(form.record_type@)[i]
                && trim(form.record_type@)[i] <= 'z') || ('A' <= trim(form.record_type@)[i] && trim(
                form.record_type@,
            )[i] <= 'Z') || ('0' <= trim(form.record_type@)[i] && trim(form.record_type@)[i] <= '9') || trim(
                form.record_type@,
            )[i] == '-',
        trim(form.data@).len() > 0,
        parse_unsigned(trim(form.ttl@), u32::MAX as nat) is Some,
{
    let t = trim(form.record_type@);
    let u = ascii_uppercase(t);
    assert forall|i: int| 0 <= i < t.len() implies ('a' <= #[trigger] t[i] && t[i] <= 'z') || ('A' <= t[i] && t[i]
        <= 'Z') || ('0' <= t[i] && t[i] <= '9') || t[i] == '-' by {
        assert(is_ascii_alphanumeric(u[i]) || u[i] == '-');
        let c = t[i];
        if 'a' <= c && c <= 'z' {
        } else {
            assert(u[i] == c);
        }
    }
    assert forall|i: int| 0 <= i < trim(form.name@).len() implies !is_white_space(#[trigger] trim(form.name@)[i]) by {
        if is_white_space(trim(form.name@)[i]) {
            assert(has_white_space(trim(form.name@)));
        }
    }
}

/// Whether a DNS zone form creates or edits.
#[derive(Debug, Clone, Copy, PartialEq, Eq, Structural)]
pub enum DnsZoneFormMode {
    Create,
    Edit,
}

/// The DNS zone form.
#[derive(Debug, Clone)]
pub struct DnsZoneForm {
    pub mode: DnsZoneFormMode,
    /// The zone being edited.
    pub target: Option<ResourceId>,
    pub name: String,
    pub description: String,
    /// The field being typed into.
    pub field: usize,
}

/// A label of a zone name: non-empty, at most 63 bytes, of lower-case ASCII
/// letters, digits and hyphens.
pub open spec fn zone_label_ok(l: Seq<char>) -> bool {
    &&& l.len() > 0
    &&& utf8_len(l) <= 63
    &&& forall|i: int| 0 <= i < l.len() ==> ('a' <= #[trigger] l[i] && l[i] <= 'z') || ('0' <= l[i] && l[i] <= '9') || l[i] == '-'
}

/// The zone name a form gives: trimmed, in lower case.
pub open spec fn zone_name(form: DnsZoneForm) -> Seq<char> {
    ascii_lowercase(trim(form.name@))
}

/// What is wrong with a DNS zone form, if anything.
pub open spec fn dns_zone_error(form: DnsZoneForm) -> Option<Seq<char>> {
    let name = zone_name(form);
    if name.len() == 0 {
        Some("ゾーン名を入力してください"@)
    } else if utf8_len(name) > 253 {
        Some("ゾーン名は253文字以内で入力してください"@)
    } else if name[0] == '.' || name[0] == '-' || name.last() == '.' || name.last() == '-' {
        Some("ゾーン名の先頭と末尾にピリオドやハイフンは使用できません"@)
    } else if has_substring(name, ".."@) || has_substring(name, ".-"@) || has_substring(name, "-."@) {
        Some("ゾーン名に連続したピリオドや不正な区切りは使用できません"@)
    } else if exists|i: int| 0 <= i < split_on(name, '.').len() && !zone_label_ok(#[trigger] split_on(name, '.')[i]) {
        Some("ゾーン名は英小文字・数字・ハイフンで構成されたラベルを指定してください"@)
    } else if form.description@.len() > 512 {
        Some("説明は512文字以内で入力してください"@)
    } else {
        None
    }
}

fn zone_label_valid(l: &Vec<char>) -> (r: bool)
    ensures
        r == zone_label_ok(l@),
{
    if l.len() == 0 || utf8_len_exceeds(l, 63) {
        return false;
    }
    let mut i: usize = 0;
    while i < l.len()
        invariant
            i <= l.len(),
            forall|k: int| 0 <= k < i ==> ('a' <= #[trigger] l@[k] && l@[k] <= 'z') || ('0' <= l@[k] && l@[k] <= '9') || l@[k] == '-',
        decreases l.len() - i,
    {
        let c = l[i];
        if !(('a' <= c && c <= 'z') || ('0' <= c && c <= '9') || c == '-') {
            return false;
        }
        i = i + 1;
    }
    true
}

/// The zone name of a valid DNS zone form: trimmed and in lower case.
pub fn validate_dns_zone_form(form: &DnsZoneForm) -> (r: Result<String, &'static str>)
    ensures
        r is Ok <==> dns_zone_error(*form) is None,
        r is Err ==> r->Err_0@ == dns_zone_error(*form)->0,
        r is Ok ==> r->Ok_0@ == zone_name(*form),
{
    let name = to_ascii_lowercase(&trim_str(form.name.as_str()));
    if name.len() == 0 {
        return Err("ゾーン名を入力してください");
    }
    if utf8_len_exceeds(&name, 253) {
        return Err("ゾーン名は253文字以内で入力してください");
    }
    let first = name[0];
    let last = name[name.len() - 1];
    if first == '.' || first == '-' || last == '.' || last == '-' {
        return Err("ゾーン名の先頭と末尾にピリオドやハイフンは使用できません");
    }
    if vec_has_substring(&name, &chars_of("..")) || vec_has_substring(&name, &chars_of(".-"))
        || vec_has_substring(&name, &chars_of("-.")) {
        return Err("ゾーン名に連続したピリオドや不正な区切りは使用できません");
    }
    let labels = split_chars(&name, '.');
    let ghost views = char_views(labels@);
    let mut i: usize = 0;
    while i < labels.len()
        invariant
            i <= labels.len(),
            views == char_views(labels@),
            views == split_on(name@, '.'),
            name@ == zone_name(*form),
            name@.len() > 0,
            utf8_len(name@) <= 253,
            !(name@[0] == '.' || name@[0] == '-' || name@.last() == '.' || name@.last() == '-'),
            !(has_substring(name@, ".."@) || has_substring(name@, ".-"@) || has_substring(name@, "-."@)),
            forall|k: int| 0 <= k < i ==> zone_label_ok(#[trigger] views[k]),
        decreases labels.len() - i,
    {
        assert(views[i as int] == labels@[i as int]@);
        if !zone_label_valid(&labels[i]) {
            assert(!zone_label_ok(split_on(name@, '.')[i as int]));
            return Err("ゾーン名は英小文字・数字・ハイフンで構成されたラベルを指定してください");
        }
        i = i + 1;
    }
    assert(!(exists|k: int| 0 <= k < split_on(name@, '.').len() && !zone_label_ok(#[trigger] split_on(name@, '.')[k])));
    if chars_of(form.description.as_str()).len() > 512 {
        return Err("説明は512文字以内で入力してください");
    }
    Ok(string_from_chars(&name))
}

/// A character of a zone name as written: a lower-case ASCII letter, a digit, a
/// hyphen or a dot.
pub open spec fn zone_name_char(c: char) -> bool {
    ('a' <= c && c <= 'z') || ('0' <= c && c <= '9') || c == '-' || c == '.'
}

/// A text of ASCII characters takes one byte per character.
proof fn lemma_ascii_utf8_len(s: Seq<char>)
    requires
        forall|i: int| 0 <= i < s.len() ==> (#[trigger] s[i] as u32) < 0x80,
    ensures
        utf8_len(s) == s.len(),
    decreases s.len(),
{
    if s.len() > 0 {
        assert forall|i: int| 0 <= i < s.drop_last().len() implies (#[trigger] s.drop_last()[i] as u32) < 0x80 by {
            assert(s.drop_last()[i] == s[i]);
        }
        lemma_ascii_utf8_len(s.drop_last());
        assert((s.last() as u32) < 0x80);
    }
}

/// The pieces of a split hold characters of the text, never the separator.
proof fn lemma_split_pieces(s: Seq<char>, sep: char)
    ensures
        forall|k: int, j: int|
            0 <= k < split_on(s, sep).len() && 0 <= j < split_on(s, sep)[k].len() ==> #[trigger] split_on(s, sep)[k][j]
                != sep && s.contains(split_on(s, sep)[k][j]),
    decreases s.len(),
{
    if s.len() > 0 {
        let d = s.drop_last();
        lemma_split_pieces(d, sep);
        lemma_split_on_nonempty(d, sep);
        let p = split_on(d, sep);
        assert forall|k: int, j: int|
            0 <= k < split_on(s, sep).len() && 0 <= j < split_on(s, sep)[k].len() implies #[trigger] split_on(s, sep)[k][j]
                != sep && s.contains(split_on(s, sep)[k][j]) by {
            let c = split_on(s, sep)[k][j];
            if s.last() == sep {
                if k < p.len() {
                    assert(split_on(s, sep)[k] == p[k]);
                    assert(p[k][j] != sep && d.contains(p[k][j]));
                    let w = choose|w: int| 0 <= w < d.len() && d[w] == c;
                    assert(s[w] == c);
                }
            } else {
                if k < p.len() - 1 {
                    assert(split_on(s, sep)[k] == p[k]);
                    let w = choose|w: int| 0 <= w < d.len() && d[w] == c;
                    assert(s[w] == c);
                } else {
                    assert(split_on(s, sep)[k] == p.last().push(s.last()));
                    if j < p.last().len() {
                        assert(p[p.len() - 1][j] == c);
                        let w = choose|w: int| 0 <= w < d.len() && d[w] == c;
                        assert(s[w] == c);
                    } else {
                        assert(s[s.len() - 1] == c);
                    }
                }
            }
        }
    }
}

/// A zone name of lower-case letters, digits, hyphens and dots, at most 253
/// characters, that neither starts nor ends with a dot or a hyphen, has no dot
/// next to a dot or a hyphen, and whose dot-separated labels are each 1 to 63
/// characters long, is accepted as it is (with a description of at most 512
/// characters).
pub proof fn law_dns_zone_accepts_valid_names(form: DnsZoneForm)
    requires
        ({
            let n = trim(form.name@);
            &&& 0 < n.len() <= 253
            &&& forall|i: int| 0 <= i < n.len() ==> zone_name_char(#[trigger] n[i])
            &&& n[0] != '.' && n[0] != '-' && n.last() != '.' && n.last() != '-'
            &&& forall|i: int|
                0 <= i < n.len() - 1 ==> !(#[trigger] n[i] == '.' && (n[i + 1] == '.' || n[i + 1] == '-')) && !(n[i]
                    == '-' && n[i + 1] == '.')
            &&& forall|k: int|
                0 <= k < split_on(n, '.').len() ==> 1 <= #[trigger] split_on(n, '.')[k].len() <= 63
        }),
        form.description@.len() <= 512,
    ensures
        dns_zone_error(form) is None,
        zone_name(form) == trim(form.name@),
{
    let n = trim(form.name@);
    assert(ascii_lowercase(n) =~= n);
    assert(zone_name(form) == n);
    assert forall|i: int| 0 <= i < n.len() implies (#[trigger] n[i] as u32) < 0x80 by {
        assert(zone_name_char(n[i]));
    }
    lemma_ascii_utf8_len(n);
    reveal_strlit("..");
    reveal_strlit(".-");
    reveal_strlit("-.");
    assert forall|pat: Seq<char>| pat == ".."@ || pat == ".-"@ || pat == "-."@ implies !has_substring(n, pat) by {
        if has_substring(n, pat) {
            let i = choose|i: int| occurs_at(n, pat, i);
            assert(n.subrange(i, i + 2) == pat);
            assert(n[i] == pat[0] && n[i + 1] == pat[1]);
        }
    }
    lemma_split_pieces(n, '.');
    let parts = split_on(n, '.');
    assert forall|k: int| 0 <= k < parts.len() implies zone_label_ok(#[trigger] parts[k]) by {
        let l = parts[k];
        assert forall|j: int| 0 <= j < l.len() implies ('a' <= #[trigger] l[j] && l[j] <= 'z') || ('0' <= l[j] && l[j]
            <= '9') || l[j] == '-' by {
            assert(parts[k][j] != '.' && n.contains(parts[k][j]));
            let w = choose|w: int| 0 <= w < n.len() && n[w] == l[j];
            assert(zone_name_char(n[w]));
        }
        assert forall|j: int| 0 <= j < l.len() implies (#[trigger] l[j] as u32) < 0x80 by {
            assert(parts[k][j] != '.' && n.contains(parts[k][j]));
            let w = choose|w: int| 0 <= w < n.len() && n[w] == l[j];
            assert(zone_name_char(n[w]));
        }
        lemma_ascii_utf8_len(l);
    }
}

/// An accepted zone form gives a name of at most 253 characters that neither
/// starts nor ends with a dot or a hyphen, whose dot-separated labels are each
/// 1 to 63 characters of lower-case letters, digits and hyphens.
pub proof fn law_dns_zone_accepts_only_valid_names(form: DnsZoneForm)
    requires
        dns_zone_error(form) is None,
    ensures
        ({
            let n = zone_name(form);
            &&& 0 < n.len()
            &&& n[0] != '.' && n[0] != '-' && n.last() != '.' && n.last() != '-'
            &&& forall|k: int|
                0 <= k < split_on(n, '.').len() ==> 1 <= #[trigger] split_on(n, '.')[k].len() && split_on(n, '.')[k].len()
                    <= 63
            &&& forall|k: int, j: int|
                0 <= k < split_on(n, '.').len() && 0 <= j < split_on(n, '.')[k].len() ==> ('a' <= #[trigger] split_on(
                    n,
                    '.',
                )[k][j] && split_on(n, '.')[k][j] <= 'z') || ('0' <= split_on(n, '.')[k][j] && split_on(n, '.')[k][j]
                    <= '9') || split_on(n, '.')[k][j] == '-'
        }),
        utf8_len(zone_name(form)) <= 253,
{
    let n = zone_name(form);
    let parts = split_on(n, '.');
    assert forall|k: int| 0 <= k < parts.len() implies 1 <= #[trigger] parts[k].len() && parts[k].len() <= 63 by {
        assert(zone_label_ok(parts[k]));
        lemma_len_le_utf8_len(parts[k]);
    }
    assert forall|k: int, j: int| 0 <= k < parts.len() && 0 <= j < parts[k].len() implies ('a' <= #[trigger] parts[k][j]
        && parts[k][j] <= 'z') || ('0' <= parts[k][j] && parts[k][j] <= '9') || parts[k][j] == '-' by {
        assert(zone_label_ok(parts[k]));
    }
}

/// A text takes at least one byte per character.
proof fn lemma_len_le_utf8_len(s: Seq<char>)
    ensures
        s.len() <= utf8_len(s),
    decreases s.len(),
{
    if s.len() > 0 {
        lemma_len_le_utf8_len(s.drop_last());
    }
}

/// Whether a simple monitor form creates or edits.
#[derive(Debug, Clone, Copy, PartialEq, Eq, Structural)]
pub enum SimpleMonitorFormMode {
    Create,
    Edit,
}

/// The simple monitor form; numbers are typed text.
#[derive(Debug, Clone)]
pub struct SimpleMonitorForm {
    pub mode: SimpleMonitorFormMode,
    /// The monitor being edited.
    pub target_monitor: Option<ResourceId>,
    pub target: String,
    pub description: String,
    /// The chosen protocol (`ping`, `tcp`, `http`, `https`, ...).
    pub protocol: String,
    pub port: String,
    pub path: String,
    pub expected_status: String,
    pub delay_loop: String,
    pub timeout: String,
    pub enabled: bool,
    pub notify_email: bool,
}

/// What a simple monitor is created or updated with.
#[derive(Debug, Clone, PartialEq, Eq)]
pub struct SimpleMonitorInput {
    pub target: String,
    pub description: String,
    pub protocol: String,
    pub port: Option<u16>,
    pub path: String,
    pub expected_status: Option<u16>,
    pub delay_loop: u32,
    pub timeout: u32,
    pub enabled: bool,
    pub notify_email: bool,
}

/// The typed port: `None` when left empty, else its value (if it reads).
pub open spec fn typed_port(form: SimpleMonitorForm) -> Option<Option<nat>> {
    let t = trim(form.port@);
    if t.len() == 0 {
        Some(None)
    } else {
        match parse_unsigned(t, u16::MAX as nat) {
            Some(p) => if p == 0 { None } else { Some(Some(p)) },
            None => None,
        }
    }
}

/// The typed expected status: `None` when left empty, else its value (if it is
/// between 100 and 599).
pub open spec fn typed_status(form: SimpleMonitorForm) -> Option<Option<nat>> {
    let t = trim(form.expected_status@);
    if t.len() == 0 {
        Some(None)
    } else {
        match parse_unsigned(t, u16::MAX as nat) {
            Some(s) => if 100 <= s <= 599 { Some(Some(s)) } else { None },
            None => None,
        }
    }
}

/// What is wrong with a simple monitor form, if anything.
pub open spec fn monitor_error(form: SimpleMonitorForm) -> Option<Seq<char>> {
    let target = trim(form.target@);
    let delay = parse_unsigned(trim(form.delay_loop@), u32::MAX as nat);
    let timeout = parse_unsigned(trim(form.timeout@), u32::MAX as nat);
    if target.len() == 0 {
        Some("監視対象を入力してください"@)
    } else if has_white_space(target) {
        Some("監視対象に空白は使用できません"@)
    } else if form.description@.len() > 512 {
        Some("説明は512文字以内で入力してください"@)
    } else if delay is None || delay->0 == 0 || delay->0 % 60 != 0 {
        Some("監視間隔は60秒単位の整数で入力してください"@)
    } else if timeout is None || timeout->0 == 0 {
        Some("タイムアウトは1以上の整数で入力してください"@)
    } else if typed_port(form) is None {
        Some("ポートは1〜65535の整数で入力してください"@)
    } else if form.protocol@ == "tcp"@ && typed_port(form)->0 is None {
        Some("TCP監視ではポートを入力してください"@)
    } else if typed_status(form) is None {
        Some("期待ステータスは100〜599で入力してください"@)
    } else {
        None
    }
}

/// The optional small number by its value.
pub open spec fn opt_nat(o: Option<u16>) -> Option<nat> {
    match o {
        Some(n) => Some(n as nat),
        None => None,
    }
}

fn read_port(form: &SimpleMonitorForm) -> (r: Option<Option<u16>>)
    ensures
        r is Some <==> typed_port(*form) is Some,
        r is Some ==> opt_nat(r->0) == typed_port(*form)->0,
{
    let t = trim_str(form.port.as_str());
    if t.len() == 0 {
        return Some(None);
    }
    match parse_u16_text(&t) {
        Some(p) => if p == 0 {
            None
        } else {
            Some(Some(p))
        },
        None => None,
    }
}

fn read_status(form: &SimpleMonitorForm) -> (r: Option<Option<u16>>)
    ensures
        r is Some <==> typed_status(*form) is Some,
        r is Some ==> opt_nat(r->0) == typed_status(*form)->0,
{
    let t = trim_str(form.expected_status.as_str());
    if t.len() == 0 {
        return Some(None);
    }
    match parse_u16_text(&t) {
        Some(s) => if 100 <= s && s <= 599 {
            Some(Some(s))
        } else {
            None
        },
        None => None,
    }
}

/// What a valid simple monitor form gives: trimmed texts, `/` for an empty
/// path, the port except for ping, the expected status for HTTP and HTTPS only.
pub fn simple_monitor_input(form: &SimpleMonitorForm) -> (r: Result<SimpleMonitorInput, &'static str>)
    ensures
        r is Ok <==> monitor_error(*form) is None,
        r is Err ==> r->Err_0@ == monitor_error(*form)->0,
        r is Ok ==> {
            let m = r->Ok_0;
            &&& m.target@ == trim(form.target@)
            &&& m.description@ == trim(form.description@)
            &&& m.protocol@ == form.protocol@
            &&& opt_nat(m.port) == (if form.protocol@ == "ping"@ { None } else { typed_port(*form)->0 })
            &&& m.path@ == (if trim(form.path@).len() == 0 { "/"@ } else { trim(form.path@) })
            &&& opt_nat(m.expected_status) == (if form.protocol@ == "http"@ || form.protocol@ == "https"@ {
                typed_status(*form)->0
            } else {
                None
            })
            &&& m.delay_loop == parse_unsigned(trim(form.delay_loop@), u32::MAX as nat)->0
            &&& m.timeout == parse_unsigned(trim(form.timeout@), u32::MAX as nat)->0
            &&& m.enabled == form.enabled
            &&& m.notify_email == form.notify_email
        },
{
    let target = trim_str(form.target.as_str());
    if target.len() == 0 {
        return Err("監視対象を入力してください");
    }
    if any_white_space(&target) {
        return Err("監視対象に空白は使用できません");
    }
    if chars_of(form.description.as_str()).len() > 512 {
        return Err("説明は512文字以内で入力してください");
    }
    let delay_loop = match parse_u32_text(&trim_str(form.delay_loop.as_str())) {
        Some(d) => d,
        None => return Err("監視間隔は60秒単位の整数で入力してください"),
    };
    if delay_loop == 0 || delay_loop % 60 != 0 {
        return Err("監視間隔は60秒単位の整数で入力してください");
    }
    let timeout = match parse_u32_text(&trim_str(form.timeout.as_str())) {
        Some(t) => t,
        None => return Err("タイムアウトは1以上の整数で入力してください"),
    };
    if timeout == 0 {
        return Err("タイムアウトは1以上の整数で入力してください");
    }
    let protocol = chars_of(form.protocol.as_str());
    let port = match read_port(form) {
        Some(p) => p,
        None => return Err("ポートは1〜65535の整数で入力してください"),
    };
    let is_tcp = crate::text::vec_eq(&protocol, &chars_of("tcp"));
    if is_tcp && port.is_none() {
        return Err("TCP監視ではポートを入力してください");
    }
    let expected_status = match read_status(form) {
        Some(s) => s,
        None => return Err("期待ステータスは100〜599で入力してください"),
    };
    let is_ping = crate::text::vec_eq(&protocol, &chars_of("ping"));
    let is_http = crate::text::vec_eq(&protocol, &chars_of("http")) || crate::text::vec_eq(
        &protocol,
        &chars_of("https"),
    );
    let path = trim_str(form.path.as_str());
    let path_text = if path.len() == 0 {
        string_from_chars(&chars_of("/"))
    } else {
        string_from_chars(&path)
    };
    Ok(SimpleMonitorInput {
        target: string_from_chars(&target),
        description: string_from_chars(&trim_str(form.description.as_str())),
        protocol: form.protocol.clone(),
        port: if is_ping {
            None
        } else {
            port
        },
        path: path_text,
        expected_status: if is_http {
            expected_status
        } else {
            None
        },
        delay_loop,
        timeout,
        enabled: form.enabled,
        notify_email: form.notify_email,
    })
}

/// Only TCP needs a port: for every other protocol a form whose port is left
/// empty is accepted, with no port, as soon as the rest of it is valid (a
/// non-empty target without white space, a description of at most 512
/// characters, an interval that is a positive multiple of 60, a positive
/// timeout, and an expected status left empty or between 100 and 599).
pub proof fn law_only_tcp_needs_a_port(form: SimpleMonitorForm)
    requires
        form.protocol@ != "tcp"@,
        trim(form.port@).len() == 0,
        trim(form.target@).len() > 0,
        forall|i: int| 0 <= i < trim(form.target@).len() ==> !is_white_space(#[trigger] trim(form.target@)[i]),
        form.description@.len() <= 512,
        parse_unsigned(trim(form.delay_loop@), u32::MAX as nat) matches Some(d) && d > 0 && d % 60 == 0,
        parse_unsigned(trim(form.timeout@), u32::MAX as nat) matches Some(t) && t > 0,
        trim(form.expected_status@).len() == 0 || (parse_unsigned(trim(form.expected_status@), u16::MAX as nat) matches Some(
            st,
        ) && 100 <= st <= 599),
    ensures
        monitor_error(form) is None,
        typed_port(form) == Some(None::<nat>),
{
    assert(!has_white_space(trim(form.target@)));
}

/// A TCP monitor needs a port: a TCP form whose port is left empty is refused.
pub proof fn law_tcp_needs_a_port(form: SimpleMonitorForm)
    requires
        form.protocol@ == "tcp"@,
        trim(form.port@).len() == 0,
    ensures
        monitor_error(form) is Some,
{
}

/// An accepted form has a non-empty target without white space, an interval that
/// is a positive multiple of 60, a positive timeout, a port that is empty or
/// between 1 and 65535 (and given for TCP), and an expected status that is
/// empty or between 100 and 599.
pub proof fn law_monitor_accepts_only_valid_forms(form: SimpleMonitorForm)
    requires
        monitor_error(form) is None,
    ensures
        trim(form.target@).len() > 0,
        forall|i: int| 0 <= i < trim(form.target@).len() ==> !is_white_space(#[trigger] trim(form.target@)[i]),
        form.description@.len() <= 512,
        parse_unsigned(trim(form.delay_loop@), u32::MAX as nat) matches Some(d) && d > 0 && d % 60 == 0,
        parse_unsigned(trim(form.timeout@), u32::MAX as nat) matches Some(t) && t > 0,
        trim(form.port@).len() == 0 || (parse_unsigned(trim(form.port@), u16::MAX as nat) matches Some(p) && 1 <= p),
        form.protocol@ == "tcp"@ ==> trim(form.port@).len() > 0,
        trim(form.expected_status@).len() == 0 || (parse_unsigned(trim(form.expected_status@), u16::MAX as nat) matches Some(
            st,
        ) && 100 <= st <= 599),
{
    assert forall|i: int| 0 <= i < trim(form.target@).len() implies !is_white_space(#[trigger] trim(form.target@)[i]) by {
        if is_white_space(trim(form.target@)[i]) {
            assert(has_white_space(trim(form.target@)));
        }
    }
}

/// The name shown for a notification service type; unknown types show as they are.
pub open spec fn spec_notification_service_label(service_type: Seq<char>) -> Seq<char> {
    if service_type == "SAKURA_SIMPLE_NOTICE"@ {
        "シンプル通知"@
    } else if service_type == "SAKURA_EVENT_BUS"@ {
        "EventBus"@
    } else {
        service_type
    }
}

pub fn notification_service_label<'a>(service_type: &'a str) -> (r: &'a str)
    ensures
        r@ == spec_notification_service_label(service_type@),
{
    if crate::text::str_eq(service_type, "SAKURA_SIMPLE_NOTICE") {
        "シンプル通知"
    } else if crate::text::str_eq(service_type, "SAKURA_EVENT_BUS") {
        "EventBus"
    } else {
        service_type
    }
}

/// One label condition as typed: `name=value`.
pub open spec fn label_item(label: (Seq<char>, Seq<char>)) -> Seq<char> {
    label.0 + seq!['='] + label.1
}

/// Label conditions as shown: `name=value` items joined with `, `.
pub open spec fn spec_format_labels(labels: Seq<(Seq<char>, Seq<char>)>) -> Seq<char>
    decreases labels.len(),
{
    if labels.len() == 0 {
        Seq::empty()
    } else if labels.len() == 1 {
        label_item(labels[0])
    } else {
        spec_format_labels(labels.drop_last()) + ", "@ + label_item(labels.last())
    }
}

/// Shows label conditions as `name=value` items joined with `, `.
pub fn format_match_labels(labels: &[(String, String)]) -> (r: String)
    ensures
        r@ == spec_format_labels(pairs_view(labels@)),
{
    let ghost lv = pairs_view(labels@);
    let mut out: Vec<char> = Vec::new();
    let mut i: usize = 0;
    while i < labels.len()
        invariant
            i <= labels.len(),
            lv == pairs_view(labels@),
            out@ == spec_format_labels(lv.subrange(0, i as int)),
        decreases labels.len() - i,
    {
        assert(lv.subrange(0, i + 1).drop_last() =~= lv.subrange(0, i as int));
        assert(lv[i as int] == (labels@[i as int].0@, labels@[i as int].1@));
        if i > 0 {
            out.push(',');
            out.push(' ');
        }
        let mut name = chars_of(labels[i].0.as_str());
        out.append(&mut name);
        out.push('=');
        let mut value = chars_of(labels[i].1.as_str());
        out.append(&mut value);
        proof {
            if i == 0 {
                assert(out@ =~= label_item(lv[0]));
            } else {
                reveal_strlit(", ");
                assert(out@ =~= spec_format_labels(lv.subrange(0, i as int)) + ", "@ + label_item(lv[i as int]));
            }
        }
        i = i + 1;
    }
    assert(lv.subrange(0, lv.len() as int) =~= lv);
    string_from_chars(&out)
}

/// The first position of `c` in `t` from `j` on, or -1.
pub open spec fn index_from(t: Seq<char>, c: char, j: int) -> int
    decreases t.len() - j,
{
    if j >= t.len() {
        -1
    } else if t[j] == c {
        j
    } else {
        index_from(t, c, j + 1)
    }
}

/// One typed condition read: trimmed, split at its first `=`, both sides
/// trimmed and non-empty.
pub open spec fn parse_label_item(item: Seq<char>) -> Result<(Seq<char>, Seq<char>), Seq<char>> {
    let t = trim(item);
    let k = index_from(t, '=', 0);
    if k < 0 {
        Err("ラベル条件は name=value をカンマ区切りで入力してください"@)
    } else {
        let name = trim(t.subrange(0, k));
        let value = trim(t.subrange(k + 1, t.len() as int));
        if name.len() == 0 || value.len() == 0 {
            Err("ラベル条件の名前と値は空にできません"@)
        } else {
            Ok((name, value))
        }
    }
}

/// The conditions read in order; the first item that does not read decides the error.
pub open spec fn parse_label_items(items: Seq<Seq<char>>) -> Result<Seq<(Seq<char>, Seq<char>)>, Seq<char>>
    decreases items.len(),
{
    if items.len() == 0 {
        Ok(Seq::empty())
    } else {
        match parse_label_items(items.drop_last()) {
            Err(e) => Err(e),
            Ok(prev) => match parse_label_item(items.last()) {
                Err(e) => Err(e),
                Ok(p) => Ok(prev.push(p)),
            },
        }
    }
}

/// Label conditions read from `name=value` items separated by commas; blank
/// input means no condition.
pub open spec fn spec_parse_match_labels(input: Seq<char>) -> Result<Seq<(Seq<char>, Seq<char>)>, Seq<char>> {
    if trim(input).len() == 0 {
        Ok(Seq::empty())
    } else {
        parse_label_items(split_on(input, ','))
    }
}

fn slice_chars(v: &Vec<char>, from: usize, to: usize) -> (r: Vec<char>)
    requires
        from <= to <= v.len(),
    ensures
        r@ == v@.subrange(from as int, to as int),
{
    let mut out: Vec<char> = Vec::new();
    let mut i: usize = from;
    while i < to
        invariant
            from <= i <= to,
            to <= v.len(),
            out@ == v@.subrange(from as int, i as int),
        decreases to - i,
    {
        out.push(v[i]);
        assert(out@ =~= v@.subrange(from as int, i + 1));
        i = i + 1;
    }
    out
}

fn read_label_item(item: &Vec<char>) -> (r: Result<(String, String), &'static str>)
    ensures
        r is Ok <==> parse_label_item(item@) is Ok,
        r is Err ==> r->Err_0@ == parse_label_item(item@)->Err_0,
        r is Ok ==> (r->Ok_0.0@, r->Ok_0.1@) == parse_label_item(item@)->Ok_0,
{
    let t = trim_chars(item);
    let mut k: usize = 0;
    while k < t.len() && t[k] != '='
        invariant
            k <= t.len(),
            index_from(t@, '=', 0) == index_from(t@, '=', k as int),
        decreases t.len() - k,
    {
        k = k + 1;
    }
    if k == t.len() {
        return Err("ラベル条件は name=value をカンマ区切りで入力してください");
    }
    let name = trim_chars(&slice_chars(&t, 0, k));
    let value = trim_chars(&slice_chars(&t, k + 1, t.len()));
    if name.len() == 0 || value.len() == 0 {
        return Err("ラベル条件の名前と値は空にできません");
    }
    Ok((string_from_chars(&name), string_from_chars(&value)))
}

/// Reads label conditions typed as `name=value` items separated by commas.
pub fn parse_match_labels(input: &str) -> (r: Result<Vec<(String, String)>, &'static str>)
    ensures
        r is Ok <==> spec_parse_match_labels(input@) is Ok,
        r is Err ==> r->Err_0@ == spec_parse_match_labels(input@)->Err_0,
        r is Ok ==> pairs_view(r->Ok_0@) == spec_parse_match_labels(input@)->Ok_0,
{
    if trim_str(input).len() == 0 {
        let out: Vec<(String, String)> = Vec::new();
        assert(pairs_view(out@) =~= Seq::<(Seq<char>, Seq<char>)>::empty());
        return Ok(out);
    }
    let pieces = split_chars(&chars_of(input), ',');
    let ghost items = char_views(pieces@);
    let mut out: Vec<(String, String)> = Vec::new();
    let mut i: usize = 0;
    assert(items.subrange(0, 0) =~= Seq::<Seq<char>>::empty());
    assert(pairs_view(out@) =~= Seq::<(Seq<char>, Seq<char>)>::empty());
    while i < pieces.len()
        invariant
            i <= pieces.len(),
            items == char_views(pieces@),
            items == split_on(input@, ','),
            trim(input@).len() != 0,
            parse_label_items(items.subrange(0, i as int)) is Ok,
            pairs_view(out@) == parse_label_items(items.subrange(0, i as int))->Ok_0,
        decreases pieces.len() - i,
    {
        assert(items.subrange(0, i + 1).drop_last() =~= items.subrange(0, i as int));
        assert(items[i as int] == pieces@[i as int]@);
        match read_label_item(&pieces[i]) {
            Ok(pair) => {
                let ghost before = pairs_view(out@);
                out.push(pair);
                assert(pairs_view(out@) =~= before.push((out@.last().0@, out@.last().1@)));
            },
            Err(e) => {
                proof {
                    lemma_label_items_prefix_err(items, i + 1);
                }
                return Err(e);
            },
        }
        i = i + 1;
    }
    assert(items.subrange(0, items.len() as int) =~= items);
    Ok(out)
}

/// Once a prefix of the items fails, the whole list fails with the same error.
proof fn lemma_label_items_prefix_err(items: Seq<Seq<char>>, n: int)
    requires
        0 <= n <= items.len(),
        parse_label_items(items.subrange(0, n)) is Err,
    ensures
        parse_label_items(items) == parse_label_items(items.subrange(0, n)),
    decreases items.len() - n,
{
    if n < items.len() {
        assert(items.subrange(0, n + 1).drop_last() =~= items.subrange(0, n));
        lemma_label_items_prefix_err(items, n + 1);
    } else {
        assert(items.subrange(0, n) =~= items);
    }
}

proof fn lemma_split_append_plain(x: Seq<char>, b: Seq<char>, sep: char)
    requires
        forall|i: int| 0 <= i < b.len() ==> b[i] != sep,
    ensures
        split_on(x + b, sep) == split_on(x, sep).update(
            split_on(x, sep).len() - 1,
            split_on(x, sep).last() + b,
        ),
    decreases b.len(),
{
    crate::text::lemma_split_on_nonempty(x, sep);
    if b.len() == 0 {
        assert(x + b =~= x);
        assert(split_on(x, sep).last() + b =~= split_on(x, sep).last());
        assert(split_on(x, sep).update(split_on(x, sep).len() - 1, split_on(x, sep).last()) =~= split_on(x, sep));
    } else {
        let b0 = b.drop_last();
        lemma_split_append_plain(x, b0, sep);
        assert((x + b).drop_last() =~= x + b0);
        assert((x + b).last() == b.last());
        let q = split_on(x, sep);
        let p = split_on(x + b0, sep);
        assert(p =~= q.update(q.len() - 1, q.last() + b0));
        assert(p.last() =~= q.last() + b0);
        assert(b[b.len() - 1] != sep);
        assert((q.last() + b0).push(b.last()) =~= q.last() + b);
        assert(p.update(p.len() - 1, p.last().push(b.last())) =~= q.update(q.len() - 1, q.last() + b));
    }
}

/// Label conditions that read back as they are: names and values non-empty,
/// without surrounding whitespace and without commas, names without `=`.
pub open spec fn labels_typable(labels: Seq<(Seq<char>, Seq<char>)>) -> bool {
    forall|i: int|
        0 <= i < labels.len() ==> {
            let (name, value) = #[trigger] labels[i];
            &&& name.len() > 0
            &&& value.len() > 0
            &&& !is_white_space(name[0]) && !is_white_space(name.last())
            &&& !is_white_space(value[0]) && !is_white_space(value.last())
            &&& forall|k: int| 0 <= k < name.len() ==> name[k] != ',' && name[k] != '='
            &&& forall|k: int| 0 <= k < value.len() ==> value[k] != ','
        }
}

/// The typed items of shown label conditions: the first as it is, the others
/// after the space that follows each comma.
pub open spec fn label_pieces(labels: Seq<(Seq<char>, Seq<char>)>) -> Seq<Seq<char>> {
    Seq::new(labels.len(), |i: int| if i == 0 { label_item(labels[i]) } else { seq![' '] + label_item(labels[i]) })
}

proof fn lemma_split_format(labels: Seq<(Seq<char>, Seq<char>)>)
    requires
        labels.len() > 0,
        labels_typable(labels),
    ensures
        split_on(spec_format_labels(labels), ',') == label_pieces(labels),
    decreases labels.len(),
{
    let last = labels.last();
    assert(labels[labels.len() - 1] == last);
    let item = label_item(last);
    assert forall|i: int| 0 <= i < item.len() implies item[i] != ',' by {
        if i < last.0.len() {
            assert(item[i] == last.0[i]);
        } else if i > last.0.len() {
            assert(item[i] == last.1[i - last.0.len() - 1]);
        }
    }
    if labels.len() == 1 {
        lemma_split_append_plain(Seq::empty(), item, ',');
        assert(Seq::<char>::empty() + item =~= item);
        assert(split_on(Seq::<char>::empty(), ',') =~= seq![Seq::<char>::empty()]);
        assert(Seq::<char>::empty() + item =~= item);
        assert(split_on(item, ',') =~= label_pieces(labels));
    } else {
        let init = labels.drop_last();
        assert forall|i: int| 0 <= i < init.len() implies #[trigger] init[i] == labels[i] by {}
        lemma_split_format(init);
        let f = spec_format_labels(init);
        let b = seq![' '] + item;
        assert forall|i: int| 0 <= i < b.len() implies b[i] != ',' by {
            if i > 0 {
                assert(b[i] == item[i - 1]);
            }
        }
        reveal_strlit(", ");
        assert(spec_format_labels(labels) =~= f.push(',') + b);
        lemma_split_append_plain(f.push(','), b, ',');
        assert(split_on(f.push(','), ',') == split_on(f, ',').push(Seq::empty())) by {
            assert(f.push(',').drop_last() =~= f);
        }
        assert(Seq::<char>::empty() + b =~= b);
        assert(split_on(spec_format_labels(labels), ',') =~= label_pieces(labels));
    }
}

proof fn lemma_index_past(name: Seq<char>, value: Seq<char>, j: int)
    requires
        0 <= j <= name.len(),
        forall|k: int| 0 <= k < name.len() ==> name[k] != '=',
    ensures
        index_from(name + seq!['='] + value, '=', j) == name.len(),
    decreases name.len() - j,
{
    let t = name + seq!['='] + value;
    if j < name.len() {
        assert(t[j] == name[j]);
        lemma_index_past(name, value, j + 1);
    } else {
        assert(t[j] == '=');
    }
}

proof fn lemma_parse_item(label: (Seq<char>, Seq<char>), spaced: bool)
    requires
        labels_typable(seq![label]),
    ensures
        parse_label_item(if spaced { seq![' '] + label_item(label) } else { label_item(label) }) == Ok::<
            (Seq<char>, Seq<char>),
            Seq<char>,
        >(label),
{
    assert(seq![label][0] == label);
    let (name, value) = label;
    let item = label_item(label);
    let typed = if spaced { seq![' '] + item } else { item };
    assert(item[0] == name[0]);
    assert(item.last() == value.last());
    assert(trim_start(item) == item);
    if spaced {
        assert(typed.drop_first() =~= item);
        assert(is_white_space(' '));
        assert(trim_start(typed) == trim_start(item));
    }
    assert(trim_end(item) == item);
    assert(trim(typed) == item);
    lemma_index_past(name, value, 0);
    assert(item.subrange(0, name.len() as int) =~= name);
    assert(item.subrange(name.len() as int + 1, item.len() as int) =~= value);
    assert(trim_start(name) == name);
    assert(trim_end(name) == name);
    assert(trim_start(value) == value);
    assert(trim_end(value) == value);
}

proof fn lemma_parse_pieces(labels: Seq<(Seq<char>, Seq<char>)>)
    requires
        labels_typable(labels),
    ensures
        parse_label_items(label_pieces(labels)) == Ok::<Seq<(Seq<char>, Seq<char>)>, Seq<char>>(labels),
    decreases labels.len(),
{
    if labels.len() > 0 {
        let init = labels.drop_last();
        assert forall|i: int| 0 <= i < init.len() implies #[trigger] init[i] == labels[i] by {}
        lemma_parse_pieces(init);
        assert(label_pieces(labels).drop_last() =~= label_pieces(init));
        let last = labels.last();
        assert(labels[labels.len() - 1] == last);
        assert(seq![last][0] == last);
        lemma_parse_item(last, labels.len() > 1);
        assert(init.push(last) =~= labels);
    } else {
        assert(labels =~= Seq::<(Seq<char>, Seq<char>)>::empty());
    }
}

/// Label conditions shown and then read back are the same conditions, for
/// conditions that can be typed: non-empty names and values without
/// surrounding whitespace or commas, and names without `=`.
pub proof fn law_match_labels_round_trip(labels: Seq<(Seq<char>, Seq<char>)>)
    requires
        labels_typable(labels),
    ensures
        spec_parse_match_labels(spec_format_labels(labels)) == Ok::<Seq<(Seq<char>, Seq<char>)>, Seq<char>>(labels),
{
    if labels.len() == 0 {
        assert(trim(Seq::<char>::empty()) =~= Seq::<char>::empty());
        assert(labels =~= Seq::<(Seq<char>, Seq<char>)>::empty());
    } else {
        lemma_split_format(labels);
        lemma_parse_pieces(labels);
        let text = spec_format_labels(labels);
        let pieces = label_pieces(labels);
        lemma_format_ends(labels);
        assert(trim_start(text) == text);
        assert(trim_end(text) == text);
    }
}

proof fn lemma_format_ends(labels: Seq<(Seq<char>, Seq<char>)>)
    requires
        labels.len() > 0,
        labels_typable(labels),
    ensures
        spec_format_labels(labels).len() > 0,
        spec_format_labels(labels)[0] == labels[0].0[0],
        spec_format_labels(labels).last() == labels.last().1.last(),
    decreases labels.len(),
{
    let first = labels[0];
    let last = labels.last();
    assert(labels[labels.len() - 1] == last);
    if labels.len() == 1 {
        assert(label_item(first)[0] == first.0[0]);
    } else {
        let init = labels.drop_last();
        assert forall|i: int| 0 <= i < init.len() implies #[trigger] init[i] == labels[i] by {}
        lemma_format_ends(init);
        reveal_strlit(", ");
        let f = spec_format_labels(init);
        assert(spec_format_labels(labels) == f + ", "@ + label_item(last));
        assert((f + ", "@ + label_item(last))[0] == f[0]);
    }
    assert(label_item(last).last() == last.1.last());
}

/// A NIC of a new server connected to a switch.
#[derive(Debug, Clone, PartialEq, Eq)]
pub struct SwitchNic {
    pub id: ResourceId,
    pub ip_address: String,
    pub mask_len: u32,
    pub gateway: String,
}

/// The NIC typed in a server form: it needs an address and a mask length
/// between 1 and 32; the gateway may be empty.
pub open spec fn spec_switch_nic_ok(ip_address: Seq<char>, mask_len: Seq<char>) -> bool {
    &&& trim(ip_address).len() > 0
    &&& parse_unsigned(trim(mask_len), u32::MAX as nat) matches Some(m) && 1 <= m <= 32
}

/// The NIC on switch `id` that a server form asks for, if the form gives an
/// address and a valid mask length.
pub fn switch_nic(id: ResourceId, ip_address: &str, mask_len: &str, gateway: &str) -> (r: Option<SwitchNic>)
    ensures
        r is Some <==> spec_switch_nic_ok(ip_address@, mask_len@),
        r is Some ==> {
            let nic = r->0;
            &&& nic.id == id
            &&& nic.ip_address@ == trim(ip_address@)
            &&& nic.mask_len == parse_unsigned(trim(mask_len@), u32::MAX as nat)->0
            &&& nic.gateway@ == trim(gateway@)
        },
{
    let ip = trim_str(ip_address);
    let mask = match parse_u32_text(&trim_str(mask_len)) {
        Some(m) => m,
        None => return None,
    };
    if ip.len() == 0 || !(1 <= mask && mask <= 32) {
        return None;
    }
    Some(SwitchNic {
        id,
        ip_address: string_from_chars(&ip),
        mask_len: mask,
        gateway: string_from_chars(&trim_str(gateway)),
    })
}

} // verus!
