//! Character-level helpers with their specifications.

use vstd::prelude::*;

verus! {

/// `needle` occurs in `hay` starting at position `i`.
pub open spec fn occurs_at(hay: Seq<char>, needle: Seq<char>, i: int) -> bool {
    &&& 0 <= i
    &&& i + needle.len() <= hay.len()
    &&& hay.subrange(i, i + needle.len()) == needle
}

/// `needle` is a substring of `hay`.
pub open spec fn has_substring(hay: Seq<char>, needle: Seq<char>) -> bool {
    exists|i: int| occurs_at(hay, needle, i)
}

/// The characters of a string slice, as a vector.
pub fn chars_of(s: &str) -> (v: Vec<char>)
    ensures
        v@ == s@,
{
    let n = s.unicode_len();
    let mut v: Vec<char> = Vec::new();
    let mut i: usize = 0;
    while i < n
        invariant
            n == s@.len(),
            i <= n,
            v@ == s@.subrange(0, i as int),
        decreases n - i,
    {
        let c = s.get_char(i);
        v.push(c);
        i = i + 1;
        assert(v@ =~= s@.subrange(0, i as int));
    }
    assert(v@ =~= s@);
    v
}

/// Whether `needle` occurs in `hay` at position `i` (executable check).
fn occurs_at_exec(hay: &Vec<char>, needle: &Vec<char>, i: usize) -> (r: bool)
    requires
        i + needle.len() <= hay.len(),
    ensures
        r == occurs_at(hay@, needle@, i as int),
{
    let mut j: usize = 0;
    while j < needle.len()
        invariant
            i + needle.len() <= hay.len(),
            j <= needle.len(),
            forall|k: int| 0 <= k < j ==> hay@[i + k] == needle@[k],
        decreases needle.len() - j,
    {
        if hay[i + j] != needle[j] {
            assert(hay@.subrange(i as int, i + needle.len())[j as int] != needle@[j as int]);
            return false;
        }
        j = j + 1;
    }
    assert(hay@.subrange(i as int, i + needle.len()) =~= needle@);
    true
}

/// Substring search over character vectors.
pub fn vec_has_substring(hay: &Vec<char>, needle: &Vec<char>) -> (r: bool)
    ensures
        r == has_substring(hay@, needle@),
{
    let mut i: usize = 0;
    while i <= hay.len() && needle.len() <= hay.len() - i
        invariant
            i <= hay.len() + 1,
            forall|k: int| 0 <= k < i ==> !occurs_at(hay@, needle@, k),
        decreases hay.len() + 1 - i,
    {
        if occurs_at_exec(hay, needle, i) {
            return true;
        }
        assert(needle@.len() > 0) by {
            if needle@.len() == 0 {
                assert(hay@.subrange(i as int, i as int) =~= needle@);
            }
        }
        i = i + 1;
    }
    assert forall|k: int| !occurs_at(hay@, needle@, k) by {
        if occurs_at(hay@, needle@, k) && k >= i {
            assert(k + needle@.len() <= hay@.len());
        }
    }
    false
}

/// `str::contains` with a string pattern.
pub fn str_contains(hay: &str, needle: &str) -> (r: bool)
    ensures
        r == has_substring(hay@, needle@),
{
    let h = chars_of(hay);
    let n = chars_of(needle);
    vec_has_substring(&h, &n)
}


} // verus!
verus! {

/// ASCII lower-casing of one character; other characters are unchanged.
pub open spec fn ascii_lower(c: char) -> char {
    if 'A' <= c && c <= 'Z' {
        ((c as u32) + 32) as char
    } else {
        c
    }
}

/// ASCII upper-casing of one character; other characters are unchanged.
pub open spec fn ascii_upper(c: char) -> char {
    if 'a' <= c && c <= 'z' {
        ((c as u32) - 32) as char
    } else {
        c
    }
}

/// Equality of two texts, ignoring ASCII case.
pub open spec fn seq_ascii_eq_ignore_case(a: Seq<char>, b: Seq<char>) -> bool {
    &&& a.len() == b.len()
    &&& forall|i: int| 0 <= i < a.len() ==> ascii_lower(#[trigger] a[i]) == ascii_lower(b[i])
}

pub fn char_ascii_lower(c: char) -> (r: char)
    ensures
        r == ascii_lower(c),
{
    if 'A' <= c && c <= 'Z' {
        ((c as u8) + 32) as char
    } else {
        c
    }
}

pub fn char_ascii_upper(c: char) -> (r: char)
    ensures
        r == ascii_upper(c),
{
    if 'a' <= c && c <= 'z' {
        ((c as u8) - 32) as char
    } else {
        c
    }
}

/// `str::eq_ignore_ascii_case`.
pub fn ascii_eq_ignore_case(a: &str, b: &str) -> (r: bool)
    ensures
        r == seq_ascii_eq_ignore_case(a@, b@),
{
    let x = chars_of(a);
    let y = chars_of(b);
    if x.len() != y.len() {
        return false;
    }
    let mut i: usize = 0;
    while i < x.len()
        invariant
            x@ == a@,
            y@ == b@,
            x.len() == y.len(),
            i <= x.len(),
            forall|k: int| 0 <= k < i ==> ascii_lower(#[trigger] x@[k]) == ascii_lower(y@[k]),
        decreases x.len() - i,
    {
        if char_ascii_lower(x[i]) != char_ascii_lower(y[i]) {
            return false;
        }
        i = i + 1;
    }
    true
}


} // verus!
verus! {

/// Unicode `White_Space`, the whitespace of `char::is_whitespace` and `str::trim`.
pub open spec fn is_white_space(c: char) -> bool {
    ||| '\t' <= c && c <= '\r'
    ||| c == ' '
    ||| c == '\u{85}'
    ||| c == '\u{a0}'
    ||| c == '\u{1680}'
    ||| '\u{2000}' <= c && c <= '\u{200a}'
    ||| c == '\u{2028}'
    ||| c == '\u{2029}'
    ||| c == '\u{202f}'
    ||| c == '\u{205f}'
    ||| c == '\u{3000}'
}

/// Unicode general category `Cc`, as `char::is_control`.
pub open spec fn is_control(c: char) -> bool {
    c <= '\u{1f}' || ('\u{7f}' <= c && c <= '\u{9f}')
}

/// The text without its leading whitespace.
pub open spec fn trim_start(s: Seq<char>) -> Seq<char>
    decreases s.len(),
{
    if s.len() > 0 && is_white_space(s[0]) {
        trim_start(s.drop_first())
    } else {
        s
    }
}

/// The text without its trailing whitespace.
pub open spec fn trim_end(s: Seq<char>) -> Seq<char>
    decreases s.len(),
{
    if s.len() > 0 && is_white_space(s.last()) {
        trim_end(s.drop_last())
    } else {
        s
    }
}

/// `str::trim`: leading and trailing whitespace removed.
pub open spec fn trim(s: Seq<char>) -> Seq<char> {
    trim_end(trim_start(s))
}

pub fn char_is_white_space(c: char) -> (r: bool)
    ensures
        r == is_white_space(c),
{
    ('\t' <= c && c <= '\r') || c == ' ' || c == '\u{85}' || c == '\u{a0}' || c == '\u{1680}'
        || ('\u{2000}' <= c && c <= '\u{200a}') || c == '\u{2028}' || c == '\u{2029}'
        || c == '\u{202f}' || c == '\u{205f}' || c == '\u{3000}'
}

pub fn char_is_control(c: char) -> (r: bool)
    ensures
        r == is_control(c),
{
    c <= '\u{1f}' || ('\u{7f}' <= c && c <= '\u{9f}')
}

proof fn lemma_trim_start_skip(s: Seq<char>, i: int)
    requires
        0 <= i <= s.len(),
        forall|k: int| 0 <= k < i ==> is_white_space(#[trigger] s[k]),
    ensures
        trim_start(s) == trim_start(s.subrange(i, s.len() as int)),
    decreases i,
{
    if i > 0 {
        assert(s.drop_first().subrange(i - 1, s.len() - 1) =~= s.subrange(i, s.len() as int));
        lemma_trim_start_skip(s.drop_first(), i - 1);
    } else {
        assert(s.subrange(0, s.len() as int) =~= s);
    }
}

proof fn lemma_trim_end_skip(s: Seq<char>, j: int)
    requires
        0 <= j <= s.len(),
        forall|k: int| j <= k < s.len() ==> is_white_space(#[trigger] s[k]),
    ensures
        trim_end(s) == trim_end(s.subrange(0, j)),
    decreases s.len() - j,
{
    if j < s.len() {
        assert(s.drop_last().subrange(0, j) =~= s.subrange(0, j));
        lemma_trim_end_skip(s.drop_last(), j);
    } else {
        assert(s.subrange(0, j) =~= s);
    }
}

/// `str::trim` over a character vector.
pub fn trim_chars(s: &Vec<char>) -> (r: Vec<char>)
    ensures
        r@ == trim(s@),
{
    let mut i: usize = 0;
    while i < s.len() && char_is_white_space(s[i])
        invariant
            i <= s.len(),
            forall|k: int| 0 <= k < i ==> is_white_space(#[trigger] s@[k]),
        decreases s.len() - i,
    {
        i = i + 1;
    }
    proof {
        lemma_trim_start_skip(s@, i as int);
    }
    let ghost t = s@.subrange(i as int, s@.len() as int);
    let mut j: usize = s.len();
    while j > i && char_is_white_space(s[j - 1])
        invariant
            i <= j <= s.len(),
            forall|k: int| j <= k < s.len() ==> is_white_space(#[trigger] s@[k]),
        decreases j,
    {
        j = j - 1;
    }
    let mut out: Vec<char> = Vec::new();
    let mut k: usize = i;
    while k < j
        invariant
            i <= k <= j,
            j <= s.len(),
            out@ == s@.subrange(i as int, k as int),
        decreases j - k,
    {
        out.push(s[k]);
        k = k + 1;
        assert(out@ =~= s@.subrange(i as int, k as int));
    }
    proof {
        if i < s@.len() {
            assert(!is_white_space(t[0]));
            assert(trim_start(t) == t);
        } else {
            assert(t.len() == 0);
        }
        assert forall|k2: int| (j - i) <= k2 < t.len() implies is_white_space(#[trigger] t[k2]) by {
            assert(t[k2] == s@[i + k2]);
        }
        lemma_trim_end_skip(t, j - i);
        let u = t.subrange(0, j - i);
        assert(u =~= s@.subrange(i as int, j as int));
        if j > i {
            assert(!is_white_space(u.last()));
        }
        assert(trim_end(u) == u);
    }
    out
}

/// `str::trim`.
pub fn trim_str(s: &str) -> (r: Vec<char>)
    ensures
        r@ == trim(s@),
{
    let v = chars_of(s);
    trim_chars(&v)
}

/// The characters collected into a `String` with std's `FromIterator<char>`
/// for `String`; the contract claims only that the text holds exactly these
/// characters in this order.
#[verifier::external_body]
pub(crate) fn string_from_chars(v: &Vec<char>) -> (s: String)
    ensures
        s@ == v@,
{
    v.iter().collect()
}

/// What `str::to_lowercase` returns: the full Unicode lower-case mapping, which
/// takes the Unicode tables to state.
pub uninterp spec fn spec_to_lowercase(s: Seq<char>) -> Seq<char>;

/// std's `str::to_lowercase`. The contract names the result and claims only
/// that it depends on the text alone; the Unicode mapping itself is not spelled out.
#[verifier::external_body]
pub(crate) fn to_lowercase(s: &str) -> (r: String)
    ensures
        r@ == spec_to_lowercase(s@),
{
    s.to_lowercase()
}


} // verus!
verus! {

/// Equality of two string slices (`==` on `str`).
pub fn str_eq(a: &str, b: &str) -> (r: bool)
    ensures
        r == (a@ == b@),
{
    let x = chars_of(a);
    let y = chars_of(b);
    if x.len() != y.len() {
        return false;
    }
    let mut i: usize = 0;
    while i < x.len()
        invariant
            x@ == a@,
            y@ == b@,
            x.len() == y.len(),
            i <= x.len(),
            forall|k: int| 0 <= k < i ==> x@[k] == y@[k],
        decreases x.len() - i,
    {
        if x[i] != y[i] {
            return false;
        }
        i = i + 1;
    }
    assert(x@ =~= y@);
    true
}

/// The decimal digit character for `d < 10`.
pub open spec fn digit_char(d: nat) -> char {
    ((d + 48) as u32) as char
}

/// The value of a decimal digit character.
pub open spec fn digit_value(c: char) -> int {
    (c as u32) - 48
}

pub open spec fn is_digit(c: char) -> bool {
    '0' <= c && c <= '9'
}

/// Decimal notation of a natural number, without leading zeros.
pub open spec fn decimal(n: nat) -> Seq<char>
    decreases n,
{
    if n < 10 {
        seq![digit_char(n)]
    } else {
        decimal(n / 10).push(digit_char(n % 10))
    }
}

pub open spec fn all_digits(s: Seq<char>) -> bool {
    forall|i: int| 0 <= i < s.len() ==> is_digit(#[trigger] s[i])
}

/// The value of a string of decimal digits.
pub open spec fn digits_value(s: Seq<char>) -> nat
    decreases s.len(),
{
    if s.len() == 0 {
        0
    } else {
        (digits_value(s.drop_last()) * 10 + digit_value(s.last())) as nat
    }
}

/// `str::parse` of an unsigned integer not above `max`: an optional `+`, then
/// one or more decimal digits.
pub open spec fn parse_unsigned(s: Seq<char>, max: nat) -> Option<nat> {
    let body = if s.len() > 0 && s[0] == '+' { s.drop_first() } else { s };
    if body.len() == 0 || !all_digits(body) || digits_value(body) > max {
        None
    } else {
        Some(digits_value(body))
    }
}

/// Decimal text of a `u64` (`to_string`).
pub fn u64_to_decimal(n: u64) -> (r: Vec<char>)
    ensures
        r@ == decimal(n as nat),
    decreases n,
{
    if n < 10 {
        let c = ((n as u8) + 48) as char;
        proof {
            assert(c == digit_char(n as nat));
        }
        vec![c]
    } else {
        let mut r = u64_to_decimal(n / 10);
        let c = (((n % 10) as u8) + 48) as char;
        r.push(c);
        r
    }
}

/// Whether every character is a decimal digit.
pub fn all_digits_exec(s: &Vec<char>) -> (r: bool)
    ensures
        r == all_digits(s@),
{
    let mut i: usize = 0;
    while i < s.len()
        invariant
            i <= s.len(),
            forall|k: int| 0 <= k < i ==> is_digit(#[trigger] s@[k]),
        decreases s.len() - i,
    {
        if !('0' <= s[i] && s[i] <= '9') {
            return false;
        }
        i = i + 1;
    }
    true
}

proof fn lemma_digits_value_monotone(s: Seq<char>, i: int)
    requires
        0 <= i <= s.len(),
        all_digits(s),
    ensures
        digits_value(s.subrange(0, i)) <= digits_value(s),
    decreases s.len() - i,
{
    if i < s.len() {
        lemma_digits_value_monotone(s, i + 1);
        let p = s.subrange(0, i + 1);
        assert(p.drop_last() =~= s.subrange(0, i));
        assert(is_digit(p.last()));
    } else {
        assert(s.subrange(0, i) =~= s);
    }
}

/// The value of a string of decimal digits, or `None` above `max`.
pub fn parse_decimal_u64(s: &Vec<char>, max: u64) -> (r: Option<u64>)
    requires
        all_digits(s@),
    ensures
        r is Some <==> digits_value(s@) <= max,
        r is Some ==> r->0 == digits_value(s@),
{
    let mut value: u64 = 0;
    let mut i: usize = 0;
    while i < s.len()
        invariant
            i <= s.len(),
            all_digits(s@),
            value == digits_value(s@.subrange(0, i as int)),
            value <= max,
        decreases s.len() - i,
    {
        let d = (s[i] as u32 - 48) as u64;
        let ghost p = s@.subrange(0, i + 1);
        proof {
            assert(p.drop_last() =~= s@.subrange(0, i as int));
            assert(is_digit(s@[i as int]));
        }
        if value > max / 10 || (value == max / 10 && d > max % 10) {
            proof {
                assert(value * 10 + d > max) by (nonlinear_arith)
                    requires
                        value > max / 10 || (value == max / 10 && d > max % 10),
                ;
                lemma_digits_value_monotone(s@, i + 1);
            }
            return None;
        }
        proof {
            assert(value * 10 + d <= max) by (nonlinear_arith)
                requires
                    value <= max / 10,
                    value < max / 10 || d <= max % 10,
                    d <= 9,
            ;
        }
        value = value * 10 + d;
        i = i + 1;
    }
    assert(s@.subrange(0, s@.len() as int) =~= s@);
    Some(value)
}


} // verus!
verus! {

/// `str::parse` of an unsigned integer not above `max` (`u32`, `u64`, ...).
pub fn parse_unsigned_exec(s: &Vec<char>, max: u64) -> (r: Option<u64>)
    ensures
        r is Some <==> parse_unsigned(s@, max as nat) is Some,
        r is Some ==> r->0 == parse_unsigned(s@, max as nat)->0,
{
    let mut body: Vec<char> = Vec::new();
    let start: usize = if s.len() > 0 && s[0] == '+' { 1 } else { 0 };
    let mut i: usize = start;
    while i < s.len()
        invariant
            start <= i <= s.len(),
            body@ == s@.subrange(start as int, i as int),
        decreases s.len() - i,
    {
        body.push(s[i]);
        i = i + 1;
        assert(body@ =~= s@.subrange(start as int, i as int));
    }
    proof {
        if start == 1 {
            assert(body@ =~= s@.drop_first());
        } else {
            assert(body@ =~= s@);
        }
    }
    if body.len() == 0 || !all_digits_exec(&body) {
        return None;
    }
    parse_decimal_u64(&body, max)
}

/// `str::parse::<u32>` of a trimmed field, as forms read numbers.
pub fn parse_u32_text(s: &Vec<char>) -> (r: Option<u32>)
    ensures
        r is Some <==> parse_unsigned(s@, u32::MAX as nat) is Some,
        r is Some ==> r->0 == parse_unsigned(s@, u32::MAX as nat)->0,
{
    match parse_unsigned_exec(s, u32::MAX as u64) {
        Some(v) => Some(v as u32),
        None => None,
    }
}

/// `str::parse::<u16>`.
pub fn parse_u16_text(s: &Vec<char>) -> (r: Option<u16>)
    ensures
        r is Some <==> parse_unsigned(s@, u16::MAX as nat) is Some,
        r is Some ==> r->0 == parse_unsigned(s@, u16::MAX as nat)->0,
{
    match parse_unsigned_exec(s, u16::MAX as u64) {
        Some(v) => Some(v as u16),
        None => None,
    }
}


} // verus!
verus! {

/// The views of some character vectors.
pub open spec fn char_views(v: Seq<Vec<char>>) -> Seq<Seq<char>> {
    v.map_values(|p: Vec<char>| p@)
}


} // verus!
verus! {

/// Equality of two character vectors.
pub fn vec_eq(a: &Vec<char>, b: &Vec<char>) -> (r: bool)
    ensures
        r == (a@ == b@),
{
    if a.len() != b.len() {
        return false;
    }
    let mut i: usize = 0;
    while i < a.len()
        invariant
            a.len() == b.len(),
            i <= a.len(),
            forall|k: int| 0 <= k < i ==> a@[k] == b@[k],
        decreases a.len() - i,
    {
        if a[i] != b[i] {
            return false;
        }
        i = i + 1;
    }
    assert(a@ =~= b@);
    true
}


/// Lexicographic order of texts by code point (the order of `str::cmp`).
pub open spec fn text_lt(a: Seq<char>, b: Seq<char>) -> bool
    decreases a.len(),
{
    if b.len() == 0 {
        false
    } else if a.len() == 0 {
        true
    } else if a[0] < b[0] {
        true
    } else if a[0] == b[0] {
        text_lt(a.drop_first(), b.drop_first())
    } else {
        false
    }
}

/// `<` on texts (`str::cmp`).
pub fn text_less(a: &str, b: &str) -> (r: bool)
    ensures
        r == text_lt(a@, b@),
{
    let av = chars_of(a);
    let bv = chars_of(b);
    let mut i: usize = 0;
    assert(a@.skip(0) =~= a@ && b@.skip(0) =~= b@);
    while i < av.len() && i < bv.len()
        invariant
            i <= av.len(),
            i <= bv.len(),
            av@ == a@,
            bv@ == b@,
            text_lt(a@, b@) == text_lt(a@.skip(i as int), b@.skip(i as int)),
        decreases av.len() - i,
    {
        let ghost sa = a@.skip(i as int);
        let ghost sb = b@.skip(i as int);
        assert(sa[0] == av@[i as int] && sb[0] == bv@[i as int]);
        if av[i] < bv[i] {
            return true;
        }
        if av[i] != bv[i] {
            return false;
        }
        assert(sa.drop_first() =~= a@.skip(i + 1));
        assert(sb.drop_first() =~= b@.skip(i + 1));
        i = i + 1;
    }
    i < bv.len()
}

pub proof fn lemma_text_lt_irreflexive(a: Seq<char>)
    ensures
        !text_lt(a, a),
    decreases a.len(),
{
    if a.len() > 0 {
        lemma_text_lt_irreflexive(a.drop_first());
    }
}

pub proof fn lemma_text_lt_transitive(a: Seq<char>, b: Seq<char>, c: Seq<char>)
    requires
        text_lt(a, b),
        text_lt(b, c),
    ensures
        text_lt(a, c),
    decreases a.len(),
{
    if a.len() > 0 && b.len() > 0 && c.len() > 0 && a[0] == b[0] && b[0] == c[0] {
        lemma_text_lt_transitive(a.drop_first(), b.drop_first(), c.drop_first());
    }
}

/// Two different texts are ordered one way or the other.
pub proof fn lemma_text_lt_total(a: Seq<char>, b: Seq<char>)
    requires
        a != b,
    ensures
        text_lt(a, b) || text_lt(b, a),
    decreases a.len(),
{
    if a.len() > 0 && b.len() > 0 && a[0] == b[0] {
        assert(a =~= seq![a[0]] + a.drop_first());
        assert(b =~= seq![b[0]] + b.drop_first());
        lemma_text_lt_total(a.drop_first(), b.drop_first());
    } else if a.len() == 0 && b.len() == 0 {
        assert(a =~= b);
    }
}

/// `str::trim_end_matches` with a text pattern: every trailing occurrence of
/// `pat` removed.
pub open spec fn trim_end_matches(s: Seq<char>, pat: Seq<char>) -> Seq<char>
    decreases s.len(),
{
    if pat.len() > 0 && s.len() >= pat.len() && s.subrange(s.len() - pat.len(), s.len() as int) == pat {
        trim_end_matches(s.subrange(0, s.len() - pat.len()), pat)
    } else {
        s
    }
}

/// `str::trim_end_matches` with a text pattern.
pub fn trim_end_matches_str(s: &str, pat: &str) -> (r: Vec<char>)
    ensures
        r@ == trim_end_matches(s@, pat@),
{
    let v = chars_of(s);
    let p = chars_of(pat);
    let mut end: usize = v.len();
    assert(v@.subrange(0, end as int) =~= v@);
    while p.len() > 0 && end >= p.len()
        invariant
            end <= v.len(),
            v@ == s@,
            p@ == pat@,
            trim_end_matches(s@, pat@) == trim_end_matches(v@.subrange(0, end as int), pat@),
        ensures
            end <= v.len(),
            trim_end_matches(s@, pat@) == v@.subrange(0, end as int),
        decreases end,
    {
        let start = end - p.len();
        let mut k: usize = 0;
        let mut same = true;
        assert(v@.subrange(start as int, start as int) =~= p@.subrange(0, 0));
        while k < p.len()
            invariant
                k <= p.len(),
                start + p.len() == end,
                end <= v.len(),
                same == (v@.subrange(start as int, (start + k) as int) == p@.subrange(0, k as int)),
            decreases p.len() - k,
        {
            if v[start + k] != p[k] {
                same = false;
            }
            proof {
                if same {
                    assert(v@.subrange(start as int, (start + k + 1) as int) =~= p@.subrange(0, k + 1));
                } else {
                    assert(v@.subrange(start as int, (start + k + 1) as int)[k as int] == v@[start + k]);
                    assert(p@.subrange(0, k + 1)[k as int] == p@[k as int]);
                    if v@[start + k] == p@[k as int] {
                        assert(v@.subrange(start as int, (start + k) as int) =~= v@.subrange(start as int, (start + k + 1) as int).subrange(0, k as int));
                        assert(p@.subrange(0, k as int) =~= p@.subrange(0, k + 1).subrange(0, k as int));
                    }
                }
            }
            k = k + 1;
        }
        let ghost cur = v@.subrange(0, end as int);
        assert(p@.subrange(0, p@.len() as int) =~= p@);
        assert(cur.subrange(cur.len() - p@.len(), cur.len() as int) =~= v@.subrange(start as int, end as int));
        if !same {
            break;
        }
        assert(cur.subrange(0, cur.len() - p@.len()) =~= v@.subrange(0, start as int));
        end = start;
    }
    let mut out: Vec<char> = Vec::new();
    let mut i: usize = 0;
    while i < end
        invariant
            i <= end,
            end <= v.len(),
            out@ == v@.subrange(0, i as int),
        decreases end - i,
    {
        out.push(v[i]);
        assert(out@ =~= v@.subrange(0, i + 1));
        i = i + 1;
    }
    out
}

/// The pieces of `s` between occurrences of `sep`, empty ones included
/// (`str::split` with a character).
pub open spec fn split_on(s: Seq<char>, sep: char) -> Seq<Seq<char>>
    decreases s.len(),
{
    if s.len() == 0 {
        seq![Seq::empty()]
    } else {
        let p = split_on(s.drop_last(), sep);
        if s.last() == sep {
            p.push(Seq::empty())
        } else {
            p.update(p.len() - 1, p.last().push(s.last()))
        }
    }
}

pub proof fn lemma_split_on_nonempty(s: Seq<char>, sep: char)
    ensures
        split_on(s, sep).len() >= 1,
    decreases s.len(),
{
    if s.len() > 0 {
        lemma_split_on_nonempty(s.drop_last(), sep);
    }
}

/// `str::split` with a character, over a character vector.
pub fn split_chars(s: &Vec<char>, sep: char) -> (r: Vec<Vec<char>>)
    ensures
        char_views(r@) == split_on(s@, sep),
{
    let mut done: Vec<Vec<char>> = Vec::new();
    let mut cur: Vec<char> = Vec::new();
    let mut i: usize = 0;
    while i < s.len()
        invariant
            i <= s.len(),
            char_views(done@).push(cur@) == split_on(s@.subrange(0, i as int), sep),
        decreases s.len() - i,
    {
        let ghost before = char_views(done@).push(cur@);
        assert(s@.subrange(0, i + 1).drop_last() =~= s@.subrange(0, i as int));
        if s[i] == sep {
            done.push(cur);
            cur = Vec::new();
            assert(char_views(done@).push(cur@) =~= before.push(Seq::empty()));
        } else {
            cur.push(s[i]);
            assert(char_views(done@).push(cur@) =~= before.update(before.len() - 1, before.last().push(s@[i as int])));
        }
        i = i + 1;
    }
    assert(s@.subrange(0, s@.len() as int) =~= s@);
    let ghost before = char_views(done@);
    done.push(cur);
    assert(char_views(done@) =~= before.push(cur@));
    done
}

/// The number of bytes of a character in UTF-8.
pub open spec fn utf8_char_len(c: char) -> nat {
    if (c as u32) < 0x80 {
        1
    } else if (c as u32) < 0x800 {
        2
    } else if (c as u32) < 0x10000 {
        3
    } else {
        4
    }
}

/// The number of bytes of a text in UTF-8 (`str::len`).
pub open spec fn utf8_len(s: Seq<char>) -> nat
    decreases s.len(),
{
    if s.len() == 0 {
        0
    } else {
        utf8_len(s.drop_last()) + utf8_char_len(s.last())
    }
}

proof fn lemma_utf8_len_prefix(s: Seq<char>, i: int)
    requires
        0 <= i <= s.len(),
    ensures
        utf8_len(s.subrange(0, i)) <= utf8_len(s),
    decreases s.len() - i,
{
    if i == s.len() {
        assert(s.subrange(0, i) =~= s);
    } else {
        assert(s.subrange(0, i + 1).drop_last() =~= s.subrange(0, i));
        lemma_utf8_len_prefix(s, i + 1);
    }
}

/// Whether the text the characters make is longer than `limit` bytes
/// (`str::len() > limit`).
pub fn utf8_len_exceeds(s: &Vec<char>, limit: usize) -> (r: bool)
    requires
        limit <= usize::MAX - 4,
    ensures
        r == (utf8_len(s@) > limit),
{
    let mut n: usize = 0;
    let mut i: usize = 0;
    while i < s.len()
        invariant
            i <= s.len(),
            limit <= usize::MAX - 4,
            n == utf8_len(s@.subrange(0, i as int)),
            n <= limit,
        decreases s.len() - i,
    {
        assert(s@.subrange(0, i + 1).drop_last() =~= s@.subrange(0, i as int));
        let c = s[i] as u32;
        let k: usize = if c < 0x80 {
            1
        } else if c < 0x800 {
            2
        } else if c < 0x10000 {
            3
        } else {
            4
        };
        n = n + k;
        i = i + 1;
        if n > limit {
            proof {
                lemma_utf8_len_prefix(s@, i as int);
            }
            return true;
        }
    }
    assert(s@.subrange(0, s@.len() as int) =~= s@);
    false
}

} // verus!
