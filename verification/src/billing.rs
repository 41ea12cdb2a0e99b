//! Billing of the cloud account, read only: bills by month, their details, and
//! summaries of the details by zone or by kind of service.

use vstd::prelude::*;

use crate::json::{
    bool_field, flexible_field, is_missing_in_array, is_record, list_field, member, missing_in_array, number_text,
    number_to_string, opt_text_field, present, present_member, record_shape, spec_bool_field, spec_flexible_field, spec_list_field,
    spec_member, spec_opt_text_field, spec_text_field, text_field, texts_view, JsonValue,
};
use crate::order::{
    insertion_point, lemma_stable_sort, lemma_stable_sort_keeps_ties, sorted_by, stable_sort, strict_order,
    strict_weak_order, tied,
};
use crate::text::{
    char_views, chars_of, lemma_text_lt_irreflexive, lemma_text_lt_total, lemma_text_lt_transitive, str_eq,
    string_from_chars, text_less, text_lt, vec_eq,
};

verus! {

/// The identifiers needed to read the bills.
#[derive(Debug, Clone)]
pub struct BillingIdentity {
    pub account_id: String,
    pub member_code: String,
    /// The account name, for display.
    pub account_name: String,
}

/// One bill (one month).
#[derive(Debug, Clone)]
pub struct Bill {
    pub id: String,
    /// The amount in yen, as the API gives it.
    pub amount: i64,
    pub date: Option<String>,
    pub paid: bool,
    pub pay_limit: Option<String>,
}

/// One line of a bill (about one resource).
#[derive(Debug, Clone)]
pub struct BillDetail {
    pub description: String,
    pub amount: i64,
    pub zone: String,
    /// The kind of service, as a path such as `cloud/server/plan/...`.
    pub service_class_path: String,
    /// The usage, already formatted.
    pub usage: String,
    pub contract_end_at: Option<String>,
}

/// Scanning `s` for pieces between `/`: the non-empty pieces finished so far and
/// the piece being read.
pub open spec fn scan_pieces(s: Seq<char>) -> (Seq<Seq<char>>, Seq<char>)
    decreases s.len(),
{
    if s.len() == 0 {
        (Seq::empty(), Seq::empty())
    } else {
        let (done, cur) = scan_pieces(s.drop_last());
        if s.last() == '/' {
            (if cur.len() > 0 { done.push(cur) } else { done }, Seq::empty())
        } else {
            (done, cur.push(s.last()))
        }
    }
}

/// The non-empty pieces of `s` between `/`, in order.
pub open spec fn path_segments(s: Seq<char>) -> Seq<Seq<char>> {
    let (done, cur) = scan_pieces(s);
    if cur.len() > 0 {
        done.push(cur)
    } else {
        done
    }
}

/// The texts joined with `/`.
pub open spec fn join_slash(parts: Seq<Seq<char>>) -> Seq<char>
    decreases parts.len(),
{
    if parts.len() == 0 {
        Seq::empty()
    } else if parts.len() == 1 {
        parts[0]
    } else {
        join_slash(parts.drop_last()) + seq!['/'] + parts.last()
    }
}

/// A readable name for a service path: its non-empty pieces joined with `/`,
/// without the leading `cloud` that every path has; `(不明)` for an empty path.
pub open spec fn spec_service_label(path: Seq<char>) -> Seq<char> {
    let parts = path_segments(path);
    if parts.len() == 0 {
        "(不明)"@
    } else if parts[0] == "cloud"@ && parts.len() > 1 {
        join_slash(parts.drop_first())
    } else {
        join_slash(parts)
    }
}

/// The text up to its first `/`.
pub open spec fn first_piece(s: Seq<char>) -> Seq<char>
    decreases s.len(),
{
    if s.len() == 0 || s[0] == '/' {
        Seq::empty()
    } else {
        seq![s[0]] + first_piece(s.drop_first())
    }
}

/// The broad kind of a service path (`server`, `disk`, ...): the first piece of
/// its label.
pub open spec fn spec_category(path: Seq<char>) -> Seq<char> {
    first_piece(spec_service_label(path))
}

fn segments(s: &Vec<char>) -> (r: Vec<Vec<char>>)
    ensures
        char_views(r@) == path_segments(s@),
{
    let mut done: Vec<Vec<char>> = Vec::new();
    let mut cur: Vec<char> = Vec::new();
    let mut i: usize = 0;
    while i < s.len()
        invariant
            i <= s.len(),
            (char_views(done@), cur@) == scan_pieces(s@.subrange(0, i as int)),
        decreases s.len() - i,
    {
        assert(s@.subrange(0, i + 1).drop_last() =~= s@.subrange(0, i as int));
        let c = s[i];
        if c == '/' {
            if cur.len() > 0 {
                let ghost before = char_views(done@);
                done.push(cur);
                assert(char_views(done@) =~= before.push(cur@));
            }
            cur = Vec::new();
        } else {
            cur.push(c);
        }
        i = i + 1;
    }
    assert(s@.subrange(0, s@.len() as int) =~= s@);
    if cur.len() > 0 {
        let ghost before = char_views(done@);
        done.push(cur);
        assert(char_views(done@) =~= before.push(cur@));
    }
    done
}

fn join_parts(parts: &Vec<Vec<char>>, from: usize) -> (r: Vec<char>)
    requires
        from <= parts.len(),
    ensures
        r@ == join_slash(char_views(parts@).skip(from as int)),
{
    let ghost views = char_views(parts@).skip(from as int);
    let mut out: Vec<char> = Vec::new();
    let mut i: usize = from;
    while i < parts.len()
        invariant
            from <= i <= parts.len(),
            views == char_views(parts@).skip(from as int),
            out@ == join_slash(views.subrange(0, i - from)),
        decreases parts.len() - i,
    {
        assert(views.subrange(0, i - from + 1).drop_last() =~= views.subrange(0, i - from));
        assert(views[i - from] == parts@[i as int]@);
        if i > from {
            out.push('/');
        }
        let mut piece = parts[i].clone();
        out.append(&mut piece);
        i = i + 1;
    }
    assert(views.subrange(0, views.len() as int) =~= views);
    out
}

fn first_piece_of(s: &Vec<char>) -> (r: Vec<char>)
    ensures
        r@ == first_piece(s@),
{
    let mut out: Vec<char> = Vec::new();
    let mut i: usize = 0;
    assert(s@.skip(0) =~= s@);
    while i < s.len() && s[i] != '/'
        invariant
            i <= s.len(),
            first_piece(s@) == out@ + first_piece(s@.skip(i as int)),
        decreases s.len() - i,
    {
        let ghost rest = s@.skip(i as int);
        assert(rest[0] == s@[i as int]);
        assert(rest.drop_first() =~= s@.skip(i + 1));
        out.push(s[i]);
        assert(first_piece(rest) == seq![rest[0]] + first_piece(rest.drop_first()));
        assert(out@ + first_piece(s@.skip(i + 1)) =~= (out@.drop_last() + seq![rest[0]]) + first_piece(
            rest.drop_first(),
        ));
        i = i + 1;
    }
    assert(first_piece(s@.skip(i as int)) =~= Seq::<char>::empty());
    assert(out@ + Seq::<char>::empty() =~= out@);
    out
}

impl BillDetail {
    /// The kind of service as a readable name: the meaningful pieces of a path
    /// such as `cloud/server/plan/1core-1gb`.
    pub fn service_label(&self) -> (r: String)
        ensures
            r@ == spec_service_label(self.service_class_path@),
    {
        let path = chars_of(self.service_class_path.as_str());
        let parts = segments(&path);
        let ghost views = char_views(parts@);
        assert(views.skip(0) =~= views);
        if parts.len() == 0 {
            return string_from_chars(&chars_of("(不明)"));
        }
        let cloud = chars_of("cloud");
        if vec_eq(&parts[0], &cloud) && parts.len() > 1 {
            assert(views.skip(1) =~= views.drop_first());
            string_from_chars(&join_parts(&parts, 1))
        } else {
            string_from_chars(&join_parts(&parts, 0))
        }
    }

    /// The broad kind used for summaries (`server`, `disk`, ...).
    pub fn category(&self) -> (r: String)
        ensures
            r@ == spec_category(self.service_class_path@),
    {
        let label = self.service_label();
        string_from_chars(&first_piece_of(&chars_of(label.as_str())))
    }
}

/// The sum of the amounts of the first `n` details whose key is `k`.
pub open spec fn key_total(details: Seq<BillDetail>, keys: Seq<Seq<char>>, k: Seq<char>, n: int) -> int
    decreases n,
{
    if n <= 0 {
        0
    } else {
        key_total(details, keys, k, n - 1) + (if keys[n - 1] == k { details[n - 1].amount as int } else { 0 })
    }
}

/// How many of the first `n` details have the key `k`.
pub open spec fn key_count(keys: Seq<Seq<char>>, k: Seq<char>, n: int) -> nat
    decreases n,
{
    if n <= 0 {
        0
    } else {
        key_count(keys, k, n - 1) + (if keys[n - 1] == k { 1nat } else { 0nat })
    }
}

/// The sum of the absolute amounts of the first `n` details.
pub open spec fn abs_total(details: Seq<BillDetail>, n: int) -> int
    decreases n,
{
    if n <= 0 {
        0
    } else {
        abs_total(details, n - 1) + (if details[n - 1].amount < 0 { -details[n - 1].amount } else { details[n - 1].amount as int })
    }
}

/// Summary lines come by amount, largest first, then by key.
pub open spec fn comes_before(a: (Seq<char>, int), b: (Seq<char>, int)) -> bool {
    a.1 > b.1 || (a.1 == b.1 && text_lt(a.0, b.0))
}

/// The summary of the details under their keys: one line per key that occurs,
/// with the total amount and the number of details under it, the lines ordered
/// by amount, largest first, then by key.
pub open spec fn is_summary(lines: Seq<(Seq<char>, int, nat)>, details: Seq<BillDetail>, keys: Seq<Seq<char>>) -> bool {
    let n = details.len() as int;
    &&& forall|i: int| 0 <= i < lines.len() ==> keys.contains((#[trigger] lines[i]).0)
    &&& forall|j: int| 0 <= j < n ==> lines.map_values(|l: (Seq<char>, int, nat)| l.0).contains(#[trigger] keys[j])
    &&& forall|i: int|
        0 <= i < lines.len() ==> (#[trigger] lines[i]).1 == key_total(details, keys, lines[i].0, n) && lines[i].2
            == key_count(keys, lines[i].0, n)
    &&& forall|i: int, j: int|
        0 <= i < j < lines.len() ==> comes_before(
            ((#[trigger] lines[i]).0, lines[i].1),
            ((#[trigger] lines[j]).0, lines[j].1),
        )
}

/// The lines of a summary by their plain values.
pub open spec fn summary_lines(out: Seq<(String, i64, usize)>) -> Seq<(Seq<char>, int, nat)> {
    out.map_values(|e: (String, i64, usize)| (e.0@, e.1 as int, e.2 as nat))
}

proof fn lemma_key_total_bound(details: Seq<BillDetail>, keys: Seq<Seq<char>>, k: Seq<char>, n: int)
    ensures
        -abs_total(details, n) <= key_total(details, keys, k, n) <= abs_total(details, n),
        0 <= abs_total(details, n),
    decreases n,
{
    if n > 0 {
        lemma_key_total_bound(details, keys, k, n - 1);
    }
}

proof fn lemma_abs_total_bound(details: Seq<BillDetail>, n: int)
    ensures
        abs_total(details, n) <= (if n < 0 { 0 } else { n }) * 9223372036854775808,
    decreases n,
{
    if n > 0 {
        lemma_abs_total_bound(details, n - 1);
    }
}

proof fn lemma_key_count_bound(keys: Seq<Seq<char>>, k: Seq<char>, n: int)
    ensures
        key_count(keys, k, n) <= (if n < 0 { 0 } else { n }),
    decreases n,
{
    if n > 0 {
        lemma_key_count_bound(keys, k, n - 1);
    }
}

/// The entries of the accumulator by their plain values.
pub open spec fn entries_view(v: Seq<(String, i128, usize)>) -> Seq<(Seq<char>, int, nat)> {
    v.map_values(|e: (String, i128, usize)| (e.0@, e.1 as int, e.2 as nat))
}

/// Some of the first `n` details has the key `k`.
#[verifier::opaque]
spec fn key_seen(keys: Seq<Seq<char>>, n: int, k: Seq<char>) -> bool {
    exists|j: int| 0 <= j < n && keys[j] == k
}

/// Some entry of the accumulator has the key `k`.
#[verifier::opaque]
spec fn key_listed(acc: Seq<(Seq<char>, int, nat)>, k: Seq<char>) -> bool {
    exists|i: int| 0 <= i < acc.len() && acc[i].0 == k
}

/// The entries of the accumulator after the first `n` details.
spec fn accumulated(acc: Seq<(Seq<char>, int, nat)>, details: Seq<BillDetail>, keys: Seq<Seq<char>>, n: int) -> bool {
    &&& forall|i: int| 0 <= i < acc.len() ==> key_seen(keys, n, (#[trigger] acc[i]).0)
    &&& forall|j: int| 0 <= j < n ==> key_listed(acc, #[trigger] keys[j])
    &&& forall|i: int|
        0 <= i < acc.len() ==> (#[trigger] acc[i]).1 == key_total(details, keys, acc[i].0, n) && acc[i].2
            == key_count(keys, acc[i].0, n)
    &&& forall|i: int, j: int| 0 <= i < j < acc.len() ==> (#[trigger] acc[i]).0 != (#[trigger] acc[j]).0
}

fn find_entry(acc: &Vec<(String, i128, usize)>, key: &String) -> (r: Option<usize>)
    ensures
        r is Some ==> r->0 < acc.len() && acc@[r->0 as int].0@ == key@,
        r is None ==> forall|i: int| 0 <= i < acc.len() ==> (#[trigger] acc@[i]).0@ != key@,
{
    let mut i: usize = 0;
    while i < acc.len()
        invariant
            i <= acc.len(),
            forall|k: int| 0 <= k < i ==> (#[trigger] acc@[k]).0@ != key@,
        decreases acc.len() - i,
    {
        if str_eq(acc[i].0.as_str(), key.as_str()) {
            return Some(i);
        }
        i = i + 1;
    }
    None
}

fn accumulate(details: &[BillDetail], keys: &Vec<String>) -> (acc: Vec<(String, i128, usize)>)
    requires
        keys.len() == details.len(),
    ensures
        accumulated(entries_view(acc@), details@, texts_view(keys@), details@.len() as int),
{
    let ghost kv = texts_view(keys@);
    let ghost ds = details@;
    let mut acc: Vec<(String, i128, usize)> = Vec::new();
    let mut k: usize = 0;
    while k < details.len()
        invariant
            k <= details.len(),
            keys.len() == details.len(),
            kv == texts_view(keys@),
            ds == details@,
            accumulated(entries_view(acc@), ds, kv, k as int),
        decreases details.len() - k,
    {
        let ghost before = entries_view(acc@);
        let key = &keys[k];
        let amount = details[k].amount;
        assert(kv[k as int] == key@);
        proof {
            lemma_key_total_bound(ds, kv, key@, k + 1);
            lemma_abs_total_bound(ds, k + 1);
            lemma_key_count_bound(kv, key@, k as int);
            assert((k + 1) * 9223372036854775808 <= 18446744073709551615 * 9223372036854775808) by (nonlinear_arith)
                requires
                    0 <= k + 1 <= 18446744073709551615,
            ;
        }
        match find_entry(&acc, key) {
            Some(idx) => {
                assert(before[idx as int] == (acc@[idx as int].0@, acc@[idx as int].1 as int, acc@[idx as int].2 as nat));
                let name = acc[idx].0.clone();
                let total = acc[idx].1 + amount as i128;
                let count = acc[idx].2 + 1;
                acc.set(idx, (name, total, count));
                proof {
                    assert(entries_view(acc@) =~= before.update(idx as int, (key@, total as int, count as nat)));
                    lemma_acc_update(before, ds, kv, k as int, idx as int);
                }
            },
            None => {
                assert forall|i: int| 0 <= i < before.len() implies (#[trigger] before[i]).0 != key@ by {
                    assert(before[i].0 == acc@[i].0@);
                }
                acc.push((key.clone(), amount as i128, 1));
                proof {
                    assert(entries_view(acc@) =~= before.push((key@, amount as int, 1nat)));
                    lemma_acc_push(before, ds, kv, k as int);
                }
            },
        }
        k = k + 1;
    }
    acc
}

proof fn lemma_key_absent(details: Seq<BillDetail>, keys: Seq<Seq<char>>, k: Seq<char>, n: int)
    requires
        0 <= n <= keys.len(),
        forall|j: int| 0 <= j < n ==> keys[j] != k,
    ensures
        key_total(details, keys, k, n) == 0,
        key_count(keys, k, n) == 0,
    decreases n,
{
    if n > 0 {
        lemma_key_absent(details, keys, k, n - 1);
    }
}

proof fn lemma_acc_update(
    before: Seq<(Seq<char>, int, nat)>,
    details: Seq<BillDetail>,
    keys: Seq<Seq<char>>,
    n: int,
    idx: int,
)
    requires
        0 <= n < keys.len(),
        keys.len() == details.len(),
        0 <= idx < before.len(),
        before[idx].0 == keys[n],
        accumulated(before, details, keys, n),
    ensures
        accumulated(
            before.update(idx, (keys[n], before[idx].1 + details[n].amount, before[idx].2 + 1)),
            details,
            keys,
            n + 1,
        ),
{
    let after = before.update(idx, (keys[n], before[idx].1 + details[n].amount, before[idx].2 + 1));
    assert forall|i: int| 0 <= i < after.len() implies (#[trigger] after[i]).1 == key_total(details, keys, after[i].0, n + 1)
        && after[i].2 == key_count(keys, after[i].0, n + 1) by {
        if i != idx {
            assert(before[i].0 != before[idx].0);
        }
    }
    assert forall|i: int, j: int| 0 <= i < j < after.len() implies (#[trigger] after[i]).0 != (#[trigger] after[j]).0 by {
        assert(after[i].0 == before[i].0 && after[j].0 == before[j].0);
    }
    assert forall|i: int| 0 <= i < after.len() implies key_seen(keys, n + 1, (#[trigger] after[i]).0) by {
        assert(after[i].0 == before[i].0);
        assert(key_seen(keys, n, before[i].0));
        reveal(key_seen);
    }
    assert forall|j: int| 0 <= j < n + 1 implies key_listed(after, #[trigger] keys[j]) by {
        reveal(key_listed);
        if j < n {
            assert(key_listed(before, keys[j]));
            let i = choose|i: int| 0 <= i < before.len() && before[i].0 == keys[j];
            assert(after[i].0 == keys[j]);
        } else {
            assert(after[idx].0 == keys[j]);
        }
    }
}

proof fn lemma_acc_push(before: Seq<(Seq<char>, int, nat)>, details: Seq<BillDetail>, keys: Seq<Seq<char>>, n: int)
    requires
        0 <= n < keys.len(),
        keys.len() == details.len(),
        forall|i: int| 0 <= i < before.len() ==> (#[trigger] before[i]).0 != keys[n],
        accumulated(before, details, keys, n),
    ensures
        accumulated(before.push((keys[n], details[n].amount as int, 1nat)), details, keys, n + 1),
{
    let after = before.push((keys[n], details[n].amount as int, 1nat));
    assert forall|j: int| 0 <= j < n implies keys[j] != keys[n] by {
        assert(key_listed(before, keys[j]));
        reveal(key_listed);
        let i = choose|i: int| 0 <= i < before.len() && before[i].0 == keys[j];
        assert(before[i].0 != keys[n]);
    }
    lemma_key_absent(details, keys, keys[n], n);
    assert forall|i: int| 0 <= i < after.len() implies (#[trigger] after[i]).1 == key_total(details, keys, after[i].0, n + 1)
        && after[i].2 == key_count(keys, after[i].0, n + 1) by {
        if i < before.len() {
            assert(before[i].0 != keys[n]);
        }
    }
    assert forall|i: int, j: int| 0 <= i < j < after.len() implies (#[trigger] after[i]).0 != (#[trigger] after[j]).0 by {
        if j < before.len() {
            assert(after[i].0 == before[i].0 && after[j].0 == before[j].0);
        } else {
            assert(after[i].0 == before[i].0);
        }
    }
    assert forall|i: int| 0 <= i < after.len() implies key_seen(keys, n + 1, (#[trigger] after[i]).0) by {
        reveal(key_seen);
        if i < before.len() {
            assert(after[i].0 == before[i].0);
            assert(key_seen(keys, n, before[i].0));
            let j = choose|j: int| 0 <= j < n && keys[j] == before[i].0;
            assert(0 <= j < n + 1 && keys[j] == after[i].0);
        } else {
            assert(keys[n] == after[i].0);
        }
    }
    assert forall|j: int| 0 <= j < n + 1 implies key_listed(after, #[trigger] keys[j]) by {
        reveal(key_listed);
        if j < n {
            assert(key_listed(before, keys[j]));
            let i = choose|i: int| 0 <= i < before.len() && before[i].0 == keys[j];
            assert(after[i].0 == keys[j]);
        } else {
            assert(after[before.len() as int].0 == keys[j]);
        }
    }
}

spec fn entry_before(a: (Seq<char>, int, nat), b: (Seq<char>, int, nat)) -> bool {
    comes_before((a.0, a.1), (b.0, b.1))
}

proof fn lemma_entry_order(a: (Seq<char>, int, nat), b: (Seq<char>, int, nat), c: (Seq<char>, int, nat))
    ensures
        !entry_before(a, a),
        entry_before(a, b) && entry_before(b, c) ==> entry_before(a, c),
        a.0 != b.0 ==> entry_before(a, b) || entry_before(b, a),
{
    lemma_text_lt_irreflexive(a.0);
    if text_lt(a.0, b.0) && text_lt(b.0, c.0) {
        lemma_text_lt_transitive(a.0, b.0, c.0);
    }
    if a.0 != b.0 {
        lemma_text_lt_total(a.0, b.0);
    }
}

fn entry_less(a: &(String, i128, usize), b: &(String, i128, usize)) -> (r: bool)
    ensures
        r == entry_before((a.0@, a.1 as int, a.2 as nat), (b.0@, b.1 as int, b.2 as nat)),
{
    a.1 > b.1 || (a.1 == b.1 && text_less(a.0.as_str(), b.0.as_str()))
}

proof fn lemma_same_elements<A>(a: Seq<A>, b: Seq<A>, x: A)
    requires
        a.to_multiset() == b.to_multiset(),
    ensures
        a.contains(x) <==> b.contains(x),
{
    vstd::seq_lib::to_multiset_contains(a, x);
    vstd::seq_lib::to_multiset_contains(b, x);
}

fn sort_entries(acc: &Vec<(String, i128, usize)>) -> (out: Vec<(String, i128, usize)>)
    requires
        forall|i: int, j: int|
            0 <= i < j < acc.len() ==> (#[trigger] entries_view(acc@)[i]).0 != (#[trigger] entries_view(acc@)[j]).0,
    ensures
        entries_view(out@).to_multiset() == entries_view(acc@).to_multiset(),
        forall|i: int, j: int|
            0 <= i < j < out.len() ==> entry_before(
                #[trigger] entries_view(out@)[i],
                #[trigger] entries_view(out@)[j],
            ),
{
    broadcast use vstd::seq_lib::to_multiset_build, vstd::seq_lib::to_multiset_insert;

    let ghost av = entries_view(acc@);
    let mut sorted: Vec<(String, i128, usize)> = Vec::new();
    let mut k: usize = 0;
    assert(entries_view(sorted@) =~= av.subrange(0, 0));
    while k < acc.len()
        invariant
            k <= acc.len(),
            av == entries_view(acc@),
            forall|i: int, j: int| 0 <= i < j < av.len() ==> (#[trigger] av[i]).0 != (#[trigger] av[j]).0,
            entries_view(sorted@).to_multiset() == av.subrange(0, k as int).to_multiset(),
            forall|i: int, j: int|
                0 <= i < j < sorted.len() ==> entry_before(
                    #[trigger] entries_view(sorted@)[i],
                    #[trigger] entries_view(sorted@)[j],
                ),
        decreases acc.len() - k,
    {
        let x = (acc[k].0.clone(), acc[k].1, acc[k].2);
        let ghost xv = (x.0@, x.1 as int, x.2 as nat);
        assert(xv == av[k as int]);
        let ghost sv = entries_view(sorted@);
        let mut j: usize = 0;
        while j < sorted.len() && !entry_less(&x, &sorted[j])
            invariant
                j <= sorted.len(),
                sv == entries_view(sorted@),
                xv == (x.0@, x.1 as int, x.2 as nat),
                forall|i: int| 0 <= i < j ==> !entry_before(xv, #[trigger] sv[i]),
            decreases sorted.len() - j,
        {
            assert(sv[j as int] == (sorted@[j as int].0@, sorted@[j as int].1 as int, sorted@[j as int].2 as nat));
            j = j + 1;
        }
        proof {
            if j < sorted.len() {
                assert(sv[j as int] == (sorted@[j as int].0@, sorted@[j as int].1 as int, sorted@[j as int].2 as nat));
            }
            assert forall|i: int| 0 <= i < sv.len() implies (#[trigger] sv[i]).0 != xv.0 by {
                lemma_same_elements(sv, av.subrange(0, k as int), sv[i]);
                assert(sv.contains(sv[i]));
                let m = choose|m: int| 0 <= m < k && av.subrange(0, k as int)[m] == sv[i];
                assert(av[m] == sv[i]);
            }
        }
        sorted.insert(j, x);
        proof {
            let t = entries_view(sorted@);
            assert(t =~= sv.insert(j as int, xv));
            assert(av.subrange(0, k + 1) =~= av.subrange(0, k as int).push(xv));
            vstd::seq_lib::to_multiset_insert(sv, j as int, xv);
            vstd::seq_lib::to_multiset_build(av.subrange(0, k as int), xv);
            assert forall|i: int, m: int| 0 <= i < m < t.len() implies entry_before(#[trigger] t[i], #[trigger] t[m]) by {
                let p = j as int;
                if m < p {
                    assert(t[i] == sv[i] && t[m] == sv[m]);
                } else if m == p {
                    assert(t[i] == sv[i]);
                    lemma_entry_order(sv[i], xv, xv);
                } else if i < p {
                    assert(t[m] == sv[m - 1] && t[i] == sv[i]);
                } else if i == p {
                    assert(t[m] == sv[m - 1]);
                    lemma_entry_order(xv, sv[p], sv[m - 1]);
                } else {
                    assert(t[m] == sv[m - 1] && t[i] == sv[i - 1]);
                }
            }
        }
        k = k + 1;
    }
    assert(av.subrange(0, av.len() as int) =~= av);
    sorted
}

proof fn lemma_summary(
    acc: Seq<(Seq<char>, int, nat)>,
    sorted: Seq<(Seq<char>, int, nat)>,
    details: Seq<BillDetail>,
    keys: Seq<Seq<char>>,
)
    requires
        keys.len() == details.len(),
        accumulated(acc, details, keys, details.len() as int),
        sorted.to_multiset() == acc.to_multiset(),
        forall|i: int, j: int| 0 <= i < j < sorted.len() ==> entry_before(#[trigger] sorted[i], #[trigger] sorted[j]),
    ensures
        is_summary(sorted, details, keys),
{
    let n = details.len() as int;
    assert forall|i: int| 0 <= i < sorted.len() implies keys.contains((#[trigger] sorted[i]).0) && sorted[i].1
        == key_total(details, keys, sorted[i].0, n) && sorted[i].2 == key_count(keys, sorted[i].0, n) by {
        assert(sorted.contains(sorted[i]));
        lemma_same_elements(sorted, acc, sorted[i]);
        let m = choose|m: int| 0 <= m < acc.len() && acc[m] == sorted[i];
        assert(key_seen(keys, n, acc[m].0));
        reveal(key_seen);
        let j = choose|j: int| 0 <= j < n && keys[j] == acc[m].0;
        assert(keys[j] == sorted[i].0);
    }
    let names = sorted.map_values(|l: (Seq<char>, int, nat)| l.0);
    assert forall|j: int| 0 <= j < n implies names.contains(#[trigger] keys[j]) by {
        assert(key_listed(acc, keys[j]));
        reveal(key_listed);
        let m = choose|m: int| 0 <= m < acc.len() && acc[m].0 == keys[j];
        assert(acc.contains(acc[m]));
        lemma_same_elements(sorted, acc, acc[m]);
        let i = choose|i: int| 0 <= i < sorted.len() && sorted[i] == acc[m];
        assert(names[i] == keys[j]);
    }
}

/// Summarises the details under the given keys, one key per detail: one line
/// per key with its total amount and number of details, largest amount first,
/// then by key.
pub fn summarize_keyed(details: &[BillDetail], keys: &Vec<String>) -> (out: Vec<(String, i64, usize)>)
    requires
        keys.len() == details.len(),
        forall|j: int|
            0 <= j < details.len() ==> i64::MIN <= #[trigger] key_total(
                details@,
                texts_view(keys@),
                keys@[j]@,
                details.len() as int,
            ) <= i64::MAX,
    ensures
        is_summary(summary_lines(out@), details@, texts_view(keys@)),
{
    let ghost kv = texts_view(keys@);
    let acc = accumulate(details, keys);
    let sorted = sort_entries(&acc);
    let ghost sv = entries_view(sorted@);
    proof {
        lemma_summary(entries_view(acc@), sv, details@, kv);
    }
    let mut out: Vec<(String, i64, usize)> = Vec::new();
    let mut i: usize = 0;
    while i < sorted.len()
        invariant
            i <= sorted.len(),
            sv == entries_view(sorted@),
            kv == texts_view(keys@),
            keys.len() == details.len(),
            is_summary(sv, details@, kv),
            forall|j: int|
                0 <= j < details.len() ==> i64::MIN <= #[trigger] key_total(
                    details@,
                    kv,
                    keys@[j]@,
                    details.len() as int,
                ) <= i64::MAX,
            summary_lines(out@) == sv.subrange(0, i as int),
        decreases sorted.len() - i,
    {
        assert(sv[i as int] == (sorted@[i as int].0@, sorted@[i as int].1 as int, sorted@[i as int].2 as nat));
        assert(kv.contains(sv[i as int].0));
        let ghost j = choose|j: int| 0 <= j < kv.len() && kv[j] == sv[i as int].0;
        assert(kv[j] == keys@[j]@);
        let ghost before = summary_lines(out@);
        out.push((sorted[i].0.clone(), sorted[i].1 as i64, sorted[i].2));
        assert(summary_lines(out@) =~= before.push(sv[i as int]));
        assert(sv.subrange(0, i + 1) =~= sv.subrange(0, i as int).push(sv[i as int]));
        i = i + 1;
    }
    assert(sv.subrange(0, sv.len() as int) =~= sv);
    out
}

/// Summarises the details by the key that `key` gives each: one line per key
/// with its total amount and number of details, largest amount first, then by
/// key. Every total must fit an `i64`, whatever keys `key` may give.
pub fn summarize<F: Fn(&BillDetail) -> String>(details: &[BillDetail], key: F) -> (out: Vec<(String, i64, usize)>)
    requires
        forall|d: &BillDetail| #[trigger] key.requires((d,)),
        forall|ks: Seq<String>|
            #![trigger texts_view(ks)]
            ks.len() == details.len() && (forall|i: int|
                0 <= i < details.len() ==> key.ensures((&details@[i],), #[trigger] ks[i])) ==> forall|j: int|
                0 <= j < details.len() ==> i64::MIN <= #[trigger] key_total(
                    details@,
                    texts_view(ks),
                    ks[j]@,
                    details.len() as int,
                ) <= i64::MAX,
    ensures
        exists|keys: Seq<String>|
            keys.len() == details.len() && (forall|i: int|
                0 <= i < details.len() ==> key.ensures((&details@[i],), #[trigger] keys[i])) && is_summary(
                summary_lines(out@),
                details@,
                texts_view(keys),
            ),
{
    let mut keys: Vec<String> = Vec::new();
    let mut i: usize = 0;
    while i < details.len()
        invariant
            i <= details.len(),
            keys.len() == i,
            forall|d: &BillDetail| #[trigger] key.requires((d,)),
            forall|m: int| 0 <= m < i ==> key.ensures((&details@[m],), #[trigger] keys@[m]),
        decreases details.len() - i,
    {
        let k = key(&details[i]);
        keys.push(k);
        i = i + 1;
    }
    proof {
        let ks = keys@;
        assert(texts_view(ks) == texts_view(keys@));
    }
    summarize_keyed(details, &keys)
}

/// The display text of an identifier given as a string or as a number; empty
/// for anything else, `null` and absence included.
pub open spec fn spec_id_field(f: Option<JsonValue>) -> Seq<char> {
    match f {
        Some(JsonValue::Str(s)) => s@,
        Some(JsonValue::Number(n)) => number_text(n),
        _ => Seq::empty(),
    }
}

/// Reads an identifier field that may be a string or a number.
fn id_field(rec: &JsonValue, key: &str, pos: usize) -> (r: String)
    ensures
        r@ == spec_id_field(spec_member(*rec, key@, pos as int)),
{
    match member(rec, key, pos) {
        Some(JsonValue::Str(s)) => s.clone(),
        Some(JsonValue::Number(n)) => string_from_chars(&number_to_string(n)),
        _ => String::new(),
    }
}

/// An optional text by its view.
pub open spec fn opt_text(o: Option<String>) -> Option<Seq<char>> {
    match o {
        Some(s) => Some(s@),
        None => None,
    }
}

/// The account record of `auth-status` decodes.
pub open spec fn account_ok(a: JsonValue) -> bool {
    record_shape(a, 2) && spec_text_field(spec_member(a, "Name"@, 1)) is Some
}

/// The member record of `auth-status` decodes.
pub open spec fn member_ok(m: JsonValue) -> bool {
    record_shape(m, 1) && spec_text_field(spec_member(m, "Code"@, 0)) is Some
}

/// The `auth-status` response decodes; account and member may still be missing.
pub open spec fn auth_status_ok(v: JsonValue) -> bool {
    &&& record_shape(v, 2)
    &&& !missing_in_array(v, 0)
    &&& !missing_in_array(v, 1)
    &&& (present(spec_member(v, "Account"@, 0)) matches Some(a) ==> account_ok(a))
    &&& (present(spec_member(v, "Member"@, 1)) matches Some(m) ==> member_ok(m))
}

/// Why no billing identity could be read from `auth-status`.
#[derive(Debug, Clone, Copy, PartialEq, Eq, Structural)]
pub enum IdentityError {
    /// The response is not shaped as expected.
    Malformed,
    /// The response has no account.
    NoAccount,
    /// The response has no member.
    NoMember,
}

impl IdentityError {
    /// The message shown for a missing part; `None` for a malformed response.
    pub fn message(&self) -> (r: Option<String>)
        ensures
            (r is Some) == (*self != IdentityError::Malformed),
            *self == IdentityError::NoAccount ==> r->0@ == "アカウント情報が含まれていません"@,
            *self == IdentityError::NoMember ==> r->0@ == "会員情報が含まれていません"@,
    {
        match self {
            IdentityError::Malformed => None,
            IdentityError::NoAccount => Some(string_from_chars(&chars_of("アカウント情報が含まれていません"))),
            IdentityError::NoMember => Some(string_from_chars(&chars_of("会員情報が含まれていません"))),
        }
    }
}

/// The identifiers needed for the bills, from the `auth-status` response.
pub fn identity_from_auth_status(v: &JsonValue) -> (r: Result<BillingIdentity, IdentityError>)
    ensures
        r matches Err(IdentityError::Malformed) <==> !auth_status_ok(*v),
        r matches Err(IdentityError::NoAccount) <==> auth_status_ok(*v) && present(spec_member(*v, "Account"@, 0)) is None,
        r matches Err(IdentityError::NoMember) <==> auth_status_ok(*v) && present(spec_member(*v, "Account"@, 0)) is Some
            && present(spec_member(*v, "Member"@, 1)) is None,
        r is Ok ==> ({
            let a = present(spec_member(*v, "Account"@, 0))->0;
            let m = present(spec_member(*v, "Member"@, 1))->0;
            &&& r->Ok_0.account_id@ == spec_id_field(spec_member(a, "ID"@, 0))
            &&& r->Ok_0.account_name@ == spec_text_field(spec_member(a, "Name"@, 1))->0
            &&& r->Ok_0.member_code@ == spec_text_field(spec_member(m, "Code"@, 0))->0
        }),
{
    if !is_record(v, 2) || is_missing_in_array(v, 0) || is_missing_in_array(v, 1) {
        return Err(IdentityError::Malformed);
    }
    let account = present_member(v, "Account", 0);
    let mut account_fields: Option<(String, String)> = None;
    match account {
        Some(a) => {
            if !is_record(a, 2) {
                return Err(IdentityError::Malformed);
            }
            match text_field(a, "Name", 1) {
                Some(name) => {
                    account_fields = Some((id_field(a, "ID", 0), name));
                },
                None => return Err(IdentityError::Malformed),
            }
        },
        None => {},
    }
    let member = present_member(v, "Member", 1);
    let mut code: Option<String> = None;
    match member {
        Some(m) => {
            if !is_record(m, 1) {
                return Err(IdentityError::Malformed);
            }
            match text_field(m, "Code", 0) {
                Some(c) => {
                    code = Some(c);
                },
                None => return Err(IdentityError::Malformed),
            }
        },
        None => {},
    }
    match account_fields {
        None => Err(IdentityError::NoAccount),
        Some((account_id, account_name)) => match code {
            None => Err(IdentityError::NoMember),
            Some(member_code) => Ok(BillingIdentity { account_id, member_code, account_name }),
        },
    }
}

/// One bill record decodes.
pub open spec fn decode_bill_ok(rec: JsonValue) -> bool {
    &&& record_shape(rec, 5)
    &&& spec_flexible_field(spec_member(rec, "Amount"@, 1), i64::MIN as int, i64::MAX as int) is Some
    &&& !missing_in_array(rec, 2)
    &&& spec_opt_text_field(spec_member(rec, "Date"@, 2)) is Some
    &&& spec_bool_field(spec_member(rec, "Paid"@, 3)) is Some
    &&& !missing_in_array(rec, 4)
    &&& spec_opt_text_field(spec_member(rec, "PayLimit"@, 4)) is Some
}

/// The bill read from a record.
pub open spec fn bill_fields(b: Bill, rec: JsonValue) -> bool {
    &&& b.id@ == spec_id_field(spec_member(rec, "BillID"@, 0))
    &&& b.amount as int == spec_flexible_field(spec_member(rec, "Amount"@, 1), i64::MIN as int, i64::MAX as int)->0
    &&& opt_text(b.date) == spec_opt_text_field(spec_member(rec, "Date"@, 2))->0
    &&& b.paid == spec_bool_field(spec_member(rec, "Paid"@, 3))->0
    &&& opt_text(b.pay_limit) == spec_opt_text_field(spec_member(rec, "PayLimit"@, 4))->0
}

fn opt_text_of(o: Option<Option<String>>) -> (r: Option<String>)
    requires
        o is Some,
    ensures
        opt_text(r) == (match o->0 {
            Some(s) => Some(s@),
            None => None,
        }),
{
    match o {
        Some(Some(s)) => Some(s),
        _ => None,
    }
}

fn decode_bill(rec: &JsonValue) -> (r: Option<Bill>)
    ensures
        r is Some <==> decode_bill_ok(*rec),
        r is Some ==> bill_fields(r->0, *rec),
{
    if !is_record(rec, 5) {
        return None;
    }
    let id = id_field(rec, "BillID", 0);
    let amount = match flexible_field(rec, "Amount", 1, i64::MIN, i64::MAX as u64) {
        Some(x) => x as i64,
        None => return None,
    };
    if is_missing_in_array(rec, 2) {
        return None;
    }
    let date = opt_text_field(rec, "Date", 2);
    if date.is_none() {
        return None;
    }
    let paid = match bool_field(rec, "Paid", 3) {
        Some(x) => x,
        None => return None,
    };
    if is_missing_in_array(rec, 4) {
        return None;
    }
    let pay_limit = opt_text_field(rec, "PayLimit", 4);
    if pay_limit.is_none() {
        return None;
    }
    Some(Bill { id, amount, date: opt_text_of(date), paid, pay_limit: opt_text_of(pay_limit) })
}

/// `a` is dated later than `b`; a bill without a date comes after every dated one.
pub open spec fn bill_newer(a: Bill, b: Bill) -> bool {
    match a.date {
        Some(x) => match b.date {
            Some(y) => text_lt(y@, x@),
            None => true,
        },
        None => false,
    }
}

/// Bills from the newest, undated ones last.
pub open spec fn newest_first() -> spec_fn(Bill, Bill) -> bool {
    |a: Bill, b: Bill| bill_newer(a, b)
}

/// Newest first is a strict order.
pub proof fn lemma_newest_first_order()
    ensures
        strict_order(newest_first()),
{
    assert forall|a: Bill| !#[trigger] newest_first()(a, a) by {
        if let Some(x) = a.date {
            lemma_text_lt_irreflexive(x@);
        }
    }
    assert forall|a: Bill, b: Bill, c: Bill| #[trigger] newest_first()(a, b) && #[trigger] newest_first()(b, c)
        implies newest_first()(a, c) by {
        if let (Some(x), Some(y), Some(z)) = (a.date, b.date, c.date) {
            lemma_text_lt_transitive(z@, y@, x@);
        }
    }
}

fn newer(a: &Bill, b: &Bill) -> (r: bool)
    ensures
        r == bill_newer(*a, *b),
{
    match &a.date {
        Some(x) => match &b.date {
            Some(y) => text_less(y.as_str(), x.as_str()),
            None => true,
        },
        None => false,
    }
}

/// The bills ordered newest first (stably); bills without a date come last.
pub fn sort_newest_first(bills: Vec<Bill>) -> (r: Vec<Bill>)
    ensures
        r@ == stable_sort(bills@, newest_first()),
{
    let ghost orig = bills@;
    let n = bills.len();
    let mut rest = bills;
    let mut sorted: Vec<Bill> = Vec::new();
    let mut k: usize = 0;
    while rest.len() > 0
        invariant
            k <= orig.len(),
            orig.len() == n,
            rest@ == orig.skip(k as int),
            sorted@ == stable_sort(orig.subrange(0, k as int), newest_first()),
        decreases rest.len(),
    {
        assert(orig.skip(k as int).len() == orig.len() - k);
        let x = rest.remove(0);
        assert(x == orig[k as int]);
        let ghost sv = sorted@;
        let mut j: usize = 0;
        while j < sorted.len() && !newer(&x, &sorted[j])
            invariant
                j <= sorted.len(),
                sv == sorted@,
                insertion_point(sv, x, newest_first(), 0) == insertion_point(
                    sv,
                    x,
                    newest_first(),
                    j as int,
                ),
            decreases sorted.len() - j,
        {
            j = j + 1;
        }
        assert(orig.subrange(0, k + 1).drop_last() =~= orig.subrange(0, k as int));
        sorted.insert(j, x);
        assert(rest@ =~= orig.skip(k + 1));
        k = k + 1;
    }
    assert(orig.subrange(0, orig.len() as int) =~= orig);
    sorted
}

/// The `Bills` response decodes: a record whose `Bills` list (absent or `null`
/// meaning none) holds bill records only.
pub open spec fn bills_response_ok(v: JsonValue) -> bool {
    &&& record_shape(v, 1)
    &&& spec_list_field(spec_member(v, "Bills"@, 0)) is Some
    &&& forall|i: int|
        0 <= i < spec_list_field(spec_member(v, "Bills"@, 0))->0.len() ==> decode_bill_ok(
            #[trigger] spec_list_field(spec_member(v, "Bills"@, 0))->0[i],
        )
}

/// The bills of a year from the response, newest first.
pub fn bills_from_response(v: &JsonValue) -> (r: Option<Vec<Bill>>)
    ensures
        r is Some <==> bills_response_ok(*v),
        r is Some ==> exists|raw: Seq<Bill>|
            #![trigger stable_sort(raw, newest_first())]
            {
                let items = spec_list_field(spec_member(*v, "Bills"@, 0))->0;
                &&& raw.len() == items.len()
                &&& forall|i: int| 0 <= i < raw.len() ==> bill_fields(#[trigger] raw[i], items[i])
                &&& r->0@ == stable_sort(raw, newest_first())
            },
{
    if !is_record(v, 1) {
        return None;
    }
    let ghost items = spec_list_field(spec_member(*v, "Bills"@, 0))->0;
    let mut raw: Vec<Bill> = Vec::new();
    match list_field(v, "Bills", 0) {
        None => return None,
        Some(None) => {},
        Some(Some(list)) => {
            let mut i: usize = 0;
            while i < list.len()
                invariant
                    i <= list.len(),
                    list@ == items,
                    items == spec_list_field(spec_member(*v, "Bills"@, 0))->0,
                    raw.len() == i,
                    forall|m: int| 0 <= m < i ==> decode_bill_ok(#[trigger] items[m]),
                    forall|m: int| 0 <= m < i ==> bill_fields(#[trigger] raw@[m], items[m]),
                decreases list.len() - i,
            {
                match decode_bill(&list[i]) {
                    Some(b) => raw.push(b),
                    None => {
                        assert(!decode_bill_ok(items[i as int]));
                        return None;
                    },
                }
                i = i + 1;
            }
        },
    }
    Some(sort_newest_first(raw))
}

/// One bill detail record decodes.
pub open spec fn decode_detail_ok(rec: JsonValue) -> bool {
    &&& record_shape(rec, 6)
    &&& spec_text_field(spec_member(rec, "Description"@, 0)) is Some
    &&& spec_flexible_field(spec_member(rec, "Amount"@, 1), i64::MIN as int, i64::MAX as int) is Some
    &&& spec_text_field(spec_member(rec, "Zone"@, 2)) is Some
    &&& spec_text_field(spec_member(rec, "ServiceClassPath"@, 3)) is Some
    &&& spec_text_field(spec_member(rec, "FormattedUsage"@, 4)) is Some
    &&& !missing_in_array(rec, 5)
    &&& spec_opt_text_field(spec_member(rec, "ContractEndAt"@, 5)) is Some
}

/// The detail read from a record.
pub open spec fn detail_fields(d: BillDetail, rec: JsonValue) -> bool {
    &&& d.description@ == spec_text_field(spec_member(rec, "Description"@, 0))->0
    &&& d.amount as int == spec_flexible_field(spec_member(rec, "Amount"@, 1), i64::MIN as int, i64::MAX as int)->0
    &&& d.zone@ == spec_text_field(spec_member(rec, "Zone"@, 2))->0
    &&& d.service_class_path@ == spec_text_field(spec_member(rec, "ServiceClassPath"@, 3))->0
    &&& d.usage@ == spec_text_field(spec_member(rec, "FormattedUsage"@, 4))->0
    &&& opt_text(d.contract_end_at) == spec_opt_text_field(spec_member(rec, "ContractEndAt"@, 5))->0
}

fn decode_detail(rec: &JsonValue) -> (r: Option<BillDetail>)
    ensures
        r is Some <==> decode_detail_ok(*rec),
        r is Some ==> detail_fields(r->0, *rec),
{
    if !is_record(rec, 6) {
        return None;
    }
    let description = match text_field(rec, "Description", 0) {
        Some(x) => x,
        None => return None,
    };
    let amount = match flexible_field(rec, "Amount", 1, i64::MIN, i64::MAX as u64) {
        Some(x) => x as i64,
        None => return None,
    };
    let zone = match text_field(rec, "Zone", 2) {
        Some(x) => x,
        None => return None,
    };
    let service_class_path = match text_field(rec, "ServiceClassPath", 3) {
        Some(x) => x,
        None => return None,
    };
    let usage = match text_field(rec, "FormattedUsage", 4) {
        Some(x) => x,
        None => return None,
    };
    if is_missing_in_array(rec, 5) {
        return None;
    }
    let end = opt_text_field(rec, "ContractEndAt", 5);
    if end.is_none() {
        return None;
    }
    Some(BillDetail { description, amount, zone, service_class_path, usage, contract_end_at: opt_text_of(end) })
}

/// Details by amount, largest first.
pub open spec fn largest_first() -> spec_fn(BillDetail, BillDetail) -> bool {
    |a: BillDetail, b: BillDetail| a.amount > b.amount
}

/// Largest first is a strict order.
pub proof fn lemma_largest_first_order()
    ensures
        strict_order(largest_first()),
{
}

/// The details ordered by amount, largest first (stably).
pub fn sort_largest_first(details: Vec<BillDetail>) -> (r: Vec<BillDetail>)
    ensures
        r@ == stable_sort(details@, largest_first()),
{
    let ghost orig = details@;
    let n = details.len();
    let mut rest = details;
    let mut sorted: Vec<BillDetail> = Vec::new();
    let mut k: usize = 0;
    while rest.len() > 0
        invariant
            k <= orig.len(),
            orig.len() == n,
            rest@ == orig.skip(k as int),
            sorted@ == stable_sort(orig.subrange(0, k as int), largest_first()),
        decreases rest.len(),
    {
        assert(orig.skip(k as int).len() == orig.len() - k);
        let x = rest.remove(0);
        assert(x == orig[k as int]);
        let ghost sv = sorted@;
        let mut j: usize = 0;
        while j < sorted.len() && !(x.amount > sorted[j].amount)
            invariant
                j <= sorted.len(),
                sv == sorted@,
                insertion_point(sv, x, largest_first(), 0) == insertion_point(sv, x, largest_first(), j as int),
            decreases sorted.len() - j,
        {
            j = j + 1;
        }
        assert(orig.subrange(0, k + 1).drop_last() =~= orig.subrange(0, k as int));
        sorted.insert(j, x);
        assert(rest@ =~= orig.skip(k + 1));
        k = k + 1;
    }
    assert(orig.subrange(0, orig.len() as int) =~= orig);
    sorted
}

/// The `BillDetails` response decodes.
pub open spec fn details_response_ok(v: JsonValue) -> bool {
    &&& record_shape(v, 1)
    &&& spec_list_field(spec_member(v, "BillDetails"@, 0)) is Some
    &&& forall|i: int|
        0 <= i < spec_list_field(spec_member(v, "BillDetails"@, 0))->0.len() ==> decode_detail_ok(
            #[trigger] spec_list_field(spec_member(v, "BillDetails"@, 0))->0[i],
        )
}

/// The details of a bill from the response, largest amount first.
pub fn details_from_response(v: &JsonValue) -> (r: Option<Vec<BillDetail>>)
    ensures
        r is Some <==> details_response_ok(*v),
        r is Some ==> exists|raw: Seq<BillDetail>|
            #![trigger stable_sort(raw, largest_first())]
            {
                let items = spec_list_field(spec_member(*v, "BillDetails"@, 0))->0;
                &&& raw.len() == items.len()
                &&& forall|i: int| 0 <= i < raw.len() ==> detail_fields(#[trigger] raw[i], items[i])
                &&& r->0@ == stable_sort(raw, largest_first())
            },
{
    if !is_record(v, 1) {
        return None;
    }
    let ghost items = spec_list_field(spec_member(*v, "BillDetails"@, 0))->0;
    let mut raw: Vec<BillDetail> = Vec::new();
    match list_field(v, "BillDetails", 0) {
        None => return None,
        Some(None) => {},
        Some(Some(list)) => {
            let mut i: usize = 0;
            while i < list.len()
                invariant
                    i <= list.len(),
                    list@ == items,
                    items == spec_list_field(spec_member(*v, "BillDetails"@, 0))->0,
                    raw.len() == i,
                    forall|m: int| 0 <= m < i ==> decode_detail_ok(#[trigger] items[m]),
                    forall|m: int| 0 <= m < i ==> detail_fields(#[trigger] raw@[m], items[m]),
                decreases list.len() - i,
            {
                match decode_detail(&list[i]) {
                    Some(d) => raw.push(d),
                    None => {
                        assert(!decode_detail_ok(items[i as int]));
                        return None;
                    },
                }
                i = i + 1;
            }
        },
    }
    Some(sort_largest_first(raw))
}

/// Newest first is a strict weak order: bills with the same date, and bills
/// without one, are tied.
pub proof fn lemma_newest_first_weak()
    ensures
        strict_weak_order(newest_first()),
{
    lemma_newest_first_order();
    assert forall|a: Bill, b: Bill, c: Bill| #[trigger] newest_first()(a, b) implies newest_first()(a, c)
        || #[trigger] newest_first()(c, b) by {
        if let (Some(x), Some(z)) = (a.date, c.date) {
            if !text_lt(z@, x@) && z@ != x@ {
                lemma_text_lt_total(z@, x@);
            }
            if let Some(y) = b.date {
                if z@ == x@ {
                    assert(text_lt(y@, z@));
                } else if text_lt(x@, z@) {
                    lemma_text_lt_transitive(y@, x@, z@);
                }
            }
        }
    }
}

/// Bills come newest first; ordering them neither drops nor repeats one, and
/// bills of the same date keep the order the API gave them in.
pub proof fn law_bills_newest_first(raw: Seq<Bill>, x: Bill)
    ensures
        sorted_by(stable_sort(raw, newest_first()), newest_first()),
        stable_sort(raw, newest_first()).to_multiset() == raw.to_multiset(),
        stable_sort(raw, newest_first()).filter(|y: Bill| tied(newest_first(), x, y)) == raw.filter(
            |y: Bill| tied(newest_first(), x, y),
        ),
{
    lemma_newest_first_weak();
    lemma_stable_sort(raw, newest_first());
    lemma_stable_sort_keeps_ties(raw, newest_first(), x);
}

/// Details come largest first; ordering them neither drops nor repeats one, and
/// details of the same amount keep the order the API gave them in.
pub proof fn law_details_largest_first(raw: Seq<BillDetail>, x: BillDetail)
    ensures
        sorted_by(stable_sort(raw, largest_first()), largest_first()),
        stable_sort(raw, largest_first()).to_multiset() == raw.to_multiset(),
        stable_sort(raw, largest_first()).filter(|y: BillDetail| tied(largest_first(), x, y)) == raw.filter(
            |y: BillDetail| tied(largest_first(), x, y),
        ),
{
    lemma_largest_first_order();
    assert(strict_weak_order(largest_first()));
    lemma_stable_sort(raw, largest_first());
    lemma_stable_sort_keeps_ties(raw, largest_first(), x);
}

/// No key has two lines in a summary.
pub proof fn law_summary_keys_unique(lines: Seq<(Seq<char>, int, nat)>, details: Seq<BillDetail>, keys: Seq<Seq<char>>)
    requires
        is_summary(lines, details, keys),
    ensures
        forall|i: int, j: int| 0 <= i < j < lines.len() ==> (#[trigger] lines[i]).0 != (#[trigger] lines[j]).0,
{
    assert forall|i: int, j: int| 0 <= i < j < lines.len() implies (#[trigger] lines[i]).0 != (#[trigger] lines[j]).0 by {
        if lines[i].0 == lines[j].0 {
            lemma_text_lt_irreflexive(lines[i].0);
            assert(comes_before((lines[i].0, lines[i].1), (lines[j].0, lines[j].1)));
        }
    }
}

/// The sum of the amounts of the first `n` details.
pub open spec fn amount_total(details: Seq<BillDetail>, n: int) -> int
    decreases n,
{
    if n <= 0 {
        0
    } else {
        amount_total(details, n - 1) + details[n - 1].amount
    }
}

/// The sum of the counts of summary lines.
pub open spec fn lines_count(lines: Seq<(Seq<char>, int, nat)>) -> int
    decreases lines.len(),
{
    if lines.len() == 0 {
        0
    } else {
        lines_count(lines.drop_last()) + lines.last().2
    }
}

/// The sum of the amounts of summary lines.
pub open spec fn lines_amount(lines: Seq<(Seq<char>, int, nat)>) -> int
    decreases lines.len(),
{
    if lines.len() == 0 {
        0
    } else {
        lines_amount(lines.drop_last()) + lines.last().1
    }
}

spec fn occurrences(names: Seq<Seq<char>>, x: Seq<char>) -> int
    decreases names.len(),
{
    if names.len() == 0 {
        0
    } else {
        occurrences(names.drop_last(), x) + (if names.last() == x { 1int } else { 0int })
    }
}

spec fn count_sum(names: Seq<Seq<char>>, keys: Seq<Seq<char>>, m: int) -> int
    decreases names.len(),
{
    if names.len() == 0 {
        0
    } else {
        count_sum(names.drop_last(), keys, m) + key_count(keys, names.last(), m)
    }
}

spec fn total_sum(names: Seq<Seq<char>>, details: Seq<BillDetail>, keys: Seq<Seq<char>>, m: int) -> int
    decreases names.len(),
{
    if names.len() == 0 {
        0
    } else {
        total_sum(names.drop_last(), details, keys, m) + key_total(details, keys, names.last(), m)
    }
}

proof fn lemma_sums_step(names: Seq<Seq<char>>, details: Seq<BillDetail>, keys: Seq<Seq<char>>, m: int)
    requires
        m >= 1,
    ensures
        count_sum(names, keys, m) == count_sum(names, keys, m - 1) + occurrences(names, keys[m - 1]),
        total_sum(names, details, keys, m) == total_sum(names, details, keys, m - 1) + occurrences(names, keys[m - 1])
            * details[m - 1].amount,
    decreases names.len(),
{
    if names.len() > 0 {
        lemma_sums_step(names.drop_last(), details, keys, m);
        let o = occurrences(names.drop_last(), keys[m - 1]);
        let a = details[m - 1].amount as int;
        assert((o + 1) * a == o * a + a) by (nonlinear_arith);
    }
}

proof fn lemma_occurrences(names: Seq<Seq<char>>, x: Seq<char>)
    requires
        forall|i: int, j: int| 0 <= i < j < names.len() ==> names[i] != names[j],
    ensures
        names.contains(x) ==> occurrences(names, x) == 1,
        !names.contains(x) ==> occurrences(names, x) == 0,
    decreases names.len(),
{
    if names.len() > 0 {
        let init = names.drop_last();
        lemma_occurrences(init, x);
        if names.last() == x {
            if init.contains(x) {
                let k = choose|k: int| 0 <= k < init.len() && init[k] == x;
                assert(names[k] == names[names.len() - 1]);
            }
        } else {
            if names.contains(x) {
                let k = choose|k: int| 0 <= k < names.len() && names[k] == x;
                assert(init[k] == x);
            }
            if init.contains(x) {
                let k = choose|k: int| 0 <= k < init.len() && init[k] == x;
                assert(names[k] == x);
            }
        }
    }
}

proof fn lemma_covering_sums(names: Seq<Seq<char>>, details: Seq<BillDetail>, keys: Seq<Seq<char>>, m: int)
    requires
        0 <= m <= keys.len(),
        forall|i: int, j: int| 0 <= i < j < names.len() ==> names[i] != names[j],
        forall|j: int| 0 <= j < m ==> names.contains(#[trigger] keys[j]),
    ensures
        count_sum(names, keys, m) == m,
        total_sum(names, details, keys, m) == amount_total(details, m),
    decreases m,
{
    if m == 0 {
        lemma_sums_zero(names, details, keys);
    } else {
        lemma_covering_sums(names, details, keys, m - 1);
        lemma_sums_step(names, details, keys, m);
        assert(names.contains(keys[m - 1]));
        lemma_occurrences(names, keys[m - 1]);
        let o = occurrences(names, keys[m - 1]);
        let a = details[m - 1].amount as int;
        assert(o * a == a) by (nonlinear_arith)
            requires
                o == 1,
        ;
    }
}

proof fn lemma_sums_zero(names: Seq<Seq<char>>, details: Seq<BillDetail>, keys: Seq<Seq<char>>)
    ensures
        count_sum(names, keys, 0) == 0,
        total_sum(names, details, keys, 0) == 0,
    decreases names.len(),
{
    if names.len() > 0 {
        lemma_sums_zero(names.drop_last(), details, keys);
    }
}

proof fn lemma_lines_sums(lines: Seq<(Seq<char>, int, nat)>, details: Seq<BillDetail>, keys: Seq<Seq<char>>, n: int)
    requires
        forall|i: int|
            0 <= i < lines.len() ==> (#[trigger] lines[i]).1 == key_total(details, keys, lines[i].0, n) && lines[i].2
                == key_count(keys, lines[i].0, n),
    ensures
        lines_count(lines) == count_sum(lines.map_values(|l: (Seq<char>, int, nat)| l.0), keys, n),
        lines_amount(lines) == total_sum(lines.map_values(|l: (Seq<char>, int, nat)| l.0), details, keys, n),
    decreases lines.len(),
{
    if lines.len() > 0 {
        let init = lines.drop_last();
        assert forall|i: int| 0 <= i < init.len() implies #[trigger] init[i] == lines[i] by {}
        lemma_lines_sums(init, details, keys, n);
        let names = lines.map_values(|l: (Seq<char>, int, nat)| l.0);
        assert(names.drop_last() =~= init.map_values(|l: (Seq<char>, int, nat)| l.0));
        assert(names.last() == lines.last().0);
        assert(lines[lines.len() - 1] == lines.last());
    }
}

/// A summary keeps every detail: its counts add up to the number of details and
/// its amounts to their total.
pub proof fn law_summary_adds_up(lines: Seq<(Seq<char>, int, nat)>, details: Seq<BillDetail>, keys: Seq<Seq<char>>)
    requires
        keys.len() == details.len(),
        is_summary(lines, details, keys),
    ensures
        lines_count(lines) == details.len(),
        lines_amount(lines) == amount_total(details, details.len() as int),
{
    let n = details.len() as int;
    let names = lines.map_values(|l: (Seq<char>, int, nat)| l.0);
    law_summary_keys_unique(lines, details, keys);
    assert forall|i: int, j: int| 0 <= i < j < names.len() implies names[i] != names[j] by {
        assert(names[i] == lines[i].0 && names[j] == lines[j].0);
    }
    lemma_lines_sums(lines, details, keys, n);
    lemma_covering_sums(names, details, keys, n);
}

} // verus!
