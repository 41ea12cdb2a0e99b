//! Stable ordering of sequences by a strict order, as `slice::sort_by` does it.

use vstd::prelude::*;

verus! {

/// Where a stable insertion puts `x` in `s`, scanning from `j`: before the first
/// element that `x` comes strictly before.
pub open spec fn insertion_point<T>(s: Seq<T>, x: T, before: spec_fn(T, T) -> bool, j: int) -> int
    decreases s.len() - j,
{
    if j >= s.len() {
        s.len() as int
    } else if before(x, s[j]) {
        j
    } else {
        insertion_point(s, x, before, j + 1)
    }
}

/// The elements stably sorted by `before`: elements that neither comes before
/// the other keep their order.
pub open spec fn stable_sort<T>(s: Seq<T>, before: spec_fn(T, T) -> bool) -> Seq<T>
    decreases s.len(),
{
    if s.len() == 0 {
        Seq::empty()
    } else {
        let sorted = stable_sort(s.drop_last(), before);
        sorted.insert(insertion_point(sorted, s.last(), before, 0), s.last())
    }
}

/// No element comes strictly before an earlier one.
pub open spec fn sorted_by<T>(s: Seq<T>, before: spec_fn(T, T) -> bool) -> bool {
    forall|i: int, j: int| 0 <= i < j < s.len() ==> !before(#[trigger] s[j], #[trigger] s[i])
}

/// `before` is irreflexive and transitive.
pub open spec fn strict_order<T>(before: spec_fn(T, T) -> bool) -> bool {
    &&& forall|a: T| !#[trigger] before(a, a)
    &&& forall|a: T, b: T, c: T| #[trigger] before(a, b) && #[trigger] before(b, c) ==> before(a, c)
}

proof fn lemma_insertion_point<T>(s: Seq<T>, x: T, before: spec_fn(T, T) -> bool, j: int)
    requires
        0 <= j <= s.len(),
    ensures
        j <= insertion_point(s, x, before, j) <= s.len(),
        forall|i: int| j <= i < insertion_point(s, x, before, j) ==> !before(x, #[trigger] s[i]),
        insertion_point(s, x, before, j) < s.len() ==> before(x, s[insertion_point(s, x, before, j)]),
    decreases s.len() - j,
{
    if j < s.len() && !before(x, s[j]) {
        lemma_insertion_point(s, x, before, j + 1);
    }
}

proof fn lemma_sorted_insert<T>(s: Seq<T>, x: T, before: spec_fn(T, T) -> bool)
    requires
        strict_order(before),
        sorted_by(s, before),
    ensures
        sorted_by(s.insert(insertion_point(s, x, before, 0), x), before),
{
    let p = insertion_point(s, x, before, 0);
    lemma_insertion_point(s, x, before, 0);
    let t = s.insert(p, x);
    assert forall|i: int, k: int| 0 <= i < k < t.len() implies !before(#[trigger] t[k], #[trigger] t[i]) by {
        if k < p {
        } else if k == p {
            assert(t[i] == s[i]);
        } else if i < p {
            assert(t[k] == s[k - 1] && t[i] == s[i]);
        } else if i == p {
            assert(t[k] == s[k - 1]);
            if before(s[k - 1], x) {
                assert(before(x, s[p]));
                assert(before(s[k - 1], s[p]));
            }
        } else {
            assert(t[k] == s[k - 1] && t[i] == s[i - 1]);
        }
    }
}

/// A stable sort by a strict order gives an ordered sequence with the same
/// elements.
pub proof fn lemma_stable_sort<T>(s: Seq<T>, before: spec_fn(T, T) -> bool)
    requires
        strict_order(before),
    ensures
        sorted_by(stable_sort(s, before), before),
        stable_sort(s, before).to_multiset() == s.to_multiset(),
    decreases s.len(),
{
    if s.len() > 0 {
        let sorted = stable_sort(s.drop_last(), before);
        lemma_stable_sort(s.drop_last(), before);
        lemma_sorted_insert(sorted, s.last(), before);
        lemma_insertion_point(sorted, s.last(), before, 0);
        let p = insertion_point(sorted, s.last(), before, 0);
        assert(s.drop_last().push(s.last()) =~= s);
        vstd::seq_lib::to_multiset_insert(sorted, p, s.last());
        vstd::seq_lib::to_multiset_build(s.drop_last(), s.last());
    } else {
        assert(s =~= Seq::<T>::empty());
    }
}

/// Neither comes before the other.
pub open spec fn tied<T>(before: spec_fn(T, T) -> bool, a: T, b: T) -> bool {
    !before(a, b) && !before(b, a)
}

/// `before` is a strict weak order: a strict order in which being tied is
/// transitive (whatever comes before `b` comes before `c` or `c` before `b`).
pub open spec fn strict_weak_order<T>(before: spec_fn(T, T) -> bool) -> bool {
    &&& strict_order(before)
    &&& forall|a: T, b: T, c: T| #[trigger] before(a, b) ==> before(a, c) || #[trigger] before(c, b)
}

proof fn lemma_tied_transitive<T>(before: spec_fn(T, T) -> bool, a: T, b: T, c: T)
    requires
        strict_weak_order(before),
        tied(before, a, b),
        tied(before, b, c),
    ensures
        tied(before, a, c),
{
    if before(a, c) {
        assert(before(a, b) || before(b, c));
    }
    if before(c, a) {
        assert(before(c, b) || before(b, a));
    }
}

proof fn lemma_filter_none<T>(s: Seq<T>, pred: spec_fn(T) -> bool)
    requires
        forall|i: int| 0 <= i < s.len() ==> !pred(#[trigger] s[i]),
    ensures
        s.filter(pred) =~= Seq::<T>::empty(),
    decreases s.len(),
{
    reveal(Seq::filter);
    if s.len() > 0 {
        assert forall|i: int| 0 <= i < s.drop_last().len() implies !pred(#[trigger] s.drop_last()[i]) by {
            assert(s.drop_last()[i] == s[i]);
        }
        lemma_filter_none(s.drop_last(), pred);
        assert(!pred(s[s.len() - 1]));
    }
}

proof fn lemma_filter_insert<T>(t: Seq<T>, p: int, x: T, pred: spec_fn(T) -> bool)
    requires
        0 <= p <= t.len(),
        pred(x) ==> forall|j: int| p <= j < t.len() ==> !pred(#[trigger] t[j]),
    ensures
        t.insert(p, x).filter(pred) == (if pred(x) { t.filter(pred).push(x) } else { t.filter(pred) }),
{
    reveal(Seq::filter);
    let a = t.subrange(0, p);
    let b = t.subrange(p, t.len() as int);
    assert(t =~= a + b);
    assert(t.insert(p, x) =~= a.push(x) + b);
    Seq::filter_distributes_over_add(a, b, pred);
    Seq::filter_distributes_over_add(a.push(x), b, pred);
    assert(a.push(x).drop_last() =~= a);
    if pred(x) {
        assert forall|j: int| 0 <= j < b.len() implies !pred(#[trigger] b[j]) by {
            assert(b[j] == t[p + j]);
        }
        lemma_filter_none(b, pred);
        assert(a.filter(pred).push(x) + b.filter(pred) =~= a.filter(pred).push(x));
        assert(a.filter(pred) + b.filter(pred) =~= a.filter(pred));
    }
}

/// A stable sort keeps the order of tied elements: for any `x`, the elements
/// tied with `x` come out in the order they came in.
pub proof fn lemma_stable_sort_keeps_ties<T>(s: Seq<T>, before: spec_fn(T, T) -> bool, x: T)
    requires
        strict_weak_order(before),
    ensures
        stable_sort(s, before).filter(|y: T| tied(before, x, y)) == s.filter(|y: T| tied(before, x, y)),
    decreases s.len(),
{
    reveal(Seq::filter);
    let pred = |y: T| tied(before, x, y);
    if s.len() > 0 {
        let init = s.drop_last();
        let last = s.last();
        let t = stable_sort(init, before);
        lemma_stable_sort_keeps_ties(init, before, x);
        lemma_stable_sort(init, before);
        lemma_insertion_point(t, last, before, 0);
        let p = insertion_point(t, last, before, 0);
        if pred(last) {
            assert forall|j: int| p <= j < t.len() implies !pred(#[trigger] t[j]) by {
                if j > p {
                    assert(!before(t[j], t[p]));
                    assert(before(last, t[p]));
                    assert(before(last, t[j]) || before(t[j], t[p]));
                }
                assert(before(last, t[j]));
                if pred(t[j]) {
                    lemma_tied_transitive(before, last, x, t[j]);
                }
            }
        }
        lemma_filter_insert(t, p, last, pred);
    }
}

} // verus!
