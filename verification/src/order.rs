//! Stable sorting, as a specification: each item is put behind the items
//! that it does not have to precede.

use vstd::prelude::*;
use vstd::seq_lib::*;

verus! {

/// Where `x` goes in `sorted`: before the trailing run of items that
/// `outranks` puts after `x`, and so behind every item of equal rank.
pub open spec fn slot<T>(sorted: Seq<T>, x: T, outranks: spec_fn(T, T) -> bool) -> int
    decreases sorted.len(),
{
    if sorted.len() == 0 {
        0
    } else if outranks(sorted.last(), x) {
        slot(sorted.drop_last(), x, outranks)
    } else {
        sorted.len() as int
    }
}

/// The items of `s`, each put in its slot among those before it:
/// `outranks(a, b)` says that `a` has to come after `b`, and items of which
/// neither outranks the other keep the order they had in `s`.
pub open spec fn stable_sort<T>(s: Seq<T>, outranks: spec_fn(T, T) -> bool) -> Seq<T>
    decreases s.len(),
{
    if s.len() == 0 {
        s
    } else {
        let front = stable_sort(s.drop_last(), outranks);
        front.insert(slot(front, s.last(), outranks), s.last())
    }
}

/// No item comes before one that it outranks.
pub open spec fn in_order<T>(s: Seq<T>, outranks: spec_fn(T, T) -> bool) -> bool {
    forall|i: int, j: int| 0 <= i < j < s.len() ==> !#[trigger] outranks(s[i], s[j])
}

/// `outranks` compares by rank: of two items at most one outranks the
/// other, what outranks an item outranks all that the item outranks, and
/// what does not outrank an item outranks nothing that the item does not.
pub open spec fn ranks<T>(outranks: spec_fn(T, T) -> bool) -> bool {
    &&& forall|a: T, b: T| #[trigger] outranks(a, b) ==> !outranks(b, a)
    &&& forall|a: T, b: T, c: T|
        #[trigger] outranks(a, b) && #[trigger] outranks(b, c) ==> outranks(a, c)
    &&& forall|a: T, b: T, c: T|
        !#[trigger] outranks(a, b) && !#[trigger] outranks(b, c) ==> !outranks(a, c)
}

/// The slot is within the list or its length; every item from it on
/// outranks `x`, and the item before it does not.
pub proof fn lemma_slot<T>(sorted: Seq<T>, x: T, outranks: spec_fn(T, T) -> bool)
    ensures
        0 <= slot(sorted, x, outranks) <= sorted.len(),
        forall|k: int|
            slot(sorted, x, outranks) <= k < sorted.len() ==> #[trigger] outranks(sorted[k], x),
        slot(sorted, x, outranks) > 0 ==> !outranks(sorted[slot(sorted, x, outranks) - 1], x),
    decreases sorted.len(),
{
    if sorted.len() > 0 && outranks(sorted.last(), x) {
        let front = sorted.drop_last();
        lemma_slot(front, x, outranks);
        let p = slot(front, x, outranks);
        assert forall|k: int| p <= k < sorted.len() implies #[trigger] outranks(sorted[k], x) by {
            if k < front.len() {
                assert(outranks(front[k], x));
            }
        }
        if p > 0 {
            assert(front[p - 1] == sorted[p - 1]);
        }
    }
}

/// The slot is the one position with an item before it that does not
/// outrank `x`, or none before it, and only outranking items from it on.
pub proof fn lemma_slot_is<T>(sorted: Seq<T>, x: T, outranks: spec_fn(T, T) -> bool, p: int)
    requires
        0 <= p <= sorted.len(),
        forall|k: int| p <= k < sorted.len() ==> #[trigger] outranks(sorted[k], x),
        p > 0 ==> !outranks(sorted[p - 1], x),
    ensures
        slot(sorted, x, outranks) == p,
    decreases sorted.len(),
{
    if sorted.len() > 0 && p < sorted.len() {
        let front = sorted.drop_last();
        assert(outranks(sorted[sorted.len() - 1], x));
        assert forall|k: int| p <= k < front.len() implies #[trigger] outranks(front[k], x) by {
            assert(outranks(sorted[k], x));
        }
        if p > 0 {
            assert(front[p - 1] == sorted[p - 1]);
        }
        lemma_slot_is(front, x, outranks, p);
    }
}

/// Putting an item in its slot keeps a list in order.
pub proof fn lemma_insert_in_order<T>(sorted: Seq<T>, x: T, outranks: spec_fn(T, T) -> bool)
    requires
        ranks(outranks),
        in_order(sorted, outranks),
    ensures
        in_order(sorted.insert(slot(sorted, x, outranks), x), outranks),
{
    let p = slot(sorted, x, outranks);
    lemma_slot(sorted, x, outranks);
    let t = sorted.insert(p, x);
    assert forall|i: int, j: int| 0 <= i < j < t.len() implies !#[trigger] outranks(t[i], t[j]) by {
        if j < p {
        } else if j == p {
            // t[i] is sorted[i] with i < p: it does not outrank sorted[p - 1],
            // which does not outrank x
            if i < p - 1 {
                assert(!outranks(sorted[i], sorted[p - 1]));
            }
        } else if i == p {
            assert(outranks(sorted[j - 1], x));
        } else if i < p {
            assert(!outranks(sorted[i], sorted[j - 1]));
        } else {
            assert(!outranks(sorted[i - 1], sorted[j - 1]));
        }
    }
}

/// A stably sorted list is in order and holds the items of the list it was
/// made from, each as often.
pub proof fn lemma_stable_sort<T>(s: Seq<T>, outranks: spec_fn(T, T) -> bool)
    requires
        ranks(outranks),
    ensures
        in_order(stable_sort(s, outranks), outranks),
        stable_sort(s, outranks).to_multiset() == s.to_multiset(),
        stable_sort(s, outranks).len() == s.len(),
    decreases s.len(),
{
    if s.len() > 0 {
        let front = stable_sort(s.drop_last(), outranks);
        lemma_stable_sort(s.drop_last(), outranks);
        lemma_slot(front, s.last(), outranks);
        lemma_insert_in_order(front, s.last(), outranks);
        to_multiset_insert(front, slot(front, s.last(), outranks), s.last());
        to_multiset_build(s.drop_last(), s.last());
        assert(s.drop_last().push(s.last()) =~= s);
    }
}

/// A stably sorted list holds exactly the items of the list it was made
/// from.
pub proof fn lemma_stable_sort_contains<T>(s: Seq<T>, outranks: spec_fn(T, T) -> bool, x: T)
    ensures
        stable_sort(s, outranks).contains(x) <==> s.contains(x),
    decreases s.len(),
{
    if s.len() > 0 {
        let front = stable_sort(s.drop_last(), outranks);
        let p = slot(front, s.last(), outranks);
        lemma_slot(front, s.last(), outranks);
        lemma_stable_sort_contains(s.drop_last(), outranks, x);
        let sorted = front.insert(p, s.last());
        if sorted.contains(x) {
            let w = choose|w: int| 0 <= w < sorted.len() && sorted[w] == x;
            if w < p {
                assert(front[w] == x);
            } else if w > p {
                assert(front[w - 1] == x);
            }
            if front.contains(x) {
                let v = choose|v: int| 0 <= v < s.drop_last().len() && s.drop_last()[v] == x;
                assert(s[v] == x);
            } else {
                assert(s[s.len() - 1] == x);
            }
        }
        if s.contains(x) {
            let v = choose|v: int| 0 <= v < s.len() && s[v] == x;
            if v < s.len() - 1 {
                assert(s.drop_last()[v] == x);
                let w = choose|w: int| 0 <= w < front.len() && front[w] == x;
                if w < p {
                    assert(sorted[w] == x);
                } else {
                    assert(sorted[w + 1] == x);
                }
            } else {
                assert(sorted[p] == x);
            }
        }
    }
}

/// What holds of any two items of a list at different places holds of any
/// two items of the sorted list at different places.
pub proof fn lemma_stable_sort_pairwise<T>(
    s: Seq<T>,
    outranks: spec_fn(T, T) -> bool,
    apart: spec_fn(T, T) -> bool,
)
    requires
        forall|i: int, j: int|
            0 <= i < s.len() && 0 <= j < s.len() && i != j ==> #[trigger] apart(s[i], s[j]),
    ensures
        forall|i: int, j: int|
            0 <= i < stable_sort(s, outranks).len() && 0 <= j < stable_sort(s, outranks).len() && i
                != j ==> #[trigger] apart(
                stable_sort(s, outranks)[i],
                stable_sort(s, outranks)[j],
            ),
    decreases s.len(),
{
    if s.len() > 0 {
        let rest = s.drop_last();
        let front = stable_sort(rest, outranks);
        let p = slot(front, s.last(), outranks);
        lemma_slot(front, s.last(), outranks);
        assert forall|i: int, j: int|
            0 <= i < rest.len() && 0 <= j < rest.len() && i != j implies #[trigger] apart(
            rest[i],
            rest[j],
        ) by {
            assert(apart(s[i], s[j]));
        }
        lemma_stable_sort_pairwise(rest, outranks, apart);
        let sorted = front.insert(p, s.last());
        assert forall|i: int, j: int|
            0 <= i < sorted.len() && 0 <= j < sorted.len() && i != j implies #[trigger] apart(
            sorted[i],
            sorted[j],
        ) by {
            let fi = if i < p { i } else { i - 1 };
            let fj = if j < p { j } else { j - 1 };
            if i == p {
                lemma_stable_sort_contains(rest, outranks, front[fj]);
                assert(front.contains(front[fj]));
                let v = choose|v: int| 0 <= v < rest.len() && rest[v] == front[fj];
                assert(apart(s[s.len() - 1], s[v]));
            } else if j == p {
                lemma_stable_sort_contains(rest, outranks, front[fi]);
                assert(front.contains(front[fi]));
                let v = choose|v: int| 0 <= v < rest.len() && rest[v] == front[fi];
                assert(apart(s[v], s[s.len() - 1]));
            } else {
                assert(apart(front[fi], front[fj]));
            }
        }
    }
}

} // verus!
