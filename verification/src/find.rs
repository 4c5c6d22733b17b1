//! Finding and counting the items of a list that a predicate picks.

use vstd::prelude::*;
use vstd::seq_lib::*;

verus! {

/// The position of the first item that `pred` picks, or the length of the
/// list if it picks none.
pub open spec fn first_where<T>(s: Seq<T>, pred: spec_fn(T) -> bool) -> int
    decreases s.len(),
{
    if s.len() == 0 {
        0
    } else if pred(s[0]) {
        0
    } else {
        1 + first_where(s.drop_first(), pred)
    }
}

/// The number of items that `pred` picks.
pub open spec fn count_where<T>(s: Seq<T>, pred: spec_fn(T) -> bool) -> nat {
    s.filter(pred).len()
}

/// The predicate that picks `true`.
pub open spec fn is_set() -> spec_fn(bool) -> bool {
    |b: bool| b
}

/// The first picked position is within the list or its length, nothing
/// before it is picked, and what stands at it is picked.
pub proof fn lemma_first_where<T>(s: Seq<T>, pred: spec_fn(T) -> bool)
    ensures
        0 <= first_where(s, pred) <= s.len(),
        forall|j: int| 0 <= j < first_where(s, pred) ==> !pred(#[trigger] s[j]),
        first_where(s, pred) < s.len() ==> pred(s[first_where(s, pred)]),
    decreases s.len(),
{
    if s.len() > 0 && !pred(s[0]) {
        let rest = s.drop_first();
        lemma_first_where(rest, pred);
        let k = first_where(rest, pred);
        assert forall|j: int| 0 <= j < 1 + k implies !pred(#[trigger] s[j]) by {
            if j > 0 {
                assert(s[j] == rest[j - 1]);
            }
        }
        if k < rest.len() {
            assert(s[1 + k] == rest[k]);
        }
    }
}

/// The first picked position is the one position that is picked, or is
/// the length, and has no picked position before it.
pub proof fn lemma_first_where_is<T>(s: Seq<T>, pred: spec_fn(T) -> bool, i: int)
    requires
        0 <= i <= s.len(),
        forall|j: int| 0 <= j < i ==> !pred(#[trigger] s[j]),
        i < s.len() ==> pred(s[i]),
    ensures
        first_where(s, pred) == i,
{
    lemma_first_where(s, pred);
}

/// The count is zero exactly if nothing is picked, and the first picked
/// position is the length exactly then.
pub proof fn lemma_count_zero<T>(s: Seq<T>, pred: spec_fn(T) -> bool)
    ensures
        count_where(s, pred) == 0 <==> forall|j: int| 0 <= j < s.len() ==> !pred(#[trigger] s[j]),
        count_where(s, pred) == 0 <==> first_where(s, pred) == s.len(),
    decreases s.len(),
{
    reveal(Seq::filter);
    lemma_first_where(s, pred);
    if s.len() > 0 {
        let front = s.drop_last();
        lemma_count_zero(front, pred);
        if count_where(s, pred) == 0 {
            assert forall|j: int| 0 <= j < s.len() implies !pred(#[trigger] s[j]) by {
                if j < front.len() {
                    assert(front[j] == s[j]);
                }
            }
        } else {
            if forall|j: int| 0 <= j < s.len() ==> !pred(#[trigger] s[j]) {
                assert forall|j: int| 0 <= j < front.len() implies !pred(#[trigger] front[j]) by {
                    assert(front[j] == s[j]);
                }
                assert(!pred(s[s.len() - 1]));
            }
        }
    }
}

/// With exactly one item picked, it stands at the first picked position
/// and no other position is picked.
pub proof fn lemma_count_one<T>(s: Seq<T>, pred: spec_fn(T) -> bool)
    requires
        count_where(s, pred) == 1,
    ensures
        0 <= first_where(s, pred) < s.len(),
        forall|j: int| 0 <= j < s.len() && pred(#[trigger] s[j]) ==> j == first_where(s, pred),
    decreases s.len(),
{
    reveal(Seq::filter);
    lemma_first_where(s, pred);
    lemma_count_zero(s, pred);
    let front = s.drop_last();
    lemma_count_zero(front, pred);
    lemma_first_where(front, pred);
    if pred(s.last()) {
        assert(count_where(front, pred) == 0);
        assert forall|j: int| 0 <= j < s.len() && pred(#[trigger] s[j]) implies j == s.len() - 1 by {
            if j < front.len() {
                assert(front[j] == s[j]);
            }
        }
    } else {
        lemma_count_one(front, pred);
        let f = first_where(front, pred);
        assert forall|j: int| 0 <= j < f implies !pred(#[trigger] s[j]) by {
            assert(front[j] == s[j]);
        }
        assert(s[f] == front[f]);
        lemma_first_where_is(s, pred, f);
        assert forall|j: int| 0 <= j < s.len() && pred(#[trigger] s[j]) implies j == f by {
            if j < front.len() {
                assert(front[j] == s[j]);
            }
        }
    }
}

/// Flags that say of each item whether `pred` picks it count and find as
/// `pred` does.
pub proof fn lemma_flags<T>(s: Seq<T>, pred: spec_fn(T) -> bool, flags: Seq<bool>)
    requires
        flags.len() == s.len(),
        forall|j: int| 0 <= j < s.len() ==> flags[j] == pred(#[trigger] s[j]),
    ensures
        count_where(flags, is_set()) == count_where(s, pred),
        first_where(flags, is_set()) == first_where(s, pred),
    decreases s.len(),
{
    reveal(Seq::filter);
    lemma_first_where(flags, is_set());
    let f = first_where(flags, is_set());
    assert forall|j: int| 0 <= j < f implies !pred(#[trigger] s[j]) by {
        assert(!is_set()(flags[j]));
    }
    lemma_first_where_is(s, pred, f);
    if s.len() > 0 {
        let front = s.drop_last();
        let front_flags = flags.drop_last();
        assert forall|j: int| 0 <= j < front.len() implies front_flags[j] == pred(
            #[trigger] front[j],
        ) by {
            assert(front[j] == s[j]);
        }
        lemma_flags(front, pred, front_flags);
    }
}

/// Counts the flags that are set, and finds the first of them: its
/// position, or the number of flags if none is set.
pub fn tally(flags: &Vec<bool>) -> (r: (usize, usize))
    ensures
        r.0 == count_where(flags@, is_set()),
        r.1 == first_where(flags@, is_set()),
{
    let mut count: usize = 0;
    let mut first: usize = flags.len();
    let mut i: usize = 0;
    proof {
        assert(flags@.take(0) =~= Seq::<bool>::empty());
        assert(flags@.take(0).filter(is_set()) =~= Seq::<bool>::empty()) by {
            reveal(Seq::filter);
        }
    }
    while i < flags.len()
        invariant
            i <= flags.len(),
            count <= i,
            count == count_where(flags@.take(i as int), is_set()),
            first == flags.len() ==> forall|j: int| 0 <= j < i ==> !flags[j],
            first != flags.len() ==> first < i && flags[first as int] && forall|j: int|
                0 <= j < first ==> !flags[j],
        decreases flags.len() - i,
    {
        proof {
            assert(flags@.take(i + 1) =~= flags@.take(i as int).push(flags[i as int]));
            flags@.take(i as int).lemma_filter_push(flags[i as int], is_set());
        }
        if flags[i] {
            if first == flags.len() {
                first = i;
            }
            count += 1;
        }
        i += 1;
    }
    proof {
        assert(flags@.take(flags.len() as int) =~= flags@);
        lemma_first_where_is(flags@, is_set(), first as int);
    }
    (count, first)
}

/// What holds of any two items of a list at different places holds of any
/// two picked items at different places.
pub proof fn lemma_filter_pairwise<T>(
    s: Seq<T>,
    pred: spec_fn(T) -> bool,
    apart: spec_fn(T, T) -> bool,
)
    requires
        forall|i: int, j: int|
            0 <= i < s.len() && 0 <= j < s.len() && i != j ==> #[trigger] apart(s[i], s[j]),
    ensures
        forall|i: int, j: int|
            0 <= i < s.filter(pred).len() && 0 <= j < s.filter(pred).len() && i != j
                ==> #[trigger] apart(s.filter(pred)[i], s.filter(pred)[j]),
    decreases s.len(),
{
    reveal(Seq::filter);
    if s.len() > 0 {
        let rest = s.drop_last();
        assert forall|i: int, j: int|
            0 <= i < rest.len() && 0 <= j < rest.len() && i != j implies #[trigger] apart(
            rest[i],
            rest[j],
        ) by {
            assert(apart(s[i], s[j]));
        }
        lemma_filter_pairwise(rest, pred, apart);
        let kept = rest.filter(pred);
        let all = s.filter(pred);
        assert forall|i: int, j: int|
            0 <= i < all.len() && 0 <= j < all.len() && i != j implies #[trigger] apart(
            all[i],
            all[j],
        ) by {
            if i < kept.len() && j < kept.len() {
                assert(apart(kept[i], kept[j]));
            } else if i < kept.len() {
                assert(kept.contains(kept[i]));
                rest.lemma_filter_contains_rev(pred, kept[i]);
                let v = choose|v: int| 0 <= v < rest.len() && rest[v] == kept[i];
                assert(apart(s[v], s[s.len() - 1]));
            } else {
                assert(kept.contains(kept[j]));
                rest.lemma_filter_contains_rev(pred, kept[j]);
                let v = choose|v: int| 0 <= v < rest.len() && rest[v] == kept[j];
                assert(apart(s[s.len() - 1], s[v]));
            }
        }
    }
}

} // verus!
