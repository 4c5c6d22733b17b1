//! The canonical encoding of a filter's keyword set, under which the
//! filters table stores it and compares it.

use crate::text::{
    all_free_of, all_nonempty, chars_le, chars_of, fields, join, join_strings,
    lemma_first_index_is, lemma_le_total, lemma_le_transitive, lemma_text_order_total, text_le,
    text_order,
};
use vstd::multiset::*;
use vstd::prelude::*;
use vstd::relations::*;
use vstd::seq_lib::*;

verus! {

/// The character that separates keywords in their encoding: the ASCII unit
/// separator, which a keyword is expected not to hold.
pub const SEPARATOR: char = '\x1F';

/// The predicate that keeps the keywords that are not empty.
pub open spec fn nonempty() -> spec_fn(Seq<char>) -> bool {
    |k: Seq<char>| k.len() > 0
}

/// The canonical form of a keyword list: its non-empty keywords in
/// ascending order. Keywords that occur twice stay twice.
pub open spec fn canonical_keywords(keywords: Seq<Seq<char>>) -> Seq<Seq<char>> {
    keywords.filter(nonempty()).sort_by(text_order())
}

/// The text under which a keyword list is stored: its canonical form,
/// joined by the separator.
pub open spec fn encoded_keywords(keywords: Seq<Seq<char>>) -> Seq<char> {
    join(canonical_keywords(keywords), seq![SEPARATOR])
}

/// The keywords that a stored text holds: its non-empty fields between
/// separators, in order.
pub open spec fn decoded_keywords(packed: Seq<char>) -> Seq<Seq<char>> {
    fields(packed, SEPARATOR).filter(nonempty())
}

/// Of a single keyword, the non-empty ones are the keyword itself, or none.
proof fn lemma_filter_one(x: Seq<char>)
    ensures
        seq![x].filter(nonempty()) == if x.len() > 0 {
            seq![x]
        } else {
            Seq::<Seq<char>>::empty()
        },
{
    let e = Seq::<Seq<char>>::empty();
    assert(seq![x] =~= e.push(x));
    e.lemma_filter_push(x, nonempty());
    assert(e.filter(nonempty()) =~= e) by {
        reveal(Seq::filter);
    }
    assert(e.push(x) =~= seq![x]);
}

/// What a text holds is what its first field holds, followed by what the
/// text after the first separator holds.
proof fn lemma_decoded_split(text: Seq<char>, i: int)
    requires
        0 <= i < text.len(),
        text[i] == SEPARATOR,
        forall|j: int| 0 <= j < i ==> text[j] != SEPARATOR,
    ensures
        decoded_keywords(text) == (if i > 0 {
            seq![text.take(i)]
        } else {
            Seq::<Seq<char>>::empty()
        }) + decoded_keywords(text.skip(i + 1)),
{
    lemma_first_index_is(text, SEPARATOR, i);
    let head = seq![text.take(i)];
    let rest = fields(text.skip(i + 1), SEPARATOR);
    assert(fields(text, SEPARATOR) == head + rest);
    Seq::filter_distributes_over_add(head, rest, nonempty());
    lemma_filter_one(text.take(i));
}

/// A text without separator holds itself, if it is not empty.
proof fn lemma_decoded_last(text: Seq<char>)
    requires
        forall|j: int| 0 <= j < text.len() ==> text[j] != SEPARATOR,
    ensures
        decoded_keywords(text) == if text.len() > 0 {
            seq![text]
        } else {
            Seq::<Seq<char>>::empty()
        },
{
    lemma_first_index_is(text, SEPARATOR, text.len() as int);
    assert(fields(text, SEPARATOR) == seq![text]);
    lemma_filter_one(text);
}

/// Inserting a key behind the keys that do not exceed it, and before the
/// first that does, keeps a sorted list sorted.
proof fn lemma_insert_keeps_sorted(s: Seq<Seq<char>>, p: int, key: Seq<char>)
    requires
        sorted_by(s, text_order()),
        0 <= p <= s.len(),
        forall|j: int| 0 <= j < p ==> text_le(#[trigger] s[j], key),
        p < s.len() ==> !text_le(s[p], key),
    ensures
        sorted_by(s.insert(p, key), text_order()),
{
    let t = s.insert(p, key);
    assert forall|a: int, b: int| 0 <= a < b < t.len() implies #[trigger] text_order()(
        t[a],
        t[b],
    ) by {
        if b < p {
            assert(text_order()(s[a], s[b]));
        } else if b == p {
            assert(text_le(s[a], key));
        } else if a == p {
            lemma_le_total(s[p], key, 0);
            if b - 1 > p {
                assert(text_order()(s[p], s[b - 1]));
                lemma_le_transitive(key, s[p], s[b - 1], 0);
            }
        } else if a < p {
            assert(text_order()(s[a], s[b - 1]));
        } else {
            assert(text_order()(s[a - 1], s[b - 1]));
        }
    }
}

/// Decoding undoes joining, for parts that are not empty and hold no
/// separator.
pub proof fn lemma_decode_join(parts: Seq<Seq<char>>)
    requires
        all_nonempty(parts),
        all_free_of(parts, SEPARATOR),
    ensures
        decoded_keywords(join(parts, seq![SEPARATOR])) == parts,
    decreases parts.len(),
{
    let sep = seq![SEPARATOR];
    let text = join(parts, sep);
    if parts.len() == 0 {
        lemma_decoded_last(text);
        assert(parts =~= Seq::<Seq<char>>::empty());
    } else {
        let first = parts[0];
        assert forall|j: int| 0 <= j < first.len() implies first[j] != SEPARATOR by {
            if first[j] == SEPARATOR {
                assert(first.contains(SEPARATOR));
            }
        }
        if parts.len() == 1 {
            lemma_decoded_last(text);
            assert(parts =~= seq![first]);
        } else {
            let rest = parts.drop_first();
            let i = first.len() as int;
            assert(text == first + sep + join(rest, sep));
            assert(text[i] == SEPARATOR);
            assert(forall|j: int| 0 <= j < i ==> text[j] == first[j]);
            lemma_decoded_split(text, i);
            assert(text.take(i) =~= first);
            assert(text.skip(i + 1) =~= join(rest, sep));
            assert forall|k: int| 0 <= k < rest.len() implies (#[trigger] rest[k]).len() > 0
                && !rest[k].contains(SEPARATOR) by {
                assert(rest[k] == parts[k + 1]);
            }
            lemma_decode_join(rest);
            assert(parts =~= seq![first] + rest);
        }
    }
}

/// Filtering a list keeps, of each value, as many as the list holds if the
/// predicate accepts the value, and none otherwise.
pub proof fn lemma_filter_to_multiset(s: Seq<Seq<char>>, pred: spec_fn(Seq<char>) -> bool)
    ensures
        s.filter(pred).to_multiset() =~= s.to_multiset().filter(pred),
    decreases s.len(),
{
    broadcast use group_multiset_axioms;

    if s.len() == 0 {
        assert(s.filter(pred) =~= Seq::<Seq<char>>::empty()) by {
            reveal(Seq::filter);
        }
        s.to_multiset_ensures();
        s.filter(pred).to_multiset_ensures();
        assert(s.to_multiset().len() == 0);
        assert(s.filter(pred).to_multiset().len() == 0);
        assert forall|v: Seq<char>| s.filter(pred).to_multiset().count(v) == s.to_multiset().filter(
            pred,
        ).count(v) by {
            axiom_count_le_len(s.to_multiset(), v);
            axiom_count_le_len(s.filter(pred).to_multiset(), v);
        }
    } else {
        let front = s.drop_last();
        let x = s.last();
        assert(s =~= front.push(x));
        lemma_filter_to_multiset(front, pred);
        front.lemma_filter_push(x, pred);
        to_multiset_build(front, x);
        to_multiset_build(front.filter(pred), x);
        assert forall|v: Seq<char>| s.filter(pred).to_multiset().count(v) == s.to_multiset().filter(
            pred,
        ).count(v) by {
            assert(front.filter(pred).to_multiset().count(v) == front.to_multiset().filter(
                pred,
            ).count(v));
        }
    }
}

/// The canonical form of a keyword list is in ascending order and holds the
/// list's non-empty keywords, each as often as the list does.
pub proof fn lemma_canonical_keywords(keywords: Seq<Seq<char>>)
    ensures
        sorted_by(canonical_keywords(keywords), text_order()),
        canonical_keywords(keywords).to_multiset() == keywords.to_multiset().filter(nonempty()),
        forall|k: Seq<char>| #[trigger]
            canonical_keywords(keywords).contains(k) <==> keywords.contains(k) && k.len() > 0,
{
    broadcast use group_multiset_axioms;

    lemma_text_order_total();
    let kept = keywords.filter(nonempty());
    kept.lemma_sort_by_ensures(text_order());
    lemma_filter_to_multiset(keywords, nonempty());
    let canonical = canonical_keywords(keywords);
    canonical.to_multiset_ensures();
    keywords.to_multiset_ensures();
    assert forall|k: Seq<char>| #[trigger]
        canonical.contains(k) <==> keywords.contains(k) && k.len() > 0 by {
        assert(canonical.to_multiset().count(k) == if nonempty()(k) {
            keywords.to_multiset().count(k)
        } else {
            0
        });
    }
}

/// Encoding a keyword list and decoding the result gives the list's
/// canonical form: the same keywords without the empty ones, in ascending
/// order. This holds of keywords that do not hold the separator.
pub proof fn law_keywords_round_trip(keywords: Seq<Seq<char>>)
    requires
        all_free_of(keywords, SEPARATOR),
    ensures
        decoded_keywords(encoded_keywords(keywords)) == canonical_keywords(keywords),
        forall|k: Seq<char>| #[trigger]
            decoded_keywords(encoded_keywords(keywords)).contains(k) <==> keywords.contains(k)
                && k.len() > 0,
{
    let canonical = canonical_keywords(keywords);
    lemma_canonical_keywords(keywords);
    assert forall|i: int| 0 <= i < canonical.len() implies (#[trigger] canonical[i]).len() > 0
        && !canonical[i].contains(SEPARATOR) by {
        assert(canonical.contains(canonical[i]));
        let k = canonical[i];
        assert(keywords.contains(k));
        let j = choose|j: int| 0 <= j < keywords.len() && keywords[j] == k;
        assert(!keywords[j].contains(SEPARATOR));
    }
    lemma_decode_join(canonical);
}

/// The canonical form of a canonical form is the form itself.
pub proof fn lemma_canonical_is_stable(keywords: Seq<Seq<char>>)
    ensures
        canonical_keywords(canonical_keywords(keywords)) == canonical_keywords(keywords),
{
    broadcast use group_multiset_axioms;

    lemma_text_order_total();
    let form = canonical_keywords(keywords);
    lemma_canonical_keywords(keywords);
    lemma_canonical_keywords(form);
    form.to_multiset_ensures();
    assert forall|k: Seq<char>| form.to_multiset().filter(nonempty()).count(k)
        == form.to_multiset().count(k) by {
        if form.to_multiset().count(k) > 0 {
            assert(form.contains(k));
        }
    }
    assert(form.to_multiset().filter(nonempty()) =~= form.to_multiset());
    lemma_sorted_unique(canonical_keywords(form), form, text_order());
}

/// The keywords that an encoding holds have that encoding again, for
/// keywords that do not hold the separator.
pub proof fn lemma_encoding_is_stable(keywords: Seq<Seq<char>>)
    requires
        all_free_of(keywords, SEPARATOR),
    ensures
        encoded_keywords(decoded_keywords(encoded_keywords(keywords))) == encoded_keywords(
            keywords,
        ),
{
    law_keywords_round_trip(keywords);
    lemma_canonical_is_stable(keywords);
}

/// The encoding of a keyword list does not depend on the order in which
/// the keywords are given.
pub proof fn law_encoding_ignores_order(first: Seq<Seq<char>>, second: Seq<Seq<char>>)
    requires
        first.to_multiset() == second.to_multiset(),
    ensures
        canonical_keywords(first) == canonical_keywords(second),
        encoded_keywords(first) == encoded_keywords(second),
{
    lemma_text_order_total();
    lemma_canonical_keywords(first);
    lemma_canonical_keywords(second);
    lemma_sorted_unique(canonical_keywords(first), canonical_keywords(second), text_order());
}

/// The non-empty keywords of a list, in ascending order.
pub fn sorted_keywords(keywords: &[String]) -> (sorted: Vec<String>)
    ensures
        sorted.deep_view() == canonical_keywords(keywords.deep_view()),
{
    let ghost all = keywords.deep_view();
    let mut sorted: Vec<String> = Vec::new();
    let mut keys: Vec<Vec<char>> = Vec::new();
    let mut i: usize = 0;
    proof {
        assert(all.take(0) =~= Seq::<Seq<char>>::empty());
        assert(all.take(0).filter(nonempty()) =~= Seq::<Seq<char>>::empty()) by {
            reveal(Seq::filter);
        }
        assert(sorted.deep_view() =~= Seq::<Seq<char>>::empty());
    }
    while i < keywords.len()
        invariant
            all == keywords.deep_view(),
            i <= keywords.len(),
            keys.len() == sorted.len(),
            forall|j: int| 0 <= j < keys.len() ==> (#[trigger] keys[j])@ == sorted[j]@,
            sorted_by(sorted.deep_view(), text_order()),
            sorted.deep_view().to_multiset() == all.take(i as int).filter(
                nonempty(),
            ).to_multiset(),
        decreases keywords.len() - i,
    {
        let key = chars_of(keywords[i].as_str());
        proof {
            assert(all.take(i + 1) =~= all.take(i as int).push(all[i as int]));
            all.take(i as int).lemma_filter_push(all[i as int], nonempty());
            assert(all[i as int] == key@);
        }
        if key.len() > 0 {
            let mut p: usize = 0;
            while p < keys.len() && chars_le(&keys[p], &key)
                invariant
                    p <= keys.len(),
                    forall|j: int| 0 <= j < p ==> text_le(#[trigger] keys[j]@, key@),
                decreases keys.len() - p,
            {
                p += 1;
            }
            let ghost before = sorted.deep_view();
            proof {
                assert forall|j: int| 0 <= j < p implies text_le(#[trigger] before[j], key@) by {
                    assert(before[j] == keys[j]@);
                }
                if p < keys.len() {
                    assert(before[p as int] == keys[p as int]@);
                }
                lemma_insert_keeps_sorted(before, p as int, key@);
                to_multiset_insert(before, p as int, key@);
                to_multiset_build(all.take(i as int).filter(nonempty()), key@);
            }
            sorted.insert(p, keywords[i].clone());
            keys.insert(p, key);
            assert(sorted.deep_view() =~= before.insert(p as int, key@));
        }
        i += 1;
    }
    proof {
        assert(all.take(keywords.len() as int) =~= all);
        lemma_text_order_total();
        let kept = all.filter(nonempty());
        kept.lemma_sort_by_ensures(text_order());
        lemma_sorted_unique(sorted.deep_view(), kept.sort_by(text_order()), text_order());
    }
    sorted
}

/// Encodes a keyword list for storage: drops the empty keywords, sorts the
/// others and joins them by the separator.
pub fn encode_filter_keywords(keywords: &[String]) -> (packed: String)
    ensures
        packed@ == encoded_keywords(keywords.deep_view()),
{
    let sorted = sorted_keywords(keywords);
    proof {
        reveal_strlit("\x1F");
        assert("\x1F"@ =~= seq![SEPARATOR]);
    }
    join_strings(&sorted, "\x1F")
}

/// Decodes a stored keyword text: its non-empty fields between separators.
pub fn decode_filter_keywords(keywords_packed: &str) -> (keywords: Vec<String>)
    ensures
        keywords.deep_view() == decoded_keywords(keywords_packed@),
{
    let text = chars_of(keywords_packed);
    let mut keywords: Vec<String> = Vec::new();
    let mut start: usize = 0;
    let mut i: usize = 0;
    proof {
        assert(text@.skip(0) =~= text@);
        assert(keywords.deep_view() =~= Seq::<Seq<char>>::empty());
        assert(keywords.deep_view() + decoded_keywords(text@) =~= decoded_keywords(text@));
    }
    while i < text.len()
        invariant
            text@ == keywords_packed@,
            start <= i <= text.len(),
            forall|j: int| start <= j < i ==> text@[j] != SEPARATOR,
            decoded_keywords(text@) == keywords.deep_view() + decoded_keywords(
                text@.skip(start as int),
            ),
        decreases text.len() - i,
    {
        if text[i] == SEPARATOR {
            let ghost before = keywords.deep_view();
            proof {
                let tail = text@.skip(start as int);
                lemma_decoded_split(tail, i - start);
                assert(tail.take(i - start) =~= text@.subrange(start as int, i as int));
                assert(tail.skip(i - start + 1) =~= text@.skip(i + 1));
            }
            if i > start {
                let word = keywords_packed.substring_char(start, i);
                keywords.push(word.to_owned());
                assert(keywords.deep_view() =~= before.push(
                    text@.subrange(start as int, i as int),
                ));
                assert(before.push(text@.subrange(start as int, i as int)) =~= before
                    + seq![text@.subrange(start as int, i as int)]);
            } else {
                assert(before + Seq::<Seq<char>>::empty() =~= before);
            }
            start = i + 1;
        }
        i += 1;
    }
    let ghost before = keywords.deep_view();
    proof {
        let tail = text@.skip(start as int);
        lemma_decoded_last(tail);
        assert(tail =~= text@.subrange(start as int, i as int));
    }
    if i > start {
        let word = keywords_packed.substring_char(start, i);
        keywords.push(word.to_owned());
        assert(keywords.deep_view() =~= before.push(text@.subrange(start as int, i as int)));
        assert(before.push(text@.subrange(start as int, i as int)) =~= before
            + seq![text@.subrange(start as int, i as int)]);
    } else {
        assert(before + Seq::<Seq<char>>::empty() =~= before);
    }
    keywords
}

} // verus!
