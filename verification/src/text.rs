//! Text primitives over `Seq<char>`: ordering, containment, joining and
//! splitting, each with an executable counterpart.

use vstd::prelude::*;
use vstd::relations::*;
use vstd::string::*;

verus! {

/// Lexicographic "less than or equal" on the tails of `a` and `b` that start
/// at position `i`, comparing characters by code point.
pub open spec fn le_from(a: Seq<char>, b: Seq<char>, i: int) -> bool
    decreases a.len() - i,
{
    if i < 0 || i >= a.len() {
        true
    } else if i >= b.len() {
        false
    } else if a[i] != b[i] {
        a[i] < b[i]
    } else {
        le_from(a, b, i + 1)
    }
}

/// Lexicographic order of two texts by code point: the order in which the
/// standard library sorts strings.
pub open spec fn text_le(a: Seq<char>, b: Seq<char>) -> bool {
    le_from(a, b, 0)
}

/// `text_le` as a relation value, for the sequence library's lemmas.
pub open spec fn text_order() -> spec_fn(Seq<char>, Seq<char>) -> bool {
    |a: Seq<char>, b: Seq<char>| text_le(a, b)
}

/// `needle` occurs in `hay` as a contiguous run of characters.
pub open spec fn occurs_in(needle: Seq<char>, hay: Seq<char>) -> bool {
    exists|i: int| occurs_at(needle, hay, i)
}

/// `needle` occurs in `hay` starting at position `i`.
pub open spec fn occurs_at(needle: Seq<char>, hay: Seq<char>, i: int) -> bool {
    &&& 0 <= i
    &&& i + needle.len() <= hay.len()
    &&& hay.subrange(i, i + needle.len()) == needle
}

/// The parts written one after another with `sep` between neighbours.
pub open spec fn join(parts: Seq<Seq<char>>, sep: Seq<char>) -> Seq<char>
    decreases parts.len(),
{
    if parts.len() == 0 {
        Seq::empty()
    } else if parts.len() == 1 {
        parts[0]
    } else {
        parts[0] + sep + join(parts.drop_first(), sep)
    }
}

/// The fields of `text` that the separator character delimits, empty ones
/// included; a text without separator is one field.
pub open spec fn fields(text: Seq<char>, sep: char) -> Seq<Seq<char>>
    decreases text.len(),
{
    let i = first_index(text, sep);
    if 0 <= i < text.len() {
        seq![text.take(i)] + fields(text.skip(i + 1), sep)
    } else {
        seq![text]
    }
}

/// The position of the first `sep` in `text`, or the length of `text` if
/// there is none.
pub open spec fn first_index(text: Seq<char>, sep: char) -> int
    decreases text.len(),
{
    if text.len() == 0 {
        0
    } else if text[0] == sep {
        0
    } else {
        1 + first_index(text.drop_first(), sep)
    }
}

/// No part is empty.
pub open spec fn all_nonempty(parts: Seq<Seq<char>>) -> bool {
    forall|i: int| 0 <= i < parts.len() ==> (#[trigger] parts[i]).len() > 0
}

/// No part holds the character `sep`.
pub open spec fn all_free_of(parts: Seq<Seq<char>>, sep: char) -> bool {
    forall|i: int| 0 <= i < parts.len() ==> !(#[trigger] parts[i]).contains(sep)
}

/// The position of the first separator is within the text or its length;
/// no separator stands before it, and one stands at it if the text holds
/// any.
pub proof fn lemma_first_index(text: Seq<char>, sep: char)
    ensures
        0 <= first_index(text, sep) <= text.len(),
        forall|j: int| 0 <= j < first_index(text, sep) ==> text[j] != sep,
        text.contains(sep) ==> first_index(text, sep) < text.len() && text[first_index(
            text,
            sep,
        )] == sep,
        !text.contains(sep) ==> first_index(text, sep) == text.len(),
    decreases text.len(),
{
    if text.len() == 0 {
    } else if text[0] == sep {
        assert(text.contains(sep));
    } else {
        let rest = text.drop_first();
        lemma_first_index(rest, sep);
        let k = first_index(rest, sep);
        assert forall|j: int| 0 <= j < 1 + k implies text[j] != sep by {
            if j > 0 {
                assert(text[j] == rest[j - 1]);
            }
        }
        if text.contains(sep) {
            let w = choose|w: int| 0 <= w < text.len() && text[w] == sep;
            assert(rest[w - 1] == sep);
            assert(rest.contains(sep));
            assert(text[1 + k] == rest[k]);
        } else {
            if rest.contains(sep) {
                let w = choose|w: int| 0 <= w < rest.len() && rest[w] == sep;
                assert(text[w + 1] == sep);
            }
        }
    }
}

/// The position of the first `sep` is the only position that holds `sep`
/// and has none before it.
pub proof fn lemma_first_index_is(text: Seq<char>, sep: char, i: int)
    requires
        0 <= i <= text.len(),
        forall|j: int| 0 <= j < i ==> text[j] != sep,
        i < text.len() ==> text[i] == sep,
    ensures
        first_index(text, sep) == i,
        text.contains(sep) == (i < text.len()),
{
    lemma_first_index(text, sep);
    let k = first_index(text, sep);
    if i < text.len() {
        assert(text.contains(sep));
    }
}

/// A text is not greater than itself.
pub proof fn lemma_le_reflexive(a: Seq<char>, i: int)
    ensures
        le_from(a, a, i),
    decreases a.len() - i,
{
    if 0 <= i < a.len() {
        lemma_le_reflexive(a, i + 1);
    }
}

/// Of two texts, one is not greater than the other.
pub proof fn lemma_le_total(a: Seq<char>, b: Seq<char>, i: int)
    ensures
        le_from(a, b, i) || le_from(b, a, i),
    decreases a.len() - i,
{
    if 0 <= i < a.len() && i < b.len() && a[i] == b[i] {
        lemma_le_total(a, b, i + 1);
    }
}

/// What is not greater than a text is not greater than any text that
/// this one is not greater than.
pub proof fn lemma_le_transitive(a: Seq<char>, b: Seq<char>, c: Seq<char>, i: int)
    requires
        le_from(a, b, i),
        le_from(b, c, i),
    ensures
        le_from(a, c, i),
    decreases a.len() - i,
{
    if 0 <= i < a.len() {
        if a[i] == b[i] && b[i] == c[i] {
            lemma_le_transitive(a, b, c, i + 1);
        }
    }
}

/// Two texts of which neither is greater than the other, from a position
/// on, agree from that position on.
pub proof fn lemma_le_antisymmetric(a: Seq<char>, b: Seq<char>, i: int)
    requires
        0 <= i,
        le_from(a, b, i),
        le_from(b, a, i),
    ensures
        forall|j: int| i <= j < a.len() && j < b.len() ==> a[j] == b[j],
        i <= a.len() && i <= b.len() ==> a.len() == b.len(),
    decreases a.len() - i,
{
    if i < a.len() {
        assert(i < b.len());
        assert(a[i] == b[i]);
        lemma_le_antisymmetric(a, b, i + 1);
    } else if i < b.len() {
        assert(false);
    }
}

/// `text_le` is a total order on texts.
pub proof fn lemma_text_order_total()
    ensures
        total_ordering(text_order()),
{
    let r = text_order();
    assert forall|x: Seq<char>| #[trigger] r(x, x) by {
        lemma_le_reflexive(x, 0);
    }
    assert forall|x: Seq<char>, y: Seq<char>| #[trigger] r(x, y) && #[trigger] r(y, x) implies x
        == y by {
        lemma_le_antisymmetric(x, y, 0);
        assert(x =~= y);
    }
    assert forall|x: Seq<char>, y: Seq<char>, z: Seq<char>| #[trigger]
        r(x, y) && #[trigger] r(y, z) implies r(x, z) by {
        lemma_le_transitive(x, y, z, 0);
    }
    assert forall|x: Seq<char>, y: Seq<char>| #[trigger] r(x, y) || #[trigger] r(y, x) by {
        lemma_le_total(x, y, 0);
    }
}

/// Joining all parts but the last, then the separator and the last part,
/// is joining all parts.
pub proof fn lemma_join_push(parts: Seq<Seq<char>>, sep: Seq<char>, last: Seq<char>)
    ensures
        join(parts.push(last), sep) == if parts.len() == 0 {
            last
        } else {
            join(parts, sep) + sep + last
        },
    decreases parts.len(),
{
    let all = parts.push(last);
    if parts.len() == 0 {
    } else if parts.len() == 1 {
        assert(all.drop_first() =~= seq![last]);
        assert(join(all.drop_first(), sep) == last);
    } else {
        assert(all.drop_first() =~= parts.drop_first().push(last));
        lemma_join_push(parts.drop_first(), sep, last);
        assert(join(all, sep) =~= join(parts, sep) + sep + last);
    }
}

/// The characters of a string slice, in order.
pub fn chars_of(s: &str) -> (v: Vec<char>)
    ensures
        v@ == s@,
{
    let mut v: Vec<char> = Vec::new();
    for c in it: s.chars()
        invariant
            it.seq() == s@,
            v@ == it.seq().take(it.index()),
    {
        v.push(c);
    }
    v
}

/// Decides the lexicographic order of two texts.
pub fn chars_le(a: &Vec<char>, b: &Vec<char>) -> (r: bool)
    ensures
        r == text_le(a@, b@),
{
    let mut i: usize = 0;
    while i < a.len()
        invariant
            i <= a.len(),
            text_le(a@, b@) == le_from(a@, b@, i as int),
        decreases a.len() - i,
    {
        if i >= b.len() {
            return false;
        }
        let x = a[i];
        let y = b[i];
        if x != y {
            return x < y;
        }
        i += 1;
    }
    true
}

/// Decides whether `needle` stands in `hay` at position `at`.
pub fn chars_at(needle: &Vec<char>, hay: &Vec<char>, at: usize) -> (r: bool)
    requires
        at + needle.len() <= hay.len(),
    ensures
        r == occurs_at(needle@, hay@, at as int),
{
    let mut j: usize = 0;
    while j < needle.len()
        invariant
            j <= needle.len(),
            at + needle.len() <= hay.len(),
            hay@.subrange(at as int, at + j) == needle@.take(j as int),
        decreases needle.len() - j,
    {
        if hay[at + j] != needle[j] {
            assert(hay@.subrange(at as int, at + needle.len())[j as int] != needle@[j as int]);
            return false;
        }
        assert(hay@.subrange(at as int, at + j + 1) =~= hay@.subrange(at as int, at + j).push(
            hay@[at + j],
        ));
        assert(needle@.take(j + 1) =~= needle@.take(j as int).push(needle@[j as int]));
        j += 1;
    }
    assert(needle@.take(needle.len() as int) =~= needle@);
    true
}

/// Decides whether `needle` occurs anywhere in `hay`.
pub fn chars_contain(hay: &Vec<char>, needle: &Vec<char>) -> (r: bool)
    ensures
        r == occurs_in(needle@, hay@),
{
    if needle.len() > hay.len() {
        return false;
    }
    let last: usize = hay.len() - needle.len();
    let mut i: usize = 0;
    loop
        invariant
            last == hay.len() - needle.len(),
            i <= last,
            forall|k: int| 0 <= k < i ==> !occurs_at(needle@, hay@, k),
        decreases last - i,
    {
        if chars_at(needle, hay, i) {
            return true;
        }
        if i == last {
            return false;
        }
        i += 1;
    }
}

/// Writes the parts one after another with `sep` between neighbours.
pub fn join_strings(parts: &Vec<String>, sep: &str) -> (r: String)
    ensures
        r@ == join(parts.deep_view(), sep@),
{
    let mut r = String::new();
    let mut i: usize = 0;
    assert(parts.deep_view().take(0) =~= Seq::<Seq<char>>::empty());
    while i < parts.len()
        invariant
            i <= parts.len(),
            r@ == join(parts.deep_view().take(i as int), sep@),
        decreases parts.len() - i,
    {
        proof {
            let done = parts.deep_view().take(i as int);
            lemma_join_push(done, sep@, parts[i as int]@);
            assert(parts.deep_view().take(i + 1) =~= done.push(parts[i as int]@));
        }
        if i > 0 {
            r.append(sep);
        }
        r.append(parts[i].as_str());
        i += 1;
    }
    assert(parts.deep_view().take(parts.len() as int) =~= parts.deep_view());
    r
}

/// The character of a decimal digit.
pub open spec fn digit(d: nat) -> char {
    if d == 0 {
        '0'
    } else if d == 1 {
        '1'
    } else if d == 2 {
        '2'
    } else if d == 3 {
        '3'
    } else if d == 4 {
        '4'
    } else if d == 5 {
        '5'
    } else if d == 6 {
        '6'
    } else if d == 7 {
        '7'
    } else if d == 8 {
        '8'
    } else {
        '9'
    }
}

/// A number in decimal notation, without leading zeros.
pub open spec fn decimal_text(n: nat) -> Seq<char>
    decreases n,
{
    if n < 10 {
        seq![digit(n)]
    } else {
        decimal_text(n / 10).push(digit(n % 10))
    }
}

/// The text of a decimal digit.
fn digit_text(d: usize) -> (r: &'static str)
    requires
        d < 10,
    ensures
        r@ == seq![digit(d as nat)],
{
    proof {
        reveal_strlit("0");
        reveal_strlit("1");
        reveal_strlit("2");
        reveal_strlit("3");
        reveal_strlit("4");
        reveal_strlit("5");
        reveal_strlit("6");
        reveal_strlit("7");
        reveal_strlit("8");
        reveal_strlit("9");
    }
    let r = if d == 0 {
        "0"
    } else if d == 1 {
        "1"
    } else if d == 2 {
        "2"
    } else if d == 3 {
        "3"
    } else if d == 4 {
        "4"
    } else if d == 5 {
        "5"
    } else if d == 6 {
        "6"
    } else if d == 7 {
        "7"
    } else if d == 8 {
        "8"
    } else {
        "9"
    };
    assert(r@ =~= seq![digit(d as nat)]);
    r
}

/// Writes a number in decimal notation.
pub fn decimal(n: usize) -> (r: String)
    ensures
        r@ == decimal_text(n as nat),
    decreases n,
{
    if n < 10 {
        digit_text(n).to_owned()
    } else {
        let mut r = decimal(n / 10);
        r.append(digit_text(n % 10));
        assert(r@ =~= decimal_text((n / 10) as nat).push(digit((n % 10) as nat)));
        r
    }
}

/// The part of a text after its last separator: the whole text if it has
/// none.
pub open spec fn after_last(text: Seq<char>, sep: char) -> Seq<char>
    decreases text.len(),
{
    if text.len() == 0 {
        text
    } else if text.last() == sep {
        Seq::empty()
    } else {
        after_last(text.drop_last(), sep).push(text.last())
    }
}

/// The part after the last separator starts where no separator follows
/// and one stands before, or at the start.
pub proof fn lemma_after_last(text: Seq<char>, sep: char, start: int)
    requires
        0 <= start <= text.len(),
        forall|j: int| start <= j < text.len() ==> text[j] != sep,
        start > 0 ==> text[start - 1] == sep,
    ensures
        after_last(text, sep) == text.skip(start),
    decreases text.len(),
{
    if text.len() == 0 {
        assert(text.skip(0) =~= text);
    } else if start == text.len() {
        assert(text.skip(start) =~= Seq::<char>::empty());
    } else {
        let front = text.drop_last();
        lemma_after_last(front, sep, start);
        assert(front.skip(start).push(text.last()) =~= text.skip(start));
    }
}

/// The part of a text after its last separator.
pub fn tail_after(text: &str, sep: char) -> (r: String)
    ensures
        r@ == after_last(text@, sep),
{
    let chars = chars_of(text);
    let mut start: usize = chars.len();
    while start > 0 && chars[start - 1] != sep
        invariant
            start <= chars.len(),
            forall|j: int| start <= j < chars.len() ==> chars[j] != sep,
        decreases start,
    {
        start -= 1;
    }
    proof {
        lemma_after_last(text@, sep, start as int);
    }
    text.substring_char(start, chars.len()).to_owned()
}

} // verus!
