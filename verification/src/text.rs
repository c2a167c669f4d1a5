//! Counting the places at which one text stands in another.

use vstd::prelude::*;

verus! {

/// Whether `pattern` stands in `text` at the place `at`.
pub open spec fn stands_at(text: Seq<char>, pattern: Seq<char>, at: int) -> bool {
    &&& 0 <= at
    &&& at + pattern.len() <= text.len()
    &&& text.subrange(at, at + pattern.len()) == pattern
}

/// At how many places from `from` up to `to`, `to` not among them, the
/// pattern stands.
pub open spec fn count_between(text: Seq<char>, pattern: Seq<char>, from: int, to: int) -> nat
    decreases to - from,
{
    if to <= from {
        0
    } else {
        count_between(text, pattern, from, to - 1) + if stands_at(text, pattern, to - 1) {
            1nat
        } else {
            0nat
        }
    }
}

/// At how many places of `text` the pattern stands. Places that overlap
/// count each.
pub open spec fn occurrences(text: Seq<char>, pattern: Seq<char>) -> nat {
    count_between(text, pattern, 0, text.len() as int)
}

/// Whether a character does not occur in a text.
pub open spec fn free_of(text: Seq<char>, c: char) -> bool {
    forall|i: int| 0 <= i < text.len() ==> text[i] != c
}

/// Whether a text is not empty and ends with a character that the pattern
/// does not hold, so that the pattern cannot stand across its end.
pub open spec fn closes(text: Seq<char>, pattern: Seq<char>) -> bool {
    text.len() > 0 && free_of(pattern, text.last())
}

/// A count over a stretch is the sum of the counts over its two parts.
pub proof fn lemma_count_split(text: Seq<char>, pattern: Seq<char>, from: int, mid: int, to: int)
    requires
        from <= mid <= to,
    ensures
        count_between(text, pattern, from, to) == count_between(text, pattern, from, mid)
            + count_between(text, pattern, mid, to),
    decreases to - mid,
{
    if mid < to {
        lemma_count_split(text, pattern, from, mid, to - 1);
    }
}

/// Two texts in which the pattern stands at the same places of a stretch
/// give the same count over it, also where the stretch of the one lies
/// `shift` places further than that of the other.
pub proof fn lemma_count_same(
    one: Seq<char>,
    other: Seq<char>,
    pattern: Seq<char>,
    from: int,
    to: int,
    shift: int,
)
    requires
        forall|i: int|
            from <= i < to ==> stands_at(one, pattern, i) == stands_at(other, pattern, i + shift),
    ensures
        count_between(one, pattern, from, to) == count_between(
            other,
            pattern,
            from + shift,
            to + shift,
        ),
    decreases to - from,
{
    if from < to {
        lemma_count_same(one, other, pattern, from, to - 1, shift);
    }
}

/// Where the pattern stands nowhere in a stretch, the count over it is 0.
pub proof fn lemma_count_none(text: Seq<char>, pattern: Seq<char>, from: int, to: int)
    requires
        forall|i: int| from <= i < to ==> !stands_at(text, pattern, i),
    ensures
        count_between(text, pattern, from, to) == 0,
    decreases to - from,
{
    if from < to {
        lemma_count_none(text, pattern, from, to - 1);
    }
}

/// The pattern stands only where its first character stands.
pub proof fn lemma_stands_on_first(text: Seq<char>, pattern: Seq<char>, at: int)
    requires
        pattern.len() > 0,
        stands_at(text, pattern, at),
    ensures
        text[at] == pattern[0],
{
    assert(text.subrange(at, at + pattern.len())[0] == pattern[0]);
}

/// Counting in a text that is made of two: where the first closes, the
/// pattern stands in the whole as often as in the one and in the other
/// together. The same holds where the first is empty.
pub proof fn lemma_occurrences_add(first: Seq<char>, second: Seq<char>, pattern: Seq<char>)
    requires
        first.len() == 0 || closes(first, pattern),
    ensures
        occurrences(first + second, pattern) == occurrences(first, pattern) + occurrences(
            second,
            pattern,
        ),
{
    let whole = first + second;
    let n = first.len() as int;
    let m = pattern.len() as int;
    lemma_count_split(whole, pattern, 0, n, whole.len() as int);
    assert forall|i: int| 0 <= i < n implies stands_at(first, pattern, i) == stands_at(
        whole,
        pattern,
        i,
    ) by {
        if i + m <= n {
            assert(whole.subrange(i, i + m) =~= first.subrange(i, i + m));
        } else if stands_at(whole, pattern, i) {
            assert(whole.subrange(i, i + m)[n - 1 - i] == pattern[n - 1 - i]);
            assert(whole[n - 1] == first.last());
        }
    }
    lemma_count_same(first, whole, pattern, 0, n, 0);
    assert forall|i: int| 0 <= i < second.len() implies stands_at(second, pattern, i)
        == stands_at(whole, pattern, i + n) by {
        if i + m <= second.len() {
            assert(whole.subrange(i + n, i + n + m) =~= second.subrange(i, i + m));
        }
    }
    lemma_count_same(second, whole, pattern, 0, second.len() as int, n);
}

} // verus!
