//! Splitting a sequence of characters on a separator character.
//!
//! A text with `n` separators has `n + 1` fields, some of which may be
//! empty: the empty text has one empty field.

use vstd::prelude::*;

verus! {

/// No character of `s` is `sep`.
pub open spec fn separator_free(s: Seq<char>, sep: char) -> bool {
    forall|i: int| 0 <= i < s.len() ==> s[i] != sep
}

/// The position of the first `sep` in `s`, or the length of `s` if it has none.
pub open spec fn first_separator(s: Seq<char>, sep: char) -> int
    decreases s.len(),
{
    if s.len() == 0 || s[0] == sep {
        0
    } else {
        1 + first_separator(s.skip(1), sep)
    }
}

/// The fields of `s`: the maximal runs of characters between separators.
pub open spec fn split(s: Seq<char>, sep: char) -> Seq<Seq<char>>
    decreases s.len(),
{
    let i = first_separator(s, sep);
    if 0 <= i < s.len() {
        seq![s.take(i)] + split(s.skip(i + 1), sep)
    } else {
        seq![s]
    }
}

/// `first_separator` is in range, nothing before it is a separator, and
/// what stands at it, if anything, is one.
pub proof fn lemma_first_separator(s: Seq<char>, sep: char)
    ensures
        0 <= first_separator(s, sep) <= s.len(),
        separator_free(s.take(first_separator(s, sep)), sep),
        first_separator(s, sep) < s.len() ==> s[first_separator(s, sep)] == sep,
    decreases s.len(),
{
    if s.len() == 0 || s[0] == sep {
    } else {
        lemma_first_separator(s.skip(1), sep);
        let i = first_separator(s, sep);
        assert forall|j: int| 0 <= j < i implies s.take(i)[j] != sep by {
            if j > 0 {
                assert(s.skip(1).take(i - 1)[j - 1] == s[j]);
            }
        }
    }
}

/// The first separator is at `i` when nothing before `i` is a separator
/// and `i` is the end of `s` or holds one.
pub proof fn lemma_first_separator_is(s: Seq<char>, sep: char, i: int)
    requires
        0 <= i <= s.len(),
        forall|j: int| 0 <= j < i ==> s[j] != sep,
        i < s.len() ==> s[i] == sep,
    ensures
        first_separator(s, sep) == i,
    decreases s.len(),
{
    if s.len() == 0 || s[0] == sep {
    } else {
        assert forall|j: int| 0 <= j < i - 1 implies s.skip(1)[j] != sep by {
            assert(s.skip(1)[j] == s[j + 1]);
        }
        lemma_first_separator_is(s.skip(1), sep, i - 1);
    }
}

/// A text without separators is its own single field.
pub proof fn lemma_split_single(s: Seq<char>, sep: char)
    requires
        separator_free(s, sep),
    ensures
        split(s, sep) == seq![s],
{
    lemma_first_separator_is(s, sep, s.len() as int);
}

/// A separator-free text followed by a separator and a rest: the text is
/// the first field, and the other fields are those of the rest.
pub proof fn lemma_split_first(head: Seq<char>, sep: char, rest: Seq<char>)
    requires
        separator_free(head, sep),
    ensures
        split(head + seq![sep] + rest, sep) == seq![head] + split(rest, sep),
{
    let s = head + seq![sep] + rest;
    let i = head.len() as int;
    lemma_first_separator_is(s, sep, i);
    assert(s.take(i) == head);
    assert(s.skip(i + 1) == rest);
}

/// A separator-free text after a separator and what comes before: the
/// text is the last field, and the other fields are those of what comes
/// before.
pub proof fn lemma_split_last(front: Seq<char>, sep: char, last: Seq<char>)
    requires
        separator_free(last, sep),
    ensures
        split(front + seq![sep] + last, sep) == split(front, sep).push(last),
    decreases front.len(),
{
    lemma_first_separator(front, sep);
    let i = first_separator(front, sep);
    let head = front.take(i);
    assert forall|j: int| 0 <= j < head.len() implies head[j] != sep by {
        assert(front.take(i)[j] != sep);
    }
    if i < front.len() {
        let rest = front.skip(i + 1);
        assert(front + seq![sep] + last == head + seq![sep] + (rest + seq![sep] + last));
        lemma_split_first(head, sep, rest + seq![sep] + last);
        lemma_split_last(rest, sep, last);
        assert(seq![head] + split(rest, sep).push(last) == (seq![head] + split(rest, sep)).push(
            last,
        ));
    } else {
        assert(head == front);
        lemma_split_first(front, sep, last);
        lemma_split_single(last, sep);
        assert(seq![front] + seq![last] == seq![front].push(last));
    }
}

/// The fields of `s`, as slices of it.
pub fn split_fields<'a>(s: &'a [char], sep: char) -> (fields: Vec<&'a [char]>)
    ensures
        fields.len() == split(s@, sep).len(),
        forall|k: int| 0 <= k < fields.len() ==> (#[trigger] fields[k])@ == split(s@, sep)[k],
{
    let mut fields: Vec<&'a [char]> = Vec::new();
    let mut start: usize = 0;
    let mut i: usize = 0;
    let ghost mut done: Seq<Seq<char>> = Seq::empty();
    proof {
        assert(s@.skip(0) == s@);
    }
    while i < s.len()
        invariant
            start <= i <= s.len(),
            forall|j: int| start <= j < i ==> s@[j] != sep,
            fields.len() == done.len(),
            forall|k: int| 0 <= k < fields.len() ==> (#[trigger] fields[k])@ == done[k],
            split(s@, sep) == done + split(s@.skip(start as int), sep),
        decreases s.len() - i,
    {
        if s[i] == sep {
            let field = &s[start..i];
            proof {
                let tail = s@.skip(start as int);
                lemma_first_separator_is(tail, sep, i - start);
                assert(tail.take(i - start) == field@);
                assert(tail.skip(i - start + 1) == s@.skip(i + 1));
                assert(done + (seq![field@] + split(s@.skip(i + 1), sep)) == done.push(field@)
                    + split(s@.skip(i + 1), sep));
                done = done.push(field@);
            }
            fields.push(field);
            start = i + 1;
        }
        i += 1;
    }
    let field = &s[start..s.len()];
    proof {
        let tail = s@.skip(start as int);
        assert(tail == field@);
        lemma_split_single(tail, sep);
        assert(done + seq![field@] == done.push(field@));
    }
    fields.push(field);
    fields
}

} // verus!
