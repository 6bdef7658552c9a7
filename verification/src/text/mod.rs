//! Character-level building blocks shared by the text forms: turning a
//! string into characters and back, splitting on a separator, and decimal
//! numbers.

use vstd::prelude::*;

pub mod decimal;
pub mod split;

verus! {

/// The characters of `s`, in order.
pub fn to_chars(s: &str) -> (out: Vec<char>)
    ensures
        out@ == s@,
{
    let mut out: Vec<char> = Vec::new();
    for c in it: s.chars()
        invariant
            it.seq() == s@,
            out@ == it.seq().take(it.index()),
    {
        out.push(c);
    }
    out
}

/// Appends one character to `out`.
///
/// Trusted: this is `String::push` of the standard library, which is
/// documented to append the given character to the end of the string.
#[verifier::external_body]
pub(crate) fn push_char(out: &mut String, c: char)
    ensures
        final(out)@ == old(out)@.push(c),
{
    out.push(c)
}

/// Appends the characters of `s` to `out`.
pub fn push_chars(out: &mut String, s: &[char])
    ensures
        final(out)@ == old(out)@ + s@,
{
    let mut i: usize = 0;
    while i < s.len()
        invariant
            i <= s.len(),
            out@ == old(out)@ + s@.take(i as int),
        decreases s.len() - i,
    {
        push_char(out, s[i]);
        i += 1;
        assert(s@.take(i as int) == s@.take(i - 1).push(s@[i - 1]));
    }
    assert(s@.take(s.len() as int) == s@);
}

/// The string made of the characters of `s`.
pub fn to_string(s: &[char]) -> (out: String)
    ensures
        out@ == s@,
{
    let mut out = String::new();
    push_chars(&mut out, s);
    out
}

} // verus!
