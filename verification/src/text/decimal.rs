//! Unsigned decimal numbers as text.
//!
//! Reading accepts an optional `+` followed by one or more ASCII digits,
//! with any number of leading zeros, and reports the first thing that goes
//! wrong when the text is read from left to right. Writing gives the
//! shortest form, optionally padded with a zero to two digits.

use vstd::prelude::*;
use crate::text::push_char;

verus! {

/// Why a text is not a number of the wanted type.
#[derive(Clone, Copy, Debug, PartialEq, Eq, Structural)]
pub enum IntParseError {
    /// The text is empty.
    Empty,
    /// A character that is not a digit stands where a digit is needed.
    InvalidDigit,
    /// The digits read so far already exceed the largest value of the type.
    PosOverflow,
}

/// `c` is one of `0` to `9`.
pub open spec fn is_digit(c: char) -> bool {
    '0' <= c <= '9'
}

/// The number that the digit `c` stands for.
pub open spec fn digit_value(c: char) -> nat
    recommends
        is_digit(c),
{
    (c as u32 - '0' as u32) as nat
}

/// The digit that stands for `d`; `9` for anything above.
pub open spec fn digit_char(d: nat) -> char {
    if d == 0 {
        '0'
    } else if d == 1 {
        '1'
    } else if d == 2 {
        '2'
    } else if d == 3 {
        '3'
    } else if d == 4 {
        '4'
    } else if d == 5 {
        '5'
    } else if d == 6 {
        '6'
    } else if d == 7 {
        '7'
    } else if d == 8 {
        '8'
    } else {
        '9'
    }
}

/// Every character of `s` is a digit.
pub open spec fn all_digits(s: Seq<char>) -> bool {
    forall|i: int| 0 <= i < s.len() ==> is_digit(#[trigger] s[i])
}

/// The number that a run of digits denotes in base ten; 0 for the empty run.
pub open spec fn decimal_value(s: Seq<char>) -> nat
    decreases s.len(),
{
    if s.len() == 0 {
        0
    } else {
        10 * decimal_value(s.drop_last()) + digit_value(s.last())
    }
}

/// How many digits `s` starts with.
pub open spec fn leading_digits(s: Seq<char>) -> int
    decreases s.len(),
{
    if s.len() == 0 || !is_digit(s[0]) {
        0
    } else {
        1 + leading_digits(s.skip(1))
    }
}

/// What remains of a non-empty `s` once an optional leading `+` is taken
/// off. A lone sign is left in place, where it counts as a bad digit.
pub open spec fn unsigned_body(s: Seq<char>) -> Seq<char> {
    if s.len() > 1 && s[0] == '+' {
        s.skip(1)
    } else {
        s
    }
}

/// What `s` reads as, for a type whose largest value is `max`.
///
/// The digits are read from the left. The text is too large as soon as
/// the digits read exceed `max`, even if a bad character follows them; it
/// has a bad digit if one is met before that.
pub open spec fn parse_unsigned(s: Seq<char>, max: nat) -> Result<nat, IntParseError> {
    if s.len() == 0 {
        Err(IntParseError::Empty)
    } else {
        let body = unsigned_body(s);
        let run = body.take(leading_digits(body));
        if decimal_value(run) > max {
            Err(IntParseError::PosOverflow)
        } else if run.len() < body.len() {
            Err(IntParseError::InvalidDigit)
        } else {
            Ok(decimal_value(body))
        }
    }
}

/// The shortest decimal form of `n`.
pub open spec fn decimal_digits(n: nat) -> Seq<char>
    decreases n,
{
    if n < 10 {
        seq![digit_char(n)]
    } else {
        decimal_digits(n / 10).push(digit_char(n % 10))
    }
}

/// The decimal form of `n`, with a zero in front where it has one digit.
pub open spec fn zero_padded(n: nat) -> Seq<char> {
    if n < 10 {
        seq!['0'] + decimal_digits(n)
    } else {
        decimal_digits(n)
    }
}

/// `leading_digits` is in range, everything before it is a digit, and what
/// stands at it, if anything, is not.
pub proof fn lemma_leading_digits(s: Seq<char>)
    ensures
        0 <= leading_digits(s) <= s.len(),
        all_digits(s.take(leading_digits(s))),
        leading_digits(s) < s.len() ==> !is_digit(s[leading_digits(s)]),
    decreases s.len(),
{
    if s.len() == 0 || !is_digit(s[0]) {
    } else {
        lemma_leading_digits(s.skip(1));
        let n = leading_digits(s);
        assert forall|j: int| 0 <= j < n implies is_digit(#[trigger] s.take(n)[j]) by {
            if j > 0 {
                assert(s.skip(1).take(n - 1)[j - 1] == s[j]);
            }
        }
    }
}

/// The leading digits end at `i` when everything before `i` is a digit
/// and `i` is the end of `s` or holds something else.
pub proof fn lemma_leading_digits_is(s: Seq<char>, i: int)
    requires
        0 <= i <= s.len(),
        forall|j: int| 0 <= j < i ==> is_digit(#[trigger] s[j]),
        i < s.len() ==> !is_digit(s[i]),
    ensures
        leading_digits(s) == i,
    decreases s.len(),
{
    if s.len() == 0 || !is_digit(s[0]) {
    } else {
        assert forall|j: int| 0 <= j < i - 1 implies is_digit(#[trigger] s.skip(1)[j]) by {
            assert(s.skip(1)[j] == s[j + 1]);
        }
        lemma_leading_digits_is(s.skip(1), i - 1);
    }
}

/// A longer prefix of a text denotes at least as much as a shorter one.
pub proof fn lemma_decimal_value_monotone(s: Seq<char>, i: int, j: int)
    requires
        0 <= i <= j <= s.len(),
    ensures
        decimal_value(s.take(i)) <= decimal_value(s.take(j)),
    decreases j - i,
{
    if i < j {
        lemma_decimal_value_monotone(s, i, j - 1);
        assert(s.take(j).drop_last() == s.take(j - 1));
    }
}

/// A zero in front does not change what a run of digits denotes.
pub proof fn lemma_decimal_value_leading_zero(s: Seq<char>)
    ensures
        decimal_value(seq!['0'] + s) == decimal_value(s),
    decreases s.len(),
{
    let z = seq!['0'] + s;
    if s.len() == 0 {
        assert(decimal_value(z.drop_last()) == 0);
    } else {
        lemma_decimal_value_leading_zero(s.drop_last());
        assert(z.drop_last() == seq!['0'] + s.drop_last());
    }
}

/// The decimal form of a number is a non-empty run of digits that denotes it.
pub proof fn lemma_decimal_digits(n: nat)
    ensures
        decimal_digits(n).len() >= 1,
        all_digits(decimal_digits(n)),
        decimal_value(decimal_digits(n)) == n,
    decreases n,
{
    if n < 10 {
        let s = decimal_digits(n);
        assert(decimal_value(s.drop_last()) == 0);
    } else {
        lemma_decimal_digits(n / 10);
        let s = decimal_digits(n);
        assert(s.drop_last() == decimal_digits(n / 10));
    }
}

/// A non-empty run of digits reads as what it denotes, if that fits.
pub proof fn lemma_parse_all_digits(s: Seq<char>, max: nat)
    requires
        s.len() >= 1,
        all_digits(s),
        decimal_value(s) <= max,
    ensures
        parse_unsigned(s, max) == Ok::<nat, IntParseError>(decimal_value(s)),
{
    lemma_leading_digits_is(s, s.len() as int);
    assert(s.take(s.len() as int) == s);
}

/// Reading the decimal form of a number that fits gives the number back.
pub proof fn lemma_parse_decimal_digits(n: nat, max: nat)
    requires
        n <= max,
    ensures
        parse_unsigned(decimal_digits(n), max) == Ok::<nat, IntParseError>(n),
{
    lemma_decimal_digits(n);
    lemma_parse_all_digits(decimal_digits(n), max);
}

/// The padded form is a run of digits too, and denotes the same number.
pub proof fn lemma_zero_padded(n: nat)
    ensures
        zero_padded(n).len() >= 2,
        all_digits(zero_padded(n)),
        decimal_value(zero_padded(n)) == n,
{
    lemma_decimal_digits(n);
    if n < 10 {
        lemma_decimal_value_leading_zero(decimal_digits(n));
    } else {
        lemma_decimal_digits(n / 10);
    }
}

/// Reading the padded form of a number that fits gives the number back.
pub proof fn lemma_parse_zero_padded(n: nat, max: nat)
    requires
        n <= max,
    ensures
        parse_unsigned(zero_padded(n), max) == Ok::<nat, IntParseError>(n),
{
    lemma_zero_padded(n);
    lemma_parse_all_digits(zero_padded(n), max);
}

/// Reads `s` as a number that is at most `max`.
pub fn parse_bounded(s: &[char], max: u32) -> (r: Result<u32, IntParseError>)
    ensures
        parse_unsigned(s@, max as nat) == match r {
            Ok(v) => Ok::<nat, IntParseError>(v as nat),
            Err(e) => Err(e),
        },
        r is Ok ==> r->Ok_0 <= max,
{
    if s.len() == 0 {
        return Err(IntParseError::Empty);
    }
    let first: usize = if s.len() > 1 && s[0] == '+' {
        1
    } else {
        0
    };
    let body = &s[first..s.len()];
    assert(body@ == unsigned_body(s@));
    let mut acc: u32 = 0;
    let mut i: usize = 0;
    while i < body.len()
        invariant
            i <= body.len(),
            s@.len() > 0,
            body@ == unsigned_body(s@),
            forall|j: int| 0 <= j < i ==> is_digit(#[trigger] body@[j]),
            acc == decimal_value(body@.take(i as int)),
            acc <= max,
        decreases body.len() - i,
    {
        let c = body[i];
        if !('0' <= c && c <= '9') {
            proof {
                lemma_leading_digits_is(body@, i as int);
            }
            return Err(IntParseError::InvalidDigit);
        }
        let d: u64 = (c as u32 - '0' as u32) as u64;
        let next: u64 = acc as u64 * 10 + d;
        proof {
            assert(body@.take(i + 1).drop_last() == body@.take(i as int));
            assert(next == decimal_value(body@.take(i + 1)));
        }
        if next > max as u64 {
            proof {
                lemma_leading_digits(body@);
                let k = leading_digits(body@);
                if k < i + 1 {
                    assert(is_digit(body@[k]));
                }
                let run = body@.take(k);
                assert(run.take(i + 1) == body@.take(i + 1));
                assert(run.take(k) == run);
                lemma_decimal_value_monotone(run, i + 1, k);
            }
            return Err(IntParseError::PosOverflow);
        }
        acc = next as u32;
        i += 1;
    }
    proof {
        lemma_leading_digits_is(body@, body.len() as int);
        assert(body@.take(body.len() as int) == body@);
    }
    Ok(acc)
}

/// Reads `s` as a `u8`.
pub fn parse_u8(s: &[char]) -> (r: Result<u8, IntParseError>)
    ensures
        parse_unsigned(s@, 0xff) == match r {
            Ok(v) => Ok::<nat, IntParseError>(v as nat),
            Err(e) => Err(e),
        },
{
    match parse_bounded(s, 0xff) {
        Ok(v) => Ok(v as u8),
        Err(e) => Err(e),
    }
}

/// Reads `s` as a `u16`.
pub fn parse_u16(s: &[char]) -> (r: Result<u16, IntParseError>)
    ensures
        parse_unsigned(s@, 0xffff) == match r {
            Ok(v) => Ok::<nat, IntParseError>(v as nat),
            Err(e) => Err(e),
        },
{
    match parse_bounded(s, 0xffff) {
        Ok(v) => Ok(v as u16),
        Err(e) => Err(e),
    }
}

/// The digit for `d`; `9` for anything above.
pub fn digit_of(d: u16) -> (c: char)
    ensures
        c == digit_char(d as nat),
{
    if d == 0 {
        '0'
    } else if d == 1 {
        '1'
    } else if d == 2 {
        '2'
    } else if d == 3 {
        '3'
    } else if d == 4 {
        '4'
    } else if d == 5 {
        '5'
    } else if d == 6 {
        '6'
    } else if d == 7 {
        '7'
    } else if d == 8 {
        '8'
    } else {
        '9'
    }
}

/// Appends the shortest decimal form of `n` to `out`.
pub fn push_decimal(out: &mut String, n: u16)
    ensures
        final(out)@ == old(out)@ + decimal_digits(n as nat),
    decreases n,
{
    if n >= 10 {
        push_decimal(out, n / 10);
    }
    push_char(out, digit_of(n % 10));
    proof {
        if n >= 10 {
            assert((old(out)@ + decimal_digits(n as nat / 10)).push(digit_char(n as nat % 10))
                == old(out)@ + decimal_digits(n as nat));
        } else {
            assert(old(out)@.push(digit_char(n as nat)) == old(out)@ + decimal_digits(n as nat));
        }
    }
}

/// Appends the decimal form of `n` to `out`, padded with a zero to two digits.
pub fn push_zero_padded(out: &mut String, n: u8)
    ensures
        final(out)@ == old(out)@ + zero_padded(n as nat),
{
    if n < 10 {
        push_char(out, '0');
    }
    push_decimal(out, n as u16);
    proof {
        if n < 10 {
            assert(old(out)@.push('0') + decimal_digits(n as nat) == old(out)@ + zero_padded(
                n as nat,
            ));
        }
    }
}

} // verus!
