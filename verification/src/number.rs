//! Unsigned decimal numbers read from text, as the standard library's
//! `FromStr` for unsigned integers reads them.
use vstd::prelude::*;
use crate::ipv4::{is_digit, digit_value};

verus! {

/// Why text is not an unsigned decimal number in range.
#[derive(Clone, Copy, Debug, PartialEq, Eq, Structural)]
pub enum NumberError {
    /// The text is empty.
    Empty,
    /// A character is not a decimal digit (a lone `+` included).
    InvalidDigit,
    /// The number exceeds the largest value allowed.
    TooLarge,
}

/// Reads the digits `d` from the left onto the running value `acc`; the first
/// character that is not a digit, or the first digit that takes the value
/// past `max`, decides the error.
pub open spec fn digits_value(d: Seq<char>, acc: int, max: int) -> Result<int, NumberError>
    decreases d.len(),
{
    if d.len() == 0 {
        Ok(acc)
    } else if !is_digit(d[0]) {
        Err(NumberError::InvalidDigit)
    } else if acc * 10 + digit_value(d[0]) > max {
        Err(NumberError::TooLarge)
    } else {
        digits_value(d.drop_first(), acc * 10 + digit_value(d[0]), max)
    }
}

/// The value of `s` as an unsigned decimal number of at most `max`: an
/// optional leading `+` followed by at least one digit.
pub open spec fn decimal_number(s: Seq<char>, max: int) -> Result<int, NumberError> {
    if s.len() == 0 {
        Err(NumberError::Empty)
    } else if s[0] == '+' {
        if s.len() == 1 {
            Err(NumberError::InvalidDigit)
        } else {
            digits_value(s.drop_first(), 0, max)
        }
    } else {
        digits_value(s, 0, max)
    }
}

/// A successful read never exceeds `max` nor falls below the running value.
proof fn lemma_digits_value_bounds(d: Seq<char>, acc: int, max: int)
    requires
        0 <= acc <= max,
    ensures
        digits_value(d, acc, max) matches Ok(v) ==> acc <= v <= max,
    decreases d.len(),
{
    if d.len() > 0 && is_digit(d[0]) && acc * 10 + digit_value(d[0]) <= max {
        lemma_digits_value_bounds(d.drop_first(), acc * 10 + digit_value(d[0]), max);
    }
}

/// A number read from text lies between zero and `max`.
pub proof fn lemma_decimal_number_bounds(s: Seq<char>, max: int)
    requires
        0 <= max,
    ensures
        decimal_number(s, max) matches Ok(v) ==> 0 <= v <= max,
{
    lemma_digits_value_bounds(s, 0, max);
    if s.len() > 0 {
        lemma_digits_value_bounds(s.drop_first(), 0, max);
    }
}

/// Appending a digit to digits that read as `n` reads as `n * 10` plus the
/// digit, when that stays within `max`, and as too large otherwise.
proof fn lemma_digits_value_push(d: Seq<char>, acc: int, max: int, c: char)
    requires
        digits_value(d, acc, max) is Ok,
        is_digit(c),
    ensures
        ({
            let n = digits_value(d, acc, max)->Ok_0;
            digits_value(d.push(c), acc, max) == if n * 10 + digit_value(c) <= max {
                Ok::<int, NumberError>(n * 10 + digit_value(c))
            } else {
                Err::<int, NumberError>(NumberError::TooLarge)
            }
        }),
    decreases d.len(),
{
    if d.len() > 0 {
        assert(d.push(c).drop_first() =~= d.drop_first().push(c));
        assert(d.push(c)[0] == d[0]);
        lemma_digits_value_push(d.drop_first(), acc * 10 + digit_value(d[0]), max, c);
    } else {
        assert(d.push(c)[0] == c);
        assert(d.push(c).drop_first() =~= Seq::<char>::empty());
        assert(digits_value(Seq::<char>::empty(), acc * 10 + digit_value(c), max) == Ok::<
            int,
            NumberError,
        >(acc * 10 + digit_value(c)));
    }
}

/// Digits with a character that is not a digit among them never read.
proof fn lemma_digits_value_non_digit(d: Seq<char>, acc: int, max: int, i: int)
    requires
        0 <= i < d.len(),
        !is_digit(d[i]),
    ensures
        digits_value(d, acc, max) is Err,
    decreases d.len(),
{
    if i > 0 && is_digit(d[0]) && acc * 10 + digit_value(d[0]) <= max {
        assert(d.drop_first()[i - 1] == d[i]);
        lemma_digits_value_non_digit(d.drop_first(), acc * 10 + digit_value(d[0]), max, i - 1);
    }
}

/// A single digit reads as its value, when within `max`; empty text never
/// reads.
pub proof fn law_decimal_single_digit(c: char, max: int)
    ensures
        is_digit(c) && digit_value(c) <= max ==> decimal_number(seq![c], max) == Ok::<
            int,
            NumberError,
        >(digit_value(c)),
        decimal_number(Seq::empty(), max) == Err::<int, NumberError>(NumberError::Empty),
{
    assert('+' as u32 == 43);
    assert(seq![c].drop_first() =~= Seq::<char>::empty());
    assert(digits_value(Seq::<char>::empty(), digit_value(c), max) == Ok::<int, NumberError>(
        digit_value(c),
    ));
}

/// Appending a digit to text that reads as `n` gives `n * 10` plus the digit,
/// when that stays within `max`, and too large otherwise.
pub proof fn law_decimal_append_digit(s: Seq<char>, c: char, max: int)
    requires
        decimal_number(s, max) is Ok,
        is_digit(c),
    ensures
        ({
            let n = decimal_number(s, max)->Ok_0;
            decimal_number(s.push(c), max) == if n * 10 + digit_value(c) <= max {
                Ok::<int, NumberError>(n * 10 + digit_value(c))
            } else {
                Err::<int, NumberError>(NumberError::TooLarge)
            }
        }),
{
    if s[0] == '+' {
        assert(s.push(c).drop_first() =~= s.drop_first().push(c));
        lemma_digits_value_push(s.drop_first(), 0, max, c);
    } else {
        lemma_digits_value_push(s, 0, max, c);
    }
}

/// Text with a character that is neither a digit nor a leading `+` never
/// reads as a number.
pub proof fn law_decimal_rejects_non_digits(s: Seq<char>, i: int, max: int)
    requires
        0 <= i < s.len(),
        !is_digit(s[i]),
        !(i == 0 && s[i] == '+'),
    ensures
        decimal_number(s, max) is Err,
{
    if s[0] == '+' && s.len() > 1 {
        assert(s.drop_first()[i - 1] == s[i]);
        lemma_digits_value_non_digit(s.drop_first(), 0, max, i - 1);
    } else if s[0] != '+' {
        lemma_digits_value_non_digit(s, 0, max, i);
    }
}

/// A leading `+` before text that does not start with `+` changes nothing.
pub proof fn law_decimal_leading_plus(s: Seq<char>, max: int)
    requires
        s.len() > 0,
        s[0] != '+',
    ensures
        decimal_number(seq!['+'] + s, max) == decimal_number(s, max),
{
    assert((seq!['+'] + s).drop_first() =~= s);
}

/// Reads `s` as an unsigned decimal number of at most `max`, as
/// `u64::from_str` does when `max` is `u64::MAX` (and `u32::from_str` when it
/// is `u32::MAX`).
pub fn parse_decimal(s: &str, max: u64) -> (r: Result<u64, NumberError>)
    ensures
        match decimal_number(s@, max as int) {
            Ok(v) => r == Ok::<u64, NumberError>(v as u64),
            Err(e) => r == Err::<u64, NumberError>(e),
        },
        r matches Ok(v) ==> v <= max,
{
    let n: usize = s.unicode_len();
    if n == 0 {
        return Err(NumberError::Empty);
    }
    let mut i: usize = 0;
    if s.get_char(0) == '+' {
        if n == 1 {
            return Err(NumberError::InvalidDigit);
        }
        i = 1;
    }
    let ghost digits = s@.subrange(i as int, n as int);
    proof {
        if i == 1 {
            assert(digits =~= s@.drop_first());
        } else {
            assert(digits =~= s@);
        }
    }
    let mut acc: u64 = 0;
    while i < n
        invariant
            n == s@.len(),
            i <= n,
            acc <= max,
            decimal_number(s@, max as int) == digits_value(
                s@.subrange(i as int, n as int),
                acc as int,
                max as int,
            ),
        decreases n - i,
    {
        let ghost rest = s@.subrange(i as int, n as int);
        let c = s.get_char(i);
        let u: u32 = c as u32;
        if u < 48 || u > 57 {
            return Err(NumberError::InvalidDigit);
        }
        let d: u64 = (u - 48) as u64;
        if (acc as u128) * 10 + (d as u128) > (max as u128) {
            return Err(NumberError::TooLarge);
        }
        acc = acc * 10 + d;
        assert(rest.drop_first() =~= s@.subrange(i + 1, n as int));
        i = i + 1;
    }
    Ok(acc)
}

} // verus!
