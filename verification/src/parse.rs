//! Settings given as text: a retention rule such as `100kb:5m`, a
//! credential such as `name:password`.

use crate::expiration::Threshold;
use crate::options::{parse_size, size_of_text, Credential};
use vstd::prelude::*;

verus! {

/// Position of the first `c` in `text`, or the length of `text` when there
/// is none.
pub open spec fn first_position(text: Seq<char>, c: char) -> int
    decreases text.len(),
{
    if text.len() == 0 {
        0
    } else if text[0] == c {
        0
    } else {
        1 + first_position(text.drop_first(), c)
    }
}

/// `first_position` is the least position of `c`.
pub proof fn lemma_first_position(text: Seq<char>, c: char)
    ensures
        0 <= first_position(text, c) <= text.len(),
        forall|j: int| 0 <= j < first_position(text, c) ==> text[j] != c,
        first_position(text, c) < text.len() ==> text[first_position(text, c)] == c,
    decreases text.len(),
{
    if text.len() > 0 && text[0] != c {
        let rest = text.drop_first();
        lemma_first_position(rest, c);
        assert forall|j: int| 0 <= j < first_position(text, c) implies text[j] != c by {
            if j > 0 {
                assert(text[j] == rest[j - 1]);
            }
        }
        let k = first_position(rest, c);
        if k < rest.len() {
            assert(text[k + 1] == rest[k]);
        }
    }
}

/// A position that holds `c`, with no `c` before it, is the one that
/// `first_position` names.
pub proof fn lemma_first_position_is(text: Seq<char>, c: char, k: int)
    requires
        0 <= k <= text.len(),
        forall|j: int| 0 <= j < k ==> text[j] != c,
        k < text.len() ==> text[k] == c,
    ensures
        first_position(text, c) == k,
{
    lemma_first_position(text, c);
    let f = first_position(text, c);
    if f < k {
        assert(text[f] != c);
    } else if k < f {
        assert(text[k] != c);
    }
}

/// Whether the character is a decimal digit.
pub open spec fn is_digit(c: char) -> bool {
    '0' <= c <= '9'
}

/// The value of a decimal digit.
pub open spec fn digit_value(c: char) -> nat {
    (c as u32 - '0' as u32) as nat
}

/// The number that the digits spell, read as a decimal numeral.
pub open spec fn decimal_value(digits: Seq<char>) -> nat
    decreases digits.len(),
{
    if digits.len() == 0 {
        0
    } else {
        decimal_value(digits.drop_last()) * 10 + digit_value(digits.last())
    }
}

/// The text is made of decimal digits only.
pub open spec fn all_digits(text: Seq<char>) -> bool {
    forall|i: int| 0 <= i < text.len() ==> is_digit(#[trigger] text[i])
}

/// The number that a text stands for: the text is a decimal numeral of at
/// least one digit whose value fits in 64 bits.
pub open spec fn number_of(text: Seq<char>) -> Option<u64> {
    if text.len() > 0 && all_digits(text) && decimal_value(text) <= u64::MAX {
        Some(decimal_value(text) as u64)
    } else {
        None
    }
}

/// The seconds in one unit of time: `s`, `m`, `h` or `d`.
pub open spec fn unit_seconds(unit: char) -> Option<u64> {
    if unit == 's' {
        Some(1u64)
    } else if unit == 'm' {
        Some(60u64)
    } else if unit == 'h' {
        Some(3600u64)
    } else if unit == 'd' {
        Some(86400u64)
    } else {
        None
    }
}

/// The seconds that a text such as `90s`, `5m`, `12h` or `7d` stands for: a
/// number and one unit, whose product fits in 64 bits.
pub open spec fn duration_of_text(text: Seq<char>) -> Option<u64> {
    if text.len() == 0 {
        None
    } else {
        match (number_of(text.drop_last()), unit_seconds(text.last())) {
            (Some(n), Some(factor)) => if n * factor <= u64::MAX {
                Some((n * factor) as u64)
            } else {
                None
            },
            _ => None,
        }
    }
}

/// Why a text is not a retention rule.
#[derive(Clone, Copy, Debug, PartialEq, Eq, Structural)]
pub enum ThresholdParseError {
    /// There is no colon between size and duration.
    MissingSeparator,
    /// What stands before the colon is not a size.
    InvalidSize,
    /// What stands after the colon is not a duration.
    InvalidDuration,
}

/// The retention rule that a text `size:duration` stands for. The size is
/// what stands before the first colon, the duration what stands after it.
pub open spec fn threshold_of(text: Seq<char>) -> Result<Threshold, ThresholdParseError> {
    let colon = first_position(text, ':');
    if colon >= text.len() {
        Err(ThresholdParseError::MissingSeparator)
    } else {
        match size_of_text(text.subrange(0, colon)) {
            None => Err(ThresholdParseError::InvalidSize),
            Some(max_size) => match duration_of_text(text.subrange(colon + 1, text.len() as int)) {
                None => Err(ThresholdParseError::InvalidDuration),
                Some(duration) => Ok(Threshold { max_size, duration }),
            },
        }
    }
}

/// A longer numeral is worth at least as much as any of its front parts.
pub proof fn lemma_decimal_value_grows(digits: Seq<char>, n: int)
    requires
        0 <= n <= digits.len(),
    ensures
        decimal_value(digits.take(n)) <= decimal_value(digits),
    decreases digits.len() - n,
{
    if n < digits.len() {
        lemma_decimal_value_grows(digits, n + 1);
        assert(digits.take(n + 1).drop_last() =~= digits.take(n));
        assert(decimal_value(digits.take(n)) <= decimal_value(digits.take(n + 1))) by {
            let v = decimal_value(digits.take(n));
            assert(v <= v * 10 + digit_value(digits.take(n + 1).last())) by (nonlinear_arith)
                requires
                    v >= 0,
                    digit_value(digits.take(n + 1).last()) >= 0,
            ;
        }
    } else {
        assert(digits.take(n) =~= digits);
    }
}

/// Position of the first `c` in `text`.
pub fn find(text: &str, c: char) -> (r: Option<usize>)
    ensures
        match r {
            Some(i) => i == first_position(text@, c) && i < text@.len(),
            None => first_position(text@, c) == text@.len(),
        },
{
    let n = text.unicode_len();
    let mut i: usize = 0;
    while i < n
        invariant
            n == text@.len(),
            i <= n,
            forall|j: int| 0 <= j < i ==> text@[j] != c,
        decreases n - i,
    {
        if text.get_char(i) == c {
            proof {
                lemma_first_position_is(text@, c, i as int);
            }
            return Some(i);
        }
        i += 1;
    }
    proof {
        lemma_first_position_is(text@, c, i as int);
    }
    None
}

/// Reads a decimal numeral of at least one digit.
pub fn parse_number(text: &str) -> (r: Option<u64>)
    ensures
        r == number_of(text@),
{
    let n = text.unicode_len();
    if n == 0 {
        return None;
    }
    let mut value: u64 = 0;
    let mut i: usize = 0;
    while i < n
        invariant
            n == text@.len(),
            i <= n,
            all_digits(text@.take(i as int)),
            value == decimal_value(text@.take(i as int)),
        decreases n - i,
    {
        let c = text.get_char(i);
        proof {
            assert(text@.take(i + 1).drop_last() =~= text@.take(i as int));
            assert(text@.take(i + 1).last() == c);
        }
        if !('0' <= c && c <= '9') {
            proof {
                assert(!is_digit(text@[i as int]));
            }
            return None;
        }
        let digit = (c as u32 - '0' as u32) as u64;
        let next = match value.checked_mul(10) {
            Some(tens) => tens.checked_add(digit),
            None => None,
        };
        match next {
            Some(v) => {
                value = v;
            },
            None => {
                proof {
                    assert(decimal_value(text@.take(i + 1)) > u64::MAX);
                    lemma_decimal_value_grows(text@, i + 1);
                }
                return None;
            },
        }
        proof {
            assert forall|j: int| 0 <= j < i + 1 implies is_digit(
                #[trigger] text@.take(i + 1)[j],
            ) by {
                if j < i {
                    assert(text@.take(i + 1)[j] == text@.take(i as int)[j]);
                }
            }
        }
        i += 1;
    }
    proof {
        assert(text@.take(i as int) =~= text@);
    }
    Some(value)
}

/// Reads a duration: a number followed by `s`, `m`, `h` or `d`. The result
/// is in seconds.
pub fn parse_duration(text: &str) -> (r: Option<u64>)
    ensures
        r == duration_of_text(text@),
{
    let n = text.unicode_len();
    if n == 0 {
        return None;
    }
    let unit = text.get_char(n - 1);
    let factor: u64 = if unit == 's' {
        1
    } else if unit == 'm' {
        60
    } else if unit == 'h' {
        3600
    } else if unit == 'd' {
        86400
    } else {
        return None;
    };
    let digits = text.substring_char(0, n - 1);
    proof {
        assert(digits@ =~= text@.drop_last());
    }
    match parse_number(digits) {
        Some(count) => count.checked_mul(factor),
        None => None,
    }
}

/// Reads a retention rule of the form `size:duration`.
pub fn parse_threshold(text: &str) -> (r: Result<Threshold, ThresholdParseError>)
    ensures
        r == threshold_of(text@),
{
    let n = text.unicode_len();
    let colon = match find(text, ':') {
        Some(colon) => colon,
        None => {
            return Err(ThresholdParseError::MissingSeparator);
        },
    };
    let max_size = match parse_size(text.substring_char(0, colon)) {
        Ok(max_size) => max_size,
        Err(_) => {
            return Err(ThresholdParseError::InvalidSize);
        },
    };
    match parse_duration(text.substring_char(colon + 1, n)) {
        Some(duration) => Ok(Threshold { max_size, duration }),
        None => Err(ThresholdParseError::InvalidDuration),
    }
}

/// The name and the password that a text `name:password` stands for: what
/// stands before the first colon, and what stands after it.
pub open spec fn credential_of(text: Seq<char>) -> Option<(Seq<char>, Seq<char>)> {
    let colon = first_position(text, ':');
    if colon >= text.len() {
        None
    } else {
        Some((text.subrange(0, colon), text.subrange(colon + 1, text.len() as int)))
    }
}

/// Reads a credential of the form `name:password`. The password may hold
/// colons, the name may not.
pub fn parse_credential(text: &str) -> (r: Option<Credential>)
    ensures
        match r {
            Some(c) => credential_of(text@) == Some((c.username@, c.password@)),
            None => credential_of(text@) is None,
        },
{
    let n = text.unicode_len();
    match find(text, ':') {
        Some(colon) => Some(
            Credential {
                username: text.substring_char(0, colon).to_owned(),
                password: text.substring_char(colon + 1, n).to_owned(),
            },
        ),
        None => None,
    }
}

} // verus!
