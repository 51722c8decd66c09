//! The value of an integer literal.

use crate::lexer::chars::{chars_of, digit, is_digit};
use vstd::prelude::*;

verus! {

/// The number that a digit stands for.
pub open spec fn digit_value(c: char) -> int {
    c as int - '0' as int
}

/// The number that a sequence of digits denotes in base ten. The empty
/// sequence denotes zero.
pub open spec fn decimal_value(digits: Seq<char>) -> int
    decreases digits.len(),
{
    if digits.len() == 0 {
        0
    } else {
        10 * decimal_value(digits.drop_last()) + digit_value(digits.last())
    }
}

/// Whether every character of `s` is a decimal digit.
pub open spec fn all_digits(s: Seq<char>) -> bool {
    forall|i: int| 0 <= i < s.len() ==> digit(#[trigger] s[i])
}

/// The length of the sign that `raw` starts with: one if there is a sign,
/// zero if there is none.
pub open spec fn sign_length(raw: Seq<char>) -> int {
    if raw.len() > 0 && (raw[0] == '-' || raw[0] == '+') {
        1
    } else {
        0
    }
}

/// The value of the text of an integer literal: an optional sign, `+` or
/// `-`, and then one or more decimal digits and nothing else. A text of
/// another shape has no value, and neither has one whose number does not fit
/// in 32 bits.
pub open spec fn integer_literal(raw: Seq<char>) -> Option<int> {
    let negative = raw.len() > 0 && raw[0] == '-';
    let digits = raw.skip(sign_length(raw));
    let value = if negative {
        -decimal_value(digits)
    } else {
        decimal_value(digits)
    };
    if digits.len() > 0 && all_digits(digits) && i32::MIN <= value <= i32::MAX {
        Some(value)
    } else {
        None
    }
}

/// The number that the digit `c` stands for.
fn value_of_digit(c: char) -> (d: i64)
    requires
        digit(c),
    ensures
        d == digit_value(c),
        0 <= d <= 9,
{
    (c as u32 - '0' as u32) as i64
}

/// The value of the text of an integer literal, if it has one.
pub fn parse_integer(raw: &str) -> (r: Option<i32>)
    ensures
        match r {
            Some(value) => integer_literal(raw@) == Some(value as int),
            None => integer_literal(raw@) is None,
        },
{
    let chars = chars_of(raw);
    let negative = chars.len() > 0 && chars[0] == '-';
    let signed = chars.len() > 0 && (chars[0] == '-' || chars[0] == '+');
    let first: usize = if signed {
        1
    } else {
        0
    };
    let ghost digits = raw@.skip(first as int);
    if chars.len() == first {
        return None;
    }
    let limit: i64 = 2147483648;
    let mut value: i64 = 0;
    let mut too_large = false;
    let mut i: usize = first;
    while i < chars.len()
        invariant
            chars@ == raw@,
            first <= i <= chars.len(),
            first == sign_length(raw@),
            negative == (raw@.len() > 0 && raw@[0] == '-'),
            digits == raw@.skip(first as int),
            limit == 2147483648,
            all_digits(digits.take(i - first)),
            !too_large ==> value == decimal_value(digits.take(i - first)) && 0 <= value <= limit,
            too_large ==> decimal_value(digits.take(i - first)) > limit,
        decreases chars.len() - i,
    {
        let c = chars[i];
        assert(c == digits[i - first]);
        if !is_digit(c) {
            assert(!digit(digits[i - first]));
            return None;
        }
        let ghost longer = digits.take(i - first + 1);
        assert(longer.drop_last() =~= digits.take(i - first));
        assert(longer.last() == c);
        if !too_large {
            value = value * 10 + value_of_digit(c);
            if value > limit {
                too_large = true;
            }
        }
        i = i + 1;
    }
    assert(digits.take(i - first) =~= digits);
    if too_large {
        None
    } else if negative {
        Some((-value) as i32)
    } else if value == limit {
        None
    } else {
        Some(value as i32)
    }
}

} // verus!
