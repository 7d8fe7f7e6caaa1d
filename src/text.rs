//! Reading decimal integers from text.
use vstd::prelude::*;

verus! {

pub open spec fn is_digit(c: char) -> bool {
    '0' <= c && c <= '9'
}

/// The value of a string of decimal digits.
pub open spec fn digits_value(s: Seq<char>) -> int
    decreases s.len(),
{
    if s.len() == 0 {
        0
    } else {
        digits_value(s.drop_last()) * 10 + (s.last() as int - '0' as int)
    }
}

/// The `i32` written in `s`: an optional `+` or `-`, then one or more
/// decimal digits and nothing else, whose value fits in an `i32`.
pub open spec fn decimal_i32(s: Seq<char>) -> Option<i32> {
    let negative = s.len() > 0 && s[0] == '-';
    let body = if s.len() > 0 && (s[0] == '-' || s[0] == '+') {
        s.drop_first()
    } else {
        s
    };
    let value = if negative {
        -digits_value(body)
    } else {
        digits_value(body)
    };
    if body.len() > 0 && (forall|i: int| 0 <= i < body.len() ==> is_digit(#[trigger] body[i]))
        && i32::MIN <= value <= i32::MAX {
        Some(value as i32)
    } else {
        None
    }
}

/// Relies on `str::parse::<i32>` (`i32::from_str`), which its documentation
/// describes as accepting an optional `+` or `-` sign followed by decimal
/// digits only, and failing on anything else or on a value out of range.
#[verifier::external_body]
pub(crate) fn parse_i32(s: &str) -> (r: Option<i32>)
    ensures
        r == decimal_i32(s@),
{
    s.parse::<i32>().ok()
}

} // verus!
