//! Tolerant decoding of the API's scalar fields.

use vstd::prelude::*;

verus! {

/// A scalar JSON value as the API may send it.
#[derive(Clone, Debug, PartialEq, Eq)]
pub enum JsonScalar {
    Bool(bool),
    Int(i64),
    Text(String),
    Null,
}

pub open spec fn is_digit(c: char) -> bool {
    '0' <= c <= '9'
}

/// A non-empty run of decimal digits.
pub open spec fn all_digits(s: Seq<char>) -> bool {
    s.len() > 0 && forall|i: int| 0 <= i < s.len() ==> is_digit(#[trigger] s[i])
}

/// The number a run of decimal digits denotes.
pub open spec fn digits_value(s: Seq<char>) -> int
    decreases s.len(),
{
    if s.len() == 0 {
        0
    } else {
        digits_value(s.drop_last()) * 10 + (s.last() as int - '0' as int)
    }
}

/// The integer a text denotes: digits with an optional `+` or `-` sign.
pub open spec fn signed_text_value(s: Seq<char>) -> Option<int> {
    if s.len() > 0 && s[0] == '-' && all_digits(s.drop_first()) {
        Some(-digits_value(s.drop_first()))
    } else if s.len() > 0 && s[0] == '+' && all_digits(s.drop_first()) {
        Some(digits_value(s.drop_first()))
    } else if all_digits(s) {
        Some(digits_value(s))
    } else {
        None
    }
}

/// The natural number a text denotes: digits with an optional `+` sign.
pub open spec fn unsigned_text_value(s: Seq<char>) -> Option<int> {
    if s.len() > 0 && s[0] == '+' && all_digits(s.drop_first()) {
        Some(digits_value(s.drop_first()))
    } else if all_digits(s) {
        Some(digits_value(s))
    } else {
        None
    }
}

pub open spec fn spec_parse_i64(s: Seq<char>) -> Option<i64> {
    match signed_text_value(s) {
        Some(v) => if i64::MIN <= v <= i64::MAX { Some(v as i64) } else { None },
        None => None,
    }
}

pub open spec fn spec_parse_u8(s: Seq<char>) -> Option<u8> {
    match unsigned_text_value(s) {
        Some(v) => if v <= u8::MAX { Some(v as u8) } else { None },
        None => None,
    }
}

/// Relies on `i64::from_str`: optional sign, then decimal digits, in range.
#[verifier::external_body]
fn parse_i64(s: &str) -> (r: Option<i64>)
    ensures
        r == spec_parse_i64(s@),
{
    s.parse::<i64>().ok()
}

/// Relies on `u8::from_str`: optional `+`, then decimal digits, in range.
#[verifier::external_body]
fn parse_u8(s: &str) -> (r: Option<u8>)
    ensures
        r == spec_parse_u8(s@),
{
    s.parse::<u8>().ok()
}

/// A whole number, sent as a number or as a string.
pub fn deserialize_i64(v: &JsonScalar) -> (r: Result<i64, String>)
    ensures
        *v matches JsonScalar::Int(x) ==> r == Ok::<i64, String>(x),
        *v matches JsonScalar::Text(t) ==> (match spec_parse_i64(t@) {
            Some(x) => r == Ok::<i64, String>(x),
            None => r is Err,
        }),
        (v is Bool || v is Null) ==> r is Err,
{
    match v {
        JsonScalar::Int(x) => Ok(*x),
        JsonScalar::Text(t) => match parse_i64(t.as_str()) {
            Some(x) => Ok(x),
            None => Err(String::from_str("invalid digit found in string")),
        },
        _ => Err(String::from_str("expected a number or a string")),
    }
}

/// A small code, sent as a number or as a string.
pub fn deserialize_u8(v: &JsonScalar) -> (r: Result<u8, String>)
    ensures
        *v matches JsonScalar::Int(x) ==> (if 0 <= x <= 255 {
            r == Ok::<u8, String>(x as u8)
        } else {
            r is Err
        }),
        *v matches JsonScalar::Text(t) ==> (match spec_parse_u8(t@) {
            Some(x) => r == Ok::<u8, String>(x),
            None => r is Err,
        }),
        (v is Bool || v is Null) ==> r is Err,
{
    match v {
        JsonScalar::Int(x) => if 0 <= *x && *x <= 255 {
            Ok(*x as u8)
        } else {
            Err(String::from_str("number out of range"))
        },
        JsonScalar::Text(t) => match parse_u8(t.as_str()) {
            Some(x) => Ok(x),
            None => Err(String::from_str("invalid digit found in string")),
        },
        _ => Err(String::from_str("expected a number or a string")),
    }
}

/// An optional whole number, sent as a number, a string or null.
pub fn deserialize_opt_i64(v: &JsonScalar) -> (r: Result<Option<i64>, String>)
    ensures
        *v matches JsonScalar::Int(x) ==> r == Ok::<Option<i64>, String>(Some(x)),
        *v matches JsonScalar::Null ==> r == Ok::<Option<i64>, String>(None),
        *v matches JsonScalar::Text(t) ==> (match spec_parse_i64(t@) {
            Some(x) => r == Ok::<Option<i64>, String>(Some(x)),
            None => r is Err,
        }),
        v is Bool ==> r is Err,
{
    match v {
        JsonScalar::Int(x) => Ok(Some(*x)),
        JsonScalar::Text(t) => match parse_i64(t.as_str()) {
            Some(x) => Ok(Some(x)),
            None => Err(String::from_str("invalid digit found in string")),
        },
        JsonScalar::Null => Ok(None),
        JsonScalar::Bool(_) => Err(String::from_str("expected a number, a string or null")),
    }
}

/// An optional small code, sent as a number, a string or null.
pub fn deserialize_opt_u8(v: &JsonScalar) -> (r: Result<Option<u8>, String>)
    ensures
        *v matches JsonScalar::Int(x) ==> (if 0 <= x <= 255 {
            r == Ok::<Option<u8>, String>(Some(x as u8))
        } else {
            r is Err
        }),
        *v matches JsonScalar::Null ==> r == Ok::<Option<u8>, String>(None),
        *v matches JsonScalar::Text(t) ==> (match spec_parse_u8(t@) {
            Some(x) => r == Ok::<Option<u8>, String>(Some(x)),
            None => r is Err,
        }),
        v is Bool ==> r is Err,
{
    match v {
        JsonScalar::Int(x) => if 0 <= *x && *x <= 255 {
            Ok(Some(*x as u8))
        } else {
            Err(String::from_str("number out of range"))
        },
        JsonScalar::Text(t) => match parse_u8(t.as_str()) {
            Some(x) => Ok(Some(x)),
            None => Err(String::from_str("invalid digit found in string")),
        },
        JsonScalar::Null => Ok(None),
        JsonScalar::Bool(_) => Err(String::from_str("expected a number, a string or null")),
    }
}

/// The texts that mean true.
pub open spec fn truthy_text(s: Seq<char>) -> bool {
    s == "1"@ || s == "true"@ || s == "TRUE"@
}

/// A flag sent as a boolean, a number (non-zero is true), a string (`1`,
/// `true` or `TRUE` is true) or null (false).
pub fn deserialize_bool(v: &JsonScalar) -> (r: bool)
    ensures
        r == (match v {
            JsonScalar::Bool(b) => *b,
            JsonScalar::Int(x) => *x != 0,
            JsonScalar::Text(t) => truthy_text(t@),
            JsonScalar::Null => false,
        }),
{
    match v {
        JsonScalar::Bool(b) => *b,
        JsonScalar::Int(x) => *x != 0,
        JsonScalar::Text(t) => {
            let one = String::from_str("1");
            let yes = String::from_str("true");
            let upper = String::from_str("TRUE");
            *t == one || *t == yes || *t == upper
        },
        JsonScalar::Null => false,
    }
}

} // verus!
