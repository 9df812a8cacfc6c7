//! Reading a number from text.

use crate::bigint::{from_radix_text, from_sci_text, int_value, radix_value, sci_value};
use malachite::Integer;
use vstd::prelude::*;
use vstd::string::StrSliceExecFns;

verus! {

/// Why a text is no number.
#[derive(Clone, Copy, Debug, PartialEq, Eq, Structural)]
pub enum ParseError {
    /// The text began with `0x` or `0X`, and what followed is no
    /// hexadecimal number.
    InvalidHex,
    /// The text is no decimal number.
    InvalidInteger,
}

impl ParseError {
    /// What to tell the user.
    pub fn message(&self) -> (text: &'static str)
        ensures
            text@ == (match *self {
                ParseError::InvalidHex => "Invalid hex"@,
                ParseError::InvalidInteger => "Invalid integer"@,
            }),
    {
        match self {
            ParseError::InvalidHex => "Invalid hex",
            ParseError::InvalidInteger => "Invalid integer",
        }
    }
}

/// Does the text begin with `0x` or `0X`?
pub open spec fn has_hex_prefix(text: Seq<char>) -> bool {
    text.len() >= 2 && text[0] == '0' && (text[1] == 'x' || text[1] == 'X')
}

/// What becomes of a number that was read, or was not, from a text with or
/// without the hexadecimal prefix.
pub open spec fn reading(hex: bool, read: Option<int>) -> Result<int, ParseError> {
    match read {
        Some(v) => Ok(v),
        None => if hex {
            Err(ParseError::InvalidHex)
        } else {
            Err(ParseError::InvalidInteger)
        },
    }
}

/// The number that a text stands for: a hexadecimal one after `0x` or
/// `0X`, else a decimal one, which may have a point and an exponent.
pub open spec fn parsed(text: Seq<char>) -> Result<int, ParseError> {
    if has_hex_prefix(text) {
        reading(true, radix_value(16, text.skip(2)))
    } else {
        reading(false, sci_value(text))
    }
}

/// The number that a result holds, where it holds one.
pub open spec fn result_value(r: Result<Integer, ParseError>) -> Result<int, ParseError> {
    match r {
        Ok(v) => Ok(int_value(v)),
        Err(e) => Err(e),
    }
}

/// Turns what was read into a result, naming the notation that failed.
pub fn conclude(hex: bool, read: Option<Integer>) -> (r: Result<Integer, ParseError>)
    ensures
        result_value(r) == reading(hex, crate::bigint::option_value(read)),
{
    match read {
        Some(v) => Ok(v),
        None => if hex {
            Err(ParseError::InvalidHex)
        } else {
            Err(ParseError::InvalidInteger)
        },
    }
}

/// Reads a number: hexadecimal after `0x` or `0X`, else decimal, plain or
/// in scientific notation.
pub fn parse_bigint(s: &str) -> (r: Result<Integer, ParseError>)
    ensures
        result_value(r) == parsed(s@),
{
    let len = s.unicode_len();
    if len >= 2 && s.get_char(0) == '0' && (s.get_char(1) == 'x' || s.get_char(1) == 'X') {
        let digits = s.substring_char(2, len);
        conclude(true, from_radix_text(16, digits))
    } else {
        conclude(false, from_sci_text(s))
    }
}

} // verus!
