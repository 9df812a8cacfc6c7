//! The boundary to the arbitrary-precision integers of `malachite`.
//!
//! An `Integer` is opaque to the verifier. Everything the rest of the crate
//! knows about one goes through [`int_value`], and every operation on one is
//! a small wrapper whose contract restates what malachite documents for the
//! operation. The contracts of the wrappers are taken on trust; nothing
//! else in the crate is.

use malachite::base::num::arithmetic::traits::{CeilingSqrt, FloorSqrt, Square};
use malachite::base::num::conversion::string::options::ToSciOptions;
use malachite::base::num::conversion::traits::{FromSciString, FromStringBase, ToSci, WrappingFrom};
use malachite::base::rounding_modes::RoundingMode;
use malachite::Integer;
use vstd::prelude::*;

verus! {

/// Declares `malachite::Integer` to the verifier, as a type whose inside
/// it does not see.
#[verifier::external_type_specification]
#[verifier::external_body]
pub struct ExInteger(Integer);

/// The mathematical integer that an `Integer` holds. The wrappers below
/// say how malachite's operations act on it.
pub uninterp spec fn int_value(n: Integer) -> int;

/// Which way a number goes that cannot be written out in full.
#[derive(Clone, Copy, Debug, PartialEq, Eq, Structural)]
pub enum Rounding {
    /// Towards zero.
    Down,
    /// Away from zero.
    Up,
    /// Towards negative infinity.
    Floor,
    /// Towards positive infinity.
    Ceiling,
    /// To the nearest; a tie goes to the even digit.
    Nearest,
}

/// The text that malachite writes for `value` in scientific notation to the
/// base 10, with at most `precision` significant digits, what lies beyond
/// them rounded as `rounding` says, and a `+` before an exponent that has
/// no `-` where `plus_sign` is set.
pub uninterp spec fn sci_text(value: int, precision: u64, rounding: Rounding, plus_sign: bool) -> Seq<
    char,
>;

/// The integer that malachite reads from `text` as a plain number to the
/// base `base`, if it reads one.
pub uninterp spec fn radix_value(base: u8, text: Seq<char>) -> Option<int>;

/// The integer that malachite reads from `text` as a decimal number that
/// may have a point and an exponent, rounded to the nearest integer, if it
/// reads one.
pub uninterp spec fn sci_value(text: Seq<char>) -> Option<int>;

/// The number that an `Integer` holds, where there is one.
pub open spec fn option_value(r: Option<Integer>) -> Option<int> {
    match r {
        Some(v) => Some(int_value(v)),
        None => None,
    }
}

/// Quotient rounded towards zero.
#[verifier::opaque]
pub open spec fn trunc_div(x: int, y: int) -> int
    recommends
        y != 0,
{
    if x >= 0 {
        if y > 0 {
            x / y
        } else {
            -(x / (-y))
        }
    } else {
        if y > 0 {
            -((-x) / y)
        } else {
            (-x) / (-y)
        }
    }
}

/// Remainder that goes with [`trunc_div`]; it has the sign of `x`.
pub open spec fn trunc_rem(x: int, y: int) -> int
    recommends
        y != 0,
{
    x - y * trunc_div(x, y)
}

/// Is `r` the largest integer whose square does not exceed `v`?
pub open spec fn is_floor_sqrt(v: int, r: int) -> bool {
    0 <= r && r * r <= v && v < (r + 1) * (r + 1)
}

/// Is `r` the smallest non-negative integer whose square reaches `v`?
pub open spec fn is_ceil_sqrt(v: int, r: int) -> bool {
    0 <= r && v <= r * r && (r == 0 || (r - 1) * (r - 1) < v)
}

/// `Integer::from` on a `u64`: the result holds the same number.
#[verifier::external_body]
pub(crate) fn from_u64(v: u64) -> (r: Integer)
    ensures
        int_value(r) == v,
{
    Integer::from(v)
}

/// `Clone::clone` on an `Integer`: the copy holds the same number.
#[verifier::external_body]
pub(crate) fn copy_of(a: &Integer) -> (r: Integer)
    ensures
        int_value(r) == int_value(*a),
{
    a.clone()
}

/// `+` on two `Integer`s by reference: the exact sum.
#[verifier::external_body]
pub(crate) fn sum(a: &Integer, b: &Integer) -> (r: Integer)
    ensures
        int_value(r) == int_value(*a) + int_value(*b),
{
    a + b
}

/// `+=` with an `Integer` by reference: the exact sum, in place.
#[verifier::external_body]
pub(crate) fn add_assign(a: &mut Integer, b: &Integer)
    ensures
        int_value(*final(a)) == int_value(*old(a)) + int_value(*b),
{
    *a += b;
}

/// `-` on two `Integer`s by reference: the exact difference.
#[verifier::external_body]
pub(crate) fn difference(a: &Integer, b: &Integer) -> (r: Integer)
    ensures
        int_value(r) == int_value(*a) - int_value(*b),
{
    a - b
}

/// `Square::square` on an `Integer` by reference: the number times itself.
#[verifier::external_body]
pub(crate) fn square(a: &Integer) -> (r: Integer)
    ensures
        int_value(r) == int_value(*a) * int_value(*a),
{
    a.square()
}

/// `/` on two `Integer`s by reference. Malachite rounds the quotient
/// towards zero and panics on a zero divisor.
#[verifier::external_body]
pub(crate) fn quotient(a: &Integer, b: &Integer) -> (r: Integer)
    requires
        int_value(*b) != 0,
    ensures
        int_value(r) == trunc_div(int_value(*a), int_value(*b)),
{
    a / b
}

/// `%` on two `Integer`s by reference. Malachite gives the remainder of the
/// division that rounds towards zero, so it has the sign of the dividend;
/// it panics on a zero divisor.
#[verifier::external_body]
pub(crate) fn remainder(a: &Integer, b: &Integer) -> (r: Integer)
    requires
        int_value(*b) != 0,
    ensures
        int_value(r) == trunc_rem(int_value(*a), int_value(*b)),
{
    a % b
}

/// `<` on two `Integer`s: the order of the numbers they hold.
#[verifier::external_body]
pub(crate) fn less_than(a: &Integer, b: &Integer) -> (r: bool)
    ensures
        r == (int_value(*a) < int_value(*b)),
{
    a < b
}

/// `==` on two `Integer`s: whether they hold the same number.
#[verifier::external_body]
pub(crate) fn equal(a: &Integer, b: &Integer) -> (r: bool)
    ensures
        r == (int_value(*a) == int_value(*b)),
{
    a == b
}

/// Whether `n` is below zero. The searches and the square roots of this
/// crate take no negative number; a caller that holds an arbitrary
/// `Integer` finds out here.
pub fn is_negative(n: &Integer) -> (b: bool)
    ensures
        b == (int_value(*n) < 0),
{
    less_than(n, &from_u64(0))
}

/// Whether `n` is zero.
pub fn is_zero(n: &Integer) -> (b: bool)
    ensures
        b == (int_value(*n) == 0),
{
    equal(n, &from_u64(0))
}

/// `u64::wrapping_from` on an `Integer`: the number reduced modulo 2^64.
#[verifier::external_body]
pub(crate) fn low_u64(a: &Integer) -> (r: u64)
    ensures
        r == int_value(*a) % 0x1_0000_0000_0000_0000,
{
    u64::wrapping_from(a)
}

/// `FloorSqrt::floor_sqrt` on an `Integer` by reference: the floor of the
/// square root. Malachite panics on a negative number.
#[verifier::external_body]
pub(crate) fn floor_sqrt_of(a: &Integer) -> (r: Integer)
    requires
        int_value(*a) >= 0,
    ensures
        is_floor_sqrt(int_value(*a), int_value(r)),
{
    a.floor_sqrt()
}

/// `CeilingSqrt::ceiling_sqrt` on an `Integer` by reference: the ceiling of
/// the square root. Malachite panics on a negative number.
#[verifier::external_body]
pub(crate) fn ceiling_sqrt_of(a: &Integer) -> (r: Integer)
    requires
        int_value(*a) >= 0,
    ensures
        is_ceil_sqrt(int_value(*a), int_value(r)),
{
    a.ceiling_sqrt()
}

/// `ToSci::to_sci_with_options` on an `Integer`, written out to a string,
/// with precision, rounding mode and forced exponent sign as given and the
/// other options at their defaults. Malachite refuses a precision of zero.
#[verifier::external_body]
pub(crate) fn sci_string(n: &Integer, precision: u64, rounding: Rounding, plus_sign: bool) -> (r:
    String)
    requires
        precision > 0,
    ensures
        r@ == sci_text(int_value(*n), precision, rounding, plus_sign),
{
    let mut options = ToSciOptions::default();
    options.set_precision(precision);
    options.set_rounding_mode(match rounding {
        Rounding::Down => RoundingMode::Down,
        Rounding::Up => RoundingMode::Up,
        Rounding::Floor => RoundingMode::Floor,
        Rounding::Ceiling => RoundingMode::Ceiling,
        Rounding::Nearest => RoundingMode::Nearest,
    });
    options.set_force_exponent_plus_sign(plus_sign);
    n.to_sci_with_options(options).to_string()
}

/// `FromStringBase::from_string_base` for `Integer`. Malachite panics on a
/// base below 2 or above 62.
#[verifier::external_body]
pub(crate) fn from_radix_text(base: u8, s: &str) -> (r: Option<Integer>)
    requires
        2 <= base <= 62,
    ensures
        option_value(r) == radix_value(base, s@),
{
    Integer::from_string_base(base, s)
}

/// `FromSciString::from_sci_string` for `Integer`.
#[verifier::external_body]
pub(crate) fn from_sci_text(s: &str) -> (r: Option<Integer>)
    ensures
        option_value(r) == sci_value(s@),
{
    Integer::from_sci_string(s)
}

} // verus!
