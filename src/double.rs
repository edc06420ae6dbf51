//! Numbers of the language are IEEE-754 binary64 values, held as their bit
//! patterns. Arithmetic, ordering, decimal parsing and rendering are done by
//! `rustc_apfloat`'s software implementation of the format.
use rustc_apfloat::ieee::Double;
use rustc_apfloat::Float;
use std::cmp::Ordering;
use vstd::prelude::*;

verus! {

/// The bit that holds the sign of a binary64 value.
pub const SIGN_BIT: u64 = 0x8000_0000_0000_0000;

/// The binary64 sum of two values, rounded to nearest, ties to even.
pub uninterp spec fn double_sum(a: u64, b: u64) -> u64;

/// The binary64 difference `a - b`, rounded to nearest, ties to even.
pub uninterp spec fn double_difference(a: u64, b: u64) -> u64;

/// The binary64 product of two values, rounded to nearest, ties to even.
pub uninterp spec fn double_product(a: u64, b: u64) -> u64;

/// The binary64 quotient `a / b`, rounded to nearest, ties to even.
pub uninterp spec fn double_quotient(a: u64, b: u64) -> u64;

/// How two binary64 values are ordered; `None` when either is a NaN.
pub uninterp spec fn double_order(a: u64, b: u64) -> Option<Ordering>;

/// The binary64 value nearest to a decimal numeral.
pub uninterp spec fn decimal_double(s: Seq<char>) -> u64;

/// The decimal rendering of a binary64 value.
pub uninterp spec fn double_text(a: u64) -> Seq<char>;

/// A numeral as the scanner reads it: digits, with at most one dot that has
/// digits on both sides.
pub open spec fn is_numeral(s: Seq<char>) -> bool {
    &&& s.len() > 0
    &&& is_digit(s[0])
    &&& is_digit(s.last())
    &&& forall|i: int| 0 <= i < s.len() ==> is_digit(#[trigger] s[i]) || s[i] == '.'
    &&& forall|i: int, j: int|
        0 <= i < s.len() && 0 <= j < s.len() && #[trigger] s[i] == '.' && #[trigger] s[j] == '.'
            ==> i == j
}

pub open spec fn is_digit(c: char) -> bool {
    '0' <= c <= '9'
}

/// The negation of a value: its sign bit flipped.
pub open spec fn negated(a: u64) -> u64 {
    a ^ SIGN_BIT
}

/// Relies on `<Double as Add>::add` (rustc_apfloat), which rounds to nearest,
/// ties to even; the status flags are dropped.
#[verifier::external_body]
pub(crate) fn sum(a: u64, b: u64) -> (r: u64)
    ensures
        r == double_sum(a, b),
{
    (Double::from_bits(a as u128) + Double::from_bits(b as u128)).value.to_bits() as u64
}

/// Relies on `<Double as Sub>::sub` (rustc_apfloat), rounding to nearest.
#[verifier::external_body]
pub(crate) fn difference(a: u64, b: u64) -> (r: u64)
    ensures
        r == double_difference(a, b),
{
    (Double::from_bits(a as u128) - Double::from_bits(b as u128)).value.to_bits() as u64
}

/// Relies on `<Double as Mul>::mul` (rustc_apfloat), rounding to nearest.
#[verifier::external_body]
pub(crate) fn product(a: u64, b: u64) -> (r: u64)
    ensures
        r == double_product(a, b),
{
    (Double::from_bits(a as u128) * Double::from_bits(b as u128)).value.to_bits() as u64
}

/// Relies on `<Double as Div>::div` (rustc_apfloat), rounding to nearest; a
/// zero divisor gives an infinity or a NaN, as the format says.
#[verifier::external_body]
pub(crate) fn quotient(a: u64, b: u64) -> (r: u64)
    ensures
        r == double_quotient(a, b),
{
    (Double::from_bits(a as u128) / Double::from_bits(b as u128)).value.to_bits() as u64
}

/// Relies on `<Double as PartialOrd>::partial_cmp` (rustc_apfloat): `None`
/// exactly when either side is a NaN, and the two zeros compare equal.
#[verifier::external_body]
pub(crate) fn compare(a: u64, b: u64) -> (r: Option<Ordering>)
    ensures
        r == double_order(a, b),
{
    Double::from_bits(a as u128).partial_cmp(&Double::from_bits(b as u128))
}

/// Relies on `<Double as FromStr>::from_str` (rustc_apfloat), which rounds
/// to nearest, ties to even. A numeral of digits with at most one inner dot
/// takes its decimal path, which fails only on other characters, a second dot
/// or a missing digit.
#[verifier::external_body]
pub(crate) fn parse_decimal(s: &str) -> (r: Option<u64>)
    ensures
        r matches Some(b) ==> b == decimal_double(s@),
        is_numeral(s@) ==> r is Some,
{
    match s.parse::<Double>() {
        Ok(d) => Some(d.to_bits() as u64),
        Err(_) => None,
    }
}

/// Relies on `<Double as Display>::fmt` (rustc_apfloat), with room for up to
/// seventeen padding zeros before it turns to scientific notation.
#[verifier::external_body]
pub(crate) fn render(a: u64) -> (r: String)
    ensures
        r@ == double_text(a),
{
    format!("{:17}", Double::from_bits(a as u128))
}

/// Flips the sign bit.
pub fn negate(a: u64) -> (r: u64)
    ensures
        r == negated(a),
{
    a ^ SIGN_BIT
}

} // verus!
