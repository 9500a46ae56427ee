//! Numbers of the scripting language.
//!
//! A script number is an IEEE-754 binary64 value, carried as its raw bit
//! pattern in a `u64`. The arithmetic, comparisons, decimal reading and
//! decimal printing of such values are delegated to the `rustc_apfloat`
//! crate, a software implementation of IEEE-754; each operation is a pure
//! function of the bit patterns alone, so every delegated operation is
//! named by an uninterpreted spec function that the trusted wrappers below
//! apply.
use rustc_apfloat::Float;
use vstd::prelude::*;

verus! {

/// One character of a decimal digit.
pub open spec fn spec_is_digit(c: char) -> bool {
    '0' <= c && c <= '9'
}

/// Every character of `s` in `[from, to)` is a decimal digit.
pub open spec fn spec_all_digits(s: Seq<char>, from: int, to: int) -> bool {
    forall|i: int| from <= i < to ==> spec_is_digit(#[trigger] s[i])
}

/// The shape of a numeric literal: one or more digits, optionally followed
/// by a dot and one or more digits.
pub open spec fn spec_is_number_lexeme(s: Seq<char>) -> bool {
    ||| (s.len() > 0 && spec_all_digits(s, 0, s.len() as int))
    ||| (exists|d: int|
        1 <= d && d + 2 <= s.len() && s[d] == '.' && spec_all_digits(s, 0, d)
            && spec_all_digits(s, d + 1, s.len() as int))
}

/// The bits of a finite binary64 value: its exponent field is not all ones
/// (all ones marks an infinity or a NaN).
pub open spec fn num_is_finite(b: u64) -> bool {
    (b >> 52) & 0x7ff != 0x7ff
}

/// The bits of positive or negative zero. These are exactly the numbers
/// that IEEE-754 compares equal to zero, so they are the falsy numbers.
pub open spec fn num_is_zero(b: u64) -> bool {
    b == 0u64 || b == 0x8000_0000_0000_0000u64
}

/// The sign bit of a binary64 bit pattern is set.
pub open spec fn num_is_negative(b: u64) -> bool {
    b >> 63 == 1u64
}

/// The binary64 sum of two bit patterns, rounded to nearest, ties to even.
pub uninterp spec fn num_add(a: u64, b: u64) -> u64;

/// The binary64 difference, rounded to nearest, ties to even.
pub uninterp spec fn num_sub(a: u64, b: u64) -> u64;

/// The binary64 product, rounded to nearest, ties to even.
pub uninterp spec fn num_mul(a: u64, b: u64) -> u64;

/// The binary64 quotient, rounded to nearest, ties to even.
pub uninterp spec fn num_div(a: u64, b: u64) -> u64;

/// The binary64 remainder with the sign of the dividend (C `fmod`).
pub uninterp spec fn num_rem(a: u64, b: u64) -> u64;

/// IEEE-754 equality of two binary64 bit patterns.
pub uninterp spec fn num_eq(a: u64, b: u64) -> bool;

/// IEEE-754 strict order of two binary64 bit patterns.
pub uninterp spec fn num_lt(a: u64, b: u64) -> bool;

/// IEEE-754 non-strict order of two binary64 bit patterns.
pub uninterp spec fn num_le(a: u64, b: u64) -> bool;

/// The binary64 value, correctly rounded, that a decimal string denotes,
/// or `None` where the string is not a decimal number.
pub uninterp spec fn num_parse(s: Seq<char>) -> Option<u64>;

/// The decimal rendering of a binary64 bit pattern.
pub uninterp spec fn num_string(b: u64) -> Seq<char>;

/// The value truncated toward zero and clamped into the `usize` range;
/// NaN becomes zero.
pub uninterp spec fn num_index(b: u64) -> usize;

/// Relies on rustc_apfloat: addition of `ieee::Double` (IEEE-754 binary64,
/// round to nearest, ties to even) on raw bit patterns.
#[verifier::external_body]
pub(crate) fn apf_add(a: u64, b: u64) -> (r: u64)
    ensures
        r == num_add(a, b),
{
    let x = rustc_apfloat::ieee::Double::from_bits(a as u128);
    let y = rustc_apfloat::ieee::Double::from_bits(b as u128);
    (x + y).value.to_bits() as u64
}

/// Relies on rustc_apfloat: subtraction of `ieee::Double` on raw bit patterns.
#[verifier::external_body]
pub(crate) fn apf_sub(a: u64, b: u64) -> (r: u64)
    ensures
        r == num_sub(a, b),
{
    let x = rustc_apfloat::ieee::Double::from_bits(a as u128);
    let y = rustc_apfloat::ieee::Double::from_bits(b as u128);
    (x - y).value.to_bits() as u64
}

/// Relies on rustc_apfloat: multiplication of `ieee::Double` on raw bit patterns.
#[verifier::external_body]
pub(crate) fn apf_mul(a: u64, b: u64) -> (r: u64)
    ensures
        r == num_mul(a, b),
{
    let x = rustc_apfloat::ieee::Double::from_bits(a as u128);
    let y = rustc_apfloat::ieee::Double::from_bits(b as u128);
    (x * y).value.to_bits() as u64
}

/// Relies on rustc_apfloat: division of `ieee::Double` on raw bit patterns;
/// dividing by zero yields an infinity or a NaN, never a failure.
#[verifier::external_body]
pub(crate) fn apf_div(a: u64, b: u64) -> (r: u64)
    ensures
        r == num_div(a, b),
{
    let x = rustc_apfloat::ieee::Double::from_bits(a as u128);
    let y = rustc_apfloat::ieee::Double::from_bits(b as u128);
    (x / y).value.to_bits() as u64
}

/// Relies on rustc_apfloat: the `%` of `ieee::Double` (`c_fmod`, the
/// remainder with the sign of the dividend) on raw bit patterns.
#[verifier::external_body]
pub(crate) fn apf_rem(a: u64, b: u64) -> (r: u64)
    ensures
        r == num_rem(a, b),
{
    let x = rustc_apfloat::ieee::Double::from_bits(a as u128);
    let y = rustc_apfloat::ieee::Double::from_bits(b as u128);
    (x % y).value.to_bits() as u64
}

/// Relies on rustc_apfloat: `PartialEq` of `ieee::Double`, which is IEEE-754
/// equality (a NaN equals nothing; positive and negative zero are equal).
#[verifier::external_body]
pub(crate) fn apf_eq(a: u64, b: u64) -> (r: bool)
    ensures
        r == num_eq(a, b),
{
    let x = rustc_apfloat::ieee::Double::from_bits(a as u128);
    let y = rustc_apfloat::ieee::Double::from_bits(b as u128);
    x == y
}

/// Relies on rustc_apfloat: `<` of `ieee::Double`, the IEEE-754 order
/// (false wherever a NaN is involved).
#[verifier::external_body]
pub(crate) fn apf_lt(a: u64, b: u64) -> (r: bool)
    ensures
        r == num_lt(a, b),
{
    let x = rustc_apfloat::ieee::Double::from_bits(a as u128);
    let y = rustc_apfloat::ieee::Double::from_bits(b as u128);
    x < y
}

/// Relies on rustc_apfloat: `<=` of `ieee::Double`, the IEEE-754 order
/// (false wherever a NaN is involved).
#[verifier::external_body]
pub(crate) fn apf_le(a: u64, b: u64) -> (r: bool)
    ensures
        r == num_le(a, b),
{
    let x = rustc_apfloat::ieee::Double::from_bits(a as u128);
    let y = rustc_apfloat::ieee::Double::from_bits(b as u128);
    x <= y
}

/// Relies on rustc_apfloat: `Double::from_str`, the correctly rounded
/// decimal-to-binary64 conversion. It accepts every string made of digits
/// with one optional fractional part, and rejects malformed input with an
/// error value rather than a panic.
#[verifier::external_body]
pub(crate) fn apf_parse(s: &str) -> (r: Option<u64>)
    ensures
        r == num_parse(s@),
        spec_is_number_lexeme(s@) ==> r is Some,
{
    match s.parse::<rustc_apfloat::ieee::Double>() {
        Ok(d) => Some(d.to_bits() as u64),
        Err(_) => None,
    }
}

/// Relies on rustc_apfloat: `Display` of `ieee::Double`, which prints a
/// decimal form with enough digits that converting the string back with
/// `Double::from_str` returns the value it was printed from; hence every
/// finite value round-trips through `num_parse`.
#[verifier::external_body]
pub(crate) fn apf_to_string(b: u64) -> (r: String)
    ensures
        r@ == num_string(b),
        num_is_finite(b) ==> num_parse(r@) == Some(b),
{
    format!("{}", rustc_apfloat::ieee::Double::from_bits(b as u128))
}

/// Relies on rustc_apfloat: `Double::to_u128` with a 64-bit target width,
/// which truncates toward zero and, as its documentation states, returns
/// zero for a NaN and the minimal or maximal integer where the value falls
/// outside the range.
#[verifier::external_body]
pub(crate) fn apf_to_index(b: u64) -> (r: usize)
    ensures
        r == num_index(b),
{
    let d = rustc_apfloat::ieee::Double::from_bits(b as u128);
    d.to_u128(64).value as usize
}

} // verus!
