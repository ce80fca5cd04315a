//! Double-precision float semantics, carried on `u64` bit patterns.
//!
//! The evaluator stores a float as its IEEE-754 bit pattern and never
//! looks inside it; every operation on floats goes through one of the
//! trusted wrappers below, each of which calls the software float
//! implementation of the `rustc_apfloat` crate on the bits. The result of
//! each operation depends on the operand bits alone, so each is given a
//! name that the contracts of the evaluator use exactly.
use rustc_apfloat::Float;
use rustc_apfloat::ieee::Double;
use vstd::prelude::*;

verus! {

pub uninterp spec fn float_add(a: u64, b: u64) -> u64;

pub uninterp spec fn float_sub(a: u64, b: u64) -> u64;

pub uninterp spec fn float_mul(a: u64, b: u64) -> u64;

pub uninterp spec fn float_div(a: u64, b: u64) -> u64;

pub uninterp spec fn float_rem(a: u64, b: u64) -> u64;

pub uninterp spec fn float_lt(a: u64, b: u64) -> bool;

pub uninterp spec fn float_le(a: u64, b: u64) -> bool;

pub uninterp spec fn float_eq(a: u64, b: u64) -> bool;

pub uninterp spec fn float_of_int(i: i64) -> u64;

pub uninterp spec fn float_text(bits: u64) -> Seq<char>;

pub uninterp spec fn float_parse(s: Seq<char>) -> Option<u64>;

/// Relies on rustc_apfloat's `Double` addition, which rounds to nearest
/// even as IEEE-754 double addition does.
#[verifier::external_body]
pub(crate) fn f_add(a: u64, b: u64) -> (r: u64)
    ensures
        r == float_add(a, b),
{
    (Double::from_bits(a as u128) + Double::from_bits(b as u128)).value.to_bits() as u64
}

/// Relies on rustc_apfloat's `Double` subtraction (round to nearest even).
#[verifier::external_body]
pub(crate) fn f_sub(a: u64, b: u64) -> (r: u64)
    ensures
        r == float_sub(a, b),
{
    (Double::from_bits(a as u128) - Double::from_bits(b as u128)).value.to_bits() as u64
}

/// Relies on rustc_apfloat's `Double` multiplication (round to nearest even).
#[verifier::external_body]
pub(crate) fn f_mul(a: u64, b: u64) -> (r: u64)
    ensures
        r == float_mul(a, b),
{
    (Double::from_bits(a as u128) * Double::from_bits(b as u128)).value.to_bits() as u64
}

/// Relies on rustc_apfloat's `Double` division (round to nearest even).
#[verifier::external_body]
pub(crate) fn f_div(a: u64, b: u64) -> (r: u64)
    ensures
        r == float_div(a, b),
{
    (Double::from_bits(a as u128) / Double::from_bits(b as u128)).value.to_bits() as u64
}

/// Relies on rustc_apfloat's `Double` remainder, whose `%` is `c_fmod`,
/// the truncated remainder that `%` on doubles computes.
#[verifier::external_body]
pub(crate) fn f_rem(a: u64, b: u64) -> (r: u64)
    ensures
        r == float_rem(a, b),
{
    (Double::from_bits(a as u128) % Double::from_bits(b as u128)).value.to_bits() as u64
}

/// Relies on rustc_apfloat's `PartialOrd` for `Double`: an IEEE-754
/// comparison in which any NaN operand makes every ordering false.
#[verifier::external_body]
pub(crate) fn f_lt(a: u64, b: u64) -> (r: bool)
    ensures
        r == float_lt(a, b),
{
    Double::from_bits(a as u128) < Double::from_bits(b as u128)
}

/// Relies on rustc_apfloat's `PartialOrd` for `Double` (see `f_lt`).
#[verifier::external_body]
pub(crate) fn f_le(a: u64, b: u64) -> (r: bool)
    ensures
        r == float_le(a, b),
{
    Double::from_bits(a as u128) <= Double::from_bits(b as u128)
}

/// Relies on rustc_apfloat's `PartialEq` for `Double`: IEEE-754 equality,
/// under which NaN equals nothing and the two zeros are equal.
#[verifier::external_body]
pub(crate) fn f_eq(a: u64, b: u64) -> (r: bool)
    ensures
        r == float_eq(a, b),
{
    Double::from_bits(a as u128) == Double::from_bits(b as u128)
}

/// Relies on rustc_apfloat's `from_i128` conversion, which rounds to
/// nearest even exactly as casting an integer to a double does.
#[verifier::external_body]
pub(crate) fn f_of_int(i: i64) -> (r: u64)
    ensures
        r == float_of_int(i),
{
    Double::from_i128(i as i128).value.to_bits() as u64
}

/// Relies on rustc_apfloat's `Display` for `Double`: a decimal rendering
/// of the value the bits denote.
#[verifier::external_body]
pub(crate) fn f_text(bits: u64) -> (r: String)
    ensures
        r@ == float_text(bits),
{
    format!("{}", Double::from_bits(bits as u128))
}

/// Relies on rustc_apfloat's `FromStr` for `Double`: parses a decimal
/// (or hexadecimal) float literal, rounding to nearest even; any text it
/// cannot read yields `None`.
#[verifier::external_body]
pub(crate) fn f_parse(s: &str) -> (r: Option<u64>)
    ensures
        r == float_parse(s@),
{
    match s.parse::<Double>() {
        Ok(d) => Some(d.to_bits() as u64),
        Err(_) => None,
    }
}

} // verus!
