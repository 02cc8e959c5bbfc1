//! Double-precision arithmetic over IEEE-754 bit patterns.
//!
//! The verified code never holds a floating-point value: a number is carried
//! as the 64 bits of its IEEE-754 encoding, and each operation is named by an
//! uninterpreted function (`add_bits`, `lt_bits`, ...) whose value is
//! computed at run time by `rustc_apfloat`, a software implementation of
//! IEEE-754 double precision. Each operation depends on the operand bits
//! alone, so the names are well defined.
use vstd::prelude::*;

use rustc_apfloat::Float;

verus! {

/// The bit pattern of positive zero.
pub const POS_ZERO_BITS: u64 = 0;

/// The IEEE-754 sign bit of a double.
pub const SIGN_BIT: u64 = 0x8000_0000_0000_0000;

/// The sum of two doubles, by their bit patterns (round to nearest even).
pub uninterp spec fn add_bits(x: u64, y: u64) -> u64;

/// The difference of two doubles, by their bit patterns.
pub uninterp spec fn sub_bits(x: u64, y: u64) -> u64;

/// The product of two doubles, by their bit patterns.
pub uninterp spec fn mul_bits(x: u64, y: u64) -> u64;

/// The quotient of two doubles, by their bit patterns.
pub uninterp spec fn div_bits(x: u64, y: u64) -> u64;

/// The IEEE-754 `<` comparison of two doubles (false when either is NaN).
pub uninterp spec fn lt_bits(x: u64, y: u64) -> bool;

/// The IEEE-754 `>` comparison of two doubles.
pub uninterp spec fn gt_bits(x: u64, y: u64) -> bool;

/// The IEEE-754 `<=` comparison of two doubles.
pub uninterp spec fn le_bits(x: u64, y: u64) -> bool;

/// The IEEE-754 `>=` comparison of two doubles.
pub uninterp spec fn ge_bits(x: u64, y: u64) -> bool;

/// The IEEE-754 `==` comparison of two doubles (false when either is NaN).
pub uninterp spec fn eq_bits(x: u64, y: u64) -> bool;

/// The double a piece of text denotes, if it denotes one: the bit pattern of
/// the correctly rounded value, or `None` where the text is not numeric.
pub uninterp spec fn parse_num(s: Seq<char>) -> Option<u64>;

/// The double nearest to an unsigned 64-bit integer, as its bit pattern.
pub uninterp spec fn bits_of_u64(n: u64) -> u64;

/// Relies on rustc_apfloat's `Double` addition (`add_r`, ties to even): the
/// result depends on the operand bits alone.
#[verifier::external_body]
pub fn float_add(x: u64, y: u64) -> (r: u64)
    ensures
        r == add_bits(x, y),
{
    let a = rustc_apfloat::ieee::Double::from_bits(x as u128);
    let b = rustc_apfloat::ieee::Double::from_bits(y as u128);
    (a + b).value.to_bits() as u64
}

/// Relies on rustc_apfloat's `Double` subtraction (`sub_r`, ties to even).
#[verifier::external_body]
pub fn float_sub(x: u64, y: u64) -> (r: u64)
    ensures
        r == sub_bits(x, y),
{
    let a = rustc_apfloat::ieee::Double::from_bits(x as u128);
    let b = rustc_apfloat::ieee::Double::from_bits(y as u128);
    (a - b).value.to_bits() as u64
}

/// Relies on rustc_apfloat's `Double` multiplication (`mul_r`, ties to even).
#[verifier::external_body]
pub fn float_mul(x: u64, y: u64) -> (r: u64)
    ensures
        r == mul_bits(x, y),
{
    let a = rustc_apfloat::ieee::Double::from_bits(x as u128);
    let b = rustc_apfloat::ieee::Double::from_bits(y as u128);
    (a * b).value.to_bits() as u64
}

/// Relies on rustc_apfloat's `Double` division (`div_r`, ties to even).
#[verifier::external_body]
pub fn float_div(x: u64, y: u64) -> (r: u64)
    ensures
        r == div_bits(x, y),
{
    let a = rustc_apfloat::ieee::Double::from_bits(x as u128);
    let b = rustc_apfloat::ieee::Double::from_bits(y as u128);
    (a / b).value.to_bits() as u64
}

/// Relies on rustc_apfloat's `PartialOrd` for `Double`, which orders by
/// IEEE-754 comparison and leaves NaN unordered.
#[verifier::external_body]
pub fn float_lt(x: u64, y: u64) -> (r: bool)
    ensures
        r == lt_bits(x, y),
{
    let a = rustc_apfloat::ieee::Double::from_bits(x as u128);
    let b = rustc_apfloat::ieee::Double::from_bits(y as u128);
    a < b
}

/// Relies on rustc_apfloat's `PartialOrd` for `Double`.
#[verifier::external_body]
pub fn float_gt(x: u64, y: u64) -> (r: bool)
    ensures
        r == gt_bits(x, y),
{
    let a = rustc_apfloat::ieee::Double::from_bits(x as u128);
    let b = rustc_apfloat::ieee::Double::from_bits(y as u128);
    a > b
}

/// Relies on rustc_apfloat's `PartialOrd` for `Double`.
#[verifier::external_body]
pub fn float_le(x: u64, y: u64) -> (r: bool)
    ensures
        r == le_bits(x, y),
{
    let a = rustc_apfloat::ieee::Double::from_bits(x as u128);
    let b = rustc_apfloat::ieee::Double::from_bits(y as u128);
    a <= b
}

/// Relies on rustc_apfloat's `PartialOrd` for `Double`.
#[verifier::external_body]
pub fn float_ge(x: u64, y: u64) -> (r: bool)
    ensures
        r == ge_bits(x, y),
{
    let a = rustc_apfloat::ieee::Double::from_bits(x as u128);
    let b = rustc_apfloat::ieee::Double::from_bits(y as u128);
    a >= b
}

/// Relies on rustc_apfloat's `PartialEq` for `Double`, the IEEE-754 equality
/// (so NaN equals nothing, and the two zeros are equal).
#[verifier::external_body]
pub fn float_eq(x: u64, y: u64) -> (r: bool)
    ensures
        r == eq_bits(x, y),
{
    let a = rustc_apfloat::ieee::Double::from_bits(x as u128);
    let b = rustc_apfloat::ieee::Double::from_bits(y as u128);
    a == b
}

/// Relies on rustc_apfloat's `FromStr` for `Double`: the correctly rounded
/// value of a decimal or hexadecimal literal, or a parse error; the outcome
/// depends on the characters alone.
#[verifier::external_body]
pub fn parse_number(s: &str) -> (r: Option<u64>)
    ensures
        r == parse_num(s@),
{
    match s.parse::<rustc_apfloat::ieee::Double>() {
        Ok(d) => Some(d.to_bits() as u64),
        Err(_) => None,
    }
}

/// Relies on rustc_apfloat's `Float::from_u128` (ties to even): the double
/// nearest to the given integer.
#[verifier::external_body]
pub fn float_of_u64(n: u64) -> (r: u64)
    ensures
        r == bits_of_u64(n),
{
    rustc_apfloat::ieee::Double::from_u128(n as u128).value.to_bits() as u64
}

/// The absolute value of a double, written over its bits: a negative value
/// (one below positive zero) has its sign bit cleared, as IEEE-754 negation
/// flips the sign bit alone.
pub open spec fn abs_bits(x: u64) -> u64 {
    if lt_bits(x, POS_ZERO_BITS) {
        x ^ SIGN_BIT
    } else {
        x
    }
}

/// The smaller of two doubles, keeping the second when neither is greater.
pub open spec fn min_bits(x: u64, y: u64) -> u64 {
    if gt_bits(x, y) {
        y
    } else {
        x
    }
}

/// The absolute value of a double, by bit pattern; the second argument is
/// ignored, as every binary math helper of the builtin library takes two.
pub fn abs(x: u64, y: u64) -> (r: u64)
    ensures
        r == abs_bits(x),
{
    let _ = y;
    if float_lt(x, POS_ZERO_BITS) {
        x ^ SIGN_BIT
    } else {
        x
    }
}

/// The smaller of two doubles, by bit pattern.
pub fn min(x: u64, y: u64) -> (r: u64)
    ensures
        r == min_bits(x, y),
{
    if float_gt(x, y) {
        y
    } else {
        x
    }
}

} // verus!
