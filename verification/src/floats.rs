//! IEEE-754 binary64 arithmetic over `u64` bit patterns.
//!
//! Every real-valued quantity in this crate is a binary64 value carried as
//! its bit pattern in a `u64`.  The arithmetic operations are performed by
//! `rustc_apfloat`, a software implementation of IEEE-754 used by the Rust
//! compiler itself; each operation is named by an uninterpreted spec
//! function of the operand bits.  Negation, absolute value and the test
//! against zero are pure bit manipulations that IEEE-754 defines exactly,
//! so those are ordinary verified functions.

use rustc_apfloat::Float;
use vstd::prelude::*;

verus! {

/// Bit pattern of +0.0.
pub const F_ZERO: u64 = 0;

/// Bit pattern of 1.0.
pub const F_ONE: u64 = 0x3FF0_0000_0000_0000;

/// Bit pattern of the most negative finite binary64 value.
pub const F_LOWEST: u64 = 0xFFEF_FFFF_FFFF_FFFF;

/// The sign bit of a binary64 value.
pub const F_SIGN_BIT: u64 = 0x8000_0000_0000_0000;

/// The binary64 sum of the values with bit patterns `a` and `b`,
/// rounded to nearest, ties to even.
pub uninterp spec fn fadd(a: u64, b: u64) -> u64;

/// The binary64 difference of the values with bit patterns `a` and `b`.
pub uninterp spec fn fsub(a: u64, b: u64) -> u64;

/// The binary64 product of the values with bit patterns `a` and `b`.
pub uninterp spec fn fmul(a: u64, b: u64) -> u64;

/// The binary64 quotient of the values with bit patterns `a` and `b`.
pub uninterp spec fn fdiv(a: u64, b: u64) -> u64;

/// Whether the value with bit pattern `a` is strictly less than the value
/// with bit pattern `b` in the IEEE-754 partial order.
pub uninterp spec fn flt(a: u64, b: u64) -> bool;

/// Whether the value with bit pattern `a` is less than or equal to the
/// value with bit pattern `b` in the IEEE-754 partial order.
pub uninterp spec fn fle(a: u64, b: u64) -> bool;

/// The binary64 value nearest to the integer `n`.
pub uninterp spec fn f_of_int(n: u64) -> u64;

/// Relies on `rustc_apfloat::ieee::Double`'s `Add`: IEEE-754 binary64
/// addition on bit patterns, round to nearest, ties to even.
#[verifier::external_body]
pub fn fadd_x(a: u64, b: u64) -> (r: u64)
    ensures
        r == fadd(a, b),
{
    let x = rustc_apfloat::ieee::Double::from_bits(a as u128);
    let y = rustc_apfloat::ieee::Double::from_bits(b as u128);
    (x + y).value.to_bits() as u64
}

/// Relies on `rustc_apfloat::ieee::Double`'s `Sub`: IEEE-754 binary64
/// subtraction on bit patterns.
#[verifier::external_body]
pub fn fsub_x(a: u64, b: u64) -> (r: u64)
    ensures
        r == fsub(a, b),
{
    let x = rustc_apfloat::ieee::Double::from_bits(a as u128);
    let y = rustc_apfloat::ieee::Double::from_bits(b as u128);
    (x - y).value.to_bits() as u64
}

/// Relies on `rustc_apfloat::ieee::Double`'s `Mul`: IEEE-754 binary64
/// multiplication on bit patterns.
#[verifier::external_body]
pub fn fmul_x(a: u64, b: u64) -> (r: u64)
    ensures
        r == fmul(a, b),
{
    let x = rustc_apfloat::ieee::Double::from_bits(a as u128);
    let y = rustc_apfloat::ieee::Double::from_bits(b as u128);
    (x * y).value.to_bits() as u64
}

/// Relies on `rustc_apfloat::ieee::Double`'s `Div`: IEEE-754 binary64
/// division on bit patterns.
#[verifier::external_body]
pub fn fdiv_x(a: u64, b: u64) -> (r: u64)
    ensures
        r == fdiv(a, b),
{
    let x = rustc_apfloat::ieee::Double::from_bits(a as u128);
    let y = rustc_apfloat::ieee::Double::from_bits(b as u128);
    (x / y).value.to_bits() as u64
}

/// Relies on `rustc_apfloat::ieee::Double`'s `PartialOrd`: the IEEE-754
/// comparison, under which a NaN compares less-than nothing.
#[verifier::external_body]
pub fn flt_x(a: u64, b: u64) -> (r: bool)
    ensures
        r == flt(a, b),
{
    let x = rustc_apfloat::ieee::Double::from_bits(a as u128);
    let y = rustc_apfloat::ieee::Double::from_bits(b as u128);
    x < y
}

/// Relies on `rustc_apfloat::ieee::Double`'s `PartialOrd`: the IEEE-754
/// comparison, under which a NaN compares less-or-equal to nothing.
#[verifier::external_body]
pub fn fle_x(a: u64, b: u64) -> (r: bool)
    ensures
        r == fle(a, b),
{
    let x = rustc_apfloat::ieee::Double::from_bits(a as u128);
    let y = rustc_apfloat::ieee::Double::from_bits(b as u128);
    x <= y
}

/// Relies on `rustc_apfloat::ieee::Double::from_u128`: conversion of an
/// unsigned integer to the nearest binary64 value.
#[verifier::external_body]
pub fn f_of_int_x(n: u64) -> (r: u64)
    ensures
        r == f_of_int(n),
{
    rustc_apfloat::ieee::Double::from_u128(n as u128).value.to_bits() as u64
}

/// IEEE-754 negation: flip the sign bit.
pub fn fneg_x(a: u64) -> (r: u64)
    ensures
        r == fneg(a),
{
    a ^ F_SIGN_BIT
}

/// The bit pattern of the negation of the value with bit pattern `a`.
pub open spec fn fneg(a: u64) -> u64 {
    a ^ F_SIGN_BIT
}

/// IEEE-754 absolute value: clear the sign bit.
pub fn fabs_x(a: u64) -> (r: u64)
    ensures
        r == fabs(a),
{
    a & 0x7FFF_FFFF_FFFF_FFFF
}

/// The bit pattern of the absolute value of the value with bit pattern `a`.
pub open spec fn fabs(a: u64) -> u64 {
    a & 0x7FFF_FFFF_FFFF_FFFF
}

/// Whether the value with bit pattern `a` compares equal to zero:
/// exactly the two bit patterns +0.0 and -0.0 do.
pub open spec fn fis_zero(a: u64) -> bool {
    a == F_ZERO || a == F_SIGN_BIT
}

/// Test against zero, as the IEEE-754 equality `x == 0.0` decides it.
pub fn fis_zero_x(a: u64) -> (r: bool)
    ensures
        r == fis_zero(a),
{
    a == F_ZERO || a == F_SIGN_BIT
}

/// Whether the sign bit of `a` is set.  For a nonzero non-NaN value this
/// says the value is negative.
pub open spec fn fsign_neg(a: u64) -> bool {
    a & F_SIGN_BIT == F_SIGN_BIT
}

/// Read the sign bit.
pub fn fsign_neg_x(a: u64) -> (r: bool)
    ensures
        r == fsign_neg(a),
{
    a & F_SIGN_BIT == F_SIGN_BIT
}

} // verus!
