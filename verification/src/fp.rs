//! Scalar arithmetic on IEEE 754 single-precision values, carried as their
//! 32-bit patterns.
//!
//! The verified code never holds a floating-point value directly: a scalar is
//! the `u32` bit pattern of an IEEE 754 binary32 number.  The arithmetic
//! operations are performed by software implementations of IEEE 754
//! arithmetic (`rustc_apfloat`, and `ieee_apsqrt` for the square root), under
//! round-to-nearest-ties-to-even.  Each operation's result is a function of the operand bit patterns
//! alone, so it is given an uninterpreted name that the contracts of the rest
//! of the library build on.  Classification (finite, NaN, positive) is plain
//! bit logic on the IEEE 754 layout and is implemented and verified here.

use rustc_apfloat::Float;
use vstd::prelude::*;

verus! {

/// Bit pattern of the binary32 sum of the two operands.
pub uninterp spec fn add_bits(a: u32, b: u32) -> u32;

/// Bit pattern of the binary32 difference of the two operands.
pub uninterp spec fn sub_bits(a: u32, b: u32) -> u32;

/// Bit pattern of the binary32 product of the two operands.
pub uninterp spec fn mul_bits(a: u32, b: u32) -> u32;

/// Bit pattern of the binary32 quotient of the two operands.
pub uninterp spec fn div_bits(a: u32, b: u32) -> u32;

/// Bit pattern of the binary32 square root of the operand.
pub uninterp spec fn sqrt_bits(a: u32) -> u32;

/// Bit pattern of the binary32 value nearest to the integer `n`.
pub uninterp spec fn int_bits(n: u64) -> u32;

/// Relies on `rustc_apfloat::ieee::Single::add_r`: IEEE 754 addition,
/// round-to-nearest-ties-to-even; the result depends on the operand bit
/// patterns alone.
#[verifier::external_body]
pub(crate) fn f_add(a: u32, b: u32) -> (r: u32)
    ensures
        r == add_bits(a, b),
{
    let x = rustc_apfloat::ieee::Single::from_bits(a as u128);
    let y = rustc_apfloat::ieee::Single::from_bits(b as u128);
    x.add_r(y, rustc_apfloat::Round::NearestTiesToEven).value.to_bits() as u32
}

/// Relies on `rustc_apfloat::ieee::Single::sub_r`: IEEE 754 subtraction,
/// round-to-nearest-ties-to-even; the result depends on the operand bit
/// patterns alone.
#[verifier::external_body]
pub(crate) fn f_sub(a: u32, b: u32) -> (r: u32)
    ensures
        r == sub_bits(a, b),
{
    let x = rustc_apfloat::ieee::Single::from_bits(a as u128);
    let y = rustc_apfloat::ieee::Single::from_bits(b as u128);
    x.sub_r(y, rustc_apfloat::Round::NearestTiesToEven).value.to_bits() as u32
}

/// Relies on `rustc_apfloat::ieee::Single::mul_r`: IEEE 754 multiplication,
/// round-to-nearest-ties-to-even; the result depends on the operand bit
/// patterns alone.
#[verifier::external_body]
pub(crate) fn f_mul(a: u32, b: u32) -> (r: u32)
    ensures
        r == mul_bits(a, b),
{
    let x = rustc_apfloat::ieee::Single::from_bits(a as u128);
    let y = rustc_apfloat::ieee::Single::from_bits(b as u128);
    x.mul_r(y, rustc_apfloat::Round::NearestTiesToEven).value.to_bits() as u32
}

/// Relies on `rustc_apfloat::ieee::Single::div_r`: IEEE 754 division,
/// round-to-nearest-ties-to-even; the result depends on the operand bit
/// patterns alone.
#[verifier::external_body]
pub(crate) fn f_div(a: u32, b: u32) -> (r: u32)
    ensures
        r == div_bits(a, b),
{
    let x = rustc_apfloat::ieee::Single::from_bits(a as u128);
    let y = rustc_apfloat::ieee::Single::from_bits(b as u128);
    x.div_r(y, rustc_apfloat::Round::NearestTiesToEven).value.to_bits() as u32
}

/// Relies on `ieee_apsqrt::sqrt_accurate`: correctly rounded IEEE 754 square
/// root of the single-precision value held in the bits; the result depends on
/// the bit pattern alone.
#[verifier::external_body]
pub(crate) fn f_sqrt(a: u32) -> (r: u32)
    ensures
        r == sqrt_bits(a),
{
    ieee_apsqrt::sqrt_accurate(a, rustc_apfloat::Round::NearestTiesToEven).0.value
}

/// Relies on `rustc_apfloat::ieee::Single::from_u128_r`: conversion of an
/// integer to the nearest binary32 value; the result depends on the argument
/// alone.
#[verifier::external_body]
pub(crate) fn f_from_int(n: u64) -> (r: u32)
    ensures
        r == int_bits(n),
{
    let v = rustc_apfloat::ieee::Single::from_u128_r(
        n as u128,
        rustc_apfloat::Round::NearestTiesToEven,
    );
    v.value.to_bits() as u32
}

/// The value is neither an infinity nor a NaN: its exponent field is not all
/// ones.
pub open spec fn is_finite_bits(a: u32) -> bool {
    a & 0x7f80_0000u32 != 0x7f80_0000u32
}

/// The value is strictly greater than zero: sign bit clear, magnitude
/// non-zero, and not a NaN.  Both zeros and every negative value fail this;
/// positive infinity passes it.
pub open spec fn is_strictly_positive_bits(a: u32) -> bool {
    1u32 <= a <= 0x7f80_0000u32
}

/// Runtime check that the value is finite (not an infinity, not a NaN).
pub fn is_finite(a: u32) -> (r: bool)
    ensures
        r == is_finite_bits(a),
{
    a & 0x7f80_0000u32 != 0x7f80_0000u32
}

/// Runtime check that the value is strictly greater than zero.
pub fn is_strictly_positive(a: u32) -> (r: bool)
    ensures
        r == is_strictly_positive_bits(a),
{
    1u32 <= a && a <= 0x7f80_0000u32
}

/// The bit pattern of positive zero.
pub open spec fn zero_bits() -> u32 {
    0u32
}

/// Runtime positive zero.
pub fn f_zero() -> (r: u32)
    ensures
        r == zero_bits(),
{
    0u32
}

/// `max(0, a)`, the hinge of the margin loss: `a` itself when it is strictly
/// greater than zero, positive zero otherwise (also for a NaN argument).
pub open spec fn hinge_bits(a: u32) -> u32 {
    if is_strictly_positive_bits(a) {
        a
    } else {
        zero_bits()
    }
}

/// Runtime hinge.
pub fn f_hinge(a: u32) -> (r: u32)
    ensures
        r == hinge_bits(a),
{
    if is_strictly_positive(a) {
        a
    } else {
        0u32
    }
}

} // verus!
