//! Scalar IEEE-754 double arithmetic, carried as raw 64-bit patterns.
//!
//! Verified code in this crate never holds a floating-point value: every
//! sample, pixel and coefficient travels as the 64 bits of its IEEE-754
//! encoding. The arithmetic itself is done by `const_soft_float`, a bit-exact
//! software implementation of the IEEE-754 operations, behind the trusted
//! functions below; each result is named by an uninterpreted spec function,
//! so that contracts can pin a computation down as a function of its inputs.

use vstd::prelude::*;
use const_soft_float::soft_f64::SoftF64;
use core::cmp::Ordering;
use rustc_apfloat::Float;

verus! {

/// The bits of the IEEE-754 sum of the doubles encoded by `a` and `b`.
pub uninterp spec fn add_bits(a: u64, b: u64) -> u64;

/// The bits of the IEEE-754 difference of the doubles encoded by `a` and `b`.
pub uninterp spec fn sub_bits(a: u64, b: u64) -> u64;

/// The bits of the IEEE-754 product of the doubles encoded by `a` and `b`.
pub uninterp spec fn mul_bits(a: u64, b: u64) -> u64;

/// The bits of the IEEE-754 quotient of the doubles encoded by `a` and `b`.
pub uninterp spec fn div_bits(a: u64, b: u64) -> u64;

/// The bits of the correctly rounded square root of the double encoded by `a`.
pub uninterp spec fn sqrt_bits(a: u64) -> u64;

/// Whether the double encoded by `a` compares strictly below the one encoded
/// by `b` (false whenever either operand is a NaN).
pub uninterp spec fn lt_bits(a: u64, b: u64) -> bool;

/// The bits of the double nearest to the unsigned integer `v`.
pub uninterp spec fn bits_of_uint(v: u64) -> u64;

/// Bits of 0.0.
pub const B_ZERO: u64 = 0;
/// Bits of 100.0.
pub const B_HUNDRED: u64 = 0x4059_0000_0000_0000;
/// Bits of 0.05.
pub const B_GAIN_SLOPE: u64 = 0x3FA9_9999_9999_999A;
/// Bits of 1e-20, the degenerate-direction guard of the solver.
pub const B_TINY: u64 = 0x3BC7_9CA1_0C92_4223;
/// Bits of 1e-12, the degenerate-direction guard of CGNE.
pub const B_TINY_CGNE: u64 = 0x3D71_9799_812D_EA11;
/// Bits of 1e-4, the convergence threshold of the solver.
pub const B_EPSILON: u64 = 0x3F1A_36E2_EB1C_432D;
/// Bits of 1e-9, the flat-image guard of the image sink.
pub const B_FLAT: u64 = 0x3E11_2E0B_E826_D695;
/// Bits of 255.0.
pub const B_MAX_PIXEL: u64 = 0x406F_E000_0000_0000;
/// Bits of positive infinity.
pub const B_POS_INF: u64 = 0x7FF0_0000_0000_0000;
/// Bits of negative infinity.
pub const B_NEG_INF: u64 = 0xFFF0_0000_0000_0000;

/// Relies on `const_soft_float::soft_f64::SoftF64::add`: IEEE-754 double
/// addition, round to nearest even, on raw bit patterns.
#[verifier::external_body]
pub fn f_add(a: u64, b: u64) -> (r: u64)
    ensures
        r == add_bits(a, b),
{
    SoftF64::from_bits(a).add(SoftF64::from_bits(b)).to_bits()
}

/// Relies on `const_soft_float::soft_f64::SoftF64::sub`: IEEE-754 double
/// subtraction, round to nearest even, on raw bit patterns.
#[verifier::external_body]
pub fn f_sub(a: u64, b: u64) -> (r: u64)
    ensures
        r == sub_bits(a, b),
{
    SoftF64::from_bits(a).sub(SoftF64::from_bits(b)).to_bits()
}

/// Relies on `const_soft_float::soft_f64::SoftF64::mul`: IEEE-754 double
/// multiplication, round to nearest even, on raw bit patterns.
#[verifier::external_body]
pub fn f_mul(a: u64, b: u64) -> (r: u64)
    ensures
        r == mul_bits(a, b),
{
    SoftF64::from_bits(a).mul(SoftF64::from_bits(b)).to_bits()
}

/// Relies on `const_soft_float::soft_f64::SoftF64::div`: IEEE-754 double
/// division, round to nearest even, on raw bit patterns.
#[verifier::external_body]
pub fn f_div(a: u64, b: u64) -> (r: u64)
    ensures
        r == div_bits(a, b),
{
    SoftF64::from_bits(a).div(SoftF64::from_bits(b)).to_bits()
}

/// Relies on `const_soft_float::soft_f64::SoftF64::sqrt`: the correctly
/// rounded IEEE-754 double square root, on raw bit patterns.
#[verifier::external_body]
pub fn f_sqrt(a: u64) -> (r: u64)
    ensures
        r == sqrt_bits(a),
{
    SoftF64::from_bits(a).sqrt().to_bits()
}

/// Relies on `const_soft_float::soft_f64::SoftF64::cmp`: the IEEE-754
/// comparison of two doubles, unordered exactly when one is a NaN.
#[verifier::external_body]
pub fn f_lt(a: u64, b: u64) -> (r: bool)
    ensures
        r == lt_bits(a, b),
{
    matches!(
        SoftF64::from_bits(a).cmp(SoftF64::from_bits(b)),
        Some(Ordering::Less)
    )
}

/// Relies on `rustc_apfloat::ieee::Double::from_u128`: the conversion of an
/// unsigned integer to the nearest IEEE-754 double (round to nearest even),
/// exact for every value below 2^53.
#[verifier::external_body]
pub fn f_of_uint(v: u64) -> (r: u64)
    ensures
        r == bits_of_uint(v),
{
    rustc_apfloat::ieee::Double::from_u128(v as u128).value.to_bits() as u64
}

/// The bit pattern of a double with its sign cleared: for every IEEE-754
/// value this is the encoding of its absolute value.
pub open spec fn abs_bits(a: u64) -> u64 {
    a & 0x7FFF_FFFF_FFFF_FFFF
}

/// Absolute value of a double, computed on its bit pattern.
pub fn f_abs(a: u64) -> (r: u64)
    ensures
        r == abs_bits(a),
{
    a & 0x7FFF_FFFF_FFFF_FFFF
}

} // verus!
