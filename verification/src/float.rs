//! 32-bit IEEE-754 values, carried by their bit patterns.
//!
//! The importer never computes with floating point itself: every arithmetic
//! step it needs (addition, multiplication, square root, ...) is delegated,
//! behind small trusted wrappers, to a software implementation of IEEE-754
//! single-precision arithmetic that works on the bit patterns, and each
//! wrapper's result is pinned to an uninterpreted name so that callers'
//! contracts can state exactly which operations produced which component.
//! Every one of those operations is a pure function of the operand bit
//! patterns.  Negation is the one operation done here directly: IEEE-754
//! negation flips the sign bit and nothing else.

use vstd::prelude::*;

verus! {

/// A 32-bit IEEE-754 value, as its bit pattern.
#[derive(Clone, Copy, PartialEq, Eq, Structural, Debug)]
pub struct FloatBits {
    pub bits: u32,
}

/// The sign bit of a 32-bit IEEE-754 value.
pub const F32_SIGN_MASK: u32 = 0x8000_0000;

/// The bit pattern of `0.0f32`.
pub const F32_ZERO: u32 = 0x0000_0000;

/// The bit pattern of `0.25f32`.
pub const F32_QUARTER: u32 = 0x3E80_0000;

/// The bit pattern of `0.5f32`.
pub const F32_HALF: u32 = 0x3F00_0000;

/// The bit pattern of `1.0f32`.
pub const F32_ONE: u32 = 0x3F80_0000;

/// The bit pattern of `2.0f32`.
pub const F32_TWO: u32 = 0x4000_0000;

/// The bit pattern of `100.0f32`.
pub const F32_HUNDRED: u32 = 0x42C8_0000;

/// The bit pattern of `180.0f32`.
pub const F32_ONE_EIGHTY: u32 = 0x4334_0000;

/// The bit pattern of `3.14f32`.
pub const F32_PI_APPROX: u32 = 0x4048_F5C3;

impl FloatBits {
    /// Wraps a bit pattern.
    pub fn new(bits: u32) -> (r: FloatBits)
        ensures
            r.bits == bits,
    {
        FloatBits { bits }
    }

    /// The negated value: IEEE-754 negation flips the sign bit.
    pub fn neg(self) -> (r: FloatBits)
        ensures
            r.bits == self.bits ^ F32_SIGN_MASK,
    {
        FloatBits { bits: self.bits ^ F32_SIGN_MASK }
    }
}

/// What parsing a token as an `f32` yields, if anything.
pub uninterp spec fn f32_of_text(s: Seq<char>) -> Option<u32>;

/// What `f32` addition yields on two bit patterns.
pub uninterp spec fn f32_add(a: u32, b: u32) -> u32;

/// What `f32` subtraction yields on two bit patterns.
pub uninterp spec fn f32_sub(a: u32, b: u32) -> u32;

/// What `f32` multiplication yields on two bit patterns.
pub uninterp spec fn f32_mul(a: u32, b: u32) -> u32;

/// What `f32` division yields on two bit patterns.
pub uninterp spec fn f32_div(a: u32, b: u32) -> u32;

/// What `f32::sqrt` yields on a bit pattern.
pub uninterp spec fn f32_sqrt(a: u32) -> u32;

/// What `f32::round` yields on a bit pattern.
pub uninterp spec fn f32_round(a: u32) -> u32;

/// Whether the value of the first bit pattern is greater than the second's.
pub uninterp spec fn f32_gt(a: u32, b: u32) -> bool;

/// Relies on `rustc_apfloat::ieee::Single`'s `FromStr`: correctly-rounded,
/// deterministic decimal-to-single conversion; `None` exactly on input its
/// grammar refuses.
#[verifier::external_body]
pub(crate) fn parse_f32(s: &str) -> (r: Option<FloatBits>)
    ensures
        match r {
            Some(f) => f32_of_text(s@) == Some(f.bits),
            None => f32_of_text(s@) is None,
        },
{
    match s.parse::<rustc_apfloat::ieee::Single>() {
        Ok(v) => Some(FloatBits { bits: rustc_apfloat::Float::to_bits(v) as u32 }),
        Err(_) => None,
    }
}

/// Relies on `SoftF32::add`: IEEE-754 addition, a function of the operand bits.
#[verifier::external_body]
pub(crate) fn fp_add(a: FloatBits, b: FloatBits) -> (r: FloatBits)
    ensures
        r.bits == f32_add(a.bits, b.bits),
{
    FloatBits { bits: const_soft_float::soft_f32::SoftF32::from_bits(a.bits).add(const_soft_float::soft_f32::SoftF32::from_bits(b.bits)).to_bits() }
}

/// Relies on `SoftF32::sub`: IEEE-754 subtraction, a function of the operand bits.
#[verifier::external_body]
pub(crate) fn fp_sub(a: FloatBits, b: FloatBits) -> (r: FloatBits)
    ensures
        r.bits == f32_sub(a.bits, b.bits),
{
    FloatBits { bits: const_soft_float::soft_f32::SoftF32::from_bits(a.bits).sub(const_soft_float::soft_f32::SoftF32::from_bits(b.bits)).to_bits() }
}

/// Relies on `SoftF32::mul`: IEEE-754 multiplication, a function of the operand bits.
#[verifier::external_body]
pub(crate) fn fp_mul(a: FloatBits, b: FloatBits) -> (r: FloatBits)
    ensures
        r.bits == f32_mul(a.bits, b.bits),
{
    FloatBits { bits: const_soft_float::soft_f32::SoftF32::from_bits(a.bits).mul(const_soft_float::soft_f32::SoftF32::from_bits(b.bits)).to_bits() }
}

/// Relies on `SoftF32::div`: IEEE-754 division, a function of the operand bits.
#[verifier::external_body]
pub(crate) fn fp_div(a: FloatBits, b: FloatBits) -> (r: FloatBits)
    ensures
        r.bits == f32_div(a.bits, b.bits),
{
    FloatBits { bits: const_soft_float::soft_f32::SoftF32::from_bits(a.bits).div(const_soft_float::soft_f32::SoftF32::from_bits(b.bits)).to_bits() }
}

/// Relies on `SoftF32::sqrt`: IEEE-754 square root, correctly rounded, a
/// function of the operand bits.
#[verifier::external_body]
pub(crate) fn fp_sqrt(a: FloatBits) -> (r: FloatBits)
    ensures
        r.bits == f32_sqrt(a.bits),
{
    FloatBits { bits: const_soft_float::soft_f32::SoftF32::from_bits(a.bits).sqrt().to_bits() }
}

/// Relies on `SoftF32::round`: rounding to the nearest integer, ties away
/// from zero, a function of the operand bits.
#[verifier::external_body]
pub(crate) fn fp_round(a: FloatBits) -> (r: FloatBits)
    ensures
        r.bits == f32_round(a.bits),
{
    FloatBits { bits: const_soft_float::soft_f32::SoftF32::from_bits(a.bits).round().to_bits() }
}

/// Relies on `SoftF32::cmp`: the IEEE-754 ordering, a function of the
/// operand bits (never `Greater` when either operand is a NaN).
#[verifier::external_body]
pub(crate) fn fp_gt(a: FloatBits, b: FloatBits) -> (r: bool)
    ensures
        r == f32_gt(a.bits, b.bits),
{
    matches!(
        const_soft_float::soft_f32::SoftF32::from_bits(a.bits).cmp(
            const_soft_float::soft_f32::SoftF32::from_bits(b.bits),
        ),
        Some(core::cmp::Ordering::Greater)
    )
}

/// What `SoftF32::sin` yields on a bit pattern.
pub uninterp spec fn f32_sin(a: u32) -> u32;

/// What `SoftF32::cos` yields on a bit pattern.
pub uninterp spec fn f32_cos(a: u32) -> u32;

/// Relies on `SoftF32::sin`: the sine, a function of the operand bits.
#[verifier::external_body]
pub(crate) fn fp_sin(a: FloatBits) -> (r: FloatBits)
    ensures
        r.bits == f32_sin(a.bits),
{
    FloatBits { bits: const_soft_float::soft_f32::SoftF32::from_bits(a.bits).sin().to_bits() }
}

/// Relies on `SoftF32::cos`: the cosine, a function of the operand bits.
#[verifier::external_body]
pub(crate) fn fp_cos(a: FloatBits) -> (r: FloatBits)
    ensures
        r.bits == f32_cos(a.bits),
{
    FloatBits { bits: const_soft_float::soft_f32::SoftF32::from_bits(a.bits).cos().to_bits() }
}

} // verus!
