//! Single-precision values carried as their IEEE-754 bit patterns, and the
//! IEEE-754 comparisons the configuration rules need, decided on the bits.
//!
//! For values that are not NaN, IEEE-754 orders single-precision numbers by
//! sign and magnitude, and the magnitude bits (exponent then mantissa) order
//! non-negative values exactly as integers do. [`f32_rank`] maps a bit
//! pattern to that order (both zeros rank 0); every comparison with a NaN is
//! false.

use vstd::prelude::*;

verus! {

/// An `f32` as its IEEE-754 bit pattern (`f32::to_bits`).
pub type F32Bits = u32;

/// `0.0f32`.
pub const F32_ZERO: F32Bits = 0x0000_0000;
/// `1.0f32`.
pub const F32_ONE: F32Bits = 0x3f80_0000;

/// Whether the bit pattern is a NaN.
pub open spec fn f32_is_nan(b: F32Bits) -> bool {
    (b & 0x7fff_ffffu32) > 0x7f80_0000u32
}

/// Position of a non-NaN value in the IEEE-754 order.
pub open spec fn f32_rank(b: F32Bits) -> int {
    if b & 0x8000_0000u32 != 0 {
        -((b & 0x7fff_ffffu32) as int)
    } else {
        (b & 0x7fff_ffffu32) as int
    }
}

/// IEEE-754 `a <= b`.
pub open spec fn f32_le(a: F32Bits, b: F32Bits) -> bool {
    !f32_is_nan(a) && !f32_is_nan(b) && f32_rank(a) <= f32_rank(b)
}

/// IEEE-754 `a < b`.
pub open spec fn f32_lt(a: F32Bits, b: F32Bits) -> bool {
    !f32_is_nan(a) && !f32_is_nan(b) && f32_rank(a) < f32_rank(b)
}

fn rank(b: F32Bits) -> (r: i64)
    ensures
        r == f32_rank(b),
{
    let m = b & 0x7fff_ffffu32;
    if b & 0x8000_0000u32 != 0 {
        -(m as i64)
    } else {
        m as i64
    }
}

/// IEEE-754 `a <= b` on bit patterns.
pub fn f32_bits_le(a: F32Bits, b: F32Bits) -> (r: bool)
    ensures
        r == f32_le(a, b),
{
    let nan_a = (a & 0x7fff_ffffu32) > 0x7f80_0000u32;
    let nan_b = (b & 0x7fff_ffffu32) > 0x7f80_0000u32;
    !nan_a && !nan_b && rank(a) <= rank(b)
}

/// IEEE-754 `a < b` on bit patterns.
pub fn f32_bits_lt(a: F32Bits, b: F32Bits) -> (r: bool)
    ensures
        r == f32_lt(a, b),
{
    let nan_a = (a & 0x7fff_ffffu32) > 0x7f80_0000u32;
    let nan_b = (b & 0x7fff_ffffu32) > 0x7f80_0000u32;
    !nan_a && !nan_b && rank(a) < rank(b)
}

} // verus!
