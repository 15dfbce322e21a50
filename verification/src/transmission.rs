//! The slab thickness screen-space transmission refracts through when a
//! material authors none.
//!
//! Extents are `f32` bit patterns. Positive finite floats order as their
//! bit patterns do, so the smallest positive extent is the smallest
//! pattern among them.

use vstd::prelude::*;
use crate::f32_bits::F32Bits;

verus! {

/// Whether `b` is a finite `f32` greater than zero: sign bit clear, not
/// zero, exponent not all ones.
pub open spec fn positive_finite(b: F32Bits) -> bool {
    0 < b < 0x7f80_0000
}

/// Whether `r` is the fallback thickness for `extent`: the smallest of its
/// positive finite components, or `0.0` when it has none.
pub open spec fn slab_thickness_of(extent: [F32Bits; 3], r: F32Bits) -> bool {
    if exists|i: int| 0 <= i < 3 && positive_finite(#[trigger] extent@[i]) {
        &&& exists|i: int| 0 <= i < 3 && positive_finite(#[trigger] extent@[i]) && r == extent@[i]
        &&& forall|j: int| 0 <= j < 3 && positive_finite(#[trigger] extent@[j]) ==> r <= extent@[j]
    } else {
        r == 0
    }
}

/// Geometric slab thickness to refract through when the material authors
/// none, from the world-space bounding-box `extent` of the primitive: the
/// smallest extent (the shortest way through the object), ignoring
/// non-finite and non-positive ones; `0.0` (thin-walled) when none is left.
pub fn fallback_slab_thickness(extent: [F32Bits; 3]) -> (r: F32Bits)
    ensures
        slab_thickness_of(extent, r),
{
    let mut best: Option<F32Bits> = None;
    let mut i: usize = 0;
    while i < 3
        invariant
            i <= 3,
            match best {
                None => forall|j: int| 0 <= j < i ==> !positive_finite(#[trigger] extent@[j]),
                Some(m) => {
                    &&& exists|j: int| 0 <= j < i && positive_finite(#[trigger] extent@[j]) && m == extent@[j]
                    &&& forall|j: int| 0 <= j < i && positive_finite(#[trigger] extent@[j]) ==> m <= extent@[j]
                },
            },
        decreases 3 - i,
    {
        let b = extent[i];
        if 0 < b && b < 0x7f80_0000u32 {
            best = match best {
                None => Some(b),
                Some(m) => if b < m { Some(b) } else { Some(m) },
            };
        }
        i = i + 1;
    }
    match best {
        Some(m) => m,
        None => 0,
    }
}

} // verus!
