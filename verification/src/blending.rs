//! Weighted blending of several animations.

use vstd::prelude::*;

verus! {

/// Whether a blend of weighted animations has completed, given whether each
/// of its animations has: it holds at least one animation, and every one of
/// them has completed.
pub open spec fn blend_completed_spec(completed: Seq<bool>) -> bool {
    completed.len() > 0 && forall|i: int| 0 <= i < completed.len() ==> completed[i]
}

/// Whether a blend has completed (see [`blend_completed_spec`]), from the
/// completion of each of its weighted animations.
pub fn blend_completed(completed: &[bool]) -> (r: bool)
    ensures
        r == blend_completed_spec(completed@),
{
    if completed.len() == 0 {
        return false;
    }
    let mut i: usize = 0;
    while i < completed.len()
        invariant
            i <= completed@.len(),
            forall|j: int| 0 <= j < i ==> completed@[j],
        decreases completed.len() - i,
    {
        if !completed[i] {
            return false;
        }
        i = i + 1;
    }
    true
}

} // verus!
