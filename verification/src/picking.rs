use vstd::prelude::*;

verus! {

/// A pick id as stored in the id texture. `0` is reserved, see [`PICK_ID_NONE`].
pub type PickId = u16;

/// The id written for background pixels and for meshes that should occlude but never
/// be reported as a hit.
pub const PICK_ID_NONE: PickId = 0;

/// Whether `( x, y )` names an in-bounds pixel of a `width` x `height` buffer.
pub fn pick_in_bounds(x: i32, y: i32, width: u32, height: u32) -> (r: bool)
    ensures
        r == (0 <= x < width && 0 <= y < height),
{
    x >= 0 && y >= 0 && (x as i64) < (width as i64) && (y as i64) < (height as i64)
}

/// The id a raw readback value stands for: none for [`PICK_ID_NONE`] and
/// for values an `R16UI` texture cannot hold.
pub open spec fn readback_spec(raw: u32) -> Option<PickId> {
    if raw == 0 || raw > u16::MAX { None } else { Some(raw as u16) }
}

/// Maps a raw readback value to a picked id: [`PICK_ID_NONE`] means "nothing here".
/// Values above `u16::MAX` cannot come from an `R16UI` texture and are rejected too.
pub fn readback_to_pick_id(raw: u32) -> (r: Option<PickId>)
    ensures
        r == readback_spec(raw),
{
    if raw == 0 || raw > 0xffff {
        None
    } else {
        Some(raw as u16)
    }
}

/// What resizing the id buffer does.
#[derive(Clone, Copy, PartialEq, Eq, Structural, Debug)]
pub enum SizeAction {
    /// The size is unchanged: nothing happens.
    Keep,
    /// The storage is released (a zero dimension was asked for).
    Release,
    /// The storage is released and the width does not fit `i32`.
    WidthTooLarge,
    /// The storage is released and the height does not fit `i32`.
    HeightTooLarge,
    /// The storage is released and reallocated at this size.
    Allocate { width: i32, height: i32 },
}

/// The size an id buffer reports, and whether it holds storage.
#[derive(Clone, Copy, PartialEq, Eq, Structural, Debug)]
pub struct IdBufferSize {
    pub width: u32,
    pub height: u32,
    pub storage: bool,
}

/// The action of resizing a buffer of size `current` to `width` x `height`.
pub open spec fn size_action_spec(current: IdBufferSize, width: u32, height: u32) -> SizeAction {
    if width == current.width && height == current.height {
        SizeAction::Keep
    } else if width == 0 || height == 0 {
        SizeAction::Release
    } else if width > i32::MAX {
        SizeAction::WidthTooLarge
    } else if height > i32::MAX {
        SizeAction::HeightTooLarge
    } else {
        SizeAction::Allocate { width: width as i32, height: height as i32 }
    }
}

/// The size after an action; `allocated` tells whether the GPU side of an
/// allocation (texture, renderbuffer, complete framebuffer) succeeded.
pub open spec fn size_after_spec(current: IdBufferSize, action: SizeAction, allocated: bool) -> IdBufferSize {
    match action {
        SizeAction::Keep => current,
        SizeAction::Allocate { width, height } => if allocated {
            IdBufferSize { width: width as u32, height: height as u32, storage: true }
        } else {
            IdBufferSize { width: 0, height: 0, storage: false }
        },
        _ => IdBufferSize { width: 0, height: 0, storage: false },
    }
}

impl IdBufferSize {
    /// A buffer without storage, reporting `( 0, 0 )`.
    pub fn empty() -> (r: Self)
        ensures
            r == (IdBufferSize { width: 0, height: 0, storage: false }),
    {
        IdBufferSize { width: 0, height: 0, storage: false }
    }

    /// What resizing to `width` x `height` does: a no-op when the size is
    /// unchanged; otherwise the storage is released, and reallocated unless a
    /// dimension is zero or does not fit `i32`.
    pub fn size_action(&self, width: u32, height: u32) -> (r: SizeAction)
        ensures
            r == size_action_spec(*self, width, height),
    {
        if width == self.width && height == self.height {
            SizeAction::Keep
        } else if width == 0 || height == 0 {
            SizeAction::Release
        } else if width > 0x7fff_ffff {
            SizeAction::WidthTooLarge
        } else if height > 0x7fff_ffff {
            SizeAction::HeightTooLarge
        } else {
            SizeAction::Allocate { width: width as i32, height: height as i32 }
        }
    }

    /// The size after `action`, given whether an allocation succeeded.
    pub fn after(&self, action: SizeAction, allocated: bool) -> (r: IdBufferSize)
        ensures
            r == size_after_spec(*self, action, allocated),
    {
        match action {
            SizeAction::Keep => *self,
            SizeAction::Allocate { width, height } => if allocated {
                IdBufferSize { width: width as u32, height: height as u32, storage: true }
            } else {
                IdBufferSize { width: 0, height: 0, storage: false }
            },
            _ => IdBufferSize { width: 0, height: 0, storage: false },
        }
    }

    /// Whether reading the pixel at `( x, y )` consults the GPU: only with
    /// storage and in bounds; every other read is `None`.
    pub fn reads_pixel(&self, x: i32, y: i32) -> (r: bool)
        ensures
            r == (self.storage && 0 <= x < self.width && 0 <= y < self.height),
    {
        self.storage && pick_in_bounds(x, y, self.width, self.height)
    }
}

/// Resizing is settled by one call: after a resize that kept, released,
/// or successfully reallocated the storage, resizing to the same size again
/// changes nothing. A successful reallocation reports the size asked for;
/// every other outcome but keeping reports `( 0, 0 )` without storage.
pub proof fn lemma_size_set_settles(current: IdBufferSize, width: u32, height: u32, allocated: bool, again: bool)
    ensures
        ({
            let a = size_action_spec(current, width, height);
            let next = size_after_spec(current, a, allocated);
            &&& (a is Keep || a is Release || (a is Allocate && allocated))
                ==> size_after_spec(next, size_action_spec(next, width, height), again) == next
            &&& a is Allocate && allocated ==> next == (IdBufferSize { width, height, storage: true })
            &&& (a is Release || a is WidthTooLarge || a is HeightTooLarge || (a is Allocate && !allocated))
                ==> next == (IdBufferSize { width: 0, height: 0, storage: false })
        }),
{
}

/// An id drawn into the id texture (widened to the `u32` a readback
/// yields) reads back as itself, except the reserved [`PICK_ID_NONE`],
/// which reads back as nothing picked.
pub proof fn lemma_pick_id_round_trip(id: PickId)
    ensures
        readback_spec(id as u32) == (if id == PICK_ID_NONE { None } else { Some(id) }),
{
}

} // verus!
