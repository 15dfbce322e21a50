//! Material-side plain data shared by the loaders and passes: the alpha
//! mode and texture bindings.

use vstd::prelude::*;
use std::rc::Rc;

verus! {

/// `Rc::clone`: another pointer to the same allocation.
/// Trusted: the clone shares (hence equals) the pointee.
#[verifier::external_body]
fn rc_share<T>(rc: &Rc<T>) -> (r: Rc<T>)
    ensures
        r == *rc,
{
    Rc::clone(rc)
}

/// Represents the alpha blending mode of the material.
#[derive(Clone, Copy, PartialEq, Eq, Structural, Debug)]
pub enum AlphaMode {
    /// The material is fully opaque.
    Opaque,
    /// The material uses a mask based on an alpha cutoff value.
    Mask,
    /// The material uses standard alpha blending.
    Blend,
}

impl Default for AlphaMode {
    fn default() -> (r: Self)
        ensures
            r == AlphaMode::Opaque,
    {
        AlphaMode::Opaque
    }
}

/// A texture used by a material, and which UV set (`vUv_N`) samples it.
pub struct TextureInfo<T> {
    /// The shared texture object.
    pub texture: Rc<T>,
    /// The UV coordinate set index to use for this texture.
    pub uv_position: u32,
}

impl<T> TextureInfo<T> {
    /// Another handle to the same texture with the same UV set.
    pub fn share(&self) -> (r: TextureInfo<T>)
        ensures
            r.texture == self.texture,
            r.uv_position == self.uv_position,
    {
        TextureInfo { texture: rc_share(&self.texture), uv_position: self.uv_position }
    }
}

} // verus!
