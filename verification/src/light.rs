//! The kinds of light source the renderer supports.

use vstd::prelude::*;

verus! {

/// Defines light type that supported by Renderer.
#[derive(Debug, PartialOrd, Ord, PartialEq, Eq, Structural, Hash, Clone, Copy)]
pub enum LightType {
    /// Point light source type.
    Point,
    /// Directional light source type.
    Direct,
    /// Spot light source type.
    Spot,
}

/// The display name of a light type.
pub open spec fn light_type_name(t: LightType) -> Seq<char> {
    match t {
        LightType::Point => "Point"@,
        LightType::Direct => "Direct"@,
        LightType::Spot => "Spot"@,
    }
}

impl LightType {
    /// The name the light type is displayed by.
    pub fn name(&self) -> (r: &'static str)
        ensures
            r@ == light_type_name(*self),
    {
        match self {
            LightType::Point => "Point",
            LightType::Direct => "Direct",
            LightType::Spot => "Spot",
        }
    }
}

} // verus!
