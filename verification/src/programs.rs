//! The shader programs of the renderer, each with the uniforms whose
//! locations are looked up when it is linked, and the tone-mapping pass.

use vstd::prelude::*;
use std::marker::PhantomData;

verus! {

/// An empty shader program, used as a placeholder or for a simple pass-through pipeline.
pub struct EmptyShader;

impl EmptyShader {
    /// The uniforms whose locations are looked up when the program is linked.
    pub open spec fn uniforms() -> Seq<Seq<char>> {
        seq![]
    }

    /// The names of [`Self::uniforms`], in order.
    pub fn uniform_names() -> (r: Vec<&'static str>)
        ensures
            r@.map_values(|s: &str| s@) == Self::uniforms(),
    {
        let mut v: Vec<&'static str> = Vec::new();
        assert(v@.map_values(|s: &str| s@) =~= Self::uniforms());
        v
    }
}

/// A Physically Based Rendering (PBR) shader.
pub struct PBRShader;

impl PBRShader {
    /// The uniforms whose locations are looked up when the program is linked.
    pub open spec fn uniforms() -> Seq<Seq<char>> {
        seq!["cameraPosition"@, "viewMatrix"@, "projectionMatrix"@, "worldMatrix"@, "normalMatrix"@, "inverseBindMatrices"@, "globalJointTransformMatrices"@, "matricesTextureSize"@, "metallicRoughnessTexture"@, "baseColorTexture"@, "normalTexture"@, "occlusionTexture"@, "emissiveTexture"@, "specularTexture"@, "specularColorTexture"@, "irradianceTexture"@, "prefilterEnvMap"@, "integrateBRDF"@, "baseColorFactor"@, "metallicFactor"@, "roughnessFactor"@, "normalScale"@, "occlusionStrength"@, "specularFactor"@, "specularColorFactor"@, "emissiveFactor"@, "alphaCutoff"@, "exposure"@]
    }

    /// The names of [`Self::uniforms`], in order.
    pub fn uniform_names() -> (r: Vec<&'static str>)
        ensures
            r@.map_values(|s: &str| s@) == Self::uniforms(),
    {
        let mut v: Vec<&'static str> = Vec::new();
        v.push("cameraPosition");
        v.push("viewMatrix");
        v.push("projectionMatrix");
        v.push("worldMatrix");
        v.push("normalMatrix");
        v.push("inverseBindMatrices");
        v.push("globalJointTransformMatrices");
        v.push("matricesTextureSize");
        v.push("metallicRoughnessTexture");
        v.push("baseColorTexture");
        v.push("normalTexture");
        v.push("occlusionTexture");
        v.push("emissiveTexture");
        v.push("specularTexture");
        v.push("specularColorTexture");
        v.push("irradianceTexture");
        v.push("prefilterEnvMap");
        v.push("integrateBRDF");
        v.push("baseColorFactor");
        v.push("metallicFactor");
        v.push("roughnessFactor");
        v.push("normalScale");
        v.push("occlusionStrength");
        v.push("specularFactor");
        v.push("specularColorFactor");
        v.push("emissiveFactor");
        v.push("alphaCutoff");
        v.push("exposure");
        assert(v@.map_values(|s: &str| s@) =~= Self::uniforms());
        v
    }
}

/// A Gaussian filter shader, used for blurring (as part of bloom).
pub struct GaussianFilterShader;

impl GaussianFilterShader {
    /// The uniforms whose locations are looked up when the program is linked.
    pub open spec fn uniforms() -> Seq<Seq<char>> {
        seq!["sourceTexture"@, "invSize"@, "blurDir"@, "kernel"@]
    }

    /// The names of [`Self::uniforms`], in order.
    pub fn uniform_names() -> (r: Vec<&'static str>)
        ensures
            r@.map_values(|s: &str| s@) == Self::uniforms(),
    {
        let mut v: Vec<&'static str> = Vec::new();
        v.push("sourceTexture");
        v.push("invSize");
        v.push("blurDir");
        v.push("kernel");
        assert(v@.map_values(|s: &str| s@) =~= Self::uniforms());
        v
    }
}

/// A bloom shader in the style of the Unreal Engine's.
pub struct UnrealBloomShader;

impl UnrealBloomShader {
    /// The uniforms whose locations are looked up when the program is linked.
    pub open spec fn uniforms() -> Seq<Seq<char>> {
        seq!["blurTexture0"@, "blurTexture1"@, "blurTexture2"@, "blurTexture3"@, "blurTexture4"@, "bloomStrength"@, "bloomRadius"@, "bloomFactors"@, "bloomTintColors"@]
    }

    /// The names of [`Self::uniforms`], in order.
    pub fn uniform_names() -> (r: Vec<&'static str>)
        ensures
            r@.map_values(|s: &str| s@) == Self::uniforms(),
    {
        let mut v: Vec<&'static str> = Vec::new();
        v.push("blurTexture0");
        v.push("blurTexture1");
        v.push("blurTexture2");
        v.push("blurTexture3");
        v.push("blurTexture4");
        v.push("bloomStrength");
        v.push("bloomRadius");
        v.push("bloomFactors");
        v.push("bloomTintColors");
        assert(v@.map_values(|s: &str| s@) =~= Self::uniforms());
        v
    }
}

/// A geometry buffer (GBuffer) shader.
pub struct GBufferShader;

impl GBufferShader {
    /// The uniforms whose locations are looked up when the program is linked.
    pub open spec fn uniforms() -> Seq<Seq<char>> {
        seq!["worldMatrix"@, "viewMatrix"@, "projectionMatrix"@, "normalMatrix"@, "near_far"@, "albedoTexture"@, "objectId"@, "materialId"@, "objectColor"@]
    }

    /// The names of [`Self::uniforms`], in order.
    pub fn uniform_names() -> (r: Vec<&'static str>)
        ensures
            r@.map_values(|s: &str| s@) == Self::uniforms(),
    {
        let mut v: Vec<&'static str> = Vec::new();
        v.push("worldMatrix");
        v.push("viewMatrix");
        v.push("projectionMatrix");
        v.push("normalMatrix");
        v.push("near_far");
        v.push("albedoTexture");
        v.push("objectId");
        v.push("materialId");
        v.push("objectColor");
        assert(v@.map_values(|s: &str| s@) =~= Self::uniforms());
        v
    }
}

/// A composite shader.
pub struct CompositeShader;

impl CompositeShader {
    /// The uniforms whose locations are looked up when the program is linked.
    pub open spec fn uniforms() -> Seq<Seq<char>> {
        seq!["transparentA"@, "transparentB"@]
    }

    /// The names of [`Self::uniforms`], in order.
    pub fn uniform_names() -> (r: Vec<&'static str>)
        ensures
            r@.map_values(|s: &str| s@) == Self::uniforms(),
    {
        let mut v: Vec<&'static str> = Vec::new();
        v.push("transparentA");
        v.push("transparentB");
        assert(v@.map_values(|s: &str| s@) =~= Self::uniforms());
        v
    }
}

/// The object pass of the Jump Flood Algorithm (JFA) outline.
pub struct JfaOutlineObjectShader;

impl JfaOutlineObjectShader {
    /// The uniforms whose locations are looked up when the program is linked.
    pub open spec fn uniforms() -> Seq<Seq<char>> {
        seq!["u_projection"@, "u_view"@, "u_model"@]
    }

    /// The names of [`Self::uniforms`], in order.
    pub fn uniform_names() -> (r: Vec<&'static str>)
        ensures
            r@.map_values(|s: &str| s@) == Self::uniforms(),
    {
        let mut v: Vec<&'static str> = Vec::new();
        v.push("u_projection");
        v.push("u_view");
        v.push("u_model");
        assert(v@.map_values(|s: &str| s@) =~= Self::uniforms());
        v
    }
}

/// The initialization pass of the JFA outline.
pub struct JfaOutlineInitShader;

impl JfaOutlineInitShader {
    /// The uniforms whose locations are looked up when the program is linked.
    pub open spec fn uniforms() -> Seq<Seq<char>> {
        seq!["u_object_texture"@]
    }

    /// The names of [`Self::uniforms`], in order.
    pub fn uniform_names() -> (r: Vec<&'static str>)
        ensures
            r@.map_values(|s: &str| s@) == Self::uniforms(),
    {
        let mut v: Vec<&'static str> = Vec::new();
        v.push("u_object_texture");
        assert(v@.map_values(|s: &str| s@) =~= Self::uniforms());
        v
    }
}

/// The stepping pass of the JFA outline.
pub struct JfaOutlineStepShader;

impl JfaOutlineStepShader {
    /// The uniforms whose locations are looked up when the program is linked.
    pub open spec fn uniforms() -> Seq<Seq<char>> {
        seq!["u_jfa_texture"@, "u_resolution"@, "u_step_size"@]
    }

    /// The names of [`Self::uniforms`], in order.
    pub fn uniform_names() -> (r: Vec<&'static str>)
        ensures
            r@.map_values(|s: &str| s@) == Self::uniforms(),
    {
        let mut v: Vec<&'static str> = Vec::new();
        v.push("u_jfa_texture");
        v.push("u_resolution");
        v.push("u_step_size");
        assert(v@.map_values(|s: &str| s@) =~= Self::uniforms());
        v
    }
}

/// The final JFA outline shader.
pub struct JfaOutlineShader;

impl JfaOutlineShader {
    /// The uniforms whose locations are looked up when the program is linked.
    pub open spec fn uniforms() -> Seq<Seq<char>> {
        seq!["u_object_texture"@, "u_jfa_texture"@, "u_resolution"@, "u_outline_thickness"@, "u_outline_color"@, "u_object_color"@, "u_background_color"@]
    }

    /// The names of [`Self::uniforms`], in order.
    pub fn uniform_names() -> (r: Vec<&'static str>)
        ensures
            r@.map_values(|s: &str| s@) == Self::uniforms(),
    {
        let mut v: Vec<&'static str> = Vec::new();
        v.push("u_object_texture");
        v.push("u_jfa_texture");
        v.push("u_resolution");
        v.push("u_outline_thickness");
        v.push("u_outline_color");
        v.push("u_object_color");
        v.push("u_background_color");
        assert(v@.map_values(|s: &str| s@) =~= Self::uniforms());
        v
    }
}

/// The object pass of the normal/depth outline.
pub struct NormalDepthOutlineObjectShader;

impl NormalDepthOutlineObjectShader {
    /// The uniforms whose locations are looked up when the program is linked.
    pub open spec fn uniforms() -> Seq<Seq<char>> {
        seq!["u_projection"@, "u_view"@, "u_model"@, "u_normal_matrix"@, "near"@, "far"@]
    }

    /// The names of [`Self::uniforms`], in order.
    pub fn uniform_names() -> (r: Vec<&'static str>)
        ensures
            r@.map_values(|s: &str| s@) == Self::uniforms(),
    {
        let mut v: Vec<&'static str> = Vec::new();
        v.push("u_projection");
        v.push("u_view");
        v.push("u_model");
        v.push("u_normal_matrix");
        v.push("near");
        v.push("far");
        assert(v@.map_values(|s: &str| s@) =~= Self::uniforms());
        v
    }
}

/// The final normal/depth outline shader.
pub struct NormalDepthOutlineShader;

impl NormalDepthOutlineShader {
    /// The uniforms whose locations are looked up when the program is linked.
    pub open spec fn uniforms() -> Seq<Seq<char>> {
        seq!["u_color_texture"@, "u_depth_texture"@, "u_norm_texture"@, "u_projection"@, "u_resolution"@, "u_outline_thickness"@, "u_background_color"@]
    }

    /// The names of [`Self::uniforms`], in order.
    pub fn uniform_names() -> (r: Vec<&'static str>)
        ensures
            r@.map_values(|s: &str| s@) == Self::uniforms(),
    {
        let mut v: Vec<&'static str> = Vec::new();
        v.push("u_color_texture");
        v.push("u_depth_texture");
        v.push("u_norm_texture");
        v.push("u_projection");
        v.push("u_resolution");
        v.push("u_outline_thickness");
        v.push("u_background_color");
        assert(v@.map_values(|s: &str| s@) =~= Self::uniforms());
        v
    }
}

/// The base pass of the normal/depth outline.
pub struct NormalDepthOutlineBaseShader;

impl NormalDepthOutlineBaseShader {
    /// The uniforms whose locations are looked up when the program is linked.
    pub open spec fn uniforms() -> Seq<Seq<char>> {
        seq!["sourceTexture"@, "positionTexture"@, "normalTexture"@, "objectColorTexture"@, "projection"@, "resolution"@, "outlineThickness"@]
    }

    /// The names of [`Self::uniforms`], in order.
    pub fn uniform_names() -> (r: Vec<&'static str>)
        ensures
            r@.map_values(|s: &str| s@) == Self::uniforms(),
    {
        let mut v: Vec<&'static str> = Vec::new();
        v.push("sourceTexture");
        v.push("positionTexture");
        v.push("normalTexture");
        v.push("objectColorTexture");
        v.push("projection");
        v.push("resolution");
        v.push("outlineThickness");
        assert(v@.map_values(|s: &str| s@) =~= Self::uniforms());
        v
    }
}

/// A shader that draws narrow outlines.
pub struct NarrowOutlineShader;

impl NarrowOutlineShader {
    /// The uniforms whose locations are looked up when the program is linked.
    pub open spec fn uniforms() -> Seq<Seq<char>> {
        seq!["sourceTexture"@, "objectColorTexture"@, "positionTexture"@, "resolution"@, "outlineThickness"@]
    }

    /// The names of [`Self::uniforms`], in order.
    pub fn uniform_names() -> (r: Vec<&'static str>)
        ensures
            r@.map_values(|s: &str| s@) == Self::uniforms(),
    {
        let mut v: Vec<&'static str> = Vec::new();
        v.push("sourceTexture");
        v.push("objectColorTexture");
        v.push("positionTexture");
        v.push("resolution");
        v.push("outlineThickness");
        assert(v@.map_values(|s: &str| s@) =~= Self::uniforms());
        v
    }
}

/// The initialization pass of the wide outline.
pub struct WideOutlineInitShader;

impl WideOutlineInitShader {
    /// The uniforms whose locations are looked up when the program is linked.
    pub open spec fn uniforms() -> Seq<Seq<char>> {
        seq!["objectColorTexture"@]
    }

    /// The names of [`Self::uniforms`], in order.
    pub fn uniform_names() -> (r: Vec<&'static str>)
        ensures
            r@.map_values(|s: &str| s@) == Self::uniforms(),
    {
        let mut v: Vec<&'static str> = Vec::new();
        v.push("objectColorTexture");
        assert(v@.map_values(|s: &str| s@) =~= Self::uniforms());
        v
    }
}

/// The stepping pass of the wide outline.
pub struct WideOutlineStepShader;

impl WideOutlineStepShader {
    /// The uniforms whose locations are looked up when the program is linked.
    pub open spec fn uniforms() -> Seq<Seq<char>> {
        seq!["jfaTexture"@, "resolution"@, "stepSize"@]
    }

    /// The names of [`Self::uniforms`], in order.
    pub fn uniform_names() -> (r: Vec<&'static str>)
        ensures
            r@.map_values(|s: &str| s@) == Self::uniforms(),
    {
        let mut v: Vec<&'static str> = Vec::new();
        v.push("jfaTexture");
        v.push("resolution");
        v.push("stepSize");
        assert(v@.map_values(|s: &str| s@) =~= Self::uniforms());
        v
    }
}

/// The final wide outline shader.
pub struct WideOutlineShader;

impl WideOutlineShader {
    /// The uniforms whose locations are looked up when the program is linked.
    pub open spec fn uniforms() -> Seq<Seq<char>> {
        seq!["sourceTexture"@, "objectColorTexture"@, "jfaTexture"@, "resolution"@]
    }

    /// The names of [`Self::uniforms`], in order.
    pub fn uniform_names() -> (r: Vec<&'static str>)
        ensures
            r@.map_values(|s: &str| s@) == Self::uniforms(),
    {
        let mut v: Vec<&'static str> = Vec::new();
        v.push("sourceTexture");
        v.push("objectColorTexture");
        v.push("jfaTexture");
        v.push("resolution");
        assert(v@.map_values(|s: &str| s@) =~= Self::uniforms());
        v
    }
}

/// The ACES (Academy Color Encoding System) tone mapping operator.
pub struct ToneMappingAces;

/// A post-processing pass that tone maps a texture with operator `T`.
pub struct ToneMappingPass<T> {
    phantom: PhantomData<T>,
}

impl ToneMappingPass<ToneMappingAces> {
    /// The ACES tone mapping pass.
    pub fn aces() -> (r: Self) {
        ToneMappingPass { phantom: PhantomData }
    }
}

impl<T> ToneMappingPass<T> {
    /// Tone mapping writes to a separate output texture, never to its input.
    pub fn renders_to_input(&self) -> (r: bool)
        ensures
            !r,
    {
        false
    }
}

} // verus!
