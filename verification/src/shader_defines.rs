//! The `#define` block a PBR material puts in front of its fragment shader:
//! one switch per texture it samples (with the UV set that texture reads),
//! the `KHR_materials_specular` switch, and alpha cutoff; and the define
//! strings built from a material's named defines.

use vstd::prelude::*;
use crate::material::AlphaMode;
use crate::text::{decimal, push_num, push_str};

verus! {

/// The textures a material samples, each by the index of the UV set
/// (`vUv_N`) it reads; `None` for a texture it does not have.
#[derive(Clone, Copy, PartialEq, Eq, Structural, Debug)]
pub struct MaterialTextureSets {
    pub base_color: Option<u32>,
    pub metallic_roughness: Option<u32>,
    pub emissive: Option<u32>,
    pub specular: Option<u32>,
    pub specular_color: Option<u32>,
    pub normal: Option<u32>,
    pub occlusion: Option<u32>,
    pub light_map: Option<u32>,
}

/// Which scalar factors a material sets (their values do not matter here).
#[derive(Clone, Copy, PartialEq, Eq, Structural, Debug)]
pub struct FactorPresence {
    pub base_color: bool,
    pub metallic: bool,
    pub roughness: bool,
    pub specular: bool,
    pub specular_color: bool,
    pub alpha_cutoff: bool,
}

/// `#define NAME` on a line.
pub open spec fn define_line(name: Seq<char>) -> Seq<char> {
    "#define "@ + name + "\n"@
}

/// The defines of one texture: its switch, and the macro naming its UV set.
pub open spec fn texture_defines(name: Seq<char>, uv_name: Seq<char>, uv: Option<u32>) -> Seq<char> {
    match uv {
        Some(n) => define_line(name) + "#define "@ + uv_name + " vUv_"@ + decimal(n as nat) + "\n"@,
        None => Seq::empty(),
    }
}

/// Whether the `KHR_materials_specular` switch is on: any specular factor
/// or texture is present.
pub open spec fn uses_specular(t: MaterialTextureSets, specular_factor: bool, specular_color_factor: bool) -> bool {
    specular_factor || specular_color_factor || t.specular is Some || t.specular_color is Some
}

/// The base color, metallic-roughness and emission texture defines.
pub open spec fn leading_textures(t: MaterialTextureSets) -> Seq<char> {
    texture_defines("USE_BASE_COLOR_TEXTURE"@, "vBaseColorUv"@, t.base_color)
        + texture_defines("USE_MR_TEXTURE"@, "vMRUv"@, t.metallic_roughness)
        + texture_defines("USE_EMISSION_TEXTURE"@, "vEmissionUv"@, t.emissive)
}

/// The `KHR_materials_specular` switch and its texture defines, when on.
pub open spec fn specular_defines(t: MaterialTextureSets, specular_factor: bool, specular_color_factor: bool) -> Seq<char> {
    if uses_specular(t, specular_factor, specular_color_factor) {
        define_line("USE_KHR_materials_specular"@)
            + texture_defines("USE_SPECULAR_TEXTURE"@, "vSpecularUv"@, t.specular)
            + texture_defines("USE_SPECULAR_COLOR_TEXTURE"@, "vSpecularColorUv"@, t.specular_color)
    } else {
        Seq::empty()
    }
}

/// The normal and occlusion texture defines.
pub open spec fn trailing_textures(t: MaterialTextureSets) -> Seq<char> {
    texture_defines("USE_NORMAL_TEXTURE"@, "vNormalUv"@, t.normal)
        + texture_defines("USE_OCCLUSION_TEXTURE"@, "vOcclusionUv"@, t.occlusion)
}

/// The texture and specular defines both material kinds share, in order.
pub open spec fn common_defines(t: MaterialTextureSets, specular_factor: bool, specular_color_factor: bool) -> Seq<char> {
    leading_textures(t) + specular_defines(t, specular_factor, specular_color_factor) + trailing_textures(t)
}

/// The local fragment defines of a PBR material: the shared texture and
/// specular defines, alpha cutoff in `Mask` mode, then the light map.
pub open spec fn pbr_defines_spec(t: MaterialTextureSets, specular_factor: bool, specular_color_factor: bool, alpha_mode: AlphaMode) -> Seq<char> {
    common_defines(t, specular_factor, specular_color_factor)
        + (if alpha_mode == AlphaMode::Mask { define_line("USE_ALPHA_CUTOFF"@) } else { Seq::empty() })
        + texture_defines("USE_LIGHT_MAP"@, "vLightMapUv"@, t.light_map)
}

/// Whether a basic material is shaded as PBR: it sets a base color or
/// metallic-roughness factor or texture.
pub open spec fn uses_pbr(t: MaterialTextureSets, f: FactorPresence) -> bool {
    f.base_color || f.metallic || f.roughness || t.metallic_roughness is Some || t.base_color is Some
}

/// The fragment defines of a basic material: `USE_PBR` when it is shaded
/// as PBR, the shared texture and specular defines, and alpha cutoff when a
/// cutoff is set in `Mask` mode. It has no light map.
pub open spec fn material_defines_spec(t: MaterialTextureSets, f: FactorPresence, alpha_mode: AlphaMode) -> Seq<char> {
    (if uses_pbr(t, f) { define_line("USE_PBR"@) } else { Seq::empty() })
        + common_defines(t, f.specular, f.specular_color)
        + (if f.alpha_cutoff && alpha_mode == AlphaMode::Mask { define_line("USE_ALPHA_CUTOFF"@) } else { Seq::empty() })
}

fn push_define(s: &mut String, name: &str)
    ensures
        final(s)@ == old(s)@ + define_line(name@),
{
    push_str(s, "#define ");
    push_str(s, name);
    push_str(s, "\n");
}

fn push_texture(s: &mut String, name: &str, uv_name: &str, uv: Option<u32>)
    ensures
        final(s)@ == old(s)@ + texture_defines(name@, uv_name@, uv),
{
    if let Some(n) = uv {
        push_define(s, name);
        push_str(s, "#define ");
        push_str(s, uv_name);
        push_str(s, " vUv_");
        push_num(s, n as u64);
        push_str(s, "\n");
    }
}

fn push_leading(s: &mut String, t: &MaterialTextureSets)
    ensures
        final(s)@ == old(s)@ + leading_textures(*t),
{
    let ghost start = s@;
    push_texture(s, "USE_BASE_COLOR_TEXTURE", "vBaseColorUv", t.base_color);
    push_texture(s, "USE_MR_TEXTURE", "vMRUv", t.metallic_roughness);
    push_texture(s, "USE_EMISSION_TEXTURE", "vEmissionUv", t.emissive);
    assert(s@ =~= start + leading_textures(*t));
}

fn push_specular(s: &mut String, t: &MaterialTextureSets, specular_factor: bool, specular_color_factor: bool)
    ensures
        final(s)@ == old(s)@ + specular_defines(*t, specular_factor, specular_color_factor),
{
    let ghost start = s@;
    if specular_factor || specular_color_factor || t.specular.is_some() || t.specular_color.is_some() {
        push_define(s, "USE_KHR_materials_specular");
        push_texture(s, "USE_SPECULAR_TEXTURE", "vSpecularUv", t.specular);
        push_texture(s, "USE_SPECULAR_COLOR_TEXTURE", "vSpecularColorUv", t.specular_color);
    }
    assert(s@ =~= start + specular_defines(*t, specular_factor, specular_color_factor));
}

fn push_trailing(s: &mut String, t: &MaterialTextureSets)
    ensures
        final(s)@ == old(s)@ + trailing_textures(*t),
{
    let ghost start = s@;
    push_texture(s, "USE_NORMAL_TEXTURE", "vNormalUv", t.normal);
    push_texture(s, "USE_OCCLUSION_TEXTURE", "vOcclusionUv", t.occlusion);
    assert(s@ =~= start + trailing_textures(*t));
}

fn push_common(s: &mut String, t: &MaterialTextureSets, specular_factor: bool, specular_color_factor: bool)
    ensures
        final(s)@ == old(s)@ + common_defines(*t, specular_factor, specular_color_factor),
{
    let ghost start = s@;
    push_leading(s, t);
    push_specular(s, t, specular_factor, specular_color_factor);
    push_trailing(s, t);
    assert(s@ =~= start + common_defines(*t, specular_factor, specular_color_factor));
}

/// The local fragment defines of a PBR material with textures `t`.
pub fn pbr_local_defines(t: &MaterialTextureSets, specular_factor: bool, specular_color_factor: bool, alpha_mode: AlphaMode) -> (r: String)
    ensures
        r@ == pbr_defines_spec(*t, specular_factor, specular_color_factor, alpha_mode),
{
    let mut s = String::new();
    push_common(&mut s, t, specular_factor, specular_color_factor);
    if alpha_mode == AlphaMode::Mask {
        push_define(&mut s, "USE_ALPHA_CUTOFF");
    }
    push_texture(&mut s, "USE_LIGHT_MAP", "vLightMapUv", t.light_map);
    assert(s@ =~= pbr_defines_spec(*t, specular_factor, specular_color_factor, alpha_mode));
    s
}

/// The fragment defines of a basic material with textures `t` and factors `f`.
pub fn material_fragment_defines(t: &MaterialTextureSets, f: &FactorPresence, alpha_mode: AlphaMode) -> (r: String)
    ensures
        r@ == material_defines_spec(*t, *f, alpha_mode),
{
    let mut s = String::new();
    if f.base_color || f.metallic || f.roughness || t.metallic_roughness.is_some() || t.base_color.is_some() {
        push_define(&mut s, "USE_PBR");
    }
    push_common(&mut s, t, f.specular, f.specular_color);
    if f.alpha_cutoff && alpha_mode == AlphaMode::Mask {
        push_define(&mut s, "USE_ALPHA_CUTOFF");
    }
    assert(s@ =~= material_defines_spec(*t, *f, alpha_mode));
    s
}

/// `prefix` followed by `#define NAME VALUE` for each named define, in
/// order and without separators, as a material's define strings are built.
pub open spec fn defines_block_spec(prefix: Seq<char>, defines: Seq<(Seq<char>, Seq<char>)>) -> Seq<char>
    decreases defines.len(),
{
    if defines.len() == 0 {
        prefix
    } else {
        let (name, value) = defines.last();
        defines_block_spec(prefix, defines.drop_last()) + "#define "@ + name + " "@ + value
    }
}

/// The characters of each define's name and value.
pub open spec fn defines_view(defines: Seq<(String, String)>) -> Seq<(Seq<char>, Seq<char>)> {
    defines.map_values(|d: (String, String)| (d.0@, d.1@))
}

/// `prefix` followed by `#define NAME VALUE` for each of `defines`: a
/// material's fragment defines are its local defines followed by its
/// fragment-stage defines, its vertex defines are those of the vertex stage
/// alone, and its full define string (which keys its shader program) adds
/// the vertex-stage defines after the local ones and before the fragment
/// ones.
pub fn defines_block(prefix: &str, defines: &[(String, String)]) -> (r: String)
    ensures
        r@ == defines_block_spec(prefix@, defines_view(defines@)),
{
    let ghost ds = defines_view(defines@);
    let mut out = String::new();
    push_str(&mut out, prefix);
    let mut i: usize = 0;
    assert(ds.take(0) =~= Seq::<(Seq<char>, Seq<char>)>::empty());
    while i < defines.len()
        invariant
            i <= defines@.len(),
            ds == defines_view(defines@),
            out@ == defines_block_spec(prefix@, ds.take(i as int)),
        decreases defines.len() - i,
    {
        let (name, value) = &defines[i];
        push_str(&mut out, "#define ");
        push_str(&mut out, name.as_str());
        push_str(&mut out, " ");
        push_str(&mut out, value.as_str());
        assert(ds.take(i + 1).drop_last() =~= ds.take(i as int));
        assert(ds.take(i + 1).last() == (name@, value@));
        i = i + 1;
    }
    assert(ds.take(defines@.len() as int) =~= ds);
    out
}

/// Building the define string in two steps is building it in one: the
/// defines of the second block follow those of the first.
pub proof fn lemma_defines_blocks_concatenate(prefix: Seq<char>, a: Seq<(Seq<char>, Seq<char>)>, b: Seq<(Seq<char>, Seq<char>)>)
    ensures
        defines_block_spec(defines_block_spec(prefix, a), b) == defines_block_spec(prefix, a + b),
    decreases b.len(),
{
    if b.len() == 0 {
        assert(a + b =~= a);
    } else {
        lemma_defines_blocks_concatenate(prefix, a, b.drop_last());
        assert((a + b).drop_last() =~= a + b.drop_last());
        assert((a + b).last() == b.last());
    }
}

} // verus!
