//! The scalar half of OpenPBR Surface input handling: which MaterialX
//! `<input>` elements carry a scalar OpenPBR parameter, which parameter an
//! input names, how a `color3` value splits into its three components, and
//! how a `boolean` value is read. Parsing the `float` components themselves
//! is left to the caller.

use vstd::prelude::*;
use crate::text::{chars_of, push_str, str_eq, string_of, trim_chars, trim_spec};

verus! {

/// Errors produced while reading an OpenPBR surface from a MaterialX
/// (`.mtlx`) document.
#[derive(Clone, Debug, PartialEq, Eq)]
pub enum MtlxError {
    /// XML could not be parsed (message from the underlying reader).
    Xml(String),
    /// An `<input>` targeted a scalar OpenPBR parameter with a `float` /
    /// `color3` / `boolean` type token but carried an unparsable value.
    Input {
        /// The `name` attribute of the offending input.
        name: String,
        /// The `type` attribute of the offending input.
        type_token: String,
        /// The `value` attribute of the offending input.
        value: String,
    },
}

/// The text an [`MtlxError`] is displayed with.
pub open spec fn mtlx_error_text(e: MtlxError) -> Seq<char> {
    match e {
        MtlxError::Xml(m) => "malformed .mtlx XML: "@ + m@,
        MtlxError::Input { name, type_token, value } =>
            "unparsable OpenPBR input '"@ + name@ + "' ( type '"@ + type_token@ + "', value '"@ + value@ + "' )"@,
    }
}

impl MtlxError {
    /// The error's message.
    pub fn message(&self) -> (r: String)
        ensures
            r@ == mtlx_error_text(*self),
    {
        let mut s = String::new();
        match self {
            MtlxError::Xml(m) => {
                push_str(&mut s, "malformed .mtlx XML: ");
                push_str(&mut s, m.as_str());
            },
            MtlxError::Input { name, type_token, value } => {
                push_str(&mut s, "unparsable OpenPBR input '");
                push_str(&mut s, name.as_str());
                push_str(&mut s, "' ( type '");
                push_str(&mut s, type_token.as_str());
                push_str(&mut s, "', value '");
                push_str(&mut s, value.as_str());
                push_str(&mut s, "' )");
            },
        }
        s
    }
}

/// Whether `type_token` is one of the type tokens read as a scalar OpenPBR
/// parameter.
pub open spec fn is_scalar_type_spec(type_token: Seq<char>) -> bool {
    type_token == "float"@ || type_token == "color3"@ || type_token == "boolean"@
}

/// True for the type tokens this reader treats as scalar OpenPBR parameters.
/// Anything else (`filename`, `vector2`/`vector3`, `integer`, ...) is a
/// texture or geometry input.
pub fn is_scalar_type(type_token: &str) -> (r: bool)
    ensures
        r == is_scalar_type_spec(type_token@),
{
    str_eq(type_token, "float") || str_eq(type_token, "color3") || str_eq(type_token, "boolean")
}

/// What a `boolean` input's value reads as: `true` or `false` after
/// trimming, nothing else.
pub open spec fn bool_value(value: Seq<char>) -> Option<bool> {
    let t = trim_spec(value);
    if t == "true"@ { Some(true) } else if t == "false"@ { Some(false) } else { None }
}

/// Reads a `boolean` value into `slot`; `false` (and `slot` untouched) when
/// the value is neither `true` nor `false`.
pub fn bool_set(slot: &mut bool, value: &str) -> (r: bool)
    ensures
        r == (bool_value(value@) is Some),
        *final(slot) == match bool_value(value@) { Some(b) => b, None => *old(slot) },
{
    let cs = chars_of(value);
    let t = trim_chars(cs.as_slice());
    let ts = string_of(t.as_slice());
    if str_eq(ts.as_str(), "true") {
        *slot = true;
        true
    } else if str_eq(ts.as_str(), "false") {
        *slot = false;
        true
    } else {
        false
    }
}

/// The kind of value a scalar OpenPBR parameter holds.
#[derive(Clone, Copy, PartialEq, Eq, Structural, Debug)]
pub enum ParamKind {
    Float,
    Color3,
    Boolean,
}

/// The MaterialX type token of a parameter kind.
pub open spec fn kind_token(k: ParamKind) -> Seq<char> {
    match k {
        ParamKind::Float => "float"@,
        ParamKind::Color3 => "color3"@,
        ParamKind::Boolean => "boolean"@,
    }
}

/// The scalar OpenPBR Surface parameters an `<input>` can set.
#[derive(Clone, Copy, PartialEq, Eq, Structural, Debug)]
pub enum OpenPbrParam {
    BaseWeight,
    BaseColor,
    BaseDiffuseRoughness,
    BaseMetalness,
    SpecularWeight,
    SpecularColor,
    SpecularRoughness,
    SpecularRoughnessAnisotropy,
    SpecularIor,
    SubsurfaceWeight,
    SubsurfaceColor,
    SubsurfaceRadius,
    SubsurfaceRadiusScale,
    SubsurfaceScatterAnisotropy,
    TransmissionWeight,
    TransmissionColor,
    TransmissionDepth,
    TransmissionScatter,
    TransmissionScatterAnisotropy,
    TransmissionDispersionScale,
    TransmissionDispersionAbbeNumber,
    ThinFilmWeight,
    ThinFilmThickness,
    ThinFilmIor,
    CoatWeight,
    CoatColor,
    CoatRoughness,
    CoatRoughnessAnisotropy,
    CoatIor,
    CoatDarkening,
    FuzzWeight,
    FuzzColor,
    FuzzRoughness,
    EmissionLuminance,
    EmissionColor,
    GeometryOpacity,
    GeometryThinWalled,
}

/// The parameter named `name`.
pub open spec fn param_of_name(name: Seq<char>) -> Option<OpenPbrParam> {
    if name == "base_weight"@ {
        Some(OpenPbrParam::BaseWeight)
    } else if name == "base_color"@ {
        Some(OpenPbrParam::BaseColor)
    } else if name == "base_diffuse_roughness"@ {
        Some(OpenPbrParam::BaseDiffuseRoughness)
    } else if name == "base_metalness"@ {
        Some(OpenPbrParam::BaseMetalness)
    } else if name == "specular_weight"@ {
        Some(OpenPbrParam::SpecularWeight)
    } else if name == "specular_color"@ {
        Some(OpenPbrParam::SpecularColor)
    } else if name == "specular_roughness"@ {
        Some(OpenPbrParam::SpecularRoughness)
    } else if name == "specular_roughness_anisotropy"@ {
        Some(OpenPbrParam::SpecularRoughnessAnisotropy)
    } else if name == "specular_ior"@ {
        Some(OpenPbrParam::SpecularIor)
    } else if name == "subsurface_weight"@ {
        Some(OpenPbrParam::SubsurfaceWeight)
    } else if name == "subsurface_color"@ {
        Some(OpenPbrParam::SubsurfaceColor)
    } else if name == "subsurface_radius"@ {
        Some(OpenPbrParam::SubsurfaceRadius)
    } else if name == "subsurface_radius_scale"@ {
        Some(OpenPbrParam::SubsurfaceRadiusScale)
    } else if name == "subsurface_scatter_anisotropy"@ {
        Some(OpenPbrParam::SubsurfaceScatterAnisotropy)
    } else if name == "transmission_weight"@ {
        Some(OpenPbrParam::TransmissionWeight)
    } else if name == "transmission_color"@ {
        Some(OpenPbrParam::TransmissionColor)
    } else if name == "transmission_depth"@ {
        Some(OpenPbrParam::TransmissionDepth)
    } else if name == "transmission_scatter"@ {
        Some(OpenPbrParam::TransmissionScatter)
    } else if name == "transmission_scatter_anisotropy"@ {
        Some(OpenPbrParam::TransmissionScatterAnisotropy)
    } else if name == "transmission_dispersion_scale"@ {
        Some(OpenPbrParam::TransmissionDispersionScale)
    } else if name == "transmission_dispersion_abbe_number"@ {
        Some(OpenPbrParam::TransmissionDispersionAbbeNumber)
    } else if name == "thin_film_weight"@ {
        Some(OpenPbrParam::ThinFilmWeight)
    } else if name == "thin_film_thickness"@ {
        Some(OpenPbrParam::ThinFilmThickness)
    } else if name == "thin_film_ior"@ {
        Some(OpenPbrParam::ThinFilmIor)
    } else if name == "coat_weight"@ {
        Some(OpenPbrParam::CoatWeight)
    } else if name == "coat_color"@ {
        Some(OpenPbrParam::CoatColor)
    } else if name == "coat_roughness"@ {
        Some(OpenPbrParam::CoatRoughness)
    } else if name == "coat_roughness_anisotropy"@ {
        Some(OpenPbrParam::CoatRoughnessAnisotropy)
    } else if name == "coat_ior"@ {
        Some(OpenPbrParam::CoatIor)
    } else if name == "coat_darkening"@ {
        Some(OpenPbrParam::CoatDarkening)
    } else if name == "fuzz_weight"@ {
        Some(OpenPbrParam::FuzzWeight)
    } else if name == "fuzz_color"@ {
        Some(OpenPbrParam::FuzzColor)
    } else if name == "fuzz_roughness"@ {
        Some(OpenPbrParam::FuzzRoughness)
    } else if name == "emission_luminance"@ {
        Some(OpenPbrParam::EmissionLuminance)
    } else if name == "emission_color"@ {
        Some(OpenPbrParam::EmissionColor)
    } else if name == "geometry_opacity"@ {
        Some(OpenPbrParam::GeometryOpacity)
    } else if name == "geometry_thin_walled"@ {
        Some(OpenPbrParam::GeometryThinWalled)
    } else {
        None
    }
}

/// The kind of value parameter `p` holds.
pub open spec fn param_kind(p: OpenPbrParam) -> ParamKind {
    match p {
        OpenPbrParam::BaseWeight => ParamKind::Float,
        OpenPbrParam::BaseColor => ParamKind::Color3,
        OpenPbrParam::BaseDiffuseRoughness => ParamKind::Float,
        OpenPbrParam::BaseMetalness => ParamKind::Float,
        OpenPbrParam::SpecularWeight => ParamKind::Float,
        OpenPbrParam::SpecularColor => ParamKind::Color3,
        OpenPbrParam::SpecularRoughness => ParamKind::Float,
        OpenPbrParam::SpecularRoughnessAnisotropy => ParamKind::Float,
        OpenPbrParam::SpecularIor => ParamKind::Float,
        OpenPbrParam::SubsurfaceWeight => ParamKind::Float,
        OpenPbrParam::SubsurfaceColor => ParamKind::Color3,
        OpenPbrParam::SubsurfaceRadius => ParamKind::Float,
        OpenPbrParam::SubsurfaceRadiusScale => ParamKind::Color3,
        OpenPbrParam::SubsurfaceScatterAnisotropy => ParamKind::Float,
        OpenPbrParam::TransmissionWeight => ParamKind::Float,
        OpenPbrParam::TransmissionColor => ParamKind::Color3,
        OpenPbrParam::TransmissionDepth => ParamKind::Float,
        OpenPbrParam::TransmissionScatter => ParamKind::Color3,
        OpenPbrParam::TransmissionScatterAnisotropy => ParamKind::Float,
        OpenPbrParam::TransmissionDispersionScale => ParamKind::Float,
        OpenPbrParam::TransmissionDispersionAbbeNumber => ParamKind::Float,
        OpenPbrParam::ThinFilmWeight => ParamKind::Float,
        OpenPbrParam::ThinFilmThickness => ParamKind::Float,
        OpenPbrParam::ThinFilmIor => ParamKind::Float,
        OpenPbrParam::CoatWeight => ParamKind::Float,
        OpenPbrParam::CoatColor => ParamKind::Color3,
        OpenPbrParam::CoatRoughness => ParamKind::Float,
        OpenPbrParam::CoatRoughnessAnisotropy => ParamKind::Float,
        OpenPbrParam::CoatIor => ParamKind::Float,
        OpenPbrParam::CoatDarkening => ParamKind::Float,
        OpenPbrParam::FuzzWeight => ParamKind::Float,
        OpenPbrParam::FuzzColor => ParamKind::Color3,
        OpenPbrParam::FuzzRoughness => ParamKind::Float,
        OpenPbrParam::EmissionLuminance => ParamKind::Float,
        OpenPbrParam::EmissionColor => ParamKind::Color3,
        OpenPbrParam::GeometryOpacity => ParamKind::Float,
        OpenPbrParam::GeometryThinWalled => ParamKind::Boolean,
    }
}

/// The parameter an `<input name type>` sets: the parameter called `name`,
/// provided `type_token` is that parameter's type token.
pub open spec fn input_target_spec(name: Seq<char>, type_token: Seq<char>) -> Option<OpenPbrParam> {
    match param_of_name(name) {
        Some(p) => if type_token == kind_token(param_kind(p)) { Some(p) } else { None },
        None => None,
    }
}

fn param_named(name: &str) -> (r: Option<OpenPbrParam>)
    ensures
        r == param_of_name(name@),
{
    if str_eq(name, "base_weight") {
        Some(OpenPbrParam::BaseWeight)
    } else if str_eq(name, "base_color") {
        Some(OpenPbrParam::BaseColor)
    } else if str_eq(name, "base_diffuse_roughness") {
        Some(OpenPbrParam::BaseDiffuseRoughness)
    } else if str_eq(name, "base_metalness") {
        Some(OpenPbrParam::BaseMetalness)
    } else if str_eq(name, "specular_weight") {
        Some(OpenPbrParam::SpecularWeight)
    } else if str_eq(name, "specular_color") {
        Some(OpenPbrParam::SpecularColor)
    } else if str_eq(name, "specular_roughness") {
        Some(OpenPbrParam::SpecularRoughness)
    } else if str_eq(name, "specular_roughness_anisotropy") {
        Some(OpenPbrParam::SpecularRoughnessAnisotropy)
    } else if str_eq(name, "specular_ior") {
        Some(OpenPbrParam::SpecularIor)
    } else if str_eq(name, "subsurface_weight") {
        Some(OpenPbrParam::SubsurfaceWeight)
    } else if str_eq(name, "subsurface_color") {
        Some(OpenPbrParam::SubsurfaceColor)
    } else if str_eq(name, "subsurface_radius") {
        Some(OpenPbrParam::SubsurfaceRadius)
    } else if str_eq(name, "subsurface_radius_scale") {
        Some(OpenPbrParam::SubsurfaceRadiusScale)
    } else if str_eq(name, "subsurface_scatter_anisotropy") {
        Some(OpenPbrParam::SubsurfaceScatterAnisotropy)
    } else if str_eq(name, "transmission_weight") {
        Some(OpenPbrParam::TransmissionWeight)
    } else if str_eq(name, "transmission_color") {
        Some(OpenPbrParam::TransmissionColor)
    } else if str_eq(name, "transmission_depth") {
        Some(OpenPbrParam::TransmissionDepth)
    } else if str_eq(name, "transmission_scatter") {
        Some(OpenPbrParam::TransmissionScatter)
    } else if str_eq(name, "transmission_scatter_anisotropy") {
        Some(OpenPbrParam::TransmissionScatterAnisotropy)
    } else if str_eq(name, "transmission_dispersion_scale") {
        Some(OpenPbrParam::TransmissionDispersionScale)
    } else if str_eq(name, "transmission_dispersion_abbe_number") {
        Some(OpenPbrParam::TransmissionDispersionAbbeNumber)
    } else if str_eq(name, "thin_film_weight") {
        Some(OpenPbrParam::ThinFilmWeight)
    } else if str_eq(name, "thin_film_thickness") {
        Some(OpenPbrParam::ThinFilmThickness)
    } else if str_eq(name, "thin_film_ior") {
        Some(OpenPbrParam::ThinFilmIor)
    } else if str_eq(name, "coat_weight") {
        Some(OpenPbrParam::CoatWeight)
    } else if str_eq(name, "coat_color") {
        Some(OpenPbrParam::CoatColor)
    } else if str_eq(name, "coat_roughness") {
        Some(OpenPbrParam::CoatRoughness)
    } else if str_eq(name, "coat_roughness_anisotropy") {
        Some(OpenPbrParam::CoatRoughnessAnisotropy)
    } else if str_eq(name, "coat_ior") {
        Some(OpenPbrParam::CoatIor)
    } else if str_eq(name, "coat_darkening") {
        Some(OpenPbrParam::CoatDarkening)
    } else if str_eq(name, "fuzz_weight") {
        Some(OpenPbrParam::FuzzWeight)
    } else if str_eq(name, "fuzz_color") {
        Some(OpenPbrParam::FuzzColor)
    } else if str_eq(name, "fuzz_roughness") {
        Some(OpenPbrParam::FuzzRoughness)
    } else if str_eq(name, "emission_luminance") {
        Some(OpenPbrParam::EmissionLuminance)
    } else if str_eq(name, "emission_color") {
        Some(OpenPbrParam::EmissionColor)
    } else if str_eq(name, "geometry_opacity") {
        Some(OpenPbrParam::GeometryOpacity)
    } else if str_eq(name, "geometry_thin_walled") {
        Some(OpenPbrParam::GeometryThinWalled)
    } else {
        None
    }
}

/// The kind of value parameter `p` holds.
pub fn kind_of(p: OpenPbrParam) -> (r: ParamKind)
    ensures
        r == param_kind(p),
{
    match p {
        OpenPbrParam::BaseWeight => ParamKind::Float,
        OpenPbrParam::BaseColor => ParamKind::Color3,
        OpenPbrParam::BaseDiffuseRoughness => ParamKind::Float,
        OpenPbrParam::BaseMetalness => ParamKind::Float,
        OpenPbrParam::SpecularWeight => ParamKind::Float,
        OpenPbrParam::SpecularColor => ParamKind::Color3,
        OpenPbrParam::SpecularRoughness => ParamKind::Float,
        OpenPbrParam::SpecularRoughnessAnisotropy => ParamKind::Float,
        OpenPbrParam::SpecularIor => ParamKind::Float,
        OpenPbrParam::SubsurfaceWeight => ParamKind::Float,
        OpenPbrParam::SubsurfaceColor => ParamKind::Color3,
        OpenPbrParam::SubsurfaceRadius => ParamKind::Float,
        OpenPbrParam::SubsurfaceRadiusScale => ParamKind::Color3,
        OpenPbrParam::SubsurfaceScatterAnisotropy => ParamKind::Float,
        OpenPbrParam::TransmissionWeight => ParamKind::Float,
        OpenPbrParam::TransmissionColor => ParamKind::Color3,
        OpenPbrParam::TransmissionDepth => ParamKind::Float,
        OpenPbrParam::TransmissionScatter => ParamKind::Color3,
        OpenPbrParam::TransmissionScatterAnisotropy => ParamKind::Float,
        OpenPbrParam::TransmissionDispersionScale => ParamKind::Float,
        OpenPbrParam::TransmissionDispersionAbbeNumber => ParamKind::Float,
        OpenPbrParam::ThinFilmWeight => ParamKind::Float,
        OpenPbrParam::ThinFilmThickness => ParamKind::Float,
        OpenPbrParam::ThinFilmIor => ParamKind::Float,
        OpenPbrParam::CoatWeight => ParamKind::Float,
        OpenPbrParam::CoatColor => ParamKind::Color3,
        OpenPbrParam::CoatRoughness => ParamKind::Float,
        OpenPbrParam::CoatRoughnessAnisotropy => ParamKind::Float,
        OpenPbrParam::CoatIor => ParamKind::Float,
        OpenPbrParam::CoatDarkening => ParamKind::Float,
        OpenPbrParam::FuzzWeight => ParamKind::Float,
        OpenPbrParam::FuzzColor => ParamKind::Color3,
        OpenPbrParam::FuzzRoughness => ParamKind::Float,
        OpenPbrParam::EmissionLuminance => ParamKind::Float,
        OpenPbrParam::EmissionColor => ParamKind::Color3,
        OpenPbrParam::GeometryOpacity => ParamKind::Float,
        OpenPbrParam::GeometryThinWalled => ParamKind::Boolean,
    }
}

/// The MaterialX `<input>` of each OpenPBR Surface parameter: its name and
/// its type token, as the OpenPBR Surface node definition gives them.
pub open spec fn mtlx_input_of(p: OpenPbrParam) -> (Seq<char>, Seq<char>) {
    match p {
        OpenPbrParam::BaseWeight => ("base_weight"@, "float"@),
        OpenPbrParam::BaseColor => ("base_color"@, "color3"@),
        OpenPbrParam::BaseDiffuseRoughness => ("base_diffuse_roughness"@, "float"@),
        OpenPbrParam::BaseMetalness => ("base_metalness"@, "float"@),
        OpenPbrParam::SpecularWeight => ("specular_weight"@, "float"@),
        OpenPbrParam::SpecularColor => ("specular_color"@, "color3"@),
        OpenPbrParam::SpecularRoughness => ("specular_roughness"@, "float"@),
        OpenPbrParam::SpecularRoughnessAnisotropy => ("specular_roughness_anisotropy"@, "float"@),
        OpenPbrParam::SpecularIor => ("specular_ior"@, "float"@),
        OpenPbrParam::SubsurfaceWeight => ("subsurface_weight"@, "float"@),
        OpenPbrParam::SubsurfaceColor => ("subsurface_color"@, "color3"@),
        OpenPbrParam::SubsurfaceRadius => ("subsurface_radius"@, "float"@),
        OpenPbrParam::SubsurfaceRadiusScale => ("subsurface_radius_scale"@, "color3"@),
        OpenPbrParam::SubsurfaceScatterAnisotropy => ("subsurface_scatter_anisotropy"@, "float"@),
        OpenPbrParam::TransmissionWeight => ("transmission_weight"@, "float"@),
        OpenPbrParam::TransmissionColor => ("transmission_color"@, "color3"@),
        OpenPbrParam::TransmissionDepth => ("transmission_depth"@, "float"@),
        OpenPbrParam::TransmissionScatter => ("transmission_scatter"@, "color3"@),
        OpenPbrParam::TransmissionScatterAnisotropy => ("transmission_scatter_anisotropy"@, "float"@),
        OpenPbrParam::TransmissionDispersionScale => ("transmission_dispersion_scale"@, "float"@),
        OpenPbrParam::TransmissionDispersionAbbeNumber => ("transmission_dispersion_abbe_number"@, "float"@),
        OpenPbrParam::ThinFilmWeight => ("thin_film_weight"@, "float"@),
        OpenPbrParam::ThinFilmThickness => ("thin_film_thickness"@, "float"@),
        OpenPbrParam::ThinFilmIor => ("thin_film_ior"@, "float"@),
        OpenPbrParam::CoatWeight => ("coat_weight"@, "float"@),
        OpenPbrParam::CoatColor => ("coat_color"@, "color3"@),
        OpenPbrParam::CoatRoughness => ("coat_roughness"@, "float"@),
        OpenPbrParam::CoatRoughnessAnisotropy => ("coat_roughness_anisotropy"@, "float"@),
        OpenPbrParam::CoatIor => ("coat_ior"@, "float"@),
        OpenPbrParam::CoatDarkening => ("coat_darkening"@, "float"@),
        OpenPbrParam::FuzzWeight => ("fuzz_weight"@, "float"@),
        OpenPbrParam::FuzzColor => ("fuzz_color"@, "color3"@),
        OpenPbrParam::FuzzRoughness => ("fuzz_roughness"@, "float"@),
        OpenPbrParam::EmissionLuminance => ("emission_luminance"@, "float"@),
        OpenPbrParam::EmissionColor => ("emission_color"@, "color3"@),
        OpenPbrParam::GeometryOpacity => ("geometry_opacity"@, "float"@),
        OpenPbrParam::GeometryThinWalled => ("geometry_thin_walled"@, "boolean"@),
    }
}

/// An `<input>` sets exactly the parameter it names, with that parameter's
/// own type: any input that selects a parameter is that parameter's name
/// and type token, and every parameter's name selects a parameter of that
/// name (the names of [`mtlx_input_of`] are pairwise distinct, so it is
/// the parameter itself).
pub proof fn lemma_input_selects_its_parameter(p: OpenPbrParam, name: Seq<char>, type_token: Seq<char>)
    ensures
        input_target_spec(name, type_token) == Some(p) ==> name == mtlx_input_of(p).0 && type_token == mtlx_input_of(p).1,
        param_of_name(mtlx_input_of(p).0) matches Some(q) && mtlx_input_of(q).0 == mtlx_input_of(p).0,
{
}

/// The parameter an `<input>` with attributes `name` and `type_token` sets,
/// if any: an unknown name, or a type token other than the parameter's own,
/// sets none.
pub fn openpbr_input_target(name: &str, type_token: &str) -> (r: Option<OpenPbrParam>)
    ensures
        r == input_target_spec(name@, type_token@),
{
    match param_named(name) {
        Some(p) => {
            let ok = match kind_of(p) {
                ParamKind::Float => str_eq(type_token, "float"),
                ParamKind::Color3 => str_eq(type_token, "color3"),
                ParamKind::Boolean => str_eq(type_token, "boolean"),
            };
            if ok { Some(p) } else { None }
        },
        None => None,
    }
}

/// The `sep`-separated pieces of `s`, as `str::split` yields them (an empty
/// string has one, empty, piece).
pub open spec fn split_on(s: Seq<char>, sep: char) -> Seq<Seq<char>>
    decreases s.len(),
{
    if s.len() == 0 {
        seq![Seq::<char>::empty()]
    } else {
        let init = split_on(s.drop_last(), sep);
        if s.last() == sep {
            init.push(Seq::<char>::empty())
        } else {
            init.update(init.len() - 1, init.last().push(s.last()))
        }
    }
}

proof fn lemma_split_on_nonempty(s: Seq<char>, sep: char)
    ensures
        split_on(s, sep).len() >= 1,
    decreases s.len(),
{
    if s.len() > 0 {
        lemma_split_on_nonempty(s.drop_last(), sep);
    }
}

/// The components of a `color3` value: its comma-separated pieces, trimmed,
/// when there are exactly three.
pub open spec fn color_parts_spec(value: Seq<char>) -> Option<Seq<Seq<char>>> {
    let parts = split_on(value, ',');
    if parts.len() == 3 {
        Some(parts.map_values(|p: Seq<char>| trim_spec(p)))
    } else {
        None
    }
}

/// Splits a `color3` value into its three trimmed components, or `None`
/// when it does not have exactly three.
pub fn color_parts(value: &str) -> (r: Option<Vec<String>>)
    ensures
        match r {
            Some(v) => color_parts_spec(value@) == Some(v@.map_values(|s: String| s@)),
            None => color_parts_spec(value@) is None,
        },
{
    let cs = chars_of(value);
    let mut done: Vec<Vec<char>> = Vec::new();
    let mut cur: Vec<char> = Vec::new();
    let mut i: usize = 0;
    assert(cs@.take(0) =~= Seq::<char>::empty());
    while i < cs.len()
        invariant
            cs@ == value@,
            i <= cs@.len(),
            split_on(cs@.take(i as int), ',').len() >= 1,
            cur@ == split_on(cs@.take(i as int), ',').last(),
            done@.map_values(|v: Vec<char>| v@) == split_on(cs@.take(i as int), ',').drop_last(),
        decreases cs.len() - i,
    {
        let c = cs[i];
        let ghost parts = split_on(cs@.take(i as int), ',');
        assert(cs@.take(i + 1).drop_last() =~= cs@.take(i as int));
        assert(cs@.take(i + 1).last() == c);
        if c == ',' {
            let ghost before = done@;
            done.push(cur);
            cur = Vec::new();
            proof {
                let next = split_on(cs@.take(i + 1), ',');
                assert(next == parts.push(Seq::<char>::empty()));
                assert(parts =~= parts.drop_last().push(parts.last()));
                assert(done@.map_values(|v: Vec<char>| v@) =~= before.map_values(|v: Vec<char>| v@).push(parts.last()));
                assert(next.drop_last() =~= parts);
            }
        } else {
            cur.push(c);
            proof {
                let next = split_on(cs@.take(i + 1), ',');
                assert(next == parts.update(parts.len() - 1, parts.last().push(c)));
                assert(next.drop_last() =~= parts.drop_last());
                lemma_split_on_nonempty(cs@.take(i + 1), ',');
            }
        }
        i = i + 1;
    }
    let ghost parts = split_on(value@, ',');
    assert(cs@.take(cs@.len() as int) =~= cs@);
    assert(parts =~= parts.drop_last().push(parts.last()));
    if done.len() != 2 {
        return None;
    }
    let a = string_of(trim_chars(done[0].as_slice()).as_slice());
    let b = string_of(trim_chars(done[1].as_slice()).as_slice());
    let c = string_of(trim_chars(cur.as_slice()).as_slice());
    let mut out: Vec<String> = Vec::new();
    out.push(a);
    out.push(b);
    out.push(c);
    assert(done@[0]@ == parts[0]);
    assert(done@[1]@ == parts[1]);
    assert(out@.map_values(|s: String| s@) =~= parts.map_values(|p: Seq<char>| trim_spec(p)));
    Some(out)
}

} // verus!
