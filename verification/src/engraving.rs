//! Dynamic text engraving: the `engraving_config.json` model and its
//! validation rules, the mip chain of the persistent engraving mask texture,
//! and the checks a re-rasterized bitmap chain must pass before upload.
//!
//! Floating-point settings are carried as IEEE-754 bit patterns
//! ([`F32Bits`]); the rules compare them with IEEE-754 semantics.

use vstd::prelude::*;
use crate::f32_bits::{f32_bits_le, f32_bits_lt, f32_le, f32_lt, F32Bits, F32_ONE, F32_ZERO};
use crate::material::TextureInfo;
use crate::text::str_eq;

verus! {

/// Upper bound of `padding` (`0.49f32`).
pub const PADDING_MAX: F32Bits = 0x3efa_e148;

/// Text-sizing strategy for an engraving node.
#[derive(Clone, Copy, PartialEq, Eq, Structural, Debug)]
pub enum SizingMode {
    /// Font size fixed by `defaultFontSizeMm / stripHeightMm`; overflow is rejected.
    Physical,
    /// Starts physical, shrinks down to `minFontSizeMm` to fit the strip width.
    Hybrid,
    /// `fontSizeRatio * canvasHeight`, or auto-fit when unset.
    Relative,
}

/// Horizontal text alignment within the padded engraving strip.
#[derive(Clone, Copy, PartialEq, Eq, Structural, Debug)]
pub enum TextAlign {
    /// Text starts at the left padding edge.
    Left,
    /// Text is centered between the padding edges.
    Center,
    /// Text ends at the right padding edge.
    Right,
}

/// The CSS `text-align` keyword of an alignment.
pub open spec fn css_keyword(a: TextAlign) -> Seq<char> {
    match a {
        TextAlign::Left => "left"@,
        TextAlign::Center => "center"@,
        TextAlign::Right => "right"@,
    }
}

impl TextAlign {
    /// The `CanvasRenderingContext2d::set_text_align` value for this alignment.
    pub fn css(self) -> (r: &'static str)
        ensures
            r@ == css_keyword(self),
    {
        match self {
            TextAlign::Left => "left",
            TextAlign::Center => "center",
            TextAlign::Right => "right",
        }
    }
}

/// Default `textureHeight`: 256 pixels.
pub fn default_texture_height() -> (r: u32)
    ensures
        r == 256,
{
    256
}

/// Default `align`: centered.
pub fn default_align() -> (r: TextAlign)
    ensures
        r == TextAlign::Center,
{
    TextAlign::Center
}

/// Default `padding`: `0.1f32`.
pub fn default_padding() -> (r: F32Bits)
    ensures
        r == 0x3dcc_cccd,
{
    0x3dcc_cccd
}

/// Default `engravingStrength`: `1.0f32`.
pub fn default_engraving_strength() -> (r: F32Bits)
    ensures
        r == F32_ONE,
{
    F32_ONE
}

/// Default `engravingRoughness`: `0.7f32`.
pub fn default_engraving_roughness() -> (r: F32Bits)
    ensures
        r == 0x3f33_3333,
{
    0x3f33_3333
}

/// Default `engravingDarkening`: `0.35f32`.
pub fn default_engraving_darkening() -> (r: F32Bits)
    ensures
        r == 0x3eb3_3333,
{
    0x3eb3_3333
}

/// Engraving settings for a single glTF mesh node.
#[derive(Clone, Debug)]
pub struct EngravingNodeConfig {
    /// Exact name of the mesh node in the glTF file.
    pub node_name: String,
    /// Index of the UV set dedicated to engraving (0-4).
    pub uv_channel: u32,
    /// `width / height` of the engraving zone.
    pub aspect_ratio: F32Bits,
    /// Upper bound on text length, enforced before rasterizing.
    pub max_characters: usize,
    /// CSS font-family used when the caller doesn't pick one; must appear in `allowed_fonts`.
    pub default_font: String,
    /// Whitelist of CSS font-family names selectable for this node.
    pub allowed_fonts: Vec<String>,
    /// Height in pixels of the offscreen canvas / GPU texture.
    pub texture_height: u32,
    /// Fractional padding kept empty around the text on every side.
    pub padding: F32Bits,
    /// Intensity of the normal perturbation at letter edges.
    pub engraving_strength: F32Bits,
    /// Target PBR roughness inside the groove.
    pub engraving_roughness: F32Bits,
    /// Fraction by which albedo / specular darken inside the groove.
    pub engraving_darkening: F32Bits,
    /// Explicit text-sizing strategy.
    pub sizing_mode: Option<SizingMode>,
    /// Physical height (mm) of the engraving strip.
    pub strip_height_mm: Option<F32Bits>,
    /// Target physical font height (mm).
    pub default_font_size_mm: Option<F32Bits>,
    /// Smallest font height (mm) `HYBRID` may shrink to.
    pub min_font_size_mm: Option<F32Bits>,
    /// Fixed font height as a fraction of canvas height (`RELATIVE`).
    pub font_size_ratio: Option<F32Bits>,
    /// Horizontal text alignment within the padded strip.
    pub align: TextAlign,
}

/// The subset of [`EngravingNodeConfig`] that is safe to change after the
/// node's canvas and mask texture have been allocated.
#[derive(Clone, Copy, PartialEq, Eq, Structural, Debug)]
pub struct EngravingTextLayout {
    /// Upper bound on text length.
    pub max_characters: usize,
    /// Fractional padding around the text.
    pub padding: F32Bits,
    /// Horizontal text alignment.
    pub align: TextAlign,
    /// Explicit text-sizing strategy.
    pub sizing_mode: Option<SizingMode>,
    /// Physical height (mm) of the engraving strip.
    pub strip_height_mm: Option<F32Bits>,
    /// Target physical font height (mm).
    pub default_font_size_mm: Option<F32Bits>,
    /// Smallest font height (mm) `HYBRID` may shrink to.
    pub min_font_size_mm: Option<F32Bits>,
    /// Fixed font height as a fraction of canvas height.
    pub font_size_ratio: Option<F32Bits>,
}

/// Text refused before rasterizing: it has `got` characters, more than the
/// layout's `max`.
#[derive(Clone, Copy, PartialEq, Eq, Structural, Debug)]
pub struct TooManyCharacters {
    pub got: usize,
    pub max: usize,
}

/// The length check run on engraving text before it is rasterized. Text
/// is measured in characters (Unicode scalar values), not bytes: it passes,
/// giving its character count, when that count is at most the layout's
/// `max_characters`, and is refused with both numbers otherwise.
pub fn text_length_check(text: &str, layout: &EngravingTextLayout) -> (r: Result<usize, TooManyCharacters>)
    ensures
        match r {
            Ok(n) => n == text@.len() && n <= layout.max_characters,
            Err(e) => e.got == text@.len() && e.max == layout.max_characters && e.got > e.max,
        },
{
    let n = text.unicode_len();
    if n > layout.max_characters {
        Err(TooManyCharacters { got: n, max: layout.max_characters })
    } else {
        Ok(n)
    }
}

/// The sizing mode in effect: the explicit one, else `HYBRID` when both
/// physical fields are present, else `RELATIVE`.
pub open spec fn resolved_mode(explicit: Option<SizingMode>, strip: Option<F32Bits>, font: Option<F32Bits>) -> SizingMode {
    match explicit {
        Some(m) => m,
        None => if strip is Some && font is Some { SizingMode::Hybrid } else { SizingMode::Relative },
    }
}

impl EngravingTextLayout {
    /// Resolves the effective [`SizingMode`].
    pub fn resolved_sizing_mode(&self) -> (r: SizingMode)
        ensures
            r == resolved_mode(self.sizing_mode, self.strip_height_mm, self.default_font_size_mm),
    {
        if let Some(mode) = self.sizing_mode {
            return mode;
        }
        if self.strip_height_mm.is_some() && self.default_font_size_mm.is_some() {
            SizingMode::Hybrid
        } else {
            SizingMode::Relative
        }
    }
}

/// The rule of `engraving_config.json` a node breaks.
#[derive(Clone, Copy, PartialEq, Eq, Structural, Debug)]
pub enum NodeIssue {
    /// `nodeName` is empty.
    EmptyNodeName,
    /// `uvChannel` is above 4.
    UvChannel(u32),
    /// `aspectRatio` is not positive.
    AspectRatio(F32Bits),
    /// `maxCharacters` is 0.
    MaxCharacters,
    /// `allowedFonts` is empty.
    NoAllowedFonts,
    /// `defaultFont` is not listed in `allowedFonts`.
    DefaultFontNotAllowed,
    /// `padding` is outside `0.0..=0.49`.
    Padding(F32Bits),
    /// `PHYSICAL` / `HYBRID` without both `stripHeightMm` and `defaultFontSizeMm`.
    SizingModeNeedsPhysical(SizingMode),
    /// `stripHeightMm` is not positive.
    StripHeight(F32Bits),
    /// `defaultFontSizeMm` is not positive.
    DefaultFontSize(F32Bits),
    /// `minFontSizeMm` is not positive.
    MinFontSize(F32Bits),
    /// `minFontSizeMm` exceeds `defaultFontSizeMm`.
    MinExceedsDefault {
        /// `minFontSizeMm`.
        min: F32Bits,
        /// `defaultFontSizeMm`.
        default: F32Bits,
    },
    /// `fontSizeRatio` is outside `(0.0, 1.0]`.
    FontSizeRatio(F32Bits),
}

/// Error returned when an `engraving_config.json` document fails to parse or
/// fails validation.
#[derive(Clone, Debug)]
pub enum EngravingConfigError {
    /// The JSON text does not match the schema (the parser's message).
    Json(String),
    /// A node breaks a rule.
    Invalid {
        /// The offending node's `nodeName`.
        node: String,
        /// The rule it breaks.
        issue: NodeIssue,
    },
}

/// Whether `fonts` lists `font`.
pub open spec fn lists_font(fonts: Seq<String>, font: Seq<char>) -> bool {
    exists|i: int| 0 <= i < fonts.len() && #[trigger] fonts[i]@ == font
}

/// The first rule `c` breaks, in the order the rules are checked.
pub open spec fn node_issue(c: EngravingNodeConfig) -> Option<NodeIssue> {
    if c.node_name@.len() == 0 {
        Some(NodeIssue::EmptyNodeName)
    } else if c.uv_channel > 4 {
        Some(NodeIssue::UvChannel(c.uv_channel))
    } else if f32_le(c.aspect_ratio, F32_ZERO) {
        Some(NodeIssue::AspectRatio(c.aspect_ratio))
    } else if c.max_characters == 0 {
        Some(NodeIssue::MaxCharacters)
    } else if c.allowed_fonts@.len() == 0 {
        Some(NodeIssue::NoAllowedFonts)
    } else if !lists_font(c.allowed_fonts@, c.default_font@) {
        Some(NodeIssue::DefaultFontNotAllowed)
    } else if !(f32_le(F32_ZERO, c.padding) && f32_le(c.padding, PADDING_MAX)) {
        Some(NodeIssue::Padding(c.padding))
    } else if c.sizing_mode is Some && c.sizing_mode != Some(SizingMode::Relative)
        && (c.strip_height_mm is None || c.default_font_size_mm is None) {
        Some(NodeIssue::SizingModeNeedsPhysical(c.sizing_mode.unwrap()))
    } else if c.strip_height_mm is Some && f32_le(c.strip_height_mm.unwrap(), F32_ZERO) {
        Some(NodeIssue::StripHeight(c.strip_height_mm.unwrap()))
    } else if c.default_font_size_mm is Some && f32_le(c.default_font_size_mm.unwrap(), F32_ZERO) {
        Some(NodeIssue::DefaultFontSize(c.default_font_size_mm.unwrap()))
    } else if c.min_font_size_mm is Some && f32_le(c.min_font_size_mm.unwrap(), F32_ZERO) {
        Some(NodeIssue::MinFontSize(c.min_font_size_mm.unwrap()))
    } else if c.min_font_size_mm is Some && c.default_font_size_mm is Some
        && f32_lt(c.default_font_size_mm.unwrap(), c.min_font_size_mm.unwrap()) {
        Some(NodeIssue::MinExceedsDefault { min: c.min_font_size_mm.unwrap(), default: c.default_font_size_mm.unwrap() })
    } else if c.font_size_ratio is Some && (!(f32_le(F32_ZERO, c.font_size_ratio.unwrap())
        && f32_le(c.font_size_ratio.unwrap(), F32_ONE)) || f32_le(c.font_size_ratio.unwrap(), F32_ZERO)) {
        Some(NodeIssue::FontSizeRatio(c.font_size_ratio.unwrap()))
    } else {
        None
    }
}

fn lists_font_exec(fonts: &Vec<String>, font: &String) -> (r: bool)
    ensures
        r == lists_font(fonts@, font@),
{
    let mut i: usize = 0;
    while i < fonts.len()
        invariant
            i <= fonts@.len(),
            forall|j: int| 0 <= j < i ==> fonts@[j]@ != font@,
        decreases fonts.len() - i,
    {
        if str_eq(fonts[i].as_str(), font.as_str()) {
            return true;
        }
        i = i + 1;
    }
    false
}

fn node_issue_exec(c: &EngravingNodeConfig) -> (r: Option<NodeIssue>)
    ensures
        r == node_issue(*c),
{
    if c.node_name.as_str().unicode_len() == 0 {
        return Some(NodeIssue::EmptyNodeName);
    }
    if c.uv_channel > 4 {
        return Some(NodeIssue::UvChannel(c.uv_channel));
    }
    if f32_bits_le(c.aspect_ratio, F32_ZERO) {
        return Some(NodeIssue::AspectRatio(c.aspect_ratio));
    }
    if c.max_characters == 0 {
        return Some(NodeIssue::MaxCharacters);
    }
    if c.allowed_fonts.len() == 0 {
        return Some(NodeIssue::NoAllowedFonts);
    }
    if !lists_font_exec(&c.allowed_fonts, &c.default_font) {
        return Some(NodeIssue::DefaultFontNotAllowed);
    }
    if !(f32_bits_le(F32_ZERO, c.padding) && f32_bits_le(c.padding, PADDING_MAX)) {
        return Some(NodeIssue::Padding(c.padding));
    }
    if let Some(mode) = c.sizing_mode {
        if mode != SizingMode::Relative && (c.strip_height_mm.is_none() || c.default_font_size_mm.is_none()) {
            return Some(NodeIssue::SizingModeNeedsPhysical(mode));
        }
    }
    if let Some(h) = c.strip_height_mm {
        if f32_bits_le(h, F32_ZERO) {
            return Some(NodeIssue::StripHeight(h));
        }
    }
    if let Some(f) = c.default_font_size_mm {
        if f32_bits_le(f, F32_ZERO) {
            return Some(NodeIssue::DefaultFontSize(f));
        }
    }
    if let Some(min_mm) = c.min_font_size_mm {
        if f32_bits_le(min_mm, F32_ZERO) {
            return Some(NodeIssue::MinFontSize(min_mm));
        }
        if let Some(default_mm) = c.default_font_size_mm {
            if f32_bits_lt(default_mm, min_mm) {
                return Some(NodeIssue::MinExceedsDefault { min: min_mm, default: default_mm });
            }
        }
    }
    if let Some(ratio) = c.font_size_ratio {
        if !(f32_bits_le(F32_ZERO, ratio) && f32_bits_le(ratio, F32_ONE)) || f32_bits_le(ratio, F32_ZERO) {
            return Some(NodeIssue::FontSizeRatio(ratio));
        }
    }
    None
}

impl EngravingNodeConfig {
    /// Checks the node against the rules of `engraving_config.json`,
    /// reporting the first one it breaks.
    pub fn validate(&self) -> (r: Result<(), EngravingConfigError>)
        ensures
            node_issue(*self) is None ==> r is Ok,
            node_issue(*self) matches Some(i) ==> (r matches Err(EngravingConfigError::Invalid { node, issue })
                && issue == i && node@ == self.node_name@),
    {
        match node_issue_exec(self) {
            None => Ok(()),
            Some(issue) => Err(EngravingConfigError::Invalid { node: self.node_name.clone(), issue }),
        }
    }

    /// Extracts the subset of this config that's safe to change after the
    /// node's canvas and texture are allocated.
    pub fn text_layout(&self) -> (r: EngravingTextLayout)
        ensures
            r == (EngravingTextLayout {
                max_characters: self.max_characters,
                padding: self.padding,
                align: self.align,
                sizing_mode: self.sizing_mode,
                strip_height_mm: self.strip_height_mm,
                default_font_size_mm: self.default_font_size_mm,
                min_font_size_mm: self.min_font_size_mm,
                font_size_ratio: self.font_size_ratio,
            }),
    {
        EngravingTextLayout {
            max_characters: self.max_characters,
            padding: self.padding,
            align: self.align,
            sizing_mode: self.sizing_mode,
            strip_height_mm: self.strip_height_mm,
            default_font_size_mm: self.default_font_size_mm,
            min_font_size_mm: self.min_font_size_mm,
            font_size_ratio: self.font_size_ratio,
        }
    }

    /// Resolves the effective [`SizingMode`]: `sizing_mode` if set, otherwise
    /// `HYBRID` when both `strip_height_mm` and `default_font_size_mm` are
    /// present, otherwise `RELATIVE`.
    pub fn resolved_sizing_mode(&self) -> (r: SizingMode)
        ensures
            r == resolved_mode(self.sizing_mode, self.strip_height_mm, self.default_font_size_mm),
    {
        self.text_layout().resolved_sizing_mode()
    }
}

/// Root of `engraving_config.json`: the engravable nodes of one glTF asset.
#[derive(Clone, Debug)]
pub struct EngravingConfig {
    /// One entry per engravable node.
    pub nodes: Vec<EngravingNodeConfig>,
}

impl EngravingConfig {
    /// Builds a config from parsed nodes, validating each in order; the first
    /// node that breaks a rule is reported.
    pub fn from_nodes(nodes: Vec<EngravingNodeConfig>) -> (r: Result<EngravingConfig, EngravingConfigError>)
        ensures
            (forall|i: int| 0 <= i < nodes@.len() ==> node_issue(#[trigger] nodes@[i]) is None) ==> (r matches Ok(c) && c.nodes@ == nodes@),
            (exists|i: int| 0 <= i < nodes@.len() && node_issue(#[trigger] nodes@[i]) is Some) ==> (
                r matches Err(EngravingConfigError::Invalid { node, issue })
                && exists|i: int| 0 <= i < nodes@.len()
                    && node_issue(#[trigger] nodes@[i]) == Some(issue) && node@ == nodes@[i].node_name@
                    && forall|j: int| 0 <= j < i ==> node_issue(#[trigger] nodes@[j]) is None),
    {
        let mut i: usize = 0;
        while i < nodes.len()
            invariant
                i <= nodes@.len(),
                forall|j: int| 0 <= j < i ==> node_issue(#[trigger] nodes@[j]) is None,
            decreases nodes.len() - i,
        {
            match nodes[i].validate() {
                Ok(()) => {},
                Err(e) => return Err(e),
            }
            i = i + 1;
        }
        Ok(EngravingConfig { nodes })
    }

    /// Returns the config entry for `node_name` (the first one, should
    /// several share the name), if one is present.
    pub fn node(&self, node_name: &str) -> (r: Option<&EngravingNodeConfig>)
        ensures
            r is None ==> forall|i: int| 0 <= i < self.nodes@.len() ==> self.nodes@[i].node_name@ != node_name@,
            r matches Some(n) ==> exists|i: int| 0 <= i < self.nodes@.len() && self.nodes@[i] == *n
                && n.node_name@ == node_name@
                && forall|j: int| 0 <= j < i ==> self.nodes@[j].node_name@ != node_name@,
    {
        let mut i: usize = 0;
        while i < self.nodes.len()
            invariant
                i <= self.nodes@.len(),
                forall|j: int| 0 <= j < i ==> self.nodes@[j].node_name@ != node_name@,
            decreases self.nodes.len() - i,
        {
            if str_eq(self.nodes[i].node_name.as_str(), node_name) {
                return Some(&self.nodes[i]);
            }
            i = i + 1;
        }
        None
    }
}


/// Number of significant bits of `n` (0 for 0).
pub open spec fn bit_length(n: nat) -> nat
    decreases n,
{
    if n == 0 { 0 } else { 1 + bit_length(n / 2) }
}

/// `floor(log2(max(width, height))) + 1`: how many mip levels a complete
/// chain from `width` x `height` down to `1` x `1` requires (0 for an empty
/// texture).
pub fn mip_level_count(width: u32, height: u32) -> (r: u32)
    ensures
        r == bit_length(if width >= height { width as nat } else { height as nat }),
{
    let mut m: u32 = if width >= height { width } else { height };
    let ghost full = m as nat;
    proof {
        vstd::arithmetic::power2::lemma2_to64();
        lemma_bit_length_le(full, 32);
    }
    let mut bits: u32 = 0;
    while m > 0
        invariant
            bits + bit_length(m as nat) == bit_length(full),
            bit_length(full) <= 32,
        decreases m,
    {
        m = m / 2;
        bits = bits + 1;
    }
    bits
}

proof fn lemma_bit_length_le(n: nat, k: nat)
    requires
        n < vstd::arithmetic::power2::pow2(k),
    ensures
        bit_length(n) <= k,
    decreases k,
{
    if n > 0 {
        if k == 0 {
            vstd::arithmetic::power2::lemma2_to64();
        } else {
            vstd::arithmetic::power2::lemma_pow2_unfold(k);
            lemma_bit_length_le(n / 2, (k - 1) as nat);
        }
    }
}

/// Extent of mip level `level` along an axis of `n` texels: halved per
/// level, clamped at 1.
pub open spec fn mip_extent(n: u32, level: nat) -> u32
    decreases level,
{
    if level == 0 {
        n
    } else {
        let prev = mip_extent(n, (level - 1) as nat);
        if prev / 2 == 0 { 1 } else { prev / 2 }
    }
}

/// Dimensions of mip level `level` of a `width` x `height` texture.
pub fn mip_dimensions(width: u32, height: u32, level: u32) -> (r: (u32, u32))
    ensures
        r == (mip_extent(width, level as nat), mip_extent(height, level as nat)),
{
    let mut w = width;
    let mut h = height;
    let mut l: u32 = 0;
    while l < level
        invariant
            l <= level,
            w == mip_extent(width, l as nat),
            h == mip_extent(height, l as nat),
        decreases level - l,
    {
        w = if w / 2 == 0 { 1 } else { w / 2 };
        h = if h / 2 == 0 { 1 } else { h / 2 };
        l = l + 1;
    }
    (w, h)
}

/// A rasterized engraving mask: tightly packed RGBA8, row-major, top row first.
#[derive(Clone, Debug)]
pub struct EngravingBitmap {
    /// Width in pixels.
    pub width: u32,
    /// Height in pixels.
    pub height: u32,
    /// Tightly packed RGBA8 pixel data, `width * height * 4` bytes.
    pub pixels: Vec<u8>,
}

/// Why a bitmap chain cannot be uploaded into an engraving texture.
#[derive(Clone, Copy, PartialEq, Eq, Structural, Debug)]
pub enum ChainMismatch {
    /// The chain does not have one bitmap per allocated mip level.
    LevelCount,
    /// A bitmap's size differs from its mip level's allocated size.
    LevelSize,
}

/// What an update of the texture with a bitmap chain does: upload the
/// first `upload` levels, then stop with `error` if any.
#[derive(Clone, Copy, PartialEq, Eq, Structural, Debug)]
pub struct ChainUpload {
    /// Number of leading levels uploaded.
    pub upload: usize,
    /// The reason the update stops early, if it does.
    pub error: Option<ChainMismatch>,
}

/// A GPU-resident engraving mask texture allocated once (every level of a
/// complete mip chain) and updated in place. `T` is the renderer's texture
/// object.
pub struct EngravingTexture<T> {
    info: TextureInfo<T>,
    width: u32,
    height: u32,
    levels: u32,
}

impl<T> EngravingTexture<T> {
    /// Width of mip level 0.
    pub closed spec fn spec_width(&self) -> u32 {
        self.width
    }

    /// Height of mip level 0.
    pub closed spec fn spec_height(&self) -> u32 {
        self.height
    }

    /// Number of allocated mip levels.
    pub closed spec fn spec_levels(&self) -> u32 {
        self.levels
    }

    /// The texture binding.
    pub closed spec fn spec_info(&self) -> &TextureInfo<T> {
        &self.info
    }

    /// Wraps a texture whose complete mip chain from `width` x `height` down
    /// to `1` x `1` has been allocated, level `l` at
    /// [`mip_dimensions`]`(width, height, l)`.
    pub fn new(info: TextureInfo<T>, width: u32, height: u32) -> (r: Self)
        ensures
            r.spec_width() == width,
            r.spec_height() == height,
            r.spec_levels() == bit_length(if width >= height { width as nat } else { height as nat }),
            r.spec_info().texture == info.texture,
            r.spec_info().uv_position == info.uv_position,
    {
        let levels = mip_level_count(width, height);
        EngravingTexture { info, width, height, levels }
    }

    /// Width in pixels of mip level 0.
    pub fn width(&self) -> (r: u32)
        ensures
            r == self.spec_width(),
    {
        self.width
    }

    /// Height in pixels of mip level 0.
    pub fn height(&self) -> (r: u32)
        ensures
            r == self.spec_height(),
    {
        self.height
    }

    /// Number of mip levels an update expects a bitmap for.
    pub fn level_count(&self) -> (r: u32)
        ensures
            r == self.spec_levels(),
    {
        self.levels
    }

    /// A handle to this texture (shared, so later updates stay visible).
    pub fn texture_info(&self) -> (r: TextureInfo<T>)
        ensures
            r.texture == self.spec_info().texture,
            r.uv_position == self.spec_info().uv_position,
    {
        self.info.share()
    }

    /// How an update with `bitmaps` (level 0 first) proceeds: a chain of the
    /// wrong length is rejected before anything is uploaded; otherwise levels
    /// are uploaded in order until the first whose bitmap size differs from
    /// the level's allocated size.
    pub fn update_plan(&self, bitmaps: &[EngravingBitmap]) -> (r: ChainUpload)
        ensures
            bitmaps@.len() != self.spec_levels() ==> r == (ChainUpload { upload: 0, error: Some(ChainMismatch::LevelCount) }),
            bitmaps@.len() == self.spec_levels() ==> {
                &&& r.upload <= bitmaps@.len()
                &&& forall|l: int| 0 <= l < r.upload ==> bitmaps@[l].width == mip_extent(self.spec_width(), l as nat)
                    && bitmaps@[l].height == mip_extent(self.spec_height(), l as nat)
                &&& r.error is None <==> r.upload == bitmaps@.len()
                &&& r.error is Some ==> r.error == Some(ChainMismatch::LevelSize)
                    && (bitmaps@[r.upload as int].width != mip_extent(self.spec_width(), r.upload as nat)
                    || bitmaps@[r.upload as int].height != mip_extent(self.spec_height(), r.upload as nat))
            },
    {
        if bitmaps.len() as u64 != self.levels as u64 {
            return ChainUpload { upload: 0, error: Some(ChainMismatch::LevelCount) };
        }
        let mut w = self.width;
        let mut h = self.height;
        let mut l: usize = 0;
        while l < bitmaps.len()
            invariant
                l <= bitmaps@.len(),
                bitmaps@.len() == self.levels,
                w == mip_extent(self.width, l as nat),
                h == mip_extent(self.height, l as nat),
                forall|k: int| 0 <= k < l ==> bitmaps@[k].width == mip_extent(self.width, k as nat)
                    && bitmaps@[k].height == mip_extent(self.height, k as nat),
            decreases bitmaps.len() - l,
        {
            if bitmaps[l].width != w || bitmaps[l].height != h {
                return ChainUpload { upload: l, error: Some(ChainMismatch::LevelSize) };
            }
            w = if w / 2 == 0 { 1 } else { w / 2 };
            h = if h / 2 == 0 { 1 } else { h / 2 };
            l = l + 1;
        }
        ChainUpload { upload: l, error: None }
    }
}

proof fn lemma_bit_length_bounds(n: nat)
    requires
        n > 0,
    ensures
        bit_length(n) >= 1,
        vstd::arithmetic::power2::pow2((bit_length(n) - 1) as nat) <= n,
        n < vstd::arithmetic::power2::pow2(bit_length(n)),
    decreases n,
{
    vstd::arithmetic::power2::lemma2_to64();
    if n > 1 {
        lemma_bit_length_bounds(n / 2);
        let b = bit_length(n / 2);
        vstd::arithmetic::power2::lemma_pow2_unfold(b);
        vstd::arithmetic::power2::lemma_pow2_unfold(b + 1);
        assert(bit_length(n) == b + 1);
        let lo = vstd::arithmetic::power2::pow2((b - 1) as nat);
        let hi = vstd::arithmetic::power2::pow2(b);
        assert(n == 2 * (n / 2) + n % 2);
        assert(n % 2 < 2);
        assert(hi <= n) by (nonlinear_arith)
            requires lo <= n / 2, hi == 2 * lo, n == 2 * (n / 2) + n % 2, n % 2 >= 0;
        assert(n < 2 * hi) by (nonlinear_arith)
            requires n / 2 < hi, n == 2 * (n / 2) + n % 2, n % 2 < 2;
        assert(((b + 1) - 1) as nat == b);
    } else {
        assert(bit_length(n) == 1 + bit_length(0));
    }
}

proof fn lemma_mip_extent_div(n: u32, l: nat)
    requires
        n > 0,
    ensures
        mip_extent(n, l) == (if n as nat / vstd::arithmetic::power2::pow2(l) == 0 { 1 } else { n as nat / vstd::arithmetic::power2::pow2(l) }),
    decreases l,
{
    vstd::arithmetic::power2::lemma2_to64();
    if l > 0 {
        lemma_mip_extent_div(n, (l - 1) as nat);
        let p = vstd::arithmetic::power2::pow2((l - 1) as nat);
        vstd::arithmetic::power2::lemma_pow2_pos((l - 1) as nat);
        vstd::arithmetic::power2::lemma_pow2_unfold(l);
        vstd::arithmetic::div_mod::lemma_div_denominator(n as int, p as int, 2);
        assert(p * 2 == vstd::arithmetic::power2::pow2(l));
        let q = n as nat / p;
        assert(q / 2 == n as nat / vstd::arithmetic::power2::pow2(l));
        let prev = mip_extent(n, (l - 1) as nat);
        assert(mip_extent(n, l) == (if prev / 2 == 0 { 1 } else { prev / 2 }));
        if q == 0 {
            assert(prev == 1);
            assert(prev / 2 == 0);
        } else {
            assert(prev as nat == q);
            assert((prev / 2) as nat == q / 2);
        }
    } else {
        assert(vstd::arithmetic::power2::pow2(0) == 1);
        assert(n as nat / 1 == n as nat);
    }
}

/// A texture's mip chain has exactly as many levels as it takes to reach a
/// single texel: with [`mip_level_count`] levels the last one is `1` x `1`,
/// and the level before it (if any) is still wider or taller than one texel.
pub proof fn lemma_mip_chain_ends_at_one_texel(width: u32, height: u32)
    requires
        width > 0,
        height > 0,
    ensures
        ({
            let levels = bit_length(if width >= height { width as nat } else { height as nat });
            &&& levels >= 1
            &&& mip_extent(width, (levels - 1) as nat) == 1
            &&& mip_extent(height, (levels - 1) as nat) == 1
            &&& levels >= 2 ==> mip_extent(width, (levels - 2) as nat) > 1 || mip_extent(height, (levels - 2) as nat) > 1
        }),
{
    let m: nat = if width >= height { width as nat } else { height as nat };
    lemma_bit_length_bounds(m);
    let b = bit_length(m);
    let p = vstd::arithmetic::power2::pow2((b - 1) as nat);
    vstd::arithmetic::power2::lemma_pow2_pos((b - 1) as nat);
    vstd::arithmetic::power2::lemma_pow2_unfold(b);
    lemma_mip_extent_div(width, (b - 1) as nat);
    lemma_mip_extent_div(height, (b - 1) as nat);
    assert(width as nat / p <= 1) by (nonlinear_arith)
        requires width as nat <= m, m < 2 * p, p > 0;
    assert(height as nat / p <= 1) by (nonlinear_arith)
        requires height as nat <= m, m < 2 * p, p > 0;
    if b >= 2 {
        let q = vstd::arithmetic::power2::pow2((b - 2) as nat);
        vstd::arithmetic::power2::lemma_pow2_pos((b - 2) as nat);
        vstd::arithmetic::power2::lemma_pow2_unfold((b - 1) as nat);
        assert(m / q >= 2) by (nonlinear_arith)
            requires p <= m, p == 2 * q, q > 0;
        lemma_mip_extent_div(width, (b - 2) as nat);
        lemma_mip_extent_div(height, (b - 2) as nat);
    }
}

} // verus!
