//! Geometry-buffer attachments: their color-attachment order, the shader
//! `#define` naming each, and the vertex attribute each one reads.

use vstd::prelude::*;
use crate::text::push_str;

verus! {

/// Identifies one color attachment (render target) written by the geometry pass.
#[derive(Clone, Copy, PartialEq, Eq, Structural, Debug, Hash)]
pub enum GBufferAttachment {
    /// World-space fragment position.
    Position,
    /// Interpolated vertex color.
    Color,
    /// UV coordinates (channel 1).
    Uv1,
    /// Sampled albedo (base color).
    Albedo,
    /// Surface normal.
    Normal,
    /// Packed PBR material parameters.
    PbrInfo,
    /// Per-object color supplied at render time.
    ObjectColor,
}

/// Every G-buffer attachment, in color-attachment order.
pub fn all_attachments() -> (r: [GBufferAttachment; 7])
    ensures
        r@ == seq![
            GBufferAttachment::Position,
            GBufferAttachment::Color,
            GBufferAttachment::Uv1,
            GBufferAttachment::Albedo,
            GBufferAttachment::Normal,
            GBufferAttachment::PbrInfo,
            GBufferAttachment::ObjectColor,
        ],
{
    [
        GBufferAttachment::Position,
        GBufferAttachment::Color,
        GBufferAttachment::Uv1,
        GBufferAttachment::Albedo,
        GBufferAttachment::Normal,
        GBufferAttachment::PbrInfo,
        GBufferAttachment::ObjectColor,
    ]
}

/// The fragment-shader `#define` name of an attachment.
pub open spec fn define_name(a: GBufferAttachment) -> Seq<char> {
    match a {
        GBufferAttachment::Position => "POSITION"@,
        GBufferAttachment::Color => "COLOR"@,
        GBufferAttachment::Uv1 => "UV_1"@,
        GBufferAttachment::Albedo => "ALBEDO"@,
        GBufferAttachment::Normal => "NORMAL"@,
        GBufferAttachment::PbrInfo => "PBR_INFO"@,
        GBufferAttachment::ObjectColor => "OBJECT_COLOR"@,
    }
}

/// The vertex attribute an attachment reads: shader location, number of
/// `f32` components, and whether the data is normalized.
#[derive(Clone, Copy, PartialEq, Eq, Structural, Debug)]
pub struct AttachmentAttribute {
    /// `layout( location = .. )` of the attribute.
    pub location: u32,
    /// Components per vertex.
    pub components: i32,
    /// Whether integer data is normalized on fetch.
    pub normalized: bool,
}

impl GBufferAttachment {
    /// The fragment-shader `#define` name identifying this attachment.
    pub fn define_const(self) -> (r: String)
        ensures
            r@ == define_name(self),
    {
        let name = match self {
            GBufferAttachment::Position => "POSITION",
            GBufferAttachment::Color => "COLOR",
            GBufferAttachment::Uv1 => "UV_1",
            GBufferAttachment::Albedo => "ALBEDO",
            GBufferAttachment::Normal => "NORMAL",
            GBufferAttachment::PbrInfo => "PBR_INFO",
            GBufferAttachment::ObjectColor => "OBJECT_COLOR",
        };
        let mut s = String::new();
        push_str(&mut s, name);
        s
    }

    /// The vertex attribute this attachment needs, if any: positions at
    /// location 0 (3 components), colors at 1 (4, normalized), normals at 2
    /// (3, normalized), UV set 1 at 3 (2, normalized).
    pub fn attribute_layout(self) -> (r: Option<AttachmentAttribute>)
        ensures
            r == match self {
                GBufferAttachment::Position => Some(AttachmentAttribute { location: 0, components: 3, normalized: false }),
                GBufferAttachment::Color => Some(AttachmentAttribute { location: 1, components: 4, normalized: true }),
                GBufferAttachment::Normal => Some(AttachmentAttribute { location: 2, components: 3, normalized: true }),
                GBufferAttachment::Uv1 => Some(AttachmentAttribute { location: 3, components: 2, normalized: true }),
                _ => None::<AttachmentAttribute>,
            },
    {
        match self {
            GBufferAttachment::Position => Some(AttachmentAttribute { location: 0, components: 3, normalized: false }),
            GBufferAttachment::Color => Some(AttachmentAttribute { location: 1, components: 4, normalized: true }),
            GBufferAttachment::Normal => Some(AttachmentAttribute { location: 2, components: 3, normalized: true }),
            GBufferAttachment::Uv1 => Some(AttachmentAttribute { location: 3, components: 2, normalized: true }),
            _ => None,
        }
    }
}

/// The `#define` block enabling `attachments`, in the order given.
pub open spec fn defines_spec(attachments: Seq<GBufferAttachment>) -> Seq<char>
    decreases attachments.len(),
{
    if attachments.len() == 0 {
        Seq::empty()
    } else {
        defines_spec(attachments.drop_last()) + " #define "@ + define_name(attachments.last()) + "\n"@
    }
}

/// Builds the fragment-shader `#define` block for a set of attachments: one
/// ` #define NAME` line per attachment, in the order given.
pub fn into_defines(attachments: &[GBufferAttachment]) -> (r: String)
    ensures
        r@ == defines_spec(attachments@),
{
    let mut defines = String::new();
    let mut i: usize = 0;
    assert(attachments@.take(0) =~= Seq::<GBufferAttachment>::empty());
    while i < attachments.len()
        invariant
            i <= attachments@.len(),
            defines@ == defines_spec(attachments@.take(i as int)),
        decreases attachments.len() - i,
    {
        let name = attachments[i].define_const();
        push_str(&mut defines, " #define ");
        push_str(&mut defines, name.as_str());
        push_str(&mut defines, "\n");
        assert(attachments@.take(i + 1).drop_last() =~= attachments@.take(i as int));
        i = i + 1;
    }
    assert(attachments@.take(attachments@.len() as int) =~= attachments@);
    defines
}

/// Each attachment has its own define: two different attachments never
/// share a define name, so a shader's defines say exactly which attachments
/// it writes.
pub proof fn lemma_define_names_distinct(a: GBufferAttachment, b: GBufferAttachment)
    ensures
        a != b ==> define_name(a) != define_name(b),
{
    reveal_strlit("POSITION");
    reveal_strlit("COLOR");
    reveal_strlit("UV_1");
    reveal_strlit("ALBEDO");
    reveal_strlit("NORMAL");
    reveal_strlit("PBR_INFO");
    reveal_strlit("OBJECT_COLOR");
    if a != b && define_name(a) == define_name(b) {
        assert(define_name(a).len() == define_name(b).len());
        assert(define_name(a)[0] == define_name(b)[0]);
        assert(define_name(a)[1] == define_name(b)[1]);
    }
}

} // verus!
