//! Where the glTF loader uploads each vertex attribute of a primitive: the
//! shader location (slot), the geometry's attribute name, and the
//! vertex-shader define that skinning / morph / tangent attributes switch on.

use vstd::prelude::*;
use crate::text::{decimal, push_char, push_num, push_str};

verus! {

/// A glTF vertex attribute semantic.
#[derive(Clone, Copy, PartialEq, Eq, Structural, Debug)]
pub enum GltfSemantic {
    Positions,
    Normals,
    Tangents,
    Colors(u32),
    TexCoords(u32),
    Joints(u32),
    Weights(u32),
}

/// The attribute a semantic is uploaded as, in characters.
pub type AttributeChars = (u32, Seq<char>, Option<Seq<char>>);

/// Whether the loader supports `semantic`: up to five texture coordinate
/// sets and two color sets, and joint / weight sets whose slot fits `u32`.
pub open spec fn semantic_supported(semantic: GltfSemantic) -> bool {
    match semantic {
        GltfSemantic::TexCoords(i) => i < 5,
        GltfSemantic::Colors(i) => i < 2,
        GltfSemantic::Joints(i) => i + 10 <= u32::MAX,
        GltfSemantic::Weights(i) => i + 13 <= u32::MAX,
        _ => true,
    }
}

/// Slot, attribute name and define name of `semantic` on the accessor path.
pub open spec fn accessor_attribute_spec(semantic: GltfSemantic) -> AttributeChars {
    match semantic {
        GltfSemantic::Positions => (0, "positions"@, None),
        GltfSemantic::Normals => (1, "normals"@, None),
        GltfSemantic::TexCoords(i) => ((2 + i) as u32, "texture_coordinates_"@ + decimal((2 + i) as nat), None),
        GltfSemantic::Colors(i) => ((7 + i) as u32, "colors_"@ + decimal((7 + i) as nat), None),
        GltfSemantic::Tangents => (9, "tangents"@, Some("tangents"@)),
        GltfSemantic::Joints(i) => ((10 + i) as u32, "joints_"@ + decimal(i as nat), Some("joints_"@ + decimal(i as nat))),
        GltfSemantic::Weights(i) => ((13 + i) as u32, "weights_"@ + decimal(i as nat), Some("weights_"@ + decimal(i as nat))),
    }
}

/// How a glTF exporter spells `semantic` in a primitive's attribute map.
pub open spec fn semantic_name(semantic: GltfSemantic) -> Seq<char> {
    match semantic {
        GltfSemantic::Positions => "POSITION"@,
        GltfSemantic::Normals => "NORMAL"@,
        GltfSemantic::Tangents => "TANGENT"@,
        GltfSemantic::Colors(i) => "COLOR_"@ + decimal(i as nat),
        GltfSemantic::TexCoords(i) => "TEXCOORD_"@ + decimal(i as nat),
        GltfSemantic::Joints(i) => "JOINTS_"@ + decimal(i as nat),
        GltfSemantic::Weights(i) => "WEIGHTS_"@ + decimal(i as nat),
    }
}

fn named(prefix: &str, n: u32) -> (r: String)
    ensures
        r@ == prefix@ + decimal(n as nat),
{
    let mut s = String::new();
    push_str(&mut s, prefix);
    push_num(&mut s, n as u64);
    s
}

fn literal(text: &str) -> (r: String)
    ensures
        r@ == text@,
{
    let mut s = String::new();
    push_str(&mut s, text);
    s
}

/// The slot, attribute name and optional define name a supported semantic
/// is uploaded with.
pub fn accessor_attribute(semantic: GltfSemantic) -> (r: (u32, String, Option<String>))
    requires
        semantic_supported(semantic),
    ensures
        accessor_attribute_spec(semantic) == (r.0, r.1@, match r.2 { Some(d) => Some(d@), None => None }),
{
    match semantic {
        GltfSemantic::Positions => (0, literal("positions"), None),
        GltfSemantic::Normals => (1, literal("normals"), None),
        GltfSemantic::TexCoords(i) => (2 + i, named("texture_coordinates_", 2 + i), None),
        GltfSemantic::Colors(i) => (7 + i, named("colors_", 7 + i), None),
        GltfSemantic::Tangents => (9, literal("tangents"), Some(literal("tangents"))),
        GltfSemantic::Joints(i) => (10 + i, named("joints_", i), Some(named("joints_", i))),
        GltfSemantic::Weights(i) => (13 + i, named("weights_", i), Some(named("weights_", i))),
    }
}

/// ASCII upper case of `c`.
pub open spec fn ascii_upper(c: char) -> char {
    if 'a' <= c && c <= 'z' { ((c as u32) - 32) as char } else { c }
}

/// The shader define that switches on attribute `name`: `USE_` followed by
/// the name in upper case.
pub open spec fn define_symbol_spec(name: Seq<char>) -> Seq<char> {
    "USE_"@ + name.map_values(|c: char| ascii_upper(c))
}

/// The shader define for an attribute define name (`tangents` gives
/// `USE_TANGENTS`). Names are ASCII, as every name the loader defines is.
pub fn define_symbol(name: &str) -> (r: String)
    requires
        forall|i: int| 0 <= i < name@.len() ==> (#[trigger] name@[i] as u32) < 128,
    ensures
        r@ == define_symbol_spec(name@),
{
    let mut s = literal("USE_");
    let ghost start = s@;
    for c in it: name.chars()
        invariant
            it.seq() == name@,
            start == "USE_"@,
            forall|i: int| 0 <= i < name@.len() ==> (#[trigger] name@[i] as u32) < 128,
            s@ == start + it.seq().take(it.index()).map_values(|c: char| ascii_upper(c)),
    {
        let u = if 'a' <= c && c <= 'z' { ((c as u32) - 32) as u8 as char } else { c };
        assert(u == ascii_upper(c)) by {
            if 'a' <= c && c <= 'z' {
                assert(((c as u32) - 32) < 128);
            }
        }
        push_char(&mut s, u);
        assert(it.seq().take(it.index() + 1) =~= it.seq().take(it.index()).push(c));
        assert(s@ =~= start + it.seq().take(it.index() + 1).map_values(|c: char| ascii_upper(c)));
    }
    assert(name@.take(name@.len() as int) =~= name@);
    s
}

} // verus!
