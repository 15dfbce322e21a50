//! `KHR_draco_mesh_compression` geometry: the bitstream is decoded by
//! `draco_core`; which loader attribute slot a glTF semantic maps to, the
//! expansion of a decoded Draco attribute (values de-duplicated, addressed
//! per point through a value index) into one tightly packed value per point
//! in the accessor's format, and the triangle index bytes are decided here.

use vstd::prelude::*;
use draco_core::{DecoderBuffer, Mesh, MeshDecoder, PointIndex};
use crate::text::{chars_of, decimal, digit_char, push_num, push_str, str_eq};
use crate::gltf_attributes::{accessor_attribute_spec, semantic_name, semantic_supported, GltfSemantic};

verus! {

/// Whether `c` is an ASCII decimal digit.
pub open spec fn is_digit(c: char) -> bool {
    '0' <= c && c <= '9'
}

/// The value of a run of decimal digits.
pub open spec fn digits_value(ds: Seq<char>) -> nat
    decreases ds.len(),
{
    if ds.len() == 0 { 0 } else { digits_value(ds.drop_last()) * 10 + ((ds.last() as u32) - 48) as nat }
}

/// The digits of a `u32` literal: `s` without one leading `+`.
pub open spec fn unsigned_digits(s: Seq<char>) -> Seq<char> {
    if s.len() > 0 && s[0] == '+' { s.drop_first() } else { s }
}

/// Whether every character of `ds` is a decimal digit.
pub open spec fn all_digits(ds: Seq<char>) -> bool {
    forall|i: int| 0 <= i < ds.len() ==> is_digit(#[trigger] ds[i])
}

/// What `str::parse::<u32>` makes of `s`: an optional `+` then at least one
/// decimal digit, with a value that fits in `u32`.
pub open spec fn parse_u32_spec(s: Seq<char>) -> Option<u32> {
    let ds = unsigned_digits(s);
    if ds.len() > 0 && all_digits(ds) && digits_value(ds) <= u32::MAX {
        Some(digits_value(ds) as u32)
    } else {
        None
    }
}

fn parse_u32(s: &[char]) -> (r: Option<u32>)
    ensures
        r == parse_u32_spec(s@),
{
    let start: usize = if s.len() > 0 && s[0] == '+' { 1 } else { 0 };
    let ghost ds = unsigned_digits(s@);
    assert(ds =~= s@.skip(start as int));
    if start >= s.len() {
        return None;
    }
    let mut v: u64 = 0;
    let mut i: usize = start;
    while i < s.len()
        invariant
            start <= i <= s@.len(),
            ds == unsigned_digits(s@),
            ds =~= s@.skip(start as int),
            forall|k: int| start <= k < i ==> is_digit(#[trigger] s@[k]),
            v == digits_value(s@.subrange(start as int, i as int)),
            v <= u32::MAX,
        decreases s.len() - i,
    {
        let c = s[i];
        if !('0' <= c && c <= '9') {
            proof {
                assert(ds[i - start] == c);
                assert(!is_digit(ds[i - start]));
                assert(!all_digits(ds));
            }
            return None;
        }
        let d = (c as u32 - 48) as u64;
        assert(s@.subrange(start as int, i + 1).drop_last() =~= s@.subrange(start as int, i as int));
        let next = v * 10 + d;
        if next > 0xffff_ffff {
            proof {
                lemma_digits_value_prefix(ds, (i + 1 - start) as int);
                assert(ds.take((i + 1 - start) as int) =~= s@.subrange(start as int, i + 1));
                assert(digits_value(s@.subrange(start as int, i + 1)) == v * 10 + d);
                assert(digits_value(ds) > u32::MAX);
            }
            return None;
        }
        v = next;
        i = i + 1;
    }
    assert(s@.subrange(start as int, s@.len() as int) =~= ds);
    Some(v as u32)
}

proof fn lemma_digits_value_prefix(ds: Seq<char>, k: int)
    requires
        0 <= k <= ds.len(),
    ensures
        digits_value(ds.take(k)) <= digits_value(ds),
    decreases ds.len() - k,
{
    if k < ds.len() {
        lemma_digits_value_prefix(ds, k + 1);
        assert(ds.take(k + 1).drop_last() =~= ds.take(k));
    } else {
        assert(ds.take(k) =~= ds);
    }
}

/// Index `i` of `semantic` with prefix `prefix`, when it has the prefix and
/// the rest parses as a `u32`.
pub open spec fn indexed_spec(semantic: Seq<char>, prefix: Seq<char>) -> Option<u32> {
    if prefix.len() <= semantic.len() && semantic.take(prefix.len() as int) == prefix {
        parse_u32_spec(semantic.skip(prefix.len() as int))
    } else {
        None
    }
}

/// A loader attribute slot: shader location, attribute name, and the
/// vertex-shader define the attribute requires.
pub type SlotChars = (u32, Seq<char>, Option<Seq<char>>);

/// The slot of a glTF attribute semantic (`POSITION`, `TEXCOORD_0`,
/// `JOINTS_0`, ...), mirroring the uncompressed accessor path.
pub open spec fn slot_spec(semantic: Seq<char>) -> Option<SlotChars> {
    if semantic == "POSITION"@ {
        Some((0, "positions"@, None))
    } else if semantic == "NORMAL"@ {
        Some((1, "normals"@, None))
    } else if semantic == "TANGENT"@ {
        Some((9, "tangents"@, Some("tangents"@)))
    } else if indexed_spec(semantic, "TEXCOORD_"@) is Some {
        let i = indexed_spec(semantic, "TEXCOORD_"@).unwrap();
        Some(((2 + i) as u32, "texture_coordinates_"@ + decimal((2 + i) as nat), None))
    } else if indexed_spec(semantic, "COLOR_"@) is Some {
        let i = indexed_spec(semantic, "COLOR_"@).unwrap();
        Some(((7 + i) as u32, "colors_"@ + decimal((7 + i) as nat), None))
    } else if indexed_spec(semantic, "JOINTS_"@) is Some {
        let i = indexed_spec(semantic, "JOINTS_"@).unwrap();
        Some(((10 + i) as u32, "joints_"@ + decimal(i as nat), Some("joints_"@ + decimal(i as nat))))
    } else if indexed_spec(semantic, "WEIGHTS_"@) is Some {
        let i = indexed_spec(semantic, "WEIGHTS_"@).unwrap();
        Some(((13 + i) as u32, "weights_"@ + decimal(i as nat), Some("weights_"@ + decimal(i as nat))))
    } else {
        None
    }
}

/// The slot's shader location fits `u32` (an index near `u32::MAX` would overflow).
pub open spec fn slot_in_range(semantic: Seq<char>) -> bool {
    &&& indexed_spec(semantic, "TEXCOORD_"@) matches Some(i) ==> i + 2 <= u32::MAX
    &&& indexed_spec(semantic, "COLOR_"@) matches Some(i) ==> i + 7 <= u32::MAX
    &&& indexed_spec(semantic, "JOINTS_"@) matches Some(i) ==> i + 10 <= u32::MAX
    &&& indexed_spec(semantic, "WEIGHTS_"@) matches Some(i) ==> i + 13 <= u32::MAX
}

fn indexed(semantic: &Vec<char>, prefix: &str) -> (r: Option<u32>)
    ensures
        r == indexed_spec(semantic@, prefix@),
{
    let p = chars_of(prefix);
    if p.len() > semantic.len() {
        return None;
    }
    let mut k: usize = 0;
    while k < p.len()
        invariant
            p@ == prefix@,
            p@.len() <= semantic@.len(),
            k <= p@.len(),
            forall|m: int| 0 <= m < k ==> semantic@[m] == p@[m],
        decreases p.len() - k,
    {
        if semantic[k] != p[k] {
            assert(semantic@.take(p@.len() as int)[k as int] != p@[k as int]);
            return None;
        }
        k = k + 1;
    }
    assert(semantic@.take(p@.len() as int) =~= p@);
    let rest = crate::text::slice_chars(semantic.as_slice(), p.len(), semantic.len());
    assert(rest@ =~= semantic@.skip(p@.len() as int));
    parse_u32(rest.as_slice())
}

fn string_from(lit: &str) -> (r: String)
    ensures
        r@ == lit@,
{
    let mut s = String::new();
    push_str(&mut s, lit);
    s
}

fn numbered(prefix: &str, n: u32) -> (r: String)
    ensures
        r@ == prefix@ + decimal(n as nat),
{
    let mut s = String::new();
    push_str(&mut s, prefix);
    push_num(&mut s, n as u64);
    s
}

/// Maps a glTF attribute semantic, as spelled in the Draco extension's
/// attribute map, to the loader's `( slot, attribute name, optional
/// vertex-shader define )`.
pub fn slot_of(semantic: &str) -> (r: Option<(u32, String, Option<String>)>)
    requires
        slot_in_range(semantic@),
    ensures
        match r {
            Some((slot, name, define)) => slot_spec(semantic@) == Some((slot, name@, match define { Some(d) => Some(d@), None => None })),
            None => slot_spec(semantic@) is None,
        },
{
    if str_eq(semantic, "POSITION") {
        return Some((0, string_from("positions"), None));
    }
    if str_eq(semantic, "NORMAL") {
        return Some((1, string_from("normals"), None));
    }
    if str_eq(semantic, "TANGENT") {
        return Some((9, string_from("tangents"), Some(string_from("tangents"))));
    }
    let cs = chars_of(semantic);
    if let Some(i) = indexed(&cs, "TEXCOORD_") {
        return Some((2 + i, numbered("texture_coordinates_", 2 + i), None));
    }
    if let Some(i) = indexed(&cs, "COLOR_") {
        return Some((7 + i, numbered("colors_", 7 + i), None));
    }
    if let Some(i) = indexed(&cs, "JOINTS_") {
        return Some((10 + i, numbered("joints_", i), Some(numbered("joints_", i))));
    }
    if let Some(i) = indexed(&cs, "WEIGHTS_") {
        return Some((13 + i, numbered("weights_", i), Some(numbered("weights_", i))));
    }
    None
}

/// Why a decoded Draco attribute cannot be expanded.
#[derive(Clone, Copy, PartialEq, Eq, Structural, Debug)]
pub enum DracoExpandError {
    /// The glTF accessor's value is wider than the Draco attribute's stride.
    NarrowerThanAccessor,
    /// A point's value lies beyond the decoded attribute buffer.
    ValueOutOfRange,
}

/// The per-point expansion of attribute bytes `data`: for each point, the
/// `value_size` bytes of its value `value_indices[p]` at stride `stride`.
pub open spec fn packed_spec(data: Seq<u8>, value_indices: Seq<u32>, stride: nat, value_size: nat) -> Seq<u8>
    decreases value_indices.len(),
{
    if value_indices.len() == 0 {
        Seq::empty()
    } else {
        let start = value_indices.last() * stride;
        packed_spec(data, value_indices.drop_last(), stride, value_size) + data.subrange(start as int, (start + value_size) as int)
    }
}

/// Draco deduplicates attribute values, so a point maps to a value through
/// its value index (`mapped_index`). Expands to one tightly packed value per
/// point so a per-point index buffer addresses it directly.
pub fn pack_point_values(data: &[u8], value_indices: &[u32], stride: usize, value_size: usize) -> (r: Result<Vec<u8>, DracoExpandError>)
    ensures
        value_size > stride ==> r == Err::<Vec<u8>, DracoExpandError>(DracoExpandError::NarrowerThanAccessor),
        value_size <= stride && (exists|p: int| 0 <= p < value_indices@.len() && #[trigger] value_indices@[p] * stride + value_size > data@.len())
            ==> r == Err::<Vec<u8>, DracoExpandError>(DracoExpandError::ValueOutOfRange),
        value_size <= stride && (forall|p: int| 0 <= p < value_indices@.len() ==> #[trigger] value_indices@[p] * stride + value_size <= data@.len())
            ==> (r matches Ok(v) && v@ == packed_spec(data@, value_indices@, stride as nat, value_size as nat)),
{
    if value_size > stride {
        return Err(DracoExpandError::NarrowerThanAccessor);
    }
    let mut packed: Vec<u8> = Vec::new();
    let mut p: usize = 0;
    assert(value_indices@.take(0) =~= Seq::<u32>::empty());
    while p < value_indices.len()
        invariant
            p <= value_indices@.len(),
            value_size <= stride,
            forall|q: int| 0 <= q < p ==> #[trigger] value_indices@[q] * stride + value_size <= data@.len(),
            packed@ == packed_spec(data@, value_indices@.take(p as int), stride as nat, value_size as nat),
        decreases value_indices.len() - p,
    {
        let vi = value_indices[p] as usize;
        proof {
            vstd::arithmetic::mul::lemma_mul_nonnegative(vi as int, stride as int);
        }
        // A value whose end does not even fit `usize` lies beyond the buffer.
        assert(data@.len() == data.len());
        let end = match vi.checked_mul(stride) {
            Some(start) => match start.checked_add(value_size) {
                Some(end) => end,
                None => {
                    assert(value_indices@[p as int] * stride + value_size > data@.len());
                    return Err(DracoExpandError::ValueOutOfRange);
                },
            },
            None => {
                assert(vi * stride > usize::MAX);
                assert(value_indices@[p as int] * stride + value_size > data@.len());
                return Err(DracoExpandError::ValueOutOfRange);
            },
        };
        let start = vi * stride;
        if end > data.len() {
            return Err(DracoExpandError::ValueOutOfRange);
        }
        let ghost before = packed@;
        let mut k: usize = start;
        while k < end
            invariant
                start <= k <= end, end <= data@.len(),
                packed@ == before + data@.subrange(start as int, k as int),
            decreases end - k,
        {
            packed.push(data[k]);
            k = k + 1;
            assert(packed@ =~= before + data@.subrange(start as int, k as int));
        }
        assert(value_indices@.take(p + 1).drop_last() =~= value_indices@.take(p as int));
        assert(value_indices@.take(p + 1).last() == value_indices@[p as int]);
        p = p + 1;
    }
    assert(value_indices@.take(value_indices@.len() as int) =~= value_indices@);
    Ok(packed)
}

/// Byte `i` of the little-endian `u32` index buffer of `faces`.
pub open spec fn face_index_byte(faces: Seq<[u32; 3]>, i: nat) -> u8 {
    let corner = faces[(i / 12) as int][((i % 12) / 4) as int];
    ((corner >> ((8 * (i % 4)) as u32)) & 0xff) as u8
}

/// The index buffer of a Draco triangle list: each face's three point
/// indices as little-endian `u32`s, face after face.
pub fn face_index_bytes(faces: &[[u32; 3]]) -> (r: Vec<u8>)
    requires
        faces@.len() * 12 <= usize::MAX,
    ensures
        r@.len() == faces@.len() * 12,
        forall|i: int| 0 <= i < r@.len() ==> r@[i] == face_index_byte(faces@, i as nat),
{
    let total = faces.len() * 12;
    let mut out: Vec<u8> = Vec::new();
    let mut i: usize = 0;
    while i < total
        invariant
            total == faces@.len() * 12,
            i <= total,
            out@.len() == i,
            forall|j: int| 0 <= j < i ==> out@[j] == face_index_byte(faces@, j as nat),
        decreases total - i,
    {
        let corner = faces[i / 12][(i % 12) / 4];
        out.push(((corner >> ((8 * (i % 4)) as u32)) & 0xff) as u8);
        i = i + 1;
    }
    out
}

proof fn lemma_decimal_digits(n: nat)
    ensures
        decimal(n).len() >= 1,
        all_digits(decimal(n)),
        digits_value(decimal(n)) == n,
        decimal(n)[0] != '+',
    decreases n,
{
    reveal_with_fuel(decimal, 2);
    if n < 10 {
        assert(digit_char(n) as u32 == 48 + n);
        assert(decimal(n).drop_last() =~= Seq::<char>::empty());
        assert(digits_value(decimal(n).drop_last()) == 0);
        assert(decimal(n).last() == digit_char(n));
    } else {
        lemma_decimal_digits(n / 10);
        let d = decimal(n);
        assert(d.drop_last() =~= decimal(n / 10));
        assert(digit_char(n % 10) as u32 == 48 + n % 10);
        assert(d.last() == digit_char(n % 10));
        assert((n / 10) * 10 + n % 10 == n) by (nonlinear_arith);
        assert(digits_value(d) == digits_value(decimal(n / 10)) * 10 + n % 10);
        assert(d[0] == decimal(n / 10)[0]);
        assert forall|i: int| 0 <= i < d.len() implies is_digit(#[trigger] d[i]) by {
            if i < d.len() - 1 {
                assert(d[i] == decimal(n / 10)[i]);
            }
        }
    }
}

proof fn lemma_parse_decimal(n: nat)
    requires
        n <= u32::MAX,
    ensures
        parse_u32_spec(decimal(n)) == Some(n as u32),
{
    lemma_decimal_digits(n);
    assert(unsigned_digits(decimal(n)) == decimal(n));
}

proof fn lemma_indexed_own_prefix(prefix: Seq<char>, n: nat)
    requires
        n <= u32::MAX,
    ensures
        indexed_spec(prefix + decimal(n), prefix) == Some(n as u32),
{
    lemma_parse_decimal(n);
    assert((prefix + decimal(n)).take(prefix.len() as int) =~= prefix);
    assert((prefix + decimal(n)).skip(prefix.len() as int) =~= decimal(n));
}

proof fn lemma_indexed_other_prefix(s: Seq<char>, prefix: Seq<char>, k: int)
    requires
        0 <= k < prefix.len(),
        k < s.len(),
        s[k] != prefix[k],
    ensures
        indexed_spec(s, prefix) is None,
{
    if prefix.len() <= s.len() {
        assert(s.take(prefix.len() as int)[k] != prefix[k]);
    }
}

/// The Draco path uploads every attribute the accessor path supports to the
/// same place: the extension's spelling of a semantic gets the slot,
/// attribute name and vertex-shader define the accessor path gives it.
pub proof fn lemma_draco_slot_matches_accessor(semantic: GltfSemantic)
    requires
        semantic_supported(semantic),
    ensures
        slot_in_range(semantic_name(semantic)),
        slot_spec(semantic_name(semantic)) == Some(accessor_attribute_spec(semantic)),
{
    reveal_strlit("POSITION");
    reveal_strlit("NORMAL");
    reveal_strlit("TANGENT");
    reveal_strlit("TEXCOORD_");
    reveal_strlit("COLOR_");
    reveal_strlit("JOINTS_");
    reveal_strlit("WEIGHTS_");
    let name = semantic_name(semantic);
    match semantic {
        GltfSemantic::Positions => {},
        GltfSemantic::Normals => {
            assert(name[0] != "POSITION"@[0]);
        },
        GltfSemantic::Tangents => {
            assert(name[0] != "POSITION"@[0]);
            assert(name[0] != "NORMAL"@[0]);
        },
        GltfSemantic::TexCoords(i) => {
            lemma_decimal_digits(i as nat);
            lemma_indexed_own_prefix("TEXCOORD_"@, i as nat);
            assert(name[0] != "POSITION"@[0]);
            assert(name[0] != "NORMAL"@[0]);
            assert(name[1] != "TANGENT"@[1]);
            lemma_indexed_other_prefix(name, "COLOR_"@, 0);
            lemma_indexed_other_prefix(name, "JOINTS_"@, 0);
            lemma_indexed_other_prefix(name, "WEIGHTS_"@, 0);
        },
        GltfSemantic::Colors(i) => {
            lemma_decimal_digits(i as nat);
            lemma_indexed_own_prefix("COLOR_"@, i as nat);
            assert(name[0] != "POSITION"@[0]);
            assert(name[0] != "NORMAL"@[0]);
            assert(name[0] != "TANGENT"@[0]);
            lemma_indexed_other_prefix(name, "TEXCOORD_"@, 0);
            lemma_indexed_other_prefix(name, "JOINTS_"@, 0);
            lemma_indexed_other_prefix(name, "WEIGHTS_"@, 0);
        },
        GltfSemantic::Joints(i) => {
            lemma_decimal_digits(i as nat);
            lemma_indexed_own_prefix("JOINTS_"@, i as nat);
            assert(name[0] != "POSITION"@[0]);
            assert(name[0] != "NORMAL"@[0]);
            assert(name[0] != "TANGENT"@[0]);
            lemma_indexed_other_prefix(name, "TEXCOORD_"@, 0);
            lemma_indexed_other_prefix(name, "COLOR_"@, 0);
            lemma_indexed_other_prefix(name, "WEIGHTS_"@, 0);
        },
        GltfSemantic::Weights(i) => {
            lemma_decimal_digits(i as nat);
            lemma_indexed_own_prefix("WEIGHTS_"@, i as nat);
            assert(name[0] != "POSITION"@[0]);
            assert(name[0] != "NORMAL"@[0]);
            assert(name[0] != "TANGENT"@[0]);
            lemma_indexed_other_prefix(name, "TEXCOORD_"@, 0);
            lemma_indexed_other_prefix(name, "COLOR_"@, 0);
            lemma_indexed_other_prefix(name, "JOINTS_"@, 0);
        },
    }
}

/// A glTF accessor component type.
#[derive(Clone, Copy, PartialEq, Eq, Structural, Debug)]
pub enum ComponentType {
    U8,
    I8,
    U16,
    I16,
    U32,
    F32,
}

/// The size of one component in bytes.
pub open spec fn component_bytes(t: ComponentType) -> nat {
    match t {
        ComponentType::U8 | ComponentType::I8 => 1,
        ComponentType::U16 | ComponentType::I16 => 2,
        ComponentType::U32 | ComponentType::F32 => 4,
    }
}

fn component_size(t: ComponentType) -> (r: usize)
    ensures
        r == component_bytes(t),
        r <= 4,
{
    match t {
        ComponentType::U8 | ComponentType::I8 => 1,
        ComponentType::U16 | ComponentType::I16 => 2,
        ComponentType::U32 | ComponentType::F32 => 4,
    }
}

/// The divisor that maps a normalized integer component to its `[-1, 1]` or
/// `[0, 1]` value (the largest value of its type, per the glTF
/// specification); `None` for types that are not normalized this way.
pub fn normalize_divisor(t: ComponentType) -> (r: Option<u32>)
    ensures
        r == match t {
            ComponentType::I8 => Some(127u32),
            ComponentType::U8 => Some(255u32),
            ComponentType::I16 => Some(32767u32),
            ComponentType::U16 => Some(65535u32),
            ComponentType::U32 | ComponentType::F32 => None,
        },
{
    match t {
        ComponentType::I8 => Some(127),
        ComponentType::U8 => Some(255),
        ComponentType::I16 => Some(32767),
        ComponentType::U16 => Some(65535),
        ComponentType::U32 | ComponentType::F32 => None,
    }
}

/// One glTF attribute of a Draco-compressed primitive, as its accessor
/// describes it. The accessor, not the Draco attribute, decides the vertex
/// format: Draco does not carry glTF's `normalized`.
#[derive(Clone, Debug)]
pub struct AccessorFormat {
    /// The attribute's glTF semantic (`POSITION`, `TEXCOORD_0`, ...).
    pub semantic: String,
    pub component_type: ComponentType,
    /// Components per value (1 for `SCALAR` up to 16 for `MAT4`).
    pub components: u8,
    pub normalized: bool,
}

/// What an [`AccessorFormat`] holds.
pub struct AccessorView {
    pub semantic: Seq<char>,
    pub component_type: ComponentType,
    pub components: u8,
    pub normalized: bool,
}

impl View for AccessorFormat {
    type V = AccessorView;

    open spec fn view(&self) -> AccessorView {
        AccessorView {
            semantic: self.semantic@,
            component_type: self.component_type,
            components: self.components,
            normalized: self.normalized,
        }
    }
}

/// The size of one value of `acc`, in bytes.
pub open spec fn value_size_of(acc: AccessorView) -> nat {
    (acc.components as nat) * component_bytes(acc.component_type)
}

/// One attribute of a decoded Draco mesh: its unique id (what the
/// extension's attribute map refers to), the stride of its values, its
/// value bytes, and for each point the index of that point's value.
#[derive(Clone, Debug)]
pub struct DracoAttribute {
    pub unique_id: u32,
    pub byte_stride: i64,
    pub data: Vec<u8>,
    pub value_indices: Vec<u32>,
}

/// What a [`DracoAttribute`] holds.
pub struct DracoAttributeView {
    pub unique_id: u32,
    pub byte_stride: i64,
    pub data: Seq<u8>,
    pub value_indices: Seq<u32>,
}

impl View for DracoAttribute {
    type V = DracoAttributeView;

    open spec fn view(&self) -> DracoAttributeView {
        DracoAttributeView {
            unique_id: self.unique_id,
            byte_stride: self.byte_stride,
            data: self.data@,
            value_indices: self.value_indices@,
        }
    }
}

/// A decoded Draco mesh: its point count, its attributes in attribute-id
/// order, and its triangles as point indices.
#[derive(Clone, Debug)]
pub struct DracoMesh {
    pub num_points: usize,
    pub attributes: Vec<DracoAttribute>,
    pub faces: Vec<[u32; 3]>,
}

/// What a [`DracoMesh`] holds.
pub struct DracoMeshView {
    pub num_points: usize,
    pub attributes: Seq<DracoAttributeView>,
    pub faces: Seq<[u32; 3]>,
}

impl View for DracoMesh {
    type V = DracoMeshView;

    open spec fn view(&self) -> DracoMeshView {
        DracoMeshView {
            num_points: self.num_points,
            attributes: self.attributes@.map_values(|a: DracoAttribute| a@),
            faces: self.faces@,
        }
    }
}

/// The mesh `draco_core` decodes from a Draco bitstream, if it decodes.
pub uninterp spec fn draco_decoded(bytes: Seq<u8>) -> Option<DracoMeshView>;

/// Decodes a Draco bitstream with `draco_core`'s `MeshDecoder` (`None` when
/// it fails), then copies out the point count, each attribute's unique id,
/// stride, value bytes and per-point value indices (`mapped_index`), and the
/// faces.
/// Trusted: the result is `draco_decoded(bytes@)`; every attribute has one
/// value index per point (one `mapped_index` per point id); the faces, held
/// in a `Vec`, take at most `isize::MAX` bytes, as every `Vec` does.
/// Not proved: that `decode` never panics. `MeshDecoder::decode` documents
/// malformed, truncated or unsupported bitstreams as errors (its
/// `# Errors`), and its changelog records a `decode_drc` fuzz target over
/// arbitrary bitstreams whose findings were fixed as refusals; the copying
/// here indexes attributes only below `num_attributes`, and `mapped_index`
/// answers an out-of-range point with the invalid index rather than
/// panicking.
#[verifier::external_body]
fn draco_decode(bytes: &[u8]) -> (r: Option<DracoMesh>)
    ensures
        match r {
            Some(m) => {
                &&& draco_decoded(bytes@) == Some(m@)
                &&& m.faces@.len() * 12 <= isize::MAX
                &&& forall|k: int| 0 <= k < m.attributes@.len() ==> #[trigger] m.attributes@[k].value_indices@.len() == m.num_points
            },
            None => draco_decoded(bytes@) is None,
        },
{
    let mut m = Mesh::new();
    MeshDecoder::new().decode(&mut DecoderBuffer::new(bytes), &mut m).ok()?;
    let n = m.num_points();
    Some(DracoMesh {
        num_points: n,
        attributes: (0..m.num_attributes()).map(|i| m.attribute(i)).map(|a| DracoAttribute {
            unique_id: a.unique_id(),
            byte_stride: a.byte_stride(),
            data: a.buffer().data().to_vec(),
            value_indices: (0..n).map(|p| a.mapped_index(PointIndex(p as u32)).0).collect(),
        }).collect(),
        faces: m.faces().iter().map(|f| f.map(|p| p.0)).collect(),
    })
}

/// The unique id the extension's attribute map gives `semantic` (its first
/// entry for it).
pub open spec fn unique_id_of(map: Seq<(Seq<char>, u32)>, semantic: Seq<char>) -> Option<u32> {
    if exists|i: int| 0 <= i < map.len() && map[i].0 == semantic && forall|j: int| 0 <= j < i ==> map[j].0 != semantic {
        let i = choose|i: int| 0 <= i < map.len() && map[i].0 == semantic && forall|j: int| 0 <= j < i ==> map[j].0 != semantic;
        Some(map[i].1)
    } else {
        None
    }
}

/// The index of the first decoded attribute with unique id `id`.
pub open spec fn attribute_index_of(atts: Seq<DracoAttributeView>, id: u32) -> Option<int> {
    if exists|i: int| 0 <= i < atts.len() && atts[i].unique_id == id && forall|j: int| 0 <= j < i ==> atts[j].unique_id != id {
        Some(choose|i: int| 0 <= i < atts.len() && atts[i].unique_id == id && forall|j: int| 0 <= j < i ==> atts[j].unique_id != id)
    } else {
        None
    }
}

/// The bytes `att` expands to, one value of `value_size` bytes per point,
/// or why it cannot. Its stride is taken as the `usize` its `i64` converts
/// to.
pub open spec fn expand_spec(att: DracoAttributeView, value_size: nat) -> Result<Seq<u8>, DracoExpandError> {
    let stride = att.byte_stride as usize;
    if value_size > stride {
        Err(DracoExpandError::NarrowerThanAccessor)
    } else if exists|p: int| 0 <= p < att.value_indices.len() && #[trigger] att.value_indices[p] * stride + value_size > att.data.len() {
        Err(DracoExpandError::ValueOutOfRange)
    } else {
        Ok(packed_spec(att.data, att.value_indices, stride as nat, value_size))
    }
}

/// One attribute buffer to upload: which accessor it comes from, where it
/// goes, the define it requires, and its per-point bytes.
#[derive(Clone, Debug)]
pub struct DracoUpload {
    pub accessor: usize,
    pub slot: u32,
    pub name: String,
    pub define: Option<String>,
    pub packed: Vec<u8>,
}

/// What a [`DracoUpload`] holds.
pub struct UploadView {
    pub accessor: usize,
    pub slot: u32,
    pub name: Seq<char>,
    pub define: Option<Seq<char>>,
    pub packed: Seq<u8>,
}

impl View for DracoUpload {
    type V = UploadView;

    open spec fn view(&self) -> UploadView {
        UploadView {
            accessor: self.accessor,
            slot: self.slot,
            name: self.name@,
            define: match &self.define {
                Some(d) => Some(d@),
                None => None,
            },
            packed: self.packed@,
        }
    }
}

/// The upload of accessor `k` (`acc`): none when its semantic has no slot,
/// the attribute map has no entry for it, or the mesh has no attribute of
/// that unique id; else its attribute expanded, or why it cannot be.
pub open spec fn attribute_upload(mesh: DracoMeshView, map: Seq<(Seq<char>, u32)>, acc: AccessorView, k: usize) -> Result<Option<UploadView>, DracoExpandError> {
    match slot_spec(acc.semantic) {
        None => Ok(None),
        Some((slot, name, define)) => match unique_id_of(map, acc.semantic) {
            None => Ok(None),
            Some(id) => match attribute_index_of(mesh.attributes, id) {
                None => Ok(None),
                Some(a) => match expand_spec(mesh.attributes[a], value_size_of(acc)) {
                    Err(e) => Err(e),
                    Ok(packed) => Ok(Some(UploadView { accessor: k, slot, name, define, packed })),
                },
            },
        },
    }
}

/// The uploads of the first `n` accessors, in order; the first attribute
/// that cannot be expanded fails them all.
pub open spec fn uploads_spec(mesh: DracoMeshView, map: Seq<(Seq<char>, u32)>, accs: Seq<AccessorView>, n: nat) -> Result<Seq<UploadView>, DracoExpandError>
    decreases n,
{
    if n == 0 {
        Ok(Seq::empty())
    } else {
        match uploads_spec(mesh, map, accs, (n - 1) as nat) {
            Err(e) => Err(e),
            Ok(us) => match attribute_upload(mesh, map, accs[n - 1], (n - 1) as usize) {
                Err(e) => Err(e),
                Ok(None) => Ok(us),
                Ok(Some(u)) => Ok(us.push(u)),
            },
        }
    }
}

/// The geometry of a decoded Draco primitive.
#[derive(Clone, Debug)]
pub struct DracoGeometry {
    /// The vertex count: the mesh's point count as a `u32`.
    pub vertex_count: u32,
    pub uploads: Vec<DracoUpload>,
    /// The triangle list as little-endian `u32` point indices.
    pub index_bytes: Vec<u8>,
    /// The number of indices, as a `u32`.
    pub index_count: u32,
}

/// Whether `g` is the geometry of `mesh` for the accessors `accs` and the
/// attribute map `map`, or `r` fails as the first unexpandable attribute does.
pub open spec fn geometry_of(r: Result<DracoGeometry, DracoExpandError>, mesh: DracoMeshView, map: Seq<(Seq<char>, u32)>, accs: Seq<AccessorView>) -> bool {
    match (r, uploads_spec(mesh, map, accs, accs.len())) {
        (Ok(g), Ok(us)) => {
            &&& g.uploads@.map_values(|u: DracoUpload| u@) == us
            &&& g.vertex_count == mesh.num_points as u32
            &&& g.index_bytes@.len() == mesh.faces.len() * 12
            &&& forall|i: int| 0 <= i < g.index_bytes@.len() ==> g.index_bytes@[i] == face_index_byte(mesh.faces, i as nat)
            &&& g.index_count == (mesh.faces.len() * 3) as u32
        },
        (Err(e), Err(f)) => e == f,
        _ => false,
    }
}

/// The first entry of the attribute map for `semantic`.
fn map_lookup(map: &[(String, u32)], semantic: &String) -> (r: Option<u32>)
    ensures
        r == unique_id_of(map@.map_values(|e: (String, u32)| (e.0@, e.1)), semantic@),
{
    let ghost m = map@.map_values(|e: (String, u32)| (e.0@, e.1));
    let mut i: usize = 0;
    while i < map.len()
        invariant
            i <= map@.len(),
            m == map@.map_values(|e: (String, u32)| (e.0@, e.1)),
            forall|j: int| 0 <= j < i ==> m[j].0 != semantic@,
        decreases map.len() - i,
    {
        assert(m[i as int] == (map@[i as int].0@, map@[i as int].1));
        if str_eq(map[i].0.as_str(), semantic.as_str()) {
            proof {
                let w = choose|w: int| 0 <= w < m.len() && m[w].0 == semantic@ && forall|j: int| 0 <= j < w ==> m[j].0 != semantic@;
                assert(w == i) by {
                    if w < i { assert(m[w].0 != semantic@); }
                    if w > i { assert(m[i as int].0 != semantic@); }
                }
            }
            return Some(map[i].1);
        }
        i = i + 1;
    }
    None
}

/// The index of the first attribute of `mesh` with unique id `id`.
fn attribute_lookup(mesh: &DracoMesh, id: u32) -> (r: Option<usize>)
    ensures
        match r {
            Some(a) => attribute_index_of(mesh@.attributes, id) == Some(a as int) && a < mesh.attributes@.len(),
            None => attribute_index_of(mesh@.attributes, id) is None,
        },
{
    let ghost atts = mesh@.attributes;
    let mut i: usize = 0;
    while i < mesh.attributes.len()
        invariant
            i <= mesh.attributes@.len(),
            atts == mesh@.attributes,
            atts.len() == mesh.attributes@.len(),
            forall|j: int| 0 <= j < i ==> atts[j].unique_id != id,
        decreases mesh.attributes.len() - i,
    {
        assert(atts[i as int] == mesh.attributes@[i as int]@);
        if mesh.attributes[i].unique_id == id {
            proof {
                let w = choose|w: int| 0 <= w < atts.len() && atts[w].unique_id == id && forall|j: int| 0 <= j < w ==> atts[j].unique_id != id;
                assert(w == i) by {
                    if w < i { assert(atts[w].unique_id != id); }
                    if w > i { assert(atts[i as int].unique_id != id); }
                }
            }
            return Some(i);
        }
        i = i + 1;
    }
    None
}

proof fn lemma_uploads_error_stays(mesh: DracoMeshView, map: Seq<(Seq<char>, u32)>, accs: Seq<AccessorView>, k: nat, n: nat)
    requires
        k <= n,
        uploads_spec(mesh, map, accs, k) is Err,
    ensures
        uploads_spec(mesh, map, accs, n) == uploads_spec(mesh, map, accs, k),
    decreases n - k,
{
    if k < n {
        lemma_uploads_error_stays(mesh, map, accs, k, (n - 1) as nat);
    }
}

/// The upload of accessor `k`, as [`attribute_upload`] has it.
fn upload_of(mesh: &DracoMesh, attribute_map: &[(String, u32)], acc: &AccessorFormat, k: usize) -> (r: Result<Option<DracoUpload>, DracoExpandError>)
    requires
        slot_in_range(acc.semantic@),
    ensures
        match (r, attribute_upload(mesh@, attribute_map@.map_values(|e: (String, u32)| (e.0@, e.1)), acc@, k)) {
            (Ok(Some(u)), Ok(Some(v))) => u@ == v,
            (Ok(None), Ok(None)) => true,
            (Err(e), Err(f)) => e == f,
            _ => false,
        },
{
    let (slot, name, define) = match slot_of(acc.semantic.as_str()) {
        Some(s) => s,
        None => return Ok(None),
    };
    let id = match map_lookup(attribute_map, &acc.semantic) {
        Some(id) => id,
        None => return Ok(None),
    };
    let a = match attribute_lookup(mesh, id) {
        Some(a) => a,
        None => return Ok(None),
    };
    let att = &mesh.attributes[a];
    assert(mesh@.attributes[a as int] == att@);
    let n = acc.components as usize;
    let bytes = component_size(acc.component_type);
    assert(n * bytes <= 1020) by (nonlinear_arith)
        requires
            n <= 255,
            bytes <= 4,
    ;
    let value_size = n * bytes;
    match pack_point_values(att.data.as_slice(), att.value_indices.as_slice(), att.byte_stride as usize, value_size) {
        Err(e) => Err(e),
        Ok(packed) => Ok(Some(DracoUpload { accessor: k, slot, name, define, packed })),
    }
}

/// The geometry of a decoded Draco primitive, attribute by attribute in the
/// order of the primitive's glTF attributes: each semantic the loader has a
/// slot for, found through the extension's attribute map in the mesh, is
/// expanded to one value per point in the accessor's format; the faces give
/// the index buffer. Semantics without a slot, a map entry or a decoded
/// attribute are passed over; the first attribute that cannot be expanded
/// fails the whole primitive.
pub fn draco_geometry(mesh: &DracoMesh, attribute_map: &[(String, u32)], accessors: &[AccessorFormat]) -> (r: Result<DracoGeometry, DracoExpandError>)
    requires
        forall|k: int| 0 <= k < accessors@.len() ==> slot_in_range(#[trigger] accessors@[k].semantic@),
        mesh.faces@.len() * 12 <= usize::MAX,
    ensures
        geometry_of(r, mesh@, attribute_map@.map_values(|e: (String, u32)| (e.0@, e.1)), accessors@.map_values(|a: AccessorFormat| a@)),
{
    let ghost m = attribute_map@.map_values(|e: (String, u32)| (e.0@, e.1));
    let ghost accs = accessors@.map_values(|a: AccessorFormat| a@);
    let mut uploads: Vec<DracoUpload> = Vec::new();
    assert(uploads@.map_values(|u: DracoUpload| u@) =~= Seq::<UploadView>::empty());
    let mut k: usize = 0;
    while k < accessors.len()
        invariant
            k <= accessors@.len(),
            m == attribute_map@.map_values(|e: (String, u32)| (e.0@, e.1)),
            accs == accessors@.map_values(|a: AccessorFormat| a@),
            accs.len() == accessors@.len(),
            forall|q: int| 0 <= q < accessors@.len() ==> slot_in_range(#[trigger] accessors@[q].semantic@),
            uploads_spec(mesh@, m, accs, k as nat) == Ok::<Seq<UploadView>, DracoExpandError>(uploads@.map_values(|u: DracoUpload| u@)),
        decreases accessors.len() - k,
    {
        let acc = &accessors[k];
        assert(accs[k as int] == acc@);
        let ghost before = uploads@.map_values(|u: DracoUpload| u@);
        match upload_of(mesh, attribute_map, acc, k) {
            Err(e) => {
                proof {
                    lemma_uploads_error_stays(mesh@, m, accs, (k + 1) as nat, accs.len());
                }
                return Err(e);
            },
            Ok(None) => {},
            Ok(Some(u)) => {
                uploads.push(u);
                assert(uploads@.map_values(|u: DracoUpload| u@) =~= before.push(uploads@[uploads@.len() - 1]@));
            },
        }
        k = k + 1;
    }
    let index_bytes = face_index_bytes(mesh.faces.as_slice());
    Ok(DracoGeometry {
        vertex_count: mesh.num_points as u32,
        uploads,
        index_bytes,
        index_count: (mesh.faces.len() * 3) as u32,
    })
}

/// Why a Draco-compressed primitive yields no geometry.
#[derive(Clone, Debug, PartialEq, Eq)]
pub enum DracoLoadError {
    /// The bitstream does not decode.
    Decode,
    /// The primitive's extension object has no attribute map.
    MissingAttributeMap,
    /// A decoded attribute cannot be expanded.
    Expand(DracoExpandError),
}

impl DracoLoadError {
    /// The error's message.
    pub fn message(&self) -> (r: String)
        ensures
            r@ == match self {
                DracoLoadError::Decode => "Failed to decode Draco geometry"@,
                DracoLoadError::MissingAttributeMap => "Draco primitive is missing its attribute map"@,
                DracoLoadError::Expand(DracoExpandError::NarrowerThanAccessor) => "Draco attribute is narrower than its glTF accessor"@,
                DracoLoadError::Expand(DracoExpandError::ValueOutOfRange) => "Decoded Draco attribute value out of range"@,
            },
    {
        match self {
            DracoLoadError::Decode => string_from("Failed to decode Draco geometry"),
            DracoLoadError::MissingAttributeMap => string_from("Draco primitive is missing its attribute map"),
            DracoLoadError::Expand(DracoExpandError::NarrowerThanAccessor) => string_from("Draco attribute is narrower than its glTF accessor"),
            DracoLoadError::Expand(DracoExpandError::ValueOutOfRange) => string_from("Decoded Draco attribute value out of range"),
        }
    }
}

/// Decodes a Draco-compressed primitive: the bitstream `bytes` (its
/// extension's buffer view), the extension's attribute map (semantic to
/// Draco unique id, `None` when the extension object has none) and the
/// primitive's glTF attributes. The decoded mesh becomes geometry as
/// [`draco_geometry`] describes.
pub fn decode_primitive_geometry(
    bytes: &[u8],
    attribute_map: Option<&[(String, u32)]>,
    accessors: &[AccessorFormat],
) -> (r: Result<DracoGeometry, DracoLoadError>)
    requires
        forall|k: int| 0 <= k < accessors@.len() ==> slot_in_range(#[trigger] accessors@[k].semantic@),
    ensures
        match draco_decoded(bytes@) {
            None => r == Err::<DracoGeometry, DracoLoadError>(DracoLoadError::Decode),
            Some(mesh) => match attribute_map {
                None => r == Err::<DracoGeometry, DracoLoadError>(DracoLoadError::MissingAttributeMap),
                Some(map) => {
                    let g = match r {
                        Ok(g) => Ok(g),
                        Err(DracoLoadError::Expand(e)) => Err(e),
                        Err(_) => Err(DracoExpandError::ValueOutOfRange),
                    };
                    &&& r != Err::<DracoGeometry, DracoLoadError>(DracoLoadError::Decode)
                    &&& r != Err::<DracoGeometry, DracoLoadError>(DracoLoadError::MissingAttributeMap)
                    &&& geometry_of(g, mesh, map@.map_values(|e: (String, u32)| (e.0@, e.1)), accessors@.map_values(|a: AccessorFormat| a@))
                },
            },
        },
{
    let mesh = match draco_decode(bytes) {
        Some(m) => m,
        None => return Err(DracoLoadError::Decode),
    };
    let map = match attribute_map {
        Some(map) => map,
        None => return Err(DracoLoadError::MissingAttributeMap),
    };
    match draco_geometry(&mesh, map, accessors) {
        Ok(g) => Ok(g),
        Err(e) => Err(DracoLoadError::Expand(e)),
    }
}

/// Expansion gives each point its own value: the packed bytes hold
/// `value_size` bytes per point, and those of point `p` are the bytes of the
/// value `value_indices[p]` names, so a per-point index addresses them
/// directly.
pub proof fn lemma_packed_point_values(data: Seq<u8>, value_indices: Seq<u32>, stride: nat, value_size: nat, p: int, b: int)
    requires
        forall|q: int| 0 <= q < value_indices.len() ==> #[trigger] value_indices[q] * stride + value_size <= data.len(),
        0 <= p < value_indices.len(),
        0 <= b < value_size,
    ensures
        packed_spec(data, value_indices, stride, value_size).len() == value_indices.len() * value_size,
        packed_spec(data, value_indices, stride, value_size)[p * value_size + b] == data[value_indices[p] * stride + b],
    decreases value_indices.len(),
{
    let front = value_indices.drop_last();
    let n = value_indices.len();
    lemma_packed_len(data, value_indices, stride, value_size);
    lemma_packed_len(data, front, stride, value_size);
    vstd::arithmetic::mul::lemma_mul_is_distributive_add_other_way(value_size as int, (n - 1) as int, 1);
    if p < n - 1 {
        assert(front[p] == value_indices[p]);
        lemma_packed_point_values(data, front, stride, value_size, p, b);
        vstd::arithmetic::mul::lemma_mul_inequality(p + 1, (n - 1) as int, value_size as int);
        vstd::arithmetic::mul::lemma_mul_is_distributive_add_other_way(value_size as int, p, 1);
    } else {
        assert(value_indices.last() == value_indices[p]);
    }
}

proof fn lemma_packed_len(data: Seq<u8>, value_indices: Seq<u32>, stride: nat, value_size: nat)
    requires
        forall|q: int| 0 <= q < value_indices.len() ==> #[trigger] value_indices[q] * stride + value_size <= data.len(),
    ensures
        packed_spec(data, value_indices, stride, value_size).len() == value_indices.len() * value_size,
    decreases value_indices.len(),
{
    if value_indices.len() > 0 {
        let front = value_indices.drop_last();
        assert forall|q: int| 0 <= q < front.len() implies #[trigger] front[q] * stride + value_size <= data.len() by {
            assert(front[q] == value_indices[q]);
        }
        lemma_packed_len(data, front, stride, value_size);
        assert(value_indices.last() == value_indices[value_indices.len() - 1]);
        vstd::arithmetic::mul::lemma_mul_is_distributive_add_other_way(value_size as int, front.len() as int, 1);
    }
}

} // verus!
