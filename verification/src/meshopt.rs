//! `EXT_meshopt_compression` / `KHR_meshopt_compression` buffer-view
//! extension objects: parsing and validation against the extension's rules
//! for strides, counts and filters, and the range checks that must pass
//! before a view is handed to the decoder.

use vstd::prelude::*;
use crate::text::{decimal, push_num, push_str};

verus! {

/// How a compressed buffer view was encoded.
#[derive(Clone, Copy, PartialEq, Eq, Structural, Debug)]
pub enum MeshoptMode {
    /// Vertex attributes, animation data or any other fixed-stride elements.
    Attributes,
    /// A triangle list index buffer.
    Triangles,
    /// Any other index sequence.
    Indices,
}

/// The post-decode transform applied to attribute data.
#[derive(Clone, Copy, PartialEq, Eq, Structural, Debug)]
pub enum MeshoptFilter {
    /// Data is stored as is.
    Identity,
    /// Octahedral-encoded unit vectors.
    Octahedral,
    /// Unit quaternions.
    Quaternion,
    /// Floats with a shared exponent.
    Exponential,
    /// YCoCg-encoded colours (`KHR_meshopt_compression` only).
    Color,
}

/// The name the decoder and the extension use for a mode.
pub open spec fn mode_name(m: MeshoptMode) -> Seq<char> {
    match m {
        MeshoptMode::Attributes => "ATTRIBUTES"@,
        MeshoptMode::Triangles => "TRIANGLES"@,
        MeshoptMode::Indices => "INDICES"@,
    }
}

/// The name the decoder and the extension use for a filter.
pub open spec fn filter_name(f: MeshoptFilter) -> Seq<char> {
    match f {
        MeshoptFilter::Identity => "NONE"@,
        MeshoptFilter::Octahedral => "OCTAHEDRAL"@,
        MeshoptFilter::Quaternion => "QUATERNION"@,
        MeshoptFilter::Exponential => "EXPONENTIAL"@,
        MeshoptFilter::Color => "COLOR"@,
    }
}

impl MeshoptMode {
    /// The name the decoder and the extension use.
    pub fn as_str(self) -> (r: &'static str)
        ensures
            r@ == mode_name(self),
    {
        match self {
            MeshoptMode::Attributes => "ATTRIBUTES",
            MeshoptMode::Triangles => "TRIANGLES",
            MeshoptMode::Indices => "INDICES",
        }
    }
}

impl MeshoptFilter {
    /// The name the decoder and the extension use.
    pub fn as_str(self) -> (r: &'static str)
        ensures
            r@ == filter_name(self),
    {
        match self {
            MeshoptFilter::Identity => "NONE",
            MeshoptFilter::Octahedral => "OCTAHEDRAL",
            MeshoptFilter::Quaternion => "QUATERNION",
            MeshoptFilter::Exponential => "EXPONENTIAL",
            MeshoptFilter::Color => "COLOR",
        }
    }
}

/// One member of a JSON object that should hold a non-negative integer.
#[derive(Clone, Copy, PartialEq, Eq, Structural, Debug)]
pub enum JsonNumber {
    /// The member is absent.
    Missing,
    /// The member is present but is not an integer in `0..=u64::MAX`.
    Invalid,
    /// The member's value.
    Value(u64),
}

/// The members of a meshopt extension object the parser reads. `mode` and
/// `filter` are `None` when absent or not a JSON string.
#[derive(Clone, PartialEq, Eq, Debug)]
pub struct MeshoptExtension {
    /// `buffer`.
    pub buffer: JsonNumber,
    /// `byteOffset` (optional, default 0).
    pub byte_offset: JsonNumber,
    /// `byteLength`.
    pub byte_length: JsonNumber,
    /// `byteStride`.
    pub byte_stride: JsonNumber,
    /// `count`.
    pub count: JsonNumber,
    /// `mode`, when a string.
    pub mode: Option<String>,
    /// `filter`, when a string.
    pub filter: Option<String>,
}

/// One buffer view's meshopt extension object: where its compressed bytes
/// live and what they decode into.
#[derive(Clone, Copy, PartialEq, Eq, Structural, Debug)]
pub struct MeshoptView {
    /// Buffer holding the compressed bytes.
    pub buffer: usize,
    /// Offset of the compressed bytes in `buffer`.
    pub byte_offset: usize,
    /// Length of the compressed bytes.
    pub byte_length: usize,
    /// Size of one decoded element.
    pub byte_stride: usize,
    /// Number of decoded elements.
    pub count: usize,
    /// Encoding.
    pub mode: MeshoptMode,
    /// Post-decode transform.
    pub filter: MeshoptFilter,
}

/// The characters of an optional string.
pub open spec fn opt_chars(s: Option<String>) -> Option<Seq<char>> {
    match s {
        Some(t) => Some(t@),
        None => None,
    }
}

/// A required numeric member read as a `usize`, or the parser's message.
pub open spec fn field_spec(n: JsonNumber, name: Seq<char>) -> Result<usize, Seq<char>> {
    match n {
        JsonNumber::Missing => Err("missing `"@ + name + "`"@),
        JsonNumber::Invalid => Err("`"@ + name + "` is not a non-negative integer"@),
        JsonNumber::Value(v) => if v <= usize::MAX {
            Ok(v as usize)
        } else {
            Err("`"@ + name + "` is not a non-negative integer"@)
        },
    }
}

/// The mode a `mode` member names.
pub open spec fn mode_spec(m: Option<Seq<char>>) -> Result<MeshoptMode, Seq<char>> {
    match m {
        None => Err("missing `mode`"@),
        Some(t) => if t == "ATTRIBUTES"@ {
            Ok(MeshoptMode::Attributes)
        } else if t == "TRIANGLES"@ {
            Ok(MeshoptMode::Triangles)
        } else if t == "INDICES"@ {
            Ok(MeshoptMode::Indices)
        } else {
            Err("unknown mode `"@ + t + "`"@)
        },
    }
}

/// The filter a `filter` member names; absent means none.
pub open spec fn filter_spec(f: Option<Seq<char>>) -> Result<MeshoptFilter, Seq<char>> {
    match f {
        None => Ok(MeshoptFilter::Identity),
        Some(t) => if t == "NONE"@ {
            Ok(MeshoptFilter::Identity)
        } else if t == "OCTAHEDRAL"@ {
            Ok(MeshoptFilter::Octahedral)
        } else if t == "QUATERNION"@ {
            Ok(MeshoptFilter::Quaternion)
        } else if t == "EXPONENTIAL"@ {
            Ok(MeshoptFilter::Exponential)
        } else if t == "COLOR"@ {
            Ok(MeshoptFilter::Color)
        } else {
            Err("unknown filter `"@ + t + "`"@)
        },
    }
}

/// Whether `filter` accepts elements of `stride` bytes.
pub open spec fn filter_fits(filter: MeshoptFilter, stride: usize) -> bool {
    match filter {
        MeshoptFilter::Identity | MeshoptFilter::Exponential => true,
        MeshoptFilter::Octahedral | MeshoptFilter::Color => stride == 4 || stride == 8,
        MeshoptFilter::Quaternion => stride == 8,
    }
}

/// The extension's structural rules on a fully read object, or the message
/// of the first rule it breaks.
pub open spec fn rules_spec(v: MeshoptView) -> Result<MeshoptView, Seq<char>> {
    let stride = v.byte_stride;
    if v.mode == MeshoptMode::Attributes && (stride == 0 || stride % 4 != 0 || stride > 256) {
        Err("ATTRIBUTES byteStride "@ + decimal(stride as nat) + " must be a multiple of 4 up to 256"@)
    } else if v.mode != MeshoptMode::Attributes && stride != 2 && stride != 4 {
        Err(mode_name(v.mode) + " byteStride "@ + decimal(stride as nat) + " must be 2 or 4"@)
    } else if v.mode != MeshoptMode::Attributes && v.filter != MeshoptFilter::Identity {
        Err(mode_name(v.mode) + " data cannot use a filter"@)
    } else if v.mode == MeshoptMode::Triangles && v.count % 3 != 0 {
        Err("TRIANGLES count "@ + decimal(v.count as nat) + " is not a multiple of 3"@)
    } else if !filter_fits(v.filter, stride) {
        Err("filter "@ + filter_name(v.filter) + " does not support byteStride "@ + decimal(stride as nat))
    } else {
        Ok(v)
    }
}

/// What [`MeshoptView::parse`] makes of an extension object: the `mode`,
/// then the `filter`, then the numeric members in declaration order are
/// read, then the rules are checked; the first failure is reported.
pub open spec fn parse_spec(e: MeshoptExtension) -> Result<MeshoptView, Seq<char>> {
    match mode_spec(opt_chars(e.mode)) {
        Err(m) => Err(m),
        Ok(mode) => match filter_spec(opt_chars(e.filter)) {
            Err(m) => Err(m),
            Ok(filter) => match field_spec(e.buffer, "buffer"@) {
                Err(m) => Err(m),
                Ok(buffer) => match (if e.byte_offset == JsonNumber::Missing { Ok(0usize) } else { field_spec(e.byte_offset, "byteOffset"@) }) {
                    Err(m) => Err(m),
                    Ok(byte_offset) => match field_spec(e.byte_length, "byteLength"@) {
                        Err(m) => Err(m),
                        Ok(byte_length) => match field_spec(e.byte_stride, "byteStride"@) {
                            Err(m) => Err(m),
                            Ok(byte_stride) => match field_spec(e.count, "count"@) {
                                Err(m) => Err(m),
                                Ok(count) => rules_spec(MeshoptView { buffer, byte_offset, byte_length, byte_stride, count, mode, filter }),
                            },
                        },
                    },
                },
            },
        },
    }
}

fn field(n: JsonNumber, name: &str) -> (r: Result<usize, String>)
    ensures
        match r {
            Ok(v) => field_spec(n, name@) == Ok::<usize, Seq<char>>(v),
            Err(m) => field_spec(n, name@) == Err::<usize, Seq<char>>(m@),
        },
{
    match n {
        JsonNumber::Missing => {
            let mut s = String::new();
            push_str(&mut s, "missing `");
            push_str(&mut s, name);
            push_str(&mut s, "`");
            Err(s)
        },
        JsonNumber::Value(v) if v <= usize::MAX as u64 => Ok(v as usize),
        _ => {
            let mut s = String::new();
            push_str(&mut s, "`");
            push_str(&mut s, name);
            push_str(&mut s, "` is not a non-negative integer");
            Err(s)
        },
    }
}

fn mode_of(m: &Option<String>) -> (r: Result<MeshoptMode, String>)
    ensures
        match r {
            Ok(v) => mode_spec(opt_chars(*m)) == Ok::<MeshoptMode, Seq<char>>(v),
            Err(e) => mode_spec(opt_chars(*m)) == Err::<MeshoptMode, Seq<char>>(e@),
        },
{
    match m {
        None => Err(String::from_str("missing `mode`")),
        Some(t) => {
            if *t == String::from_str("ATTRIBUTES") {
                Ok(MeshoptMode::Attributes)
            } else if *t == String::from_str("TRIANGLES") {
                Ok(MeshoptMode::Triangles)
            } else if *t == String::from_str("INDICES") {
                Ok(MeshoptMode::Indices)
            } else {
                let mut s = String::new();
                push_str(&mut s, "unknown mode `");
                push_str(&mut s, t.as_str());
                push_str(&mut s, "`");
                Err(s)
            }
        },
    }
}

fn filter_of(f: &Option<String>) -> (r: Result<MeshoptFilter, String>)
    ensures
        match r {
            Ok(v) => filter_spec(opt_chars(*f)) == Ok::<MeshoptFilter, Seq<char>>(v),
            Err(e) => filter_spec(opt_chars(*f)) == Err::<MeshoptFilter, Seq<char>>(e@),
        },
{
    match f {
        None => Ok(MeshoptFilter::Identity),
        Some(t) => {
            if *t == String::from_str("NONE") {
                Ok(MeshoptFilter::Identity)
            } else if *t == String::from_str("OCTAHEDRAL") {
                Ok(MeshoptFilter::Octahedral)
            } else if *t == String::from_str("QUATERNION") {
                Ok(MeshoptFilter::Quaternion)
            } else if *t == String::from_str("EXPONENTIAL") {
                Ok(MeshoptFilter::Exponential)
            } else if *t == String::from_str("COLOR") {
                Ok(MeshoptFilter::Color)
            } else {
                let mut s = String::new();
                push_str(&mut s, "unknown filter `");
                push_str(&mut s, t.as_str());
                push_str(&mut s, "`");
                Err(s)
            }
        },
    }
}

fn rules(v: MeshoptView) -> (r: Result<MeshoptView, String>)
    ensures
        match r {
            Ok(w) => rules_spec(v) == Ok::<MeshoptView, Seq<char>>(w),
            Err(e) => rules_spec(v) == Err::<MeshoptView, Seq<char>>(e@),
        },
{
    let stride = v.byte_stride;
    match v.mode {
        MeshoptMode::Attributes => {
            if stride == 0 || stride % 4 != 0 || stride > 256 {
                let mut s = String::new();
                push_str(&mut s, "ATTRIBUTES byteStride ");
                push_num(&mut s, stride as u64);
                push_str(&mut s, " must be a multiple of 4 up to 256");
                return Err(s);
            }
        },
        MeshoptMode::Triangles | MeshoptMode::Indices => {
            if stride != 2 && stride != 4 {
                let mut s = String::new();
                push_str(&mut s, v.mode.as_str());
                push_str(&mut s, " byteStride ");
                push_num(&mut s, stride as u64);
                push_str(&mut s, " must be 2 or 4");
                return Err(s);
            }
            if v.filter != MeshoptFilter::Identity {
                let mut s = String::new();
                push_str(&mut s, v.mode.as_str());
                push_str(&mut s, " data cannot use a filter");
                return Err(s);
            }
        },
    }
    if v.mode == MeshoptMode::Triangles && v.count % 3 != 0 {
        let mut s = String::new();
        push_str(&mut s, "TRIANGLES count ");
        push_num(&mut s, v.count as u64);
        push_str(&mut s, " is not a multiple of 3");
        return Err(s);
    }
    let fits = match v.filter {
        MeshoptFilter::Identity | MeshoptFilter::Exponential => true,
        MeshoptFilter::Octahedral | MeshoptFilter::Color => stride == 4 || stride == 8,
        MeshoptFilter::Quaternion => stride == 8,
    };
    if !fits {
        let mut s = String::new();
        push_str(&mut s, "filter ");
        push_str(&mut s, v.filter.as_str());
        push_str(&mut s, " does not support byteStride ");
        push_num(&mut s, stride as u64);
        return Err(s);
    }
    Ok(v)
}

impl MeshoptView {
    /// Parses and validates an extension object against the extension's
    /// rules for strides, counts and filters.
    pub fn parse(value: &MeshoptExtension) -> (r: Result<MeshoptView, String>)
        ensures
            match r {
                Ok(v) => parse_spec(*value) == Ok::<MeshoptView, Seq<char>>(v),
                Err(m) => parse_spec(*value) == Err::<MeshoptView, Seq<char>>(m@),
            },
    {
        let mode = mode_of(&value.mode)?;
        let filter = filter_of(&value.filter)?;
        let buffer = field(value.buffer, "buffer")?;
        let byte_offset = if value.byte_offset == JsonNumber::Missing { 0 } else { field(value.byte_offset, "byteOffset")? };
        let byte_length = field(value.byte_length, "byteLength")?;
        let byte_stride = field(value.byte_stride, "byteStride")?;
        let count = field(value.count, "count")?;
        rules(MeshoptView { buffer, byte_offset, byte_length, byte_stride, count, mode, filter })
    }

    /// Size of the decoded data in bytes, `None` if it overflows `usize`.
    pub fn decoded_length(&self) -> (r: Option<usize>)
        ensures
            r == (if self.count * self.byte_stride <= usize::MAX {
                Some((self.count * self.byte_stride) as usize)
            } else {
                None::<usize>
            }),
    {
        self.count.checked_mul(self.byte_stride)
    }
}


/// What [`MeshoptView::ranges_check`] reports for `v` against the loaded
/// buffers' lengths and the target view's buffer range.
pub open spec fn ranges_spec(
    v: MeshoptView,
    buffer_lengths: Seq<usize>,
    view_buffer: usize,
    view_offset: usize,
    view_length: usize,
) -> Result<(), Seq<char>> {
    if v.buffer >= buffer_lengths.len() {
        Err("compressed data names buffer "@ + decimal(v.buffer as nat) + ", which does not exist"@)
    } else if v.byte_offset + v.byte_length > buffer_lengths[v.buffer as int] {
        Err("compressed range "@ + decimal(v.byte_offset as nat) + "+"@ + decimal(v.byte_length as nat)
            + " exceeds buffer "@ + decimal(v.buffer as nat) + " ( "@
            + decimal(buffer_lengths[v.buffer as int] as nat) + " bytes )"@)
    } else if view_buffer >= buffer_lengths.len() {
        Err("view names buffer "@ + decimal(view_buffer as nat) + ", which does not exist"@)
    } else if view_offset + view_length > buffer_lengths[view_buffer as int] {
        Err("view range "@ + decimal(view_offset as nat) + "+"@ + decimal(view_length as nat)
            + " exceeds buffer "@ + decimal(view_buffer as nat) + " ( "@
            + decimal(buffer_lengths[view_buffer as int] as nat) + " bytes )"@)
    } else if v.count * v.byte_stride > view_length {
        Err(decimal(v.count as nat) + " x "@ + decimal(v.byte_stride as nat)
            + " decoded bytes do not fit the view's "@ + decimal(view_length as nat))
    } else {
        Ok(())
    }
}

fn range_message(head: &str, a: usize, b: usize, buffer: usize, length: usize) -> (r: String)
    ensures
        r@ == head@ + decimal(a as nat) + "+"@ + decimal(b as nat) + " exceeds buffer "@
            + decimal(buffer as nat) + " ( "@ + decimal(length as nat) + " bytes )"@,
{
    let mut s = String::new();
    push_str(&mut s, head);
    push_num(&mut s, a as u64);
    push_str(&mut s, "+");
    push_num(&mut s, b as u64);
    push_str(&mut s, " exceeds buffer ");
    push_num(&mut s, buffer as u64);
    push_str(&mut s, " ( ");
    push_num(&mut s, length as u64);
    push_str(&mut s, " bytes )");
    s
}

fn missing_buffer_message(head: &str, buffer: usize) -> (r: String)
    ensures
        r@ == head@ + decimal(buffer as nat) + ", which does not exist"@,
{
    let mut s = String::new();
    push_str(&mut s, head);
    push_num(&mut s, buffer as u64);
    push_str(&mut s, ", which does not exist");
    s
}

impl MeshoptView {
    /// Checks that the compressed bytes lie inside their buffer and that the
    /// decoded data fits the view they decode into. `buffer_lengths` holds
    /// every loaded buffer's length, by index.
    pub fn ranges_check(
        &self,
        buffer_lengths: &[usize],
        view_buffer: usize,
        view_offset: usize,
        view_length: usize,
    ) -> (r: Result<(), String>)
        ensures
            match r {
                Ok(u) => ranges_spec(*self, buffer_lengths@, view_buffer, view_offset, view_length) == Ok::<(), Seq<char>>(u),
                Err(m) => ranges_spec(*self, buffer_lengths@, view_buffer, view_offset, view_length) == Err::<(), Seq<char>>(m@),
            },
    {
        if self.buffer >= buffer_lengths.len() {
            return Err(missing_buffer_message("compressed data names buffer ", self.buffer));
        }
        let source_length = buffer_lengths[self.buffer];
        let source_fits = match self.byte_offset.checked_add(self.byte_length) {
            Some(end) => end <= source_length,
            None => false,
        };
        if !source_fits {
            return Err(range_message("compressed range ", self.byte_offset, self.byte_length, self.buffer, source_length));
        }
        if view_buffer >= buffer_lengths.len() {
            return Err(missing_buffer_message("view names buffer ", view_buffer));
        }
        let target_length = buffer_lengths[view_buffer];
        let target_fits = match view_offset.checked_add(view_length) {
            Some(end) => end <= target_length,
            None => false,
        };
        if !target_fits {
            return Err(range_message("view range ", view_offset, view_length, view_buffer, target_length));
        }
        match self.decoded_length() {
            Some(decoded) => if decoded <= view_length {
                return Ok(());
            },
            None => {},
        }
        let mut s = String::new();
        push_num(&mut s, self.count as u64);
        push_str(&mut s, " x ");
        push_num(&mut s, self.byte_stride as u64);
        push_str(&mut s, " decoded bytes do not fit the view's ");
        push_num(&mut s, view_length as u64);
        Err(s)
    }
}

/// `v` as a `u32`, saturated at `u32::MAX`.
pub open spec fn saturated_u32(v: int) -> u32 {
    if v <= u32::MAX { v as u32 } else { u32::MAX }
}

fn saturate_u32(v: usize) -> (r: u32)
    ensures
        r == saturated_u32(v as int),
{
    if v <= 0xffff_ffffusize { v as u32 } else { u32::MAX }
}

/// The byte ranges one view's decode reads and writes, as the `u32`
/// offsets the decoder takes.
#[derive(Clone, Copy, PartialEq, Eq, Structural, Debug)]
pub struct DecodeRanges {
    /// Buffer holding the compressed bytes, and their range in it.
    pub source_buffer: usize,
    pub source_start: u32,
    pub source_end: u32,
    /// Buffer the view decodes into, and the range it fills.
    pub target_buffer: usize,
    pub target_start: u32,
    pub target_end: u32,
}

impl MeshoptView {
    /// What decoding this view into the view at `view_offset` of buffer
    /// `view_buffer` (`view_length` bytes long) reads and writes, once
    /// [`Self::ranges_check`] has passed: the compressed range of its own
    /// buffer, and `count * byte_stride` bytes from the start of the view.
    /// Fails with the message of `ranges_check` otherwise.
    pub fn decode_ranges(
        &self,
        buffer_lengths: &[usize],
        view_buffer: usize,
        view_offset: usize,
        view_length: usize,
    ) -> (r: Result<DecodeRanges, String>)
        ensures
            match r {
                Ok(d) => {
                    &&& ranges_spec(*self, buffer_lengths@, view_buffer, view_offset, view_length) is Ok
                    &&& d == (DecodeRanges {
                        source_buffer: self.buffer,
                        source_start: saturated_u32(self.byte_offset as int),
                        source_end: saturated_u32(self.byte_offset + self.byte_length),
                        target_buffer: view_buffer,
                        target_start: saturated_u32(view_offset as int),
                        target_end: saturated_u32(view_offset + self.count * self.byte_stride),
                    })
                },
                Err(m) => ranges_spec(*self, buffer_lengths@, view_buffer, view_offset, view_length) == Err::<(), Seq<char>>(m@),
            },
    {
        match self.ranges_check(buffer_lengths, view_buffer, view_offset, view_length) {
            Err(m) => Err(m),
            Ok(()) => {
                assert(self.count * self.byte_stride <= view_length);
                assert(view_offset + view_length <= buffer_lengths@[view_buffer as int]);
                Ok(DecodeRanges {
                    source_buffer: self.buffer,
                    source_start: saturate_u32(self.byte_offset),
                    source_end: saturate_u32(self.byte_offset + self.byte_length),
                    target_buffer: view_buffer,
                    target_start: saturate_u32(view_offset),
                    target_end: saturate_u32(view_offset + self.count * self.byte_stride),
                })
            },
        }
    }
}

/// Whether a buffer is a meshopt fallback: one of its meshopt extension
/// objects (`fallback` member of each, `None` when absent or not a boolean)
/// sets `fallback` to `true`. Such a buffer holds no data of its own and only
/// receives decoded views.
pub fn buffer_is_fallback(fallback_members: &[Option<bool>]) -> (r: bool)
    ensures
        r == (exists|i: int| 0 <= i < fallback_members@.len() && fallback_members@[i] == Some(true)),
{
    let mut i: usize = 0;
    while i < fallback_members.len()
        invariant
            i <= fallback_members@.len(),
            forall|j: int| 0 <= j < i ==> fallback_members@[j] != Some(true),
        decreases fallback_members.len() - i,
    {
        if fallback_members[i] == Some(true) {
            return true;
        }
        i = i + 1;
    }
    false
}

/// Every view [`MeshoptView::parse`] accepts obeys the extension's rules:
/// `ATTRIBUTES` strides are positive multiples of 4 up to 256; `TRIANGLES`
/// and `INDICES` strides are 2 or 4, without a filter; a `TRIANGLES` count
/// is a whole number of triangles; and the filter accepts the stride.
pub proof fn lemma_parsed_view_obeys_rules(e: MeshoptExtension)
    ensures
        parse_spec(e) matches Ok(v) ==> {
            &&& v.mode == MeshoptMode::Attributes ==> v.byte_stride > 0 && v.byte_stride % 4 == 0 && v.byte_stride <= 256
            &&& v.mode != MeshoptMode::Attributes ==> (v.byte_stride == 2 || v.byte_stride == 4) && v.filter == MeshoptFilter::Identity
            &&& v.mode == MeshoptMode::Triangles ==> v.count % 3 == 0
            &&& filter_fits(v.filter, v.byte_stride)
        },
{
}

/// A parsed view keeps what its object spells: its mode is named by the
/// `mode` member, and its filter by the `filter` member (an absent filter
/// is the identity, spelled `NONE`); its numbers are the members of the
/// same names (an absent `byteOffset` is 0); a `filter` that names none of
/// the filters is refused.
pub proof fn lemma_parsed_view_spells_its_members(e: MeshoptExtension)
    ensures
        parse_spec(e) matches Ok(v) ==> {
            &&& opt_chars(e.mode) == Some(mode_name(v.mode))
            &&& opt_chars(e.filter) matches Some(t) ==> filter_name(v.filter) == t
            &&& e.filter is None ==> v.filter == MeshoptFilter::Identity
            &&& e.buffer == JsonNumber::Value(v.buffer as u64)
            &&& e.byte_length == JsonNumber::Value(v.byte_length as u64)
            &&& e.byte_stride == JsonNumber::Value(v.byte_stride as u64)
            &&& e.count == JsonNumber::Value(v.count as u64)
            &&& e.byte_offset == JsonNumber::Value(v.byte_offset as u64) || (e.byte_offset is Missing && v.byte_offset == 0)
        },
        (opt_chars(e.filter) matches Some(t) && t != "NONE"@ && t != "OCTAHEDRAL"@ && t != "QUATERNION"@
            && t != "EXPONENTIAL"@ && t != "COLOR"@) ==> parse_spec(e) is Err,
{
}

} // verus!
