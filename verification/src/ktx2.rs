//! KTX2 container reading for the `KHR_texture_basisu` glTF extension.
//!
//! This is the container half: the file is opened, its header and basic Data
//! Format Descriptor are classified, and the still-encoded mip levels are
//! handed back. A payload is either UASTC (drawable after transcoding),
//! ETC1S (spec-legal but not decodable here) or anything else; the
//! supercompression around UASTC levels is either none or Zstandard.

use vstd::prelude::*;
use crate::text::{decimal, decimal_string, push_num, push_str};

verus! {

/// Raw Khronos Data Format color model number (`colorModel` of the basic DFD).
#[derive(Clone, Copy, PartialEq, Eq, Structural, Debug)]
pub struct ColorModel(pub u8);

/// Raw KTX2 supercompression scheme number (`supercompressionScheme` of the header).
#[derive(Clone, Copy, PartialEq, Eq, Structural, Debug)]
pub struct SupercompressionScheme(pub u32);

/// Color model number of UASTC.
pub const COLOR_MODEL_UASTC: u8 = 166;
/// Color model number of ETC1S.
pub const COLOR_MODEL_ETC1S: u8 = 163;
/// Supercompression scheme number of BasisLZ.
pub const SCHEME_BASIS_LZ: u32 = 1;
/// Supercompression scheme number of Zstandard.
pub const SCHEME_ZSTANDARD: u32 = 2;
/// Transfer function number of sRGB.
pub const TRANSFER_SRGB: u8 = 2;

/// The texture encoding a KTX2 file carries, as reported by its Data Format Descriptor.
#[derive(Clone, Copy, PartialEq, Eq, Structural, Debug)]
pub enum Payload {
    /// UASTC, the 4x4 128-bit block encoding this renderer supports.
    Uastc,
    /// ETC1S, spec-legal under `KHR_texture_basisu` but not decodable here.
    Etc1s,
    /// Anything else; the raw color model is kept for the error message.
    Unsupported(Option<ColorModel>),
}

/// How each mip level's bytes are wrapped, narrowed to the schemes this loader can undo.
#[derive(Clone, Copy, PartialEq, Eq, Structural, Debug)]
pub enum Wrapping {
    /// Level data is raw UASTC blocks.
    Raw,
    /// Level data is Zstandard-compressed UASTC blocks.
    Zstandard,
}

/// Errors that can arise while reading a KTX2 container.
#[derive(Clone, PartialEq, Eq, Debug)]
pub enum Ktx2Error {
    /// The bytes are not a well-formed KTX2 file at all.
    Malformed(String),
    /// The file parses, but describes a texture shape other than a single 2D image.
    UnsupportedShape(String),
    /// The file has no basic Data Format Descriptor.
    MissingDataFormatDescriptor,
    /// The texture is ETC1S / BasisLZ encoded.
    Etc1s,
    /// The texture is neither UASTC nor ETC1S.
    UnsupportedPayload(Option<ColorModel>),
    /// The level data is wrapped in a supercompression scheme this loader cannot undo.
    UnsupportedSupercompression(SupercompressionScheme),
    /// Zstandard decompression of a mip level failed.
    Supercompression(String),
    /// A UASTC block failed to decode.
    Transcode(String),
    /// A mip level is not the size its dimensions imply.
    LevelSizeMismatch {
        /// Bytes the level's dimensions imply it must contain.
        expected: usize,
        /// Bytes it actually contains.
        actual: usize,
    },
    /// The GPU rejected an upload.
    Upload(String),
}

/// The name `ktx2` gives a known color model number.
pub open spec fn color_model_name(v: u8) -> Option<Seq<char>> {
    match v {
        1 => Some("RGBSDA"@),
        2 => Some("YUVSDA"@),
        3 => Some("YIQSDA"@),
        4 => Some("LabSDA"@),
        5 => Some("CMYKA"@),
        6 => Some("XYZW"@),
        7 => Some("HSVAAng"@),
        8 => Some("HSLAAng"@),
        9 => Some("HSVAHex"@),
        10 => Some("HSLAHex"@),
        11 => Some("YCgCoA"@),
        12 => Some("YcCbcCrc"@),
        13 => Some("ICtCp"@),
        14 => Some("CIEXYZ"@),
        15 => Some("CIEXYY"@),
        128 => Some("BC1A"@),
        129 => Some("BC2"@),
        130 => Some("BC3"@),
        131 => Some("BC4"@),
        132 => Some("BC5"@),
        133 => Some("BC6H"@),
        134 => Some("BC7"@),
        160 => Some("ETC1"@),
        161 => Some("ETC2"@),
        162 => Some("ASTC"@),
        163 => Some("ETC1S"@),
        164 => Some("PVRTC"@),
        165 => Some("PVRTC2"@),
        166 => Some("UASTC"@),
        _ => None,
    }
}

/// The `Debug` text of `Option<ktx2::ColorModel>` for a raw color model
/// number: `None` for no number or 0; otherwise `Some(..)` around the
/// model's name, or around `ColorModel(n)` for a number without one.
pub open spec fn color_model_text(model: Option<u8>) -> Seq<char> {
    match model {
        Some(v) => if v == 0 {
            "None"@
        } else {
            "Some("@ + match color_model_name(v) {
                Some(n) => n,
                None => "ColorModel("@ + decimal(v as nat) + ")"@,
            } + ")"@
        },
        None => "None"@,
    }
}

/// The `Debug` text of `ktx2::SupercompressionScheme` for a nonzero raw
/// scheme number: the name of a known scheme, else the number in brackets.
pub open spec fn scheme_text(scheme: u32) -> Seq<char> {
    if scheme == 1 {
        "BasisLZ"@
    } else if scheme == 2 {
        "Zstandard"@
    } else if scheme == 3 {
        "ZLIB"@
    } else {
        "SupercompressionScheme("@ + decimal(scheme as nat) + ")"@
    }
}

/// `Debug`-formats `ktx2::ColorModel::new` of the raw number.
/// Trusted: the text is `color_model_text(model)` (the model's `Debug`
/// impl pads its name, or writes `ColorModel(n)` for an unknown one; `new`
/// gives `None` for 0).
#[verifier::external_body]
fn color_model_debug(model: Option<u8>) -> (r: String)
    ensures
        r@ == color_model_text(model),
{
    format!("{:?}", model.and_then(::ktx2::ColorModel::new))
}

/// `Debug`-formats `ktx2::SupercompressionScheme::new` of a nonzero raw number.
/// Trusted: the text is `scheme_text(scheme)` (the scheme's `Debug` impl
/// pads its name, or writes `SupercompressionScheme(n)` for an unknown one).
#[verifier::external_body]
fn scheme_debug(scheme: u32) -> (r: String)
    requires
        scheme != 0,
    ensures
        r@ == scheme_text(scheme),
{
    format!("{:?}", ::ktx2::SupercompressionScheme::new(scheme).unwrap())
}

/// The message a [`Ktx2Error`] is displayed with.
pub open spec fn ktx2_error_text(e: Ktx2Error) -> Seq<char> {
    match e {
        Ktx2Error::Malformed(d) => "Not a valid KTX2 file : "@ + d@,
        Ktx2Error::UnsupportedShape(d) => "Unsupported KTX2 texture shape : "@ + d@,
        Ktx2Error::MissingDataFormatDescriptor => "KTX2 file has no basic Data Format Descriptor, so its encoding is unknown"@,
        Ktx2Error::Etc1s => ETC1S_MESSAGE@,
        Ktx2Error::UnsupportedPayload(m) => "This KTX2 texture is encoded as "@
            + color_model_text(match m { Some(c) => Some(c.0), None => None }) + PAYLOAD_ADVICE@,
        Ktx2Error::UnsupportedSupercompression(s) => "This KTX2 texture uses "@ + scheme_text(s.0) + SCHEME_ADVICE@,
        Ktx2Error::Supercompression(d) => "Failed to decompress a Zstandard-supercompressed KTX2 mip level : "@ + d@,
        Ktx2Error::Transcode(d) => "Failed to decode a UASTC block : "@ + d@,
        Ktx2Error::LevelSizeMismatch { expected, actual } => "KTX2 mip level is "@ + decimal(actual as nat)
            + " bytes, but its dimensions imply "@ + decimal(expected as nat) + ". The file is corrupt or truncated."@,
        Ktx2Error::Upload(d) => "The GPU rejected a KTX2 texture upload : "@ + d@,
    }
}

/// Why an ETC1S texture is refused, and how to fix it.
pub const ETC1S_MESSAGE: &'static str = "This KTX2 texture is ETC1S / BasisLZ encoded. It is a valid KHR_texture_basisu asset, but this renderer decodes UASTC only. Re-encode the texture as UASTC -- for example `gltf-transform uastc in.glb out.glb` -- and load it again.";
/// What follows the color model in the message of an unsupported payload.
pub const PAYLOAD_ADVICE: &'static str = ", which KHR_texture_basisu does not permit ( it allows only UASTC or ETC1S ). Re-encode it as UASTC -- for example `gltf-transform uastc in.glb out.glb`.";
/// What follows the scheme in the message of an unsupported supercompression.
pub const SCHEME_ADVICE: &'static str = " supercompression, which this renderer cannot undo. KHR_texture_basisu allows only Zstandard, or none, for a UASTC payload. Re-encode it -- for example `gltf-transform uastc in.glb out.glb`.";

impl Ktx2Error {
    /// The error's message. A supercompression scheme in an error is never 0
    /// (0 means none).
    pub fn message(&self) -> (r: String)
        requires
            self matches Ktx2Error::UnsupportedSupercompression(s) ==> s.0 != 0,
        ensures
            r@ == ktx2_error_text(*self),
    {
        let mut out = String::new();
        match self {
            Ktx2Error::Malformed(d) => {
                push_str(&mut out, "Not a valid KTX2 file : ");
                push_str(&mut out, d.as_str());
            },
            Ktx2Error::UnsupportedShape(d) => {
                push_str(&mut out, "Unsupported KTX2 texture shape : ");
                push_str(&mut out, d.as_str());
            },
            Ktx2Error::MissingDataFormatDescriptor => {
                push_str(&mut out, "KTX2 file has no basic Data Format Descriptor, so its encoding is unknown");
            },
            Ktx2Error::Etc1s => {
                push_str(&mut out, ETC1S_MESSAGE);
            },
            Ktx2Error::UnsupportedPayload(m) => {
                let raw = match m {
                    Some(c) => Some(c.0),
                    None => None,
                };
                push_str(&mut out, "This KTX2 texture is encoded as ");
                push_str(&mut out, color_model_debug(raw).as_str());
                push_str(&mut out, PAYLOAD_ADVICE);
            },
            Ktx2Error::UnsupportedSupercompression(s) => {
                push_str(&mut out, "This KTX2 texture uses ");
                push_str(&mut out, scheme_debug(s.0).as_str());
                push_str(&mut out, SCHEME_ADVICE);
            },
            Ktx2Error::Supercompression(d) => {
                push_str(&mut out, "Failed to decompress a Zstandard-supercompressed KTX2 mip level : ");
                push_str(&mut out, d.as_str());
            },
            Ktx2Error::Transcode(d) => {
                push_str(&mut out, "Failed to decode a UASTC block : ");
                push_str(&mut out, d.as_str());
            },
            Ktx2Error::LevelSizeMismatch { expected, actual } => {
                push_str(&mut out, "KTX2 mip level is ");
                push_num(&mut out, *actual as u64);
                push_str(&mut out, " bytes, but its dimensions imply ");
                push_num(&mut out, *expected as u64);
                push_str(&mut out, ". The file is corrupt or truncated.");
            },
            Ktx2Error::Upload(d) => {
                push_str(&mut out, "The GPU rejected a KTX2 texture upload : ");
                push_str(&mut out, d.as_str());
            },
        }
        out
    }
}

/// What a KTX2 file says about itself.
#[derive(Clone, Copy, PartialEq, Eq, Structural, Debug)]
pub struct Info {
    /// Width of mip level 0, in texels.
    pub width: u32,
    /// Height of mip level 0, in texels.
    pub height: u32,
    /// Number of mip levels stored in the file, at least 1.
    pub level_count: u32,
    /// The texture encoding of the level data.
    pub payload: Payload,
    /// The supercompression wrapped around each level, if any.
    pub supercompression: Option<SupercompressionScheme>,
    /// Whether the file declares its texels to be sRGB-encoded.
    pub srgb: bool,
}

/// The fields of the basic Data Format Descriptor that classify a payload.
#[derive(Clone, Copy, PartialEq, Eq, Structural, Debug)]
pub struct BasicDfd {
    /// `colorModel`, `None` when unspecified.
    pub color_model: Option<u8>,
    /// `transferFunction`, `None` when unspecified.
    pub transfer_function: Option<u8>,
}

/// A structurally valid KTX2 container, as read by the `ktx2` crate: header
/// fields, the first basic DFD block (if any), and the stored mip levels.
#[derive(Clone, PartialEq, Eq, Debug)]
pub struct Ktx2Container {
    /// `pixelWidth`.
    pub pixel_width: u32,
    /// `pixelHeight` (`0` for a 1D texture).
    pub pixel_height: u32,
    /// `pixelDepth` (`0` unless 3D).
    pub pixel_depth: u32,
    /// `layerCount` (`0` for a non-array texture).
    pub layer_count: u32,
    /// `faceCount` (`6` for a cubemap).
    pub face_count: u32,
    /// `levelCount` as stored (`0` means no stored chain beyond level 0).
    pub level_count: u32,
    /// `supercompressionScheme`, `None` for raw level data.
    pub supercompression: Option<SupercompressionScheme>,
    /// The first basic DFD block.
    pub basic_dfd: Option<BasicDfd>,
    /// Level data, largest first, exactly as stored.
    pub levels: Vec<Vec<u8>>,
}

/// The little-endian `u16` at `at`.
pub open spec fn le16(b: Seq<u8>, at: int) -> nat {
    b[at] as nat + b[at + 1] as nat * 256
}

/// The little-endian `u32` at `at`.
pub open spec fn le32(b: Seq<u8>, at: int) -> nat {
    le16(b, at) + le16(b, at + 2) * 65536
}

/// The little-endian `u64` at `at`.
pub open spec fn le64(b: Seq<u8>, at: int) -> nat {
    le32(b, at) + le32(b, at + 4) * 0x1_0000_0000
}

/// The twelve bytes a KTX2 file starts with.
pub open spec fn ktx2_identifier() -> Seq<u8> {
    seq![0xABu8, 0x4B, 0x54, 0x58, 0x20, 0x32, 0x30, 0xBB, 0x0D, 0x0A, 0x1A, 0x0A]
}

/// Whether `ktx2::Reader::new` gets as far as parsing the Data Format
/// Descriptor of `b`: the identifier, a nonzero width and face count, and
/// DFD, supercompression-global-data and key/value sections that lie inside
/// the file (each end strictly before the file's end, as the reader checks).
pub open spec fn reaches_dfd(b: Seq<u8>) -> bool {
    &&& b.len() >= 80
    &&& b.take(12) == ktx2_identifier()
    &&& le32(b, 20) != 0
    &&& le32(b, 36) != 0
    &&& le32(b, 52) >= 4
    &&& le32(b, 48) + le32(b, 52) <= u32::MAX
    &&& le32(b, 48) + le32(b, 52) < b.len()
    &&& le64(b, 64) + le64(b, 72) <= u64::MAX
    &&& le64(b, 64) + le64(b, 72) < b.len()
    &&& le32(b, 56) + le32(b, 60) <= u32::MAX
    &&& le32(b, 56) + le32(b, 60) < b.len()
}

/// Whether the sample descriptions after the fixed part of a basic DFD
/// block's body `bd` parse: whole 16-byte samples, none with bit length 256.
pub open spec fn basic_samples_parse(bd: Seq<u8>) -> bool {
    &&& bd.len() >= 16
    &&& (bd.len() - 16) % 16 == 0
    &&& forall|k: int| 0 <= k < (bd.len() - 16) / 16 ==> #[trigger] bd[16 + 16 * k + 2] != 0xff
}

/// Whether walking the DFD blocks `d` as `ktx2` does reaches a basic block
/// with a texel-block dimension byte of `0xff`, whose `+ 1` the reader
/// cannot hold: it panics there. A block that fails to parse ends the walk
/// with an error first.
pub open spec fn dfd_blocks_panic(d: Seq<u8>) -> bool
    decreases d.len(),
{
    if d.len() < 8 {
        false
    } else {
        let size = le16(d, 6);
        if size < 8 || size > d.len() {
            false
        } else if le32(d, 0) == 0 && le16(d, 4) == 2 {
            let bd = d.subrange(8, size as int);
            if bd.len() < 8 {
                false
            } else if bd[4] == 0xff || bd[5] == 0xff || bd[6] == 0xff || bd[7] == 0xff {
                true
            } else if !basic_samples_parse(bd) {
                false
            } else {
                dfd_blocks_panic(d.skip(size as int))
            }
        } else {
            dfd_blocks_panic(d.skip(size as int))
        }
    }
}

/// Whether `ktx2::Reader::new` panics on `b`: it reaches the DFD, and a
/// basic block there has a texel-block dimension of `0xff`.
pub open spec fn ktx2_reader_panics(b: Seq<u8>) -> bool {
    reaches_dfd(b) && dfd_blocks_panic(b.subrange(le32(b, 48) as int + 4, le32(b, 48) as int + le32(b, 52) as int))
}

fn read_le16(b: &[u8], at: usize) -> (r: u32)
    requires
        at + 2 <= b@.len(),
    ensures
        r == le16(b@, at as int),
        r <= 0xffff,
{
    (b[at] as u32) + (b[at + 1] as u32) * 256
}

fn read_le32(b: &[u8], at: usize) -> (r: u64)
    requires
        at + 4 <= b@.len(),
    ensures
        r == le32(b@, at as int),
        r <= 0xffff_ffff,
{
    assert(b@.len() == b.len());
    let lo = read_le16(b, at) as u64;
    let hi = read_le16(b, at + 2) as u64;
    assert(hi * 65536 <= 0xffff * 65536);
    lo + hi * 65536
}

fn read_le64(b: &[u8], at: usize) -> (r: u128)
    requires
        at + 8 <= b@.len(),
    ensures
        r == le64(b@, at as int),
{
    assert(b@.len() == b.len());
    let lo = read_le32(b, at) as u128;
    let hi = read_le32(b, at + 4) as u128;
    assert(hi * 0x1_0000_0000 <= 0xffff_ffff * 0x1_0000_0000);
    lo + hi * 0x1_0000_0000
}

fn samples_parse(b: &[u8], start: usize, end: usize) -> (r: bool)
    requires
        start <= end <= b@.len(),
    ensures
        r == basic_samples_parse(b@.subrange(start as int, end as int)),
{
    let ghost bd = b@.subrange(start as int, end as int);
    let len = end - start;
    if len < 16 || (len - 16) % 16 != 0 {
        return false;
    }
    let count = (len - 16) / 16;
    let mut k: usize = 0;
    while k < count
        invariant
            bd == b@.subrange(start as int, end as int),
            len == bd.len(),
            len >= 16,
            count == (len - 16) / 16,
            (len - 16) % 16 == 0,
            k <= count,
            start <= end <= b@.len(),
            forall|j: int| 0 <= j < k ==> #[trigger] bd[16 + 16 * j + 2] != 0xff,
        decreases count - k,
    {
        assert(16 + 16 * k + 2 < len) by (nonlinear_arith)
            requires k < count, count == (len - 16) / 16, len >= 16;
        if b[start + 16 + 16 * k + 2] == 0xff {
            assert(bd[16 + 16 * k + 2] == 0xff);
            return false;
        }
        k = k + 1;
    }
    true
}

/// Whether `ktx2::Reader::new` would panic on `bytes` (see
/// [`ktx2_reader_panics`]); [`Ktx2Image::parse`] refuses such input.
pub fn ktx2_reader_would_panic(b: &[u8]) -> (r: bool)
    ensures
        r == ktx2_reader_panics(b@),
{
    if b.len() < 80 {
        return false;
    }
    let mut i: usize = 0;
    let magic: [u8; 12] = [0xAB, 0x4B, 0x54, 0x58, 0x20, 0x32, 0x30, 0xBB, 0x0D, 0x0A, 0x1A, 0x0A];
    assert(magic@ == ktx2_identifier());
    while i < 12
        invariant
            i <= 12,
            b@.len() >= 80,
            magic@ == ktx2_identifier(),
            forall|j: int| 0 <= j < i ==> b@[j] == magic@[j],
        decreases 12 - i,
    {
        if b[i] != magic[i] {
            assert(b@.take(12)[i as int] != ktx2_identifier()[i as int]);
            assert(!reaches_dfd(b@));
            return false;
        }
        i = i + 1;
    }
    assert(b@.take(12) =~= ktx2_identifier());
    let len = b.len() as u128;
    if read_le32(b, 20) == 0 || read_le32(b, 36) == 0 {
        return false;
    }
    let dfd_off = read_le32(b, 48);
    let dfd_len = read_le32(b, 52);
    if dfd_len < 4 || dfd_off + dfd_len > 0xffff_ffff || (dfd_off + dfd_len) as u128 >= len {
        return false;
    }
    let sgd = read_le64(b, 64) + read_le64(b, 72);
    if sgd > 0xffff_ffff_ffff_ffff || sgd >= len {
        return false;
    }
    let kvd = read_le32(b, 56) + read_le32(b, 60);
    if kvd > 0xffff_ffff || kvd as u128 >= len {
        return false;
    }
    assert(reaches_dfd(b@));
    let start = (dfd_off + 4) as usize;
    let end = (dfd_off + dfd_len) as usize;
    let ghost d = b@.subrange(start as int, end as int);
    assert(ktx2_reader_panics(b@) == dfd_blocks_panic(d));
    let mut pos: usize = start;
    while pos < end
        invariant
            ktx2_reader_panics(b@) == dfd_blocks_panic(d),
            start <= pos <= end,
            end < b@.len(),
            d == b@.subrange(start as int, end as int),
            dfd_blocks_panic(d) == dfd_blocks_panic(b@.subrange(pos as int, end as int)),
        decreases end - pos,
    {
        let ghost rest = b@.subrange(pos as int, end as int);
        if end - pos < 8 {
            return false;
        }
        assert(le16(rest, 6) == le16(b@, pos + 6));
        let size = read_le16(b, pos + 6) as usize;
        if size < 8 || size > end - pos {
            return false;
        }
        assert(le32(rest, 0) == le32(b@, pos as int));
        assert(le16(rest, 4) == le16(b@, pos + 4));
        assert(rest.skip(size as int) =~= b@.subrange(pos + size, end as int));
        if read_le32(b, pos) == 0 && read_le16(b, pos + 4) == 2 {
            let ghost bd = rest.subrange(8, size as int);
            assert(bd =~= b@.subrange(pos + 8, pos + size));
            if size - 8 < 8 {
                return false;
            }
            if b[pos + 12] == 0xff || b[pos + 13] == 0xff || b[pos + 14] == 0xff || b[pos + 15] == 0xff {
                return true;
            }
            if !samples_parse(b, pos + 8, pos + size) {
                return false;
            }
        }
        pos = pos + size;
    }
    assert(b@.subrange(end as int, end as int).len() == 0);
    false
}

/// What `ktx2::Reader::new` makes of `bytes`: the container it reads, or the
/// `Debug` text of its parse error.
pub uninterp spec fn ktx2_container_of(bytes: Seq<u8>) -> Result<Ktx2Container, Seq<char>>;

/// Reads a KTX2 file with `ktx2::Reader::new`, then copies its header fields,
/// its first basic DFD block and its level slices out as plain values.
/// Trusted: the result is `ktx2_container_of(bytes@)`; the reader rejects a
/// zero width or face count, and stores `max(levelCount, 1)` levels. The
/// reader panics on a basic DFD block with a texel-block dimension byte of
/// `0xff` (`ktx2_reader_panics`), which `requires` leaves out.
#[verifier::external_body]
fn ktx2_read(bytes: &[u8]) -> (r: Result<Ktx2Container, String>)
    requires
        !ktx2_reader_panics(bytes@),
    ensures
        match r {
            Ok(c) => ktx2_container_of(bytes@) == Ok::<Ktx2Container, Seq<char>>(c)
                && c.pixel_width > 0 && c.face_count > 0
                && c.levels.len() == (if c.level_count == 0 { 1 } else { c.level_count as int }),
            Err(e) => ktx2_container_of(bytes@) == Err::<Ktx2Container, Seq<char>>(e@),
        },
{
    let reader = ::ktx2::Reader::new(bytes).map_err(|e| format!("{e:?}"))?;
    let h = reader.header();
    let basic_dfd = reader.basic_dfd().map(|d| BasicDfd {
        color_model: d.color_model.map(|c| c.value()),
        transfer_function: d.transfer_function.map(|t| t.value()),
    });
    Ok(Ktx2Container {
        pixel_width: h.pixel_width, pixel_height: h.pixel_height, pixel_depth: h.pixel_depth,
        layer_count: h.layer_count, face_count: h.face_count, level_count: h.level_count,
        supercompression: h.supercompression_scheme.map(|s| SupercompressionScheme(s.value())),
        basic_dfd,
        levels: reader.levels().map(|l| l.data.to_vec()).collect(),
    })
}

/// Classification of a DFD color model.
pub open spec fn payload_of(color_model: Option<u8>) -> Payload {
    match color_model {
        Some(m) => if m == COLOR_MODEL_UASTC {
            Payload::Uastc
        } else if m == COLOR_MODEL_ETC1S {
            Payload::Etc1s
        } else {
            Payload::Unsupported(Some(ColorModel(m)))
        },
        None => Payload::Unsupported(None),
    }
}

/// The [`Info`] a 2D container with basic DFD `d` reports.
pub open spec fn info_of(c: Ktx2Container, d: BasicDfd) -> Info {
    Info {
        width: c.pixel_width,
        height: c.pixel_height,
        level_count: if c.level_count == 0 { 1 } else { c.level_count },
        payload: payload_of(d.color_model),
        supercompression: c.supercompression,
        srgb: d.transfer_function == Some(TRANSFER_SRGB),
    }
}

/// Whether a container describes anything but a single 2D image.
pub open spec fn shape_rejected(c: Ktx2Container) -> bool {
    c.pixel_depth > 0 || c.face_count > 1 || c.layer_count > 1 || c.pixel_height == 0
}

/// The verdict of [`Ktx2Image::check_supported`] on `info`.
pub open spec fn support_verdict(info: Info) -> Result<Wrapping, Ktx2Error> {
    if info.supercompression == Some(SupercompressionScheme(SCHEME_BASIS_LZ)) {
        Err(Ktx2Error::Etc1s)
    } else {
        match info.payload {
            Payload::Etc1s => Err(Ktx2Error::Etc1s),
            Payload::Unsupported(m) => Err(Ktx2Error::UnsupportedPayload(m)),
            Payload::Uastc => match info.supercompression {
                None => Ok(Wrapping::Raw),
                Some(s) => if s.0 == SCHEME_ZSTANDARD {
                    Ok(Wrapping::Zstandard)
                } else {
                    Err(Ktx2Error::UnsupportedSupercompression(s))
                },
            },
        }
    }
}

/// A parsed KTX2 container: its [`Info`], plus the still-encoded mip levels.
pub struct Ktx2Image {
    levels: Vec<Vec<u8>>,
    info: Info,
}

fn shape_message(prefix: &str, n: u32, suffix: &str) -> (r: String)
    ensures
        r@ == prefix@ + decimal(n as nat) + suffix@,
{
    let mut s = String::new();
    push_str(&mut s, prefix);
    let digits = decimal_string(n as u64);
    push_str(&mut s, digits.as_str());
    push_str(&mut s, suffix);
    s
}

impl Ktx2Image {
    /// The file's [`Info`].
    pub closed spec fn info_view(&self) -> Info {
        self.info
    }

    /// The file's stored levels, largest first.
    pub closed spec fn levels_view(&self) -> Seq<Vec<u8>> {
        self.levels@
    }

    /// Reads the header and Data Format Descriptor of a KTX2 file. Succeeds
    /// for any well-formed 2D file, including ones this renderer cannot draw.
    /// A file on which the `ktx2` reader panics is left out (test it with
    /// [`ktx2_reader_would_panic`]).
    pub fn parse(bytes: &[u8]) -> (r: Result<Ktx2Image, Ktx2Error>)
        requires
            !ktx2_reader_panics(bytes@),
        ensures
            ktx2_container_of(bytes@) matches Err(m) ==> (r matches Err(Ktx2Error::Malformed(e)) && e@ == m),
            ktx2_container_of(bytes@) matches Ok(c) ==> Self::from_container_post(c, r),
            r matches Ok(img) ==> img.info_view().level_count >= 1
                && img.levels_view().len() == img.info_view().level_count
                && img.info_view().width > 0 && img.info_view().height > 0,
    {
        match ktx2_read(bytes) {
            Ok(c) => Self::from_container(c),
            Err(e) => Err(Ktx2Error::Malformed(e)),
        }
    }

    /// What [`Ktx2Image::from_container`] returns for `c`.
    pub open spec fn from_container_post(c: Ktx2Container, r: Result<Ktx2Image, Ktx2Error>) -> bool {
        &&& c.pixel_depth > 0 ==> (r matches Err(Ktx2Error::UnsupportedShape(m))
            && m@ == "3D texture ( depth "@ + decimal(c.pixel_depth as nat) + " ); only 2D images are supported"@)
        &&& c.pixel_depth == 0 && c.face_count > 1 ==> (r matches Err(Ktx2Error::UnsupportedShape(m))
            && m@ == "cubemap ( "@ + decimal(c.face_count as nat) + " faces ); only 2D images are supported"@)
        &&& c.pixel_depth == 0 && c.face_count <= 1 && c.layer_count > 1 ==> (r matches Err(Ktx2Error::UnsupportedShape(m))
            && m@ == "texture array ( "@ + decimal(c.layer_count as nat) + " layers ); only 2D images are supported"@)
        &&& c.pixel_depth == 0 && c.face_count <= 1 && c.layer_count <= 1 && c.pixel_height == 0 ==> (r matches Err(Ktx2Error::UnsupportedShape(m))
            && m@ == "1D texture ( height 0 ); only 2D images are supported"@)
        &&& !shape_rejected(c) && c.basic_dfd is None ==> r == Err::<Ktx2Image, Ktx2Error>(Ktx2Error::MissingDataFormatDescriptor)
        &&& (!shape_rejected(c) && c.basic_dfd is Some) ==> (r matches Ok(img)
            && img.info_view() == info_of(c, c.basic_dfd.unwrap()) && img.levels_view() == c.levels@)
    }

    /// Classifies a container read from a KTX2 file: rejects every shape but a
    /// single 2D image, requires a basic DFD, and reports the payload.
    pub fn from_container(c: Ktx2Container) -> (r: Result<Ktx2Image, Ktx2Error>)
        ensures
            Self::from_container_post(c, r),
    {
        if c.pixel_depth > 0 {
            return Err(Ktx2Error::UnsupportedShape(
                shape_message("3D texture ( depth ", c.pixel_depth, " ); only 2D images are supported"),
            ));
        }
        if c.face_count > 1 {
            return Err(Ktx2Error::UnsupportedShape(
                shape_message("cubemap ( ", c.face_count, " faces ); only 2D images are supported"),
            ));
        }
        if c.layer_count > 1 {
            return Err(Ktx2Error::UnsupportedShape(
                shape_message("texture array ( ", c.layer_count, " layers ); only 2D images are supported"),
            ));
        }
        if c.pixel_height == 0 {
            return Err(Ktx2Error::UnsupportedShape(
                String::from_str("1D texture ( height 0 ); only 2D images are supported"),
            ));
        }
        let d = match c.basic_dfd {
            Some(d) => d,
            None => return Err(Ktx2Error::MissingDataFormatDescriptor),
        };
        let payload = match d.color_model {
            Some(m) => if m == COLOR_MODEL_UASTC {
                Payload::Uastc
            } else if m == COLOR_MODEL_ETC1S {
                Payload::Etc1s
            } else {
                Payload::Unsupported(Some(ColorModel(m)))
            },
            None => Payload::Unsupported(None),
        };
        let srgb = match d.transfer_function {
            Some(t) => t == TRANSFER_SRGB,
            None => false,
        };
        let info = Info {
            width: c.pixel_width,
            height: c.pixel_height,
            level_count: if c.level_count == 0 { 1 } else { c.level_count },
            payload,
            supercompression: c.supercompression,
            srgb,
        };
        Ok(Ktx2Image { levels: c.levels, info })
    }

    /// What the file says about itself.
    pub fn info(&self) -> (r: &Info)
        ensures
            *r == self.info_view(),
    {
        &self.info
    }

    /// The mip levels, largest first, exactly as stored (still supercompressed).
    pub fn levels(&self) -> (r: &[Vec<u8>])
        ensures
            r@ == self.levels_view(),
    {
        self.levels.as_slice()
    }

    /// Checks that this file is one the renderer can draw, and reports how its
    /// levels are wrapped. BasisLZ is tested first: it implies ETC1S whatever
    /// the DFD claims.
    pub fn check_supported(&self) -> (r: Result<Wrapping, Ktx2Error>)
        ensures
            r == support_verdict(self.info_view()),
    {
        if self.info.supercompression == Some(SupercompressionScheme(SCHEME_BASIS_LZ)) {
            return Err(Ktx2Error::Etc1s);
        }
        match self.info.payload {
            Payload::Etc1s => return Err(Ktx2Error::Etc1s),
            Payload::Unsupported(m) => return Err(Ktx2Error::UnsupportedPayload(m)),
            Payload::Uastc => {},
        }
        match self.info.supercompression {
            None => Ok(Wrapping::Raw),
            Some(s) => if s.0 == SCHEME_ZSTANDARD {
                Ok(Wrapping::Zstandard)
            } else {
                Err(Ktx2Error::UnsupportedSupercompression(s))
            },
        }
    }

    /// Dimensions of mip level `level`, halving each axis per level and
    /// clamping at 1; every level past the chain is 1x1.
    pub fn level_size(&self, level: u32) -> (r: (u32, u32))
        ensures
            r.0 == halved(self.info_view().width, level),
            r.1 == halved(self.info_view().height, level),
    {
        if level >= 32 {
            return (1, 1);
        }
        let w = self.info.width >> level;
        let h = self.info.height >> level;
        (if w == 0 { 1 } else { w }, if h == 0 { 1 } else { h })
    }
}


/// `n` halved `level` times (rounding down), but never below 1: `n`'s
/// extent at mip level `level`.
pub open spec fn halved(n: u32, level: u32) -> u32 {
    if level >= 32 || n >> level == 0 { 1 } else { n >> level }
}

/// Bytes in one UASTC block: a 4x4, 128-bit encoding, always.
pub const UASTC_BLOCK_BYTES: usize = 16;

/// What Zstandard decoding (`ruzstd::decoding::StreamingDecoder` read to the
/// end) makes of `data`: the decoded bytes, or the `Debug` text of the error.
pub uninterp spec fn zstd_decoded(data: Seq<u8>) -> Result<Seq<u8>, Seq<char>>;

/// Decodes a Zstandard frame with `ruzstd`'s streaming decoder, read to the end.
/// Trusted: the result is `zstd_decoded(data@)`.
/// Not proved: that decoding never panics. `ruzstd`'s readme states that its
/// decoder is fuzzed and that malformed input must not make it panic (a
/// test runs the fuzzer's findings); such input comes back as an error.
#[verifier::external_body]
fn zstd_decode(data: &[u8]) -> (r: Result<Vec<u8>, String>)
    ensures
        match r {
            Ok(v) => zstd_decoded(data@) == Ok::<Seq<u8>, Seq<char>>(v@),
            Err(e) => zstd_decoded(data@) == Err::<Seq<u8>, Seq<char>>(e@),
        },
{
    let mut decoder = ruzstd::decoding::StreamingDecoder::new(data).map_err(|e| format!("{e:?}"))?;
    let mut out = Vec::new();
    std::io::Read::read_to_end(&mut decoder, &mut out).map_err(|e| format!("{e:?}"))?;
    Ok(out)
}

/// Undoes Zstandard supercompression of one mip level.
pub fn inflate(data: &[u8]) -> (r: Result<Vec<u8>, Ktx2Error>)
    ensures
        zstd_decoded(data@) matches Ok(v) ==> (r matches Ok(out) && out@ == v),
        zstd_decoded(data@) matches Err(m) ==> (r matches Err(Ktx2Error::Supercompression(e)) && e@ == m),
{
    match zstd_decode(data) {
        Ok(v) => Ok(v),
        Err(e) => Err(Ktx2Error::Supercompression(e)),
    }
}

/// Number of 4-texel blocks covering `n` texels.
pub open spec fn block_count(n: u32) -> nat {
    ((n as nat) + 3) / 4
}

/// Bytes of UASTC blocks a `width` x `height` level must hold.
pub open spec fn uastc_level_bytes(width: u32, height: u32) -> nat {
    block_count(width) * block_count(height) * 16
}

/// The UASTC bytes of a level once its supercompression is undone.
pub open spec fn unwrapped_level(data: Seq<u8>, wrapping: Wrapping) -> Result<Seq<u8>, Seq<char>> {
    match wrapping {
        Wrapping::Raw => Ok(data),
        Wrapping::Zstandard => zstd_decoded(data),
    }
}

fn blocks_of(n: u32) -> (r: usize)
    ensures
        r == block_count(n),
{
    let b: u32 = n / 4 + if n % 4 == 0 { 0 } else { 1 };
    b as usize
}

/// Undoes a level's supercompression and checks that what remains is exactly
/// the UASTC block data its dimensions imply. The dimensions, not the file's
/// own length fields, are the authority: they are what a GPU upload checks.
pub fn level_blocks(data: &[u8], wrapping: Wrapping, width: u32, height: u32) -> (r: Result<Vec<u8>, Ktx2Error>)
    requires
        uastc_level_bytes(width, height) <= usize::MAX,
    ensures
        unwrapped_level(data@, wrapping) matches Err(m) ==> (r matches Err(Ktx2Error::Supercompression(e)) && e@ == m),
        unwrapped_level(data@, wrapping) matches Ok(u) ==> {
            &&& u.len() == uastc_level_bytes(width, height) ==> (r matches Ok(out) && out@ == u)
            &&& u.len() != uastc_level_bytes(width, height) ==> r == Err::<Vec<u8>, Ktx2Error>(
                Ktx2Error::LevelSizeMismatch { expected: uastc_level_bytes(width, height) as usize, actual: u.len() as usize })
        },
{
    let uastc: Vec<u8> = match wrapping {
        Wrapping::Raw => vstd::slice::slice_to_vec(data),
        Wrapping::Zstandard => inflate(data)?,
    };
    let blocks_x = blocks_of(width);
    let blocks_y = blocks_of(height);
    proof {
        vstd::arithmetic::mul::lemma_mul_nonnegative(blocks_x as int, blocks_y as int);
        assert(blocks_x * blocks_y * 16 == uastc_level_bytes(width, height));
    }
    let expected = blocks_x * blocks_y * UASTC_BLOCK_BYTES;
    if uastc.len() != expected {
        return Err(Ktx2Error::LevelSizeMismatch { expected, actual: uastc.len() });
    }
    Ok(uastc)
}

/// Byte `k` (`k < 4`) of `t` in little-endian order.
pub open spec fn le_byte(t: u32, k: nat) -> u8 {
    ((t >> ((8 * k) as u32)) & 0xff) as u8
}

/// Byte `i` of the RGBA8 image that UASTC texel blocks `blocks` (row-major,
/// `blocks_x` per row, each 16 texels packed little-endian `[ r, g, b, a ]`)
/// decode to at width `width`: texel `(x, y)` comes from texel
/// `(x % 4, y % 4)` of block `(x / 4, y / 4)`; texels no block covers stay 0.
pub open spec fn rgba_byte(blocks: Seq<[u32; 16]>, blocks_x: nat, width: nat, i: nat) -> u8 {
    let p = i / 4;
    let k = i % 4;
    let x = p % width;
    let y = p / width;
    let b = (y / 4) * blocks_x + x / 4;
    if x / 4 < blocks_x && b < blocks.len() {
        le_byte(blocks[b as int][((y % 4) * 4 + x % 4) as int], k)
    } else {
        0
    }
}

/// Scatters unpacked UASTC texel blocks (as `uastc_tools` returns them, one
/// little-endian `[ r, g, b, a ]` word per texel) out of block order into an
/// RGBA8 image in row order. Texels of edge blocks that fall outside the
/// image are dropped.
pub fn blocks_to_rgba(blocks: &[[u32; 16]], blocks_x: usize, width: u32, height: u32) -> (r: Vec<u8>)
    requires
        (width as nat) * (height as nat) * 4 <= usize::MAX,
        blocks@.len() > 0 ==> blocks_x > 0,
    ensures
        r@.len() == (width as nat) * (height as nat) * 4,
        forall|i: int| 0 <= i < r@.len() ==> r@[i] == rgba_byte(blocks@, blocks_x as nat, width as nat, i as nat),
{
    let w = width as usize;
    let h = height as usize;
    proof {
        vstd::arithmetic::mul::lemma_mul_nonnegative(w as int, h as int);
    }
    let total = w * h * 4;
    let n_blocks = blocks.len();
    let mut image: Vec<u8> = Vec::with_capacity(total);
    let mut i: usize = 0;
    while i < total
        invariant
            total == (width as nat) * (height as nat) * 4,
            w == width, h == height,
            n_blocks == blocks@.len(),
            i <= total,
            blocks@.len() > 0 ==> blocks_x > 0,
            image@.len() == i,
            forall|j: int| 0 <= j < i ==> image@[j] == rgba_byte(blocks@, blocks_x as nat, width as nat, j as nat),
        decreases total - i,
    {
        let p = i / 4;
        let k = i % 4;
        proof {
            assert(w > 0) by (nonlinear_arith)
                requires i < total, total == w * h * 4;
        }
        let x = p % w;
        let y = p / w;
        let mut byte: u8 = 0;
        let ghost spec_b: int = (y / 4) as int * blocks_x as int + (x / 4) as int;
        if x / 4 < blocks_x {
            match (y / 4).checked_mul(blocks_x) {
                Some(row_start) => match row_start.checked_add(x / 4) {
                    Some(b) => {
                        assert(b == spec_b);
                        if b < n_blocks {
                            let t = blocks[b][(y % 4) * 4 + x % 4];
                            byte = ((t >> ((8 * k) as u32)) & 0xff) as u8;
                            assert(t == blocks@[spec_b][((y % 4) * 4 + x % 4) as int]);
                            assert(byte == le_byte(t, k as nat));
                            assert(byte == rgba_byte(blocks@, blocks_x as nat, width as nat, i as nat));
                        } else {
                            assert(0 == rgba_byte(blocks@, blocks_x as nat, width as nat, i as nat));
                        }
                    },
                    None => {
                        assert(spec_b > usize::MAX);
                        assert(spec_b >= blocks@.len());
                        assert(0 == rgba_byte(blocks@, blocks_x as nat, width as nat, i as nat));
                    },
                },
                None => {
                    assert(spec_b >= (y / 4) as int * blocks_x as int) by (nonlinear_arith)
                        requires spec_b == (y / 4) as int * blocks_x as int + (x / 4) as int;
                    assert(0 == rgba_byte(blocks@, blocks_x as nat, width as nat, i as nat));
                },
            }
        }
        assert(p == (i as nat) / 4 && k == (i as nat) % 4);
        assert(x as nat == (p as nat) % (width as nat) && y as nat == (p as nat) / (width as nat));
        assert(byte == rgba_byte(blocks@, blocks_x as nat, width as nat, i as nat));
        image.push(byte);
        i = i + 1;
    }
    image
}

/// Where a pixel of the decoded image comes from: for every pixel `(x, y)`
/// of an image `width` wide whose 4x4 block column `x / 4` exists, byte `k`
/// of the pixel (at `4 * (y * width + x) + k`) is byte `k` (little-endian)
/// of texel `(y % 4) * 4 + x % 4` of block `(y / 4) * blocks_x + x / 4`:
/// blocks are laid out in rows of `blocks_x`, and a pixel no block covers
/// is 0.
pub proof fn lemma_rgba_pixel_source(blocks: Seq<[u32; 16]>, blocks_x: nat, width: nat, x: nat, y: nat, k: nat)
    requires
        x < width,
        k < 4,
    ensures
        ({
            let b = (y / 4) * blocks_x + x / 4;
            let byte = rgba_byte(blocks, blocks_x, width, 4 * (y * width + x) + k);
            &&& x / 4 < blocks_x && b < blocks.len()
                ==> byte == ((blocks[b as int][((y % 4) * 4 + x % 4) as int] >> ((8 * k) as u32)) & 0xff) as u8
            &&& !(x / 4 < blocks_x && b < blocks.len()) ==> byte == 0
        }),
{
    let i = 4 * (y * width + x) + k;
    let p = y * width + x;
    assert(i / 4 == p && i % 4 == k) by (nonlinear_arith)
        requires i == 4 * p + k, k < 4;
    assert(p % width == x && p / width == y) by (nonlinear_arith)
        requires p == y * width + x, x < width;
}

/// The renderer draws exactly UASTC files whose levels are stored raw or
/// Zstandard-compressed: a file passes [`Ktx2Image::check_supported`] if and
/// only if its payload is UASTC and its supercompression is none (levels
/// read as they are) or Zstandard (levels inflated first). A
/// BasisLZ-supercompressed file never passes, whatever its DFD claims.
pub proof fn lemma_supported_is_uastc(info: Info)
    ensures
        support_verdict(info) == Ok::<Wrapping, Ktx2Error>(Wrapping::Raw)
            <==> info.payload == Payload::Uastc && info.supercompression is None,
        support_verdict(info) == Ok::<Wrapping, Ktx2Error>(Wrapping::Zstandard)
            <==> info.payload == Payload::Uastc && info.supercompression == Some(SupercompressionScheme(SCHEME_ZSTANDARD)),
        info.supercompression == Some(SupercompressionScheme(SCHEME_BASIS_LZ)) ==> support_verdict(info) == Err::<Wrapping, Ktx2Error>(Ktx2Error::Etc1s),
{
}

} // verus!
