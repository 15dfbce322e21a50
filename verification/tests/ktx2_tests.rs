use renderer::ktx2::{
    ktx2_reader_would_panic, blocks_to_rgba, inflate, level_blocks, ColorModel, Ktx2Error, Ktx2Image, Payload, SupercompressionScheme, Wrapping,
};

const MAGIC: [u8; 12] = [0xAB, 0x4B, 0x54, 0x58, 0x20, 0x32, 0x30, 0xBB, 0x0D, 0x0A, 0x1A, 0x0A];

struct Spec {
    width: u32,
    height: u32,
    depth: u32,
    layers: u32,
    faces: u32,
    scheme: u32,
    color_model: u8,
    transfer: u8,
}

fn plain(width: u32, height: u32) -> Spec {
    Spec { width, height, depth: 0, layers: 0, faces: 1, scheme: 0, color_model: 166, transfer: 2 }
}

fn push_u32(out: &mut Vec<u8>, v: u32) {
    out.extend_from_slice(&v.to_le_bytes());
}

fn push_u64(out: &mut Vec<u8>, v: u64) {
    out.extend_from_slice(&v.to_le_bytes());
}

/// A one-level KTX2 file: header, level index, a basic DFD block, level data.
fn ktx2_file(spec: &Spec, level: &[u8]) -> Vec<u8> {
    let dfd_offset: u32 = 80 + 24;
    let dfd_length: u32 = 4 + 8 + 16;
    let level_offset = (dfd_offset + dfd_length) as u64;
    let mut out = Vec::new();
    out.extend_from_slice(&MAGIC);
    push_u32(&mut out, 0); // vkFormat
    push_u32(&mut out, 1); // typeSize
    push_u32(&mut out, spec.width);
    push_u32(&mut out, spec.height);
    push_u32(&mut out, spec.depth);
    push_u32(&mut out, spec.layers);
    push_u32(&mut out, spec.faces);
    push_u32(&mut out, 1); // levelCount
    push_u32(&mut out, spec.scheme);
    push_u32(&mut out, dfd_offset);
    push_u32(&mut out, dfd_length);
    push_u32(&mut out, 0); // kvd offset
    push_u32(&mut out, 0); // kvd length
    push_u64(&mut out, 0); // sgd offset
    push_u64(&mut out, 0); // sgd length
    push_u64(&mut out, level_offset);
    push_u64(&mut out, level.len() as u64);
    push_u64(&mut out, level.len() as u64);
    push_u32(&mut out, dfd_length);
    push_u32(&mut out, 0); // vendor 0, descriptor type 0
    out.extend_from_slice(&2u16.to_le_bytes()); // version
    out.extend_from_slice(&24u16.to_le_bytes()); // block size
    out.extend_from_slice(&[spec.color_model, 1, spec.transfer, 0]);
    out.extend_from_slice(&[3, 3, 0, 0]);
    out.extend_from_slice(&[16, 0, 0, 0, 0, 0, 0, 0]);
    out.extend_from_slice(level);
    out
}

#[test]
fn parses_a_uastc_file() {
    let level = [7u8; 16];
    let img = Ktx2Image::parse(&ktx2_file(&plain(4, 4), &level)).unwrap();
    let info = *img.info();
    assert_eq!(info.width, 4);
    assert_eq!(info.height, 4);
    assert_eq!(info.level_count, 1);
    assert_eq!(info.payload, Payload::Uastc);
    assert_eq!(info.supercompression, None);
    assert!(info.srgb);
    assert_eq!(img.levels().len(), 1);
    assert_eq!(img.levels()[0], level.to_vec());
    assert_eq!(img.check_supported(), Ok(Wrapping::Raw));
    assert_eq!(level_blocks(&img.levels()[0], Wrapping::Raw, 4, 4), Ok(level.to_vec()));
}

#[test]
fn linear_transfer_is_not_srgb() {
    let mut spec = plain(4, 4);
    spec.transfer = 1;
    let img = Ktx2Image::parse(&ktx2_file(&spec, &[0u8; 16])).unwrap();
    assert!(!img.info().srgb);
}

#[test]
fn malformed_bytes() {
    assert!(matches!(Ktx2Image::parse(&[1, 2, 3]), Err(Ktx2Error::Malformed(_))));
    let mut bytes = ktx2_file(&plain(4, 4), &[0u8; 16]);
    bytes[0] = 0;
    assert!(matches!(Ktx2Image::parse(&bytes), Err(Ktx2Error::Malformed(_))));
    let zero_width = ktx2_file(&plain(0, 4), &[0u8; 16]);
    assert!(matches!(Ktx2Image::parse(&zero_width), Err(Ktx2Error::Malformed(_))));
}

#[test]
fn unsupported_shapes() {
    let mut s = plain(4, 4);
    s.depth = 2;
    assert_eq!(
        Ktx2Image::parse(&ktx2_file(&s, &[0u8; 16])).err(),
        Some(Ktx2Error::UnsupportedShape("3D texture ( depth 2 ); only 2D images are supported".to_string()))
    );
    let mut s = plain(4, 4);
    s.faces = 6;
    assert_eq!(
        Ktx2Image::parse(&ktx2_file(&s, &[0u8; 16])).err(),
        Some(Ktx2Error::UnsupportedShape("cubemap ( 6 faces ); only 2D images are supported".to_string()))
    );
    let mut s = plain(4, 4);
    s.layers = 3;
    assert_eq!(
        Ktx2Image::parse(&ktx2_file(&s, &[0u8; 16])).err(),
        Some(Ktx2Error::UnsupportedShape("texture array ( 3 layers ); only 2D images are supported".to_string()))
    );
    let s = plain(4, 0);
    assert_eq!(
        Ktx2Image::parse(&ktx2_file(&s, &[0u8; 16])).err(),
        Some(Ktx2Error::UnsupportedShape("1D texture ( height 0 ); only 2D images are supported".to_string()))
    );
}

#[test]
fn payload_and_supercompression_verdicts() {
    let mut s = plain(4, 4);
    s.color_model = 163;
    let img = Ktx2Image::parse(&ktx2_file(&s, &[0u8; 16])).unwrap();
    assert_eq!(img.info().payload, Payload::Etc1s);
    assert_eq!(img.check_supported(), Err(Ktx2Error::Etc1s));

    let mut s = plain(4, 4);
    s.color_model = 1;
    let img = Ktx2Image::parse(&ktx2_file(&s, &[0u8; 16])).unwrap();
    assert_eq!(img.check_supported(), Err(Ktx2Error::UnsupportedPayload(Some(ColorModel(1)))));

    let mut s = plain(4, 4);
    s.scheme = 1;
    let img = Ktx2Image::parse(&ktx2_file(&s, &[0u8; 16])).unwrap();
    assert_eq!(img.check_supported(), Err(Ktx2Error::Etc1s));

    let mut s = plain(4, 4);
    s.scheme = 2;
    let img = Ktx2Image::parse(&ktx2_file(&s, &[0u8; 16])).unwrap();
    assert_eq!(img.info().supercompression, Some(SupercompressionScheme(2)));
    assert_eq!(img.check_supported(), Ok(Wrapping::Zstandard));

    let mut s = plain(4, 4);
    s.scheme = 3;
    let img = Ktx2Image::parse(&ktx2_file(&s, &[0u8; 16])).unwrap();
    assert_eq!(img.check_supported(), Err(Ktx2Error::UnsupportedSupercompression(SupercompressionScheme(3))));
}

#[test]
fn level_sizes_halve_and_clamp() {
    let img = Ktx2Image::parse(&ktx2_file(&plain(8, 2), &[0u8; 32])).unwrap();
    assert_eq!(img.level_size(0), (8, 2));
    assert_eq!(img.level_size(1), (4, 1));
    assert_eq!(img.level_size(2), (2, 1));
    assert_eq!(img.level_size(5), (1, 1));
    assert_eq!(img.level_size(32), (1, 1));
    assert_eq!(img.level_size(40), (1, 1));
    assert_eq!(img.level_size(u32::MAX), (1, 1));
}

#[test]
fn zstd_levels_inflate() {
    let raw: Vec<u8> = (0u8..32).collect();
    let packed = ruzstd::encoding::compress_to_vec(&raw[..], ruzstd::encoding::CompressionLevel::Fastest);
    assert_ne!(packed, raw);
    assert_eq!(inflate(&packed), Ok(raw.clone()));
    assert_eq!(level_blocks(&packed, Wrapping::Zstandard, 8, 4), Ok(raw.clone()));
    assert!(matches!(inflate(&[1, 2, 3, 4]), Err(Ktx2Error::Supercompression(_))));
}

#[test]
fn level_size_mismatch() {
    assert_eq!(
        level_blocks(&[0u8; 15], Wrapping::Raw, 4, 4),
        Err(Ktx2Error::LevelSizeMismatch { expected: 16, actual: 15 })
    );
    assert_eq!(level_blocks(&[0u8; 64], Wrapping::Raw, 5, 5).map(|v| v.len()), Ok(64));
}

#[test]
fn blocks_scatter_into_rows() {
    let mut b0 = [0u32; 16];
    let mut b1 = [0u32; 16];
    for t in 0..16u32 {
        b0[t as usize] = t;
        b1[t as usize] = 0x0100_0000 | (16 + t);
    }
    let rgba = blocks_to_rgba(&[b0, b1], 2, 6, 1);
    assert_eq!(rgba.len(), 6 * 4);
    assert_eq!(&rgba[0..4], &[0, 0, 0, 0]);
    assert_eq!(&rgba[4..8], &[1, 0, 0, 0]);
    assert_eq!(&rgba[12..16], &[3, 0, 0, 0]);
    assert_eq!(&rgba[16..20], &[16, 0, 0, 1]);
    assert_eq!(&rgba[20..24], &[17, 0, 0, 1]);
}

#[test]
fn ktx2_error_messages() {
    assert_eq!(Ktx2Error::Malformed("UnexpectedEnd".to_string()).message(), "Not a valid KTX2 file : UnexpectedEnd");
    assert_eq!(
        Ktx2Error::LevelSizeMismatch { expected: 16, actual: 15 }.message(),
        "KTX2 mip level is 15 bytes, but its dimensions imply 16. The file is corrupt or truncated."
    );
    assert!(Ktx2Error::Etc1s.message().starts_with("This KTX2 texture is ETC1S / BasisLZ encoded."));
    assert!(Ktx2Error::UnsupportedPayload(Some(ColorModel(1)))
        .message()
        .starts_with("This KTX2 texture is encoded as Some(RGBSDA), which KHR_texture_basisu does not permit"));
    assert!(Ktx2Error::UnsupportedPayload(None).message().starts_with("This KTX2 texture is encoded as None,"));
    assert!(Ktx2Error::UnsupportedPayload(Some(ColorModel(0))).message().starts_with("This KTX2 texture is encoded as None,"));
    assert!(Ktx2Error::UnsupportedPayload(Some(ColorModel(162)))
        .message()
        .starts_with("This KTX2 texture is encoded as Some(ASTC),"));
    assert!(Ktx2Error::UnsupportedPayload(Some(ColorModel(200)))
        .message()
        .starts_with("This KTX2 texture is encoded as Some(ColorModel(200)),"));
    assert!(Ktx2Error::UnsupportedSupercompression(SupercompressionScheme(3))
        .message()
        .starts_with("This KTX2 texture uses ZLIB supercompression"));
    assert!(Ktx2Error::UnsupportedSupercompression(SupercompressionScheme(1))
        .message()
        .starts_with("This KTX2 texture uses BasisLZ supercompression"));
    assert!(Ktx2Error::UnsupportedSupercompression(SupercompressionScheme(70000))
        .message()
        .starts_with("This KTX2 texture uses SupercompressionScheme(70000) supercompression"));
    assert_eq!(
        Ktx2Error::MissingDataFormatDescriptor.message(),
        "KTX2 file has no basic Data Format Descriptor, so its encoding is unknown"
    );
}

#[test]
fn texel_block_dimension_the_reader_cannot_hold() {
    let file = ktx2_file(&plain(4, 4), &[7u8; 16]);
    assert!(!ktx2_reader_would_panic(&file));
    // The third texel-block dimension byte of the basic DFD block.
    let mut bad = file.clone();
    bad[122] = 0xff;
    assert!(ktx2_reader_would_panic(&bad));
    // The same byte in a file the reader rejects earlier does no harm.
    let mut rejected = bad.clone();
    rejected[0] = 0;
    assert!(!ktx2_reader_would_panic(&rejected));
    assert!(!ktx2_reader_would_panic(&[]));
}
