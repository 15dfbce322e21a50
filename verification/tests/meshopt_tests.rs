use renderer::meshopt::{buffer_is_fallback, JsonNumber, MeshoptExtension, MeshoptFilter, MeshoptMode, MeshoptView};

fn ext(mode: Option<&str>, filter: Option<&str>, stride: u64, count: u64) -> MeshoptExtension {
    MeshoptExtension {
        buffer: JsonNumber::Value(0),
        byte_offset: JsonNumber::Missing,
        byte_length: JsonNumber::Value(100),
        byte_stride: JsonNumber::Value(stride),
        count: JsonNumber::Value(count),
        mode: mode.map(|s| s.to_string()),
        filter: filter.map(|s| s.to_string()),
    }
}

#[test]
fn parses_attributes_view() {
    let v = MeshoptView::parse(&ext(Some("ATTRIBUTES"), Some("OCTAHEDRAL"), 8, 10)).unwrap();
    assert_eq!(
        v,
        MeshoptView {
            buffer: 0,
            byte_offset: 0,
            byte_length: 100,
            byte_stride: 8,
            count: 10,
            mode: MeshoptMode::Attributes,
            filter: MeshoptFilter::Octahedral,
        }
    );
    assert_eq!(v.decoded_length(), Some(80));
    assert_eq!(MeshoptMode::Attributes.as_str(), "ATTRIBUTES");
    assert_eq!(MeshoptFilter::Identity.as_str(), "NONE");
}

#[test]
fn parses_triangles_and_indices() {
    let t = MeshoptView::parse(&ext(Some("TRIANGLES"), None, 2, 9)).unwrap();
    assert_eq!(t.mode, MeshoptMode::Triangles);
    assert_eq!(t.filter, MeshoptFilter::Identity);
    let i = MeshoptView::parse(&ext(Some("INDICES"), Some("NONE"), 4, 5)).unwrap();
    assert_eq!(i.mode, MeshoptMode::Indices);
}

#[test]
fn member_errors() {
    assert_eq!(MeshoptView::parse(&ext(None, None, 4, 1)).unwrap_err(), "missing `mode`");
    assert_eq!(MeshoptView::parse(&ext(Some("POINTS"), None, 4, 1)).unwrap_err(), "unknown mode `POINTS`");
    assert_eq!(MeshoptView::parse(&ext(Some("ATTRIBUTES"), Some("BLUR"), 4, 1)).unwrap_err(), "unknown filter `BLUR`");
    let mut e = ext(Some("ATTRIBUTES"), None, 4, 1);
    e.buffer = JsonNumber::Missing;
    assert_eq!(MeshoptView::parse(&e).unwrap_err(), "missing `buffer`");
    let mut e = ext(Some("ATTRIBUTES"), None, 4, 1);
    e.byte_offset = JsonNumber::Invalid;
    assert_eq!(MeshoptView::parse(&e).unwrap_err(), "`byteOffset` is not a non-negative integer");
    let mut e = ext(Some("ATTRIBUTES"), None, 4, 1);
    e.count = JsonNumber::Missing;
    assert_eq!(MeshoptView::parse(&e).unwrap_err(), "missing `count`");
}

#[test]
fn rule_errors() {
    assert_eq!(
        MeshoptView::parse(&ext(Some("ATTRIBUTES"), None, 6, 1)).unwrap_err(),
        "ATTRIBUTES byteStride 6 must be a multiple of 4 up to 256"
    );
    assert_eq!(
        MeshoptView::parse(&ext(Some("ATTRIBUTES"), None, 260, 1)).unwrap_err(),
        "ATTRIBUTES byteStride 260 must be a multiple of 4 up to 256"
    );
    assert_eq!(
        MeshoptView::parse(&ext(Some("TRIANGLES"), None, 8, 3)).unwrap_err(),
        "TRIANGLES byteStride 8 must be 2 or 4"
    );
    assert_eq!(
        MeshoptView::parse(&ext(Some("INDICES"), Some("COLOR"), 4, 3)).unwrap_err(),
        "INDICES data cannot use a filter"
    );
    assert_eq!(
        MeshoptView::parse(&ext(Some("TRIANGLES"), None, 2, 4)).unwrap_err(),
        "TRIANGLES count 4 is not a multiple of 3"
    );
    assert_eq!(
        MeshoptView::parse(&ext(Some("ATTRIBUTES"), Some("QUATERNION"), 4, 1)).unwrap_err(),
        "filter QUATERNION does not support byteStride 4"
    );
}

#[test]
fn accepted_views_obey_the_rules() {
    for mode in ["ATTRIBUTES", "TRIANGLES", "INDICES"] {
        for filter in [None, Some("OCTAHEDRAL"), Some("QUATERNION"), Some("EXPONENTIAL"), Some("COLOR")] {
            for stride in [0u64, 2, 4, 6, 8, 12, 256, 260] {
                for count in [0u64, 3, 4] {
                    if let Ok(v) = MeshoptView::parse(&ext(Some(mode), filter, stride, count)) {
                        if v.mode == MeshoptMode::Attributes {
                            assert!(v.byte_stride > 0 && v.byte_stride % 4 == 0 && v.byte_stride <= 256);
                        } else {
                            assert!(v.byte_stride == 2 || v.byte_stride == 4);
                            assert_eq!(v.filter, MeshoptFilter::Identity);
                        }
                        if v.mode == MeshoptMode::Triangles {
                            assert_eq!(v.count % 3, 0);
                        }
                    }
                }
            }
        }
    }
}

#[test]
fn range_checks() {
    let v = MeshoptView::parse(&ext(Some("ATTRIBUTES"), None, 4, 10)).unwrap();
    assert_eq!(v.ranges_check(&[100, 64], 1, 0, 40), Ok(()));
    assert_eq!(v.ranges_check(&[], 0, 0, 40).unwrap_err(), "compressed data names buffer 0, which does not exist");
    assert_eq!(v.ranges_check(&[50], 0, 0, 40).unwrap_err(), "compressed range 0+100 exceeds buffer 0 ( 50 bytes )");
    assert_eq!(v.ranges_check(&[100], 3, 0, 40).unwrap_err(), "view names buffer 3, which does not exist");
    assert_eq!(v.ranges_check(&[100, 30], 1, 0, 40).unwrap_err(), "view range 0+40 exceeds buffer 1 ( 30 bytes )");
    assert_eq!(v.ranges_check(&[100, 64], 1, 0, 39).unwrap_err(), "10 x 4 decoded bytes do not fit the view's 39");
}

#[test]
fn fallback_buffers() {
    assert!(buffer_is_fallback(&[None, Some(true)]));
    assert!(!buffer_is_fallback(&[None, Some(false)]));
    assert!(!buffer_is_fallback(&[]));
}

use renderer::meshopt::DecodeRanges;

#[test]
fn decode_ranges_after_checks() {
    let v = MeshoptView {
        buffer: 0,
        byte_offset: 16,
        byte_length: 100,
        byte_stride: 8,
        count: 10,
        mode: MeshoptMode::Attributes,
        filter: MeshoptFilter::Identity,
    };
    assert_eq!(
        v.decode_ranges(&[200, 80], 1, 0, 80),
        Ok(DecodeRanges { source_buffer: 0, source_start: 16, source_end: 116, target_buffer: 1, target_start: 0, target_end: 80 })
    );
    // The view's range is longer than what decodes into it: only the decoded part is written.
    assert_eq!(v.decode_ranges(&[200, 120], 1, 20, 100).map(|d| (d.target_start, d.target_end)), Ok((20, 100)));
    assert_eq!(v.decode_ranges(&[200, 80], 1, 0, 79), v.ranges_check(&[200, 80], 1, 0, 79).map(|_| unreachable!()));
    assert!(v.decode_ranges(&[50, 80], 1, 0, 80).is_err());
}
