use renderer::transmission::fallback_slab_thickness;

fn bits(e: [f32; 3]) -> [u32; 3] {
    [e[0].to_bits(), e[1].to_bits(), e[2].to_bits()]
}

#[test]
fn smallest_positive_extent() {
    assert_eq!(f32::from_bits(fallback_slab_thickness(bits([2.0, 0.5, 3.0]))), 0.5);
    assert_eq!(f32::from_bits(fallback_slab_thickness(bits([4.0, 4.0, 4.0]))), 4.0);
    // A flat pane: the zero extent is ignored.
    assert_eq!(f32::from_bits(fallback_slab_thickness(bits([1.0, 0.0, 2.0]))), 1.0);
    // Non-finite and negative extents are ignored too.
    assert_eq!(f32::from_bits(fallback_slab_thickness(bits([f32::NAN, -1.0, 7.5]))), 7.5);
    assert_eq!(f32::from_bits(fallback_slab_thickness(bits([f32::INFINITY, 1e-3, f32::NEG_INFINITY]))), 1e-3);
}

#[test]
fn degenerate_extent_is_thin_walled() {
    assert_eq!(fallback_slab_thickness(bits([0.0, -0.0, f32::NAN])), 0.0f32.to_bits());
    assert_eq!(fallback_slab_thickness(bits([f32::INFINITY, -2.0, 0.0])), 0.0f32.to_bits());
}
