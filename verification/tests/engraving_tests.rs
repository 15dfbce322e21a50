use std::rc::Rc;

use renderer::engraving::{
    default_align, default_engraving_darkening, default_engraving_roughness, default_engraving_strength,
    default_padding, default_texture_height, mip_dimensions, mip_level_count, ChainMismatch, ChainUpload,
    EngravingBitmap, EngravingConfig, EngravingConfigError, EngravingNodeConfig, EngravingTexture, NodeIssue,
    SizingMode, TextAlign,
};
use renderer::material::{AlphaMode, TextureInfo};

fn bits(x: f32) -> u32 {
    x.to_bits()
}

fn node(name: &str) -> EngravingNodeConfig {
    EngravingNodeConfig {
        node_name: name.to_string(),
        uv_channel: 1,
        aspect_ratio: bits(4.0),
        max_characters: 12,
        default_font: "Serif".to_string(),
        allowed_fonts: vec!["Sans".to_string(), "Serif".to_string()],
        texture_height: default_texture_height(),
        padding: default_padding(),
        engraving_strength: default_engraving_strength(),
        engraving_roughness: default_engraving_roughness(),
        engraving_darkening: default_engraving_darkening(),
        sizing_mode: None,
        strip_height_mm: None,
        default_font_size_mm: None,
        min_font_size_mm: None,
        font_size_ratio: None,
        align: default_align(),
    }
}

fn issue_of(c: &EngravingNodeConfig) -> Option<NodeIssue> {
    match c.validate() {
        Ok(()) => None,
        Err(EngravingConfigError::Invalid { node, issue }) => {
            assert_eq!(node, c.node_name);
            Some(issue)
        },
        Err(EngravingConfigError::Json(m)) => panic!("unexpected json error {m}"),
    }
}

#[test]
fn defaults() {
    assert_eq!(default_texture_height(), 256);
    assert_eq!(default_align(), TextAlign::Center);
    assert_eq!(f32::from_bits(default_padding()), 0.1);
    assert_eq!(f32::from_bits(default_engraving_strength()), 1.0);
    assert_eq!(f32::from_bits(default_engraving_roughness()), 0.7);
    assert_eq!(f32::from_bits(default_engraving_darkening()), 0.35);
    assert_eq!(AlphaMode::default(), AlphaMode::Opaque);
}

#[test]
fn css_keywords() {
    assert_eq!(TextAlign::Left.css(), "left");
    assert_eq!(TextAlign::Center.css(), "center");
    assert_eq!(TextAlign::Right.css(), "right");
}

#[test]
fn valid_node_passes() {
    assert_eq!(issue_of(&node("Ring")), None);
}

#[test]
fn each_rule_is_reported() {
    let mut c = node("");
    assert_eq!(issue_of(&c), Some(NodeIssue::EmptyNodeName));
    c = node("Ring");
    c.uv_channel = 5;
    assert_eq!(issue_of(&c), Some(NodeIssue::UvChannel(5)));
    c = node("Ring");
    c.aspect_ratio = bits(0.0);
    assert_eq!(issue_of(&c), Some(NodeIssue::AspectRatio(bits(0.0))));
    c = node("Ring");
    c.max_characters = 0;
    assert_eq!(issue_of(&c), Some(NodeIssue::MaxCharacters));
    c = node("Ring");
    c.allowed_fonts.clear();
    assert_eq!(issue_of(&c), Some(NodeIssue::NoAllowedFonts));
    c = node("Ring");
    c.default_font = "Mono".to_string();
    assert_eq!(issue_of(&c), Some(NodeIssue::DefaultFontNotAllowed));
    c = node("Ring");
    c.padding = bits(0.5);
    assert_eq!(issue_of(&c), Some(NodeIssue::Padding(bits(0.5))));
    c = node("Ring");
    c.padding = bits(f32::NAN);
    assert_eq!(issue_of(&c), Some(NodeIssue::Padding(bits(f32::NAN))));
    c = node("Ring");
    c.sizing_mode = Some(SizingMode::Physical);
    assert_eq!(issue_of(&c), Some(NodeIssue::SizingModeNeedsPhysical(SizingMode::Physical)));
    c = node("Ring");
    c.strip_height_mm = Some(bits(-1.0));
    assert_eq!(issue_of(&c), Some(NodeIssue::StripHeight(bits(-1.0))));
    c = node("Ring");
    c.default_font_size_mm = Some(bits(0.0));
    assert_eq!(issue_of(&c), Some(NodeIssue::DefaultFontSize(bits(0.0))));
    c = node("Ring");
    c.min_font_size_mm = Some(bits(-2.0));
    assert_eq!(issue_of(&c), Some(NodeIssue::MinFontSize(bits(-2.0))));
    c = node("Ring");
    c.min_font_size_mm = Some(bits(3.0));
    c.default_font_size_mm = Some(bits(2.0));
    assert_eq!(issue_of(&c), Some(NodeIssue::MinExceedsDefault { min: bits(3.0), default: bits(2.0) }));
    c = node("Ring");
    c.font_size_ratio = Some(bits(1.5));
    assert_eq!(issue_of(&c), Some(NodeIssue::FontSizeRatio(bits(1.5))));
    c = node("Ring");
    c.font_size_ratio = Some(bits(0.0));
    assert_eq!(issue_of(&c), Some(NodeIssue::FontSizeRatio(bits(0.0))));
    c = node("Ring");
    c.font_size_ratio = Some(bits(1.0));
    assert_eq!(issue_of(&c), None);
}

#[test]
fn sizing_mode_resolution() {
    let mut c = node("Ring");
    assert_eq!(c.resolved_sizing_mode(), SizingMode::Relative);
    c.strip_height_mm = Some(bits(10.0));
    c.default_font_size_mm = Some(bits(5.0));
    assert_eq!(c.resolved_sizing_mode(), SizingMode::Hybrid);
    c.sizing_mode = Some(SizingMode::Physical);
    assert_eq!(c.resolved_sizing_mode(), SizingMode::Physical);
    assert_eq!(c.text_layout().resolved_sizing_mode(), SizingMode::Physical);
    let layout = c.text_layout();
    assert_eq!(layout.max_characters, 12);
    assert_eq!(layout.align, TextAlign::Center);
}

#[test]
fn config_from_nodes() {
    let cfg = EngravingConfig::from_nodes(vec![node("A"), node("B"), node("A")]).unwrap();
    assert_eq!(cfg.nodes.len(), 3);
    assert_eq!(cfg.node("B").map(|n| n.node_name.clone()), Some("B".to_string()));
    assert!(cfg.node("C").is_none());
    let mut bad = node("Bad");
    bad.max_characters = 0;
    let mut worse = node("Worse");
    worse.uv_channel = 9;
    match EngravingConfig::from_nodes(vec![node("A"), bad, worse]) {
        Err(EngravingConfigError::Invalid { node, issue }) => {
            assert_eq!(node, "Bad");
            assert_eq!(issue, NodeIssue::MaxCharacters);
        },
        _ => panic!("expected the first invalid node"),
    }
}

#[test]
fn mip_level_counts() {
    assert_eq!(mip_level_count(0, 0), 0);
    assert_eq!(mip_level_count(1, 1), 1);
    assert_eq!(mip_level_count(256, 128), 9);
    assert_eq!(mip_level_count(255, 3), 8);
    assert_eq!(mip_level_count(3, 1024), 11);
    assert_eq!(mip_level_count(u32::MAX, 1), 32);
}

#[test]
fn mip_chain_ends_at_one_texel() {
    for (w, h) in [(1u32, 1u32), (256, 128), (255, 3), (7, 1000), (1, 2)] {
        let levels = mip_level_count(w, h);
        assert!(levels >= 1);
        assert_eq!(mip_dimensions(w, h, levels - 1), (1, 1));
        if levels >= 2 {
            let (pw, ph) = mip_dimensions(w, h, levels - 2);
            assert!(pw > 1 || ph > 1);
        }
    }
    assert_eq!(mip_dimensions(256, 128, 1), (128, 64));
    assert_eq!(mip_dimensions(5, 3, 1), (2, 1));
    assert_eq!(mip_dimensions(5, 3, 4), (1, 1));
}

fn bitmap(width: u32, height: u32) -> EngravingBitmap {
    EngravingBitmap { width, height, pixels: vec![0; (width * height * 4) as usize] }
}

#[test]
fn engraving_texture_updates() {
    let info = TextureInfo { texture: Rc::new(7u32), uv_position: 1 };
    let tex = EngravingTexture::new(info, 8, 4);
    assert_eq!(tex.width(), 8);
    assert_eq!(tex.height(), 4);
    assert_eq!(tex.level_count(), 4);
    let shared = tex.texture_info();
    assert_eq!(*shared.texture, 7);
    assert_eq!(shared.uv_position, 1);

    let good = [bitmap(8, 4), bitmap(4, 2), bitmap(2, 1), bitmap(1, 1)];
    assert_eq!(tex.update_plan(&good), ChainUpload { upload: 4, error: None });
    assert_eq!(
        tex.update_plan(&good[..3]),
        ChainUpload { upload: 0, error: Some(ChainMismatch::LevelCount) }
    );
    let bad = [bitmap(8, 4), bitmap(4, 2), bitmap(2, 2), bitmap(1, 1)];
    assert_eq!(tex.update_plan(&bad), ChainUpload { upload: 2, error: Some(ChainMismatch::LevelSize) });
}

use renderer::engraving_session::{engraving_target_check, EngravingError, EngravingTarget};

#[test]
fn engraving_targets_checked_per_node() {
    let name = "Plate".to_string();
    assert_eq!(engraving_target_check(&name, &EngravingTarget::Mesh(vec![true, true])), Ok(()));
    assert_eq!(engraving_target_check(&name, &EngravingTarget::Missing), Err(EngravingError::NodeNotFound(name.clone())));
    assert_eq!(engraving_target_check(&name, &EngravingTarget::NotAMesh), Err(EngravingError::NotAMesh(name.clone())));
    assert_eq!(engraving_target_check(&name, &EngravingTarget::Mesh(vec![])), Err(EngravingError::NotAMesh(name.clone())));
    assert_eq!(
        engraving_target_check(&name, &EngravingTarget::Mesh(vec![true, false])),
        Err(EngravingError::MaterialNotPbr(name.clone()))
    );
}

#[test]
fn engraving_error_messages() {
    let n = "Plate".to_string();
    assert_eq!(EngravingError::NodeNotFound(n.clone()).message(), "no node named 'Plate' in the scene");
    assert_eq!(EngravingError::NotAMesh(n.clone()).message(), "node 'Plate' is not a mesh with at least one primitive");
    assert_eq!(EngravingError::MaterialNotPbr(n.clone()).message(), "node 'Plate's material is not a PbrMaterial");
    assert_eq!(EngravingError::UnknownNode(n).message(), "no engraving config for node 'Plate'");
}

#[test]
fn text_length_counts_characters_not_bytes() {
    let layout = renderer::engraving::EngravingTextLayout {
        max_characters: 3,
        padding: 0.0f32.to_bits(),
        align: renderer::engraving::TextAlign::Center,
        sizing_mode: None,
        strip_height_mm: None,
        default_font_size_mm: None,
        min_font_size_mm: None,
        font_size_ratio: None,
    };
    // Three characters, six bytes: within the limit.
    assert_eq!(renderer::engraving::text_length_check("äöü", &layout), Ok(3));
    assert_eq!(renderer::engraving::text_length_check("", &layout), Ok(0));
    assert_eq!(
        renderer::engraving::text_length_check("abcd", &layout),
        Err(renderer::engraving::TooManyCharacters { got: 4, max: 3 })
    );
}
