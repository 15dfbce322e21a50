use renderer::gbuffer::{all_attachments, into_defines, AttachmentAttribute, GBufferAttachment};
use renderer::picking::{pick_in_bounds, readback_to_pick_id, IdBufferSize, SizeAction, PICK_ID_NONE};
use renderer::programs::{
    CompositeShader, EmptyShader, GBufferShader, GaussianFilterShader, JfaOutlineInitShader, JfaOutlineObjectShader,
    JfaOutlineShader, JfaOutlineStepShader, NarrowOutlineShader, NormalDepthOutlineBaseShader,
    NormalDepthOutlineObjectShader, NormalDepthOutlineShader, PBRShader, ToneMappingPass, UnrealBloomShader,
    WideOutlineInitShader, WideOutlineShader, WideOutlineStepShader,
};

#[test]
fn gbuffer_define_names() {
    assert_eq!(GBufferAttachment::Position.define_const(), "POSITION");
    assert_eq!(GBufferAttachment::Uv1.define_const(), "UV_1");
    assert_eq!(GBufferAttachment::PbrInfo.define_const(), "PBR_INFO");
    assert_eq!(GBufferAttachment::ObjectColor.define_const(), "OBJECT_COLOR");
    let all = all_attachments();
    for i in 0..all.len() {
        for j in 0..all.len() {
            if i != j {
                assert_ne!(all[i].define_const(), all[j].define_const());
            }
        }
    }
}

#[test]
fn gbuffer_defines_block() {
    assert_eq!(
        into_defines(&[GBufferAttachment::Albedo, GBufferAttachment::Normal]),
        " #define ALBEDO\n #define NORMAL\n"
    );
    assert_eq!(into_defines(&[]), "");
}

#[test]
fn gbuffer_attribute_layouts() {
    assert_eq!(
        GBufferAttachment::Position.attribute_layout(),
        Some(AttachmentAttribute { location: 0, components: 3, normalized: false })
    );
    assert_eq!(
        GBufferAttachment::Color.attribute_layout(),
        Some(AttachmentAttribute { location: 1, components: 4, normalized: true })
    );
    assert_eq!(
        GBufferAttachment::Uv1.attribute_layout(),
        Some(AttachmentAttribute { location: 3, components: 2, normalized: true })
    );
    assert_eq!(GBufferAttachment::Albedo.attribute_layout(), None);
    assert_eq!(GBufferAttachment::PbrInfo.attribute_layout(), None);
}

#[test]
fn shader_uniforms() {
    assert!(EmptyShader::uniform_names().is_empty());
    assert_eq!(PBRShader::uniform_names().len(), 28);
    assert_eq!(PBRShader::uniform_names()[0], "cameraPosition");
    assert_eq!(PBRShader::uniform_names()[27], "exposure");
    assert_eq!(GaussianFilterShader::uniform_names(), vec!["sourceTexture", "invSize", "blurDir", "kernel"]);
    assert_eq!(UnrealBloomShader::uniform_names().len(), 9);
    assert_eq!(GBufferShader::uniform_names()[4], "near_far");
    assert_eq!(CompositeShader::uniform_names(), vec!["transparentA", "transparentB"]);
    assert_eq!(JfaOutlineObjectShader::uniform_names(), vec!["u_projection", "u_view", "u_model"]);
    assert_eq!(JfaOutlineInitShader::uniform_names(), vec!["u_object_texture"]);
    assert_eq!(JfaOutlineStepShader::uniform_names().len(), 3);
    assert_eq!(JfaOutlineShader::uniform_names().len(), 7);
    assert_eq!(NormalDepthOutlineObjectShader::uniform_names()[5], "far");
    assert_eq!(NormalDepthOutlineShader::uniform_names().len(), 7);
    assert_eq!(NormalDepthOutlineBaseShader::uniform_names()[6], "outlineThickness");
    assert_eq!(NarrowOutlineShader::uniform_names().len(), 5);
    assert_eq!(WideOutlineInitShader::uniform_names(), vec!["objectColorTexture"]);
    assert_eq!(WideOutlineStepShader::uniform_names(), vec!["jfaTexture", "resolution", "stepSize"]);
    assert_eq!(WideOutlineShader::uniform_names().len(), 4);
}

#[test]
fn tone_mapping_writes_elsewhere() {
    assert!(!ToneMappingPass::aces().renders_to_input());
}

#[test]
fn pick_bounds_and_readback() {
    assert!(pick_in_bounds(0, 0, 1, 1));
    assert!(!pick_in_bounds(1, 0, 1, 1));
    assert!(!pick_in_bounds(-1, 0, 10, 10));
    assert!(!pick_in_bounds(0, 0, 0, 0));
    assert!(pick_in_bounds(i32::MAX - 1, 0, i32::MAX as u32, 1));
    assert_eq!(readback_to_pick_id(0), None);
    assert_eq!(PICK_ID_NONE, 0);
    assert_eq!(readback_to_pick_id(5), Some(5));
    assert_eq!(readback_to_pick_id(65535), Some(65535));
    assert_eq!(readback_to_pick_id(65536), None);
}

#[test]
fn id_buffer_resizing() {
    let empty = IdBufferSize::empty();
    assert_eq!(empty.size_action(0, 0), SizeAction::Keep);
    assert_eq!(empty.size_action(0, 5), SizeAction::Release);
    let a = empty.size_action(640, 480);
    assert_eq!(a, SizeAction::Allocate { width: 640, height: 480 });
    let sized = empty.after(a, true);
    assert_eq!(sized, IdBufferSize { width: 640, height: 480, storage: true });
    assert_eq!(sized.size_action(640, 480), SizeAction::Keep);
    assert_eq!(sized.after(SizeAction::Keep, false), sized);
    assert_eq!(empty.after(a, false), IdBufferSize::empty());
    assert_eq!(sized.size_action(3_000_000_000, 4), SizeAction::WidthTooLarge);
    assert_eq!(sized.size_action(4, 3_000_000_000), SizeAction::HeightTooLarge);
    assert_eq!(sized.after(SizeAction::WidthTooLarge, true), IdBufferSize::empty());
    assert_eq!(sized.after(sized.size_action(0, 480), true), IdBufferSize::empty());
    assert!(sized.reads_pixel(639, 479));
    assert!(!sized.reads_pixel(640, 0));
    assert!(!empty.reads_pixel(0, 0));
}

use renderer::material::AlphaMode;
use renderer::shader_defines::{material_fragment_defines, pbr_local_defines, FactorPresence, MaterialTextureSets};

fn no_textures() -> MaterialTextureSets {
    MaterialTextureSets {
        base_color: None,
        metallic_roughness: None,
        emissive: None,
        specular: None,
        specular_color: None,
        normal: None,
        occlusion: None,
        light_map: None,
    }
}

#[test]
fn pbr_defines_follow_textures() {
    assert_eq!(pbr_local_defines(&no_textures(), false, false, AlphaMode::Opaque), "");
    let mut t = no_textures();
    t.base_color = Some(0);
    t.normal = Some(1);
    t.light_map = Some(2);
    assert_eq!(
        pbr_local_defines(&t, false, false, AlphaMode::Mask),
        "#define USE_BASE_COLOR_TEXTURE\n#define vBaseColorUv vUv_0\n\
#define USE_NORMAL_TEXTURE\n#define vNormalUv vUv_1\n\
#define USE_ALPHA_CUTOFF\n\
#define USE_LIGHT_MAP\n#define vLightMapUv vUv_2\n"
    );
    let mut t = no_textures();
    t.specular_color = Some(3);
    assert_eq!(
        pbr_local_defines(&t, false, false, AlphaMode::Blend),
        "#define USE_KHR_materials_specular\n#define USE_SPECULAR_COLOR_TEXTURE\n#define vSpecularColorUv vUv_3\n"
    );
    assert_eq!(pbr_local_defines(&no_textures(), true, false, AlphaMode::Opaque), "#define USE_KHR_materials_specular\n");
}

#[test]
fn basic_material_defines() {
    let none = FactorPresence {
        base_color: false,
        metallic: false,
        roughness: false,
        specular: false,
        specular_color: false,
        alpha_cutoff: false,
    };
    assert_eq!(material_fragment_defines(&no_textures(), &none, AlphaMode::Mask), "");
    let f = FactorPresence { base_color: true, alpha_cutoff: true, ..none };
    let mut t = no_textures();
    t.light_map = Some(1);
    t.occlusion = Some(12);
    assert_eq!(
        material_fragment_defines(&t, &f, AlphaMode::Mask),
        "#define USE_PBR\n#define USE_OCCLUSION_TEXTURE\n#define vOcclusionUv vUv_12\n#define USE_ALPHA_CUTOFF\n"
    );
    assert_eq!(material_fragment_defines(&t, &f, AlphaMode::Opaque), "#define USE_PBR\n#define USE_OCCLUSION_TEXTURE\n#define vOcclusionUv vUv_12\n");
}

use renderer::jfa::{jfa_final_buffer, jfa_step_source, jfa_step_target, jfa_step_targets_fb0, JfaBuffer};

#[test]
fn jfa_buffers_ping_pong() {
    assert!(jfa_step_targets_fb0(0));
    assert!(!jfa_step_targets_fb0(1));
    assert!(jfa_step_targets_fb0(2));
    assert_eq!(jfa_step_target(0), JfaBuffer::Step0);
    assert_eq!(jfa_step_target(3), JfaBuffer::Step1);
    assert_eq!(jfa_step_source(0), JfaBuffer::Init);
    assert_eq!(jfa_step_source(1), JfaBuffer::Step0);
    assert_eq!(jfa_step_source(2), JfaBuffer::Step1);
    assert_eq!(jfa_final_buffer(0), JfaBuffer::Step0);
    assert_eq!(jfa_final_buffer(1), JfaBuffer::Step0);
    assert_eq!(jfa_final_buffer(4), JfaBuffer::Step1);
    for n in 1..10u32 {
        assert_eq!(jfa_final_buffer(n), jfa_step_source(n));
        assert_ne!(jfa_step_source(n), jfa_step_target(n));
    }
}

#[test]
fn pick_ids_read_back_as_written() {
    assert_eq!(readback_to_pick_id(u32::from(PICK_ID_NONE)), None);
    for id in [1u16, 2, 255, 256, 40_000, u16::MAX] {
        assert_eq!(readback_to_pick_id(u32::from(id)), Some(id));
    }
    assert_eq!(readback_to_pick_id(u32::from(u16::MAX) + 1), None);
}

use renderer::shader_defines::defines_block;

#[test]
fn material_define_strings() {
    let vertex = vec![("USE_SKINNING".to_string(), "1".to_string())];
    let fragment = vec![("USE_IBL".to_string(), "1".to_string()), ("MAX_LIGHTS".to_string(), "8".to_string())];
    let local = "#define USE_PBR\n";
    assert_eq!(defines_block("", &vertex), "#define USE_SKINNING 1");
    assert_eq!(defines_block(local, &fragment), "#define USE_PBR\n#define USE_IBL 1#define MAX_LIGHTS 8");
    let all = defines_block(&defines_block(local, &vertex), &fragment);
    assert_eq!(all, "#define USE_PBR\n#define USE_SKINNING 1#define USE_IBL 1#define MAX_LIGHTS 8");
    let joined: Vec<(String, String)> = vertex.iter().chain(fragment.iter()).cloned().collect();
    assert_eq!(all, defines_block(local, &joined));
    assert_eq!(defines_block(local, &[]), local);
}
