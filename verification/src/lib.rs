//! Verified core of a physically based WebGL renderer: container and
//! extension decoding for its asset loaders (KTX2, meshopt, Draco, glTF
//! attributes and animation keyframes, USD and MaterialX), engraving
//! configuration and textures, animation mirroring, transitions and the
//! animation state graph, and the integer and
//! string logic of its render passes.

pub mod asset_uri;
pub mod blending;
pub mod draco;
pub mod engraving;
pub mod engraving_session;
pub mod f32_bits;
pub mod gbuffer;
pub mod gltf_attributes;
pub mod graph;
pub mod jfa;
pub mod keyframes;
pub mod ktx2;
pub mod light;
pub mod material;
pub mod meshopt;
pub mod mirror;
pub mod morph;
pub mod mtlx;
pub mod openpbr;
pub mod picking;
pub mod pose;
pub mod programs;
pub mod scaling;
pub mod shader_defines;
pub mod text;
pub mod transition;
pub mod transmission;
pub mod usd;
pub mod usd_scene;
pub mod usda;

pub use asset_uri::asset_uri_resolve;
pub use engraving::{
    default_align, default_texture_height, mip_level_count, EngravingBitmap, EngravingConfig,
    EngravingConfigError, EngravingNodeConfig, EngravingTexture, SizingMode, TextAlign,
};
pub use gbuffer::GBufferAttachment;
pub use graph::AnimationGraph;
pub use ktx2::{Ktx2Image, Wrapping};
pub use light::LightType;
pub use material::{AlphaMode, TextureInfo};
pub use meshopt::MeshoptView;
pub use mirror::{Mirror, MirrorPlane};
pub use openpbr::{bool_set, is_scalar_type, MtlxError};
pub use picking::{pick_in_bounds, readback_to_pick_id, IdBufferSize, PickId, PICK_ID_NONE};
pub use programs::{
    CompositeShader, EmptyShader, GBufferShader, GaussianFilterShader, JfaOutlineInitShader,
    JfaOutlineObjectShader, JfaOutlineShader, JfaOutlineStepShader, NarrowOutlineShader,
    NormalDepthOutlineBaseShader, NormalDepthOutlineObjectShader, NormalDepthOutlineShader,
    PBRShader, ToneMappingAces, ToneMappingPass, UnrealBloomShader, WideOutlineInitShader,
    WideOutlineShader, WideOutlineStepShader,
};
pub use usd::{asset_dir, corner_value_index, is_shading_type, normalize_asset_path, UsdAssetProvider, UsdInMemoryResolver};
pub use usda::{collect_asset_tokens, material_name, usda_mtlx_references, UsdaMtlxReference};
