use renderer::draco::{face_index_bytes, pack_point_values, slot_of, DracoExpandError};
use renderer::gltf_attributes::{accessor_attribute, define_symbol, GltfSemantic};
use renderer::morph::{primitive_displacements, skin_displacements, targets_pack};

fn owned(slot: (u32, &str, Option<&str>)) -> (u32, String, Option<String>) {
    (slot.0, slot.1.to_string(), slot.2.map(|s| s.to_string()))
}

#[test]
fn draco_slots() {
    assert_eq!(slot_of("POSITION"), Some(owned((0, "positions", None))));
    assert_eq!(slot_of("NORMAL"), Some(owned((1, "normals", None))));
    assert_eq!(slot_of("TANGENT"), Some(owned((9, "tangents", Some("tangents")))));
    assert_eq!(slot_of("TEXCOORD_0"), Some(owned((2, "texture_coordinates_2", None))));
    assert_eq!(slot_of("TEXCOORD_1"), Some(owned((3, "texture_coordinates_3", None))));
    assert_eq!(slot_of("COLOR_0"), Some(owned((7, "colors_7", None))));
    assert_eq!(slot_of("JOINTS_0"), Some(owned((10, "joints_0", Some("joints_0")))));
    assert_eq!(slot_of("WEIGHTS_1"), Some(owned((14, "weights_1", Some("weights_1")))));
}

#[test]
fn draco_slot_index_parsing() {
    assert_eq!(slot_of("TEXCOORD_+1"), Some(owned((3, "texture_coordinates_3", None))));
    assert_eq!(slot_of("TEXCOORD_01"), Some(owned((3, "texture_coordinates_3", None))));
    assert_eq!(slot_of("TEXCOORD_"), None);
    assert_eq!(slot_of("TEXCOORD_+"), None);
    assert_eq!(slot_of("TEXCOORD_-1"), None);
    assert_eq!(slot_of("TEXCOORD_x"), None);
    assert_eq!(slot_of("TEXCOORD_4294967296"), None);
    assert_eq!(slot_of("_CUSTOM"), None);
    assert_eq!(slot_of("position"), None);
}

#[test]
fn draco_matches_accessor_path() {
    let semantics = [
        ("POSITION", GltfSemantic::Positions),
        ("NORMAL", GltfSemantic::Normals),
        ("TANGENT", GltfSemantic::Tangents),
        ("TEXCOORD_0", GltfSemantic::TexCoords(0)),
        ("TEXCOORD_4", GltfSemantic::TexCoords(4)),
        ("COLOR_1", GltfSemantic::Colors(1)),
        ("JOINTS_2", GltfSemantic::Joints(2)),
        ("WEIGHTS_3", GltfSemantic::Weights(3)),
    ];
    for (name, semantic) in semantics {
        assert_eq!(slot_of(name), Some(accessor_attribute(semantic)));
    }
}

#[test]
fn accessor_defines() {
    assert_eq!(accessor_attribute(GltfSemantic::Tangents).2, Some("tangents".to_string()));
    assert_eq!(define_symbol("tangents"), "USE_TANGENTS");
    assert_eq!(define_symbol("joints_0"), "USE_JOINTS_0");
    assert_eq!(define_symbol("weights_12"), "USE_WEIGHTS_12");
}

#[test]
fn draco_point_values_expand() {
    let data = [10u8, 11, 12, 13, 20, 21, 22, 23, 30, 31, 32, 33];
    assert_eq!(pack_point_values(&data, &[2, 0, 2], 4, 2), Ok(vec![30, 31, 10, 11, 30, 31]));
    assert_eq!(pack_point_values(&data, &[1], 4, 4), Ok(vec![20, 21, 22, 23]));
    assert_eq!(pack_point_values(&data, &[], 4, 4), Ok(vec![]));
    assert_eq!(pack_point_values(&data, &[0], 2, 4), Err(DracoExpandError::NarrowerThanAccessor));
    assert_eq!(pack_point_values(&data, &[0, 3], 4, 4), Err(DracoExpandError::ValueOutOfRange));
}

#[test]
fn draco_face_indices_little_endian() {
    let bytes = face_index_bytes(&[[0, 1, 2], [2, 1, 0x0102_0304]]);
    assert_eq!(
        bytes,
        vec![0, 0, 0, 0, 1, 0, 0, 0, 2, 0, 0, 0, 2, 0, 0, 0, 1, 0, 0, 0, 4, 3, 2, 1]
    );
    assert!(face_index_bytes(&[]).is_empty());
}

#[test]
fn targets_interleave_vertex_major() {
    let a = vec![1u32, 2, 3];
    let b = vec![10u32, 20, 30, 40];
    assert_eq!(targets_pack(&vec![a, b]), vec![1, 10, 2, 20, 3, 30]);
    assert!(targets_pack::<u32>(&vec![]).is_empty());
}

#[test]
fn missing_targets_displace_nothing() {
    let targets = vec![Some(vec![[1i32, 1, 1], [2, 2, 2]]), None];
    assert_eq!(
        primitive_displacements(&targets, 2, [0, 0, 0]),
        vec![[1, 1, 1], [0, 0, 0], [2, 2, 2], [0, 0, 0]]
    );
}

#[test]
fn skin_concatenates_primitive_blocks() {
    let prims = vec![vec![Some(vec![5u8, 6])], vec![None, Some(vec![7u8])]];
    assert_eq!(skin_displacements(&prims, &[2, 1], 0), Some(vec![5, 6, 0, 7]));
    let none: Vec<Vec<Option<Vec<u8>>>> = vec![vec![], vec![]];
    assert_eq!(skin_displacements(&none, &[3, 4], 0), None);
}
