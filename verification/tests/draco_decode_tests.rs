use draco_core::{
    DataType, EncoderBuffer, EncoderOptions, FaceIndex, GeometryAttributeType, Mesh, MeshEncoder, PointAttribute,
    PointIndex,
};
use renderer::draco::{
    decode_primitive_geometry, draco_geometry, normalize_divisor, AccessorFormat, ComponentType, DracoAttribute, DracoExpandError,
    DracoLoadError, DracoMesh,
};

fn triangle_bytes() -> Vec<u8> {
    let mut mesh = Mesh::new();
    let mut position = PointAttribute::new();
    position.init(GeometryAttributeType::Position, 3, DataType::Float32, false, 3);
    let positions: [[f32; 3]; 3] = [[0.0, 0.0, 0.0], [1.0, 0.0, 0.0], [0.0, 1.0, 0.0]];
    for (i, value) in positions.iter().enumerate() {
        let bytes: Vec<u8> = value.iter().flat_map(|v| v.to_le_bytes()).collect();
        position.buffer_mut().write(i * 12, &bytes);
    }
    mesh.add_attribute(position);
    mesh.set_num_faces(1);
    mesh.set_face(FaceIndex(0), [PointIndex(0), PointIndex(1), PointIndex(2)]);
    let mut encoder = MeshEncoder::new();
    encoder.set_mesh(mesh);
    let options = EncoderOptions::new();
    let mut out = EncoderBuffer::new();
    encoder.encode(&options, &mut out).expect("a triangle encodes");
    out.data().to_vec()
}

fn accessor(semantic: &str, components: u8) -> AccessorFormat {
    AccessorFormat { semantic: semantic.to_string(), component_type: ComponentType::F32, components, normalized: false }
}

#[test]
fn decoded_triangle_becomes_geometry() {
    let bytes = triangle_bytes();
    let map = vec![("POSITION".to_string(), 0u32)];
    let accessors = vec![accessor("POSITION", 3), accessor("CUSTOM_X", 1), accessor("NORMAL", 3)];
    let g = decode_primitive_geometry(&bytes, Some(&map), &accessors).expect("decodes");
    assert_eq!(g.vertex_count, 3);
    assert_eq!(g.index_count, 3);
    assert_eq!(g.index_bytes.len(), 12);
    // Only POSITION has a slot, a map entry and a decoded attribute.
    assert_eq!(g.uploads.len(), 1);
    assert_eq!(g.uploads[0].accessor, 0);
    assert_eq!(g.uploads[0].slot, 0);
    assert_eq!(g.uploads[0].name, "positions");
    assert_eq!(g.uploads[0].define, None);
    assert_eq!(g.uploads[0].packed.len(), 36);
    // Every face index names one of the three points.
    for corner in g.index_bytes.chunks(4) {
        assert!(u32::from_le_bytes([corner[0], corner[1], corner[2], corner[3]]) < 3);
    }
}

#[test]
fn draco_primitive_errors() {
    let bytes = triangle_bytes();
    let accessors = vec![accessor("POSITION", 3)];
    assert_eq!(
        decode_primitive_geometry(&bytes, None, &accessors).unwrap_err(),
        DracoLoadError::MissingAttributeMap
    );
    let garbage = vec![1u8, 2, 3, 4, 5];
    let err = decode_primitive_geometry(&garbage, Some(&[("POSITION".to_string(), 0)]), &accessors).unwrap_err();
    assert_eq!(err, DracoLoadError::Decode);
    assert_eq!(err.message(), "Failed to decode Draco geometry");
    // An accessor wider than the decoded values cannot be filled.
    let wide = vec![accessor("POSITION", 4)];
    let err = decode_primitive_geometry(&bytes, Some(&[("POSITION".to_string(), 0)]), &wide).unwrap_err();
    assert_eq!(err, DracoLoadError::Expand(DracoExpandError::NarrowerThanAccessor));
    assert_eq!(err.message(), "Draco attribute is narrower than its glTF accessor");
}

#[test]
fn decoded_mesh_expansion_is_exact() {
    // Two distinct values shared by three points, eight bytes apart.
    let mesh = DracoMesh {
        num_points: 3,
        attributes: vec![DracoAttribute {
            unique_id: 7,
            byte_stride: 8,
            data: vec![1, 2, 3, 4, 5, 6, 7, 8, 9, 10, 11, 12, 13, 14, 15, 16],
            value_indices: vec![1, 0, 1],
        }],
        faces: vec![[0, 1, 2]],
    };
    let map = vec![("TEXCOORD_0".to_string(), 7u32)];
    let acc = vec![AccessorFormat {
        semantic: "TEXCOORD_0".to_string(),
        component_type: ComponentType::U16,
        components: 2,
        normalized: true,
    }];
    let g = draco_geometry(&mesh, &map, &acc).expect("expands");
    assert_eq!(g.uploads[0].slot, 2);
    assert_eq!(g.uploads[0].name, "texture_coordinates_2");
    assert_eq!(g.uploads[0].packed, vec![9, 10, 11, 12, 1, 2, 3, 4, 9, 10, 11, 12]);
    assert_eq!(g.index_bytes, vec![0, 0, 0, 0, 1, 0, 0, 0, 2, 0, 0, 0]);
    // A value index past the buffer is out of range.
    let mut broken = mesh.clone();
    broken.attributes[0].value_indices = vec![0, 5, 1];
    assert_eq!(draco_geometry(&broken, &map, &acc).unwrap_err(), DracoExpandError::ValueOutOfRange);
    // A unique id the mesh lacks, or a semantic the map lacks, is passed over.
    let elsewhere = vec![("TEXCOORD_0".to_string(), 8u32)];
    assert!(draco_geometry(&mesh, &elsewhere, &acc).unwrap().uploads.is_empty());
    assert!(draco_geometry(&mesh, &[], &acc).unwrap().uploads.is_empty());
}

#[test]
fn normalized_component_divisors() {
    assert_eq!(normalize_divisor(ComponentType::I8), Some(127));
    assert_eq!(normalize_divisor(ComponentType::U8), Some(255));
    assert_eq!(normalize_divisor(ComponentType::I16), Some(32767));
    assert_eq!(normalize_divisor(ComponentType::U16), Some(65535));
    assert_eq!(normalize_divisor(ComponentType::U32), None);
    assert_eq!(normalize_divisor(ComponentType::F32), None);
}
