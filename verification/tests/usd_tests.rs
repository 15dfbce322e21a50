use renderer::usd::{
    asset_dir, asset_identifier, corner_value_index, corner_values, is_shading_type, normalize_asset_path,
    usd_mesh_topology, CornerField, Interpolation, MeshPrimvars, PrimvarLayout, TopologyError, UsdAssetProvider,
    UsdInMemoryResolver,
};
use renderer::usd_scene::{first_mtlx_reference, mtlx_asset, prim_kept, prim_name_and_parent, under_shading, UsdPurpose};

#[test]
fn normalize_strips_dot_and_empty_segments() {
    assert_eq!(normalize_asset_path("./gold.mtlx"), "gold.mtlx");
    assert_eq!(normalize_asset_path(".//gold.mtlx"), "gold.mtlx");
    assert_eq!(normalize_asset_path("gold.mtlx"), "gold.mtlx");
    assert_eq!(normalize_asset_path("a/./b//c"), "a/b/c");
    assert_eq!(normalize_asset_path("/abs/./x.usda"), "abs/x.usda");
    assert_eq!(normalize_asset_path(""), "");
}

#[test]
fn normalize_keeps_parent_segments() {
    assert_eq!(normalize_asset_path("a/../b"), "a/../b");
}

#[test]
fn normalize_is_idempotent_on_examples() {
    for p in ["./a//b/./c", "x", "", "./", "a/../b/", "/./x/"] {
        let once = normalize_asset_path(p);
        assert_eq!(normalize_asset_path(&once), once);
    }
}

#[test]
fn resolver_read_after_insert() {
    let mut r = UsdInMemoryResolver::new();
    assert!(r.get("gold.mtlx").is_none());
    r.insert("./gold.mtlx", vec![1, 2, 3]);
    assert_eq!(r.get("gold.mtlx"), Some(&vec![1, 2, 3]));
    assert_eq!(r.get(".//gold.mtlx"), Some(&vec![1, 2, 3]));
    assert!(r.get("silver.mtlx").is_none());
    r.insert("gold.mtlx", vec![9]);
    assert_eq!(r.get("./gold.mtlx"), Some(&vec![9]));
    r.insert("silver.mtlx", vec![7]);
    assert_eq!(r.get("gold.mtlx"), Some(&vec![9]));
    assert_eq!(r.get("silver.mtlx"), Some(&vec![7]));
}

#[test]
fn resolver_text_is_utf8_only() {
    let mut r = UsdInMemoryResolver::new();
    r.insert("a.mtlx", "<materialx/>".as_bytes().to_vec());
    r.insert("bad.bin", vec![0xff, 0xfe]);
    assert_eq!(r.text_of("a.mtlx"), Some("<materialx/>".to_string()));
    assert_eq!(r.asset_text("./a.mtlx"), Some("<materialx/>".to_string()));
    assert_eq!(r.text_of("bad.bin"), None);
    assert_eq!(r.text_of("missing"), None);
}

#[test]
fn asset_dir_cases() {
    assert_eq!(asset_dir("dir/sub/file.usda"), "dir/sub/");
    assert_eq!(asset_dir("file.usda"), "");
    assert_eq!(asset_dir("/root.usda"), "/");
}

#[test]
fn asset_identifier_cases() {
    assert_eq!(asset_identifier("./x.mtlx", None), "./x.mtlx");
    assert_eq!(asset_identifier("/abs.mtlx", Some("dir/scene.usda")), "/abs.mtlx");
    assert_eq!(asset_identifier("./x.mtlx", Some("dir/scene.usda")), "dir/x.mtlx");
    assert_eq!(asset_identifier("./x.mtlx", Some("dir\\sub\\scene.usda")), "dir/sub/x.mtlx");
    assert_eq!(asset_identifier("./x.mtlx", Some("scene.usda")), "x.mtlx");
    assert_eq!(asset_identifier("./x.mtlx", Some("/scene.usda")), "x.mtlx");
}

#[test]
fn shading_types() {
    assert!(is_shading_type(Some("Material")));
    assert!(is_shading_type(Some("Shader")));
    assert!(is_shading_type(Some("NodeGraph")));
    assert!(is_shading_type(Some("Look")));
    assert!(!is_shading_type(Some("Mesh")));
    assert!(!is_shading_type(Some("Xform")));
    assert!(!is_shading_type(None));
}

#[test]
fn interpolation_tokens() {
    assert_eq!(Interpolation::from_token(Some("faceVarying")), Interpolation::FaceVarying);
    assert_eq!(Interpolation::from_token(Some("uniform")), Interpolation::Uniform);
    assert_eq!(Interpolation::from_token(Some("constant")), Interpolation::Uniform);
    assert_eq!(Interpolation::from_token(Some("vertex")), Interpolation::Vertex);
    assert_eq!(Interpolation::from_token(None), Interpolation::Vertex);
}

#[test]
fn corner_value_indices() {
    assert_eq!(corner_value_index(Interpolation::Vertex, 5, 2, None), 5);
    assert_eq!(corner_value_index(Interpolation::Vertex, -3, 2, None), 0);
    assert_eq!(corner_value_index(Interpolation::Uniform, 5, 2, None), 0);
    assert_eq!(corner_value_index(Interpolation::FaceVarying, 5, 2, None), 2);
    let idx = vec![4, -1, 6];
    assert_eq!(corner_value_index(Interpolation::FaceVarying, 5, 2, Some(&idx)), 6);
    assert_eq!(corner_value_index(Interpolation::FaceVarying, 5, 1, Some(&idx)), 0);
    assert_eq!(corner_value_index(Interpolation::FaceVarying, 5, 7, Some(&idx)), 0);
}

fn no_primvars() -> MeshPrimvars {
    MeshPrimvars { normals: None, uvs: None, colors: None }
}

#[test]
fn quad_fans_into_two_triangles_sharing_corners() {
    let t = usd_mesh_topology(&[4], &[0, 1, 2, 3], 4, &no_primvars()).unwrap();
    let points: Vec<u32> = t.corners.iter().map(|k| k.0).collect();
    assert_eq!(points, vec![0, 1, 2, 3]);
    assert_eq!(t.indices, vec![0, 1, 2, 0, 2, 3]);
}

#[test]
fn face_varying_uvs_split_shared_points() {
    let pv = MeshPrimvars {
        normals: None,
        uvs: Some(PrimvarLayout { interpolation: Interpolation::FaceVarying, indices: None }),
        colors: None,
    };
    let t = usd_mesh_topology(&[3, 3], &[0, 1, 2, 0, 2, 3], 4, &pv).unwrap();
    assert_eq!(t.corners.len(), 6);
    assert_eq!(t.indices, vec![0, 1, 2, 3, 4, 5]);
    assert_eq!(t.corners[3], (0, None, Some(3), None));
}

#[test]
fn topology_round_trip_reproduces_corner_stream() {
    let t = usd_mesh_topology(&[4, 3], &[0, 1, 2, 3, 3, 2, 4], 5, &no_primvars()).unwrap();
    let expected_points = [0u32, 1, 2, 0, 2, 3, 3, 2, 4];
    assert_eq!(t.indices.len(), expected_points.len());
    for (j, &p) in expected_points.iter().enumerate() {
        assert_eq!(t.corners[t.indices[j] as usize].0, p);
    }
    for i in 0..t.corners.len() {
        for j in (i + 1)..t.corners.len() {
            assert_ne!(t.corners[i], t.corners[j]);
        }
    }
}

#[test]
fn topology_errors() {
    assert_eq!(
        usd_mesh_topology(&[4], &[0, 1, 2], 4, &no_primvars()).unwrap_err(),
        TopologyError::CornerCount { total: 4, available: 3 }
    );
    assert_eq!(
        usd_mesh_topology(&[3], &[0, 1, 7], 4, &no_primvars()).unwrap_err(),
        TopologyError::PointOutOfRange { point: 7, count: 4 }
    );
    assert_eq!(usd_mesh_topology(&[2, 1], &[0, 1, 2], 4, &no_primvars()).unwrap_err(), TopologyError::Empty);
}

#[test]
fn shading_subtrees() {
    let shading = vec!["/Looks".to_string(), "/World/Mat".to_string()];
    assert!(under_shading("/Looks", &shading));
    assert!(under_shading("/Looks/Gold/Shader", &shading));
    assert!(under_shading("/World/Mat/Surface", &shading));
    assert!(!under_shading("/World", &shading));
    assert!(!under_shading("/World/Mesh", &shading));
    assert!(!under_shading("/LooksLike", &shading));
    let with_root = vec!["/".to_string()];
    assert!(under_shading("/Anything/Below", &with_root));
}

#[test]
fn mtlx_assets() {
    assert!(mtlx_asset("./iceCube.mtlx"));
    assert!(mtlx_asset("dir/x.MTLX"));
    assert!(mtlx_asset("a.b.MtLx"));
    assert!(!mtlx_asset("scene.usda"));
    assert!(!mtlx_asset("mtlx"));
    assert!(!mtlx_asset("x.mtlx2"));
    let refs = vec!["./a.usda".to_string(), "./b.mtlx".to_string(), "./c.mtlx".to_string()];
    assert_eq!(first_mtlx_reference(&refs), Some("./b.mtlx".to_string()));
    assert_eq!(first_mtlx_reference(&vec!["./a.usda".to_string()]), None);
}

#[test]
fn corner_value_streams() {
    let pv = MeshPrimvars {
        normals: None,
        uvs: Some(PrimvarLayout { interpolation: Interpolation::FaceVarying, indices: Some(vec![0, 1, 9]) }),
        colors: None,
    };
    let t = usd_mesh_topology(&[3], &[2, 0, 1], 3, &pv).unwrap();
    let points = [[0.0f32, 0.0, 0.0], [1.0, 0.0, 0.0], [0.0, 1.0, 0.0]];
    assert_eq!(
        corner_values(&t.corners, CornerField::Point, &points, [9.0; 3]),
        vec![[0.0, 1.0, 0.0], [0.0, 0.0, 0.0], [1.0, 0.0, 0.0]]
    );
    let uvs = [[0.5f32, 0.5], [1.0, 1.0]];
    assert_eq!(
        corner_values(&t.corners, CornerField::Uv, &uvs, [0.0; 2]),
        vec![[0.5, 0.5], [1.0, 1.0], [0.0, 0.0]]
    );
    assert_eq!(corner_values(&t.corners, CornerField::Color, &[[0.2f32; 3]], [1.0; 3]), vec![[1.0; 3]; 3]);
}

#[test]
fn scene_prims_kept_by_the_gate() {
    // A visible default-purpose mesh and a plain group are kept.
    assert!(prim_kept(false, false, true, false, UsdPurpose::Default, true));
    assert!(prim_kept(false, false, true, false, UsdPurpose::Render, true));
    assert!(prim_kept(false, false, false, true, UsdPurpose::Guide, true));
    // The root, shading prims and inactive prims never are.
    assert!(!prim_kept(true, false, false, false, UsdPurpose::Default, true));
    assert!(!prim_kept(false, true, true, false, UsdPurpose::Default, true));
    assert!(!prim_kept(false, false, false, false, UsdPurpose::Default, false));
    // Invisible meshes, proxy and guide meshes are dropped.
    assert!(!prim_kept(false, false, true, true, UsdPurpose::Default, true));
    assert!(!prim_kept(false, false, true, false, UsdPurpose::Proxy, true));
    assert!(!prim_kept(false, false, true, false, UsdPurpose::Guide, true));
}

#[test]
fn scene_prim_names_and_parents() {
    assert_eq!(prim_name_and_parent("/root/arm/hand"), ("hand".to_string(), Some("/root/arm".to_string())));
    assert_eq!(prim_name_and_parent("/root"), ("root".to_string(), None));
    assert_eq!(prim_name_and_parent("/"), (String::new(), None));
}
