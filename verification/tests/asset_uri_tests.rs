use renderer::asset_uri::{asset_uri_resolve, starts_with};

#[test]
fn folder_relative_uris_join_the_folder() {
    assert_eq!(asset_uri_resolve("assets/helmet", "buffer.bin"), "assets/helmet/buffer.bin");
    assert_eq!(asset_uri_resolve("assets", "textures/albedo.png"), "assets/textures/albedo.png");
    // A model loaded from a bare file name sits at the origin root.
    assert_eq!(asset_uri_resolve("", "buffer.bin"), "/buffer.bin");
}

#[test]
fn located_uris_are_kept() {
    for uri in [
        "http://example.com/a.bin",
        "https://example.com/a.bin",
        "//cdn.example.com/a.bin",
        "blob:https://example.com/1234",
        "data:application/octet-stream;base64,AAAA",
        "/static/a.bin",
    ] {
        assert_eq!(asset_uri_resolve("assets", uri), uri);
    }
    // Only a prefix counts.
    assert_eq!(asset_uri_resolve("assets", "my_data:x.bin"), "assets/my_data:x.bin");
    assert_eq!(asset_uri_resolve("assets", "http:/a.bin"), "assets/http:/a.bin");
}

#[test]
fn prefixes() {
    assert!(starts_with("data:abc", "data:"));
    assert!(starts_with("abc", ""));
    assert!(!starts_with("da", "data:"));
    assert!(!starts_with("xdata:", "data:"));
}
