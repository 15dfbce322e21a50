use renderer::usda::{collect_asset_tokens, material_name, usda_mtlx_references, UsdaMtlxReference};

#[test]
fn material_names() {
    assert_eq!(material_name("def Material \"iceCube\" ("), Some("iceCube".to_string()));
    assert_eq!(material_name("    over Material \"gold\""), Some("gold".to_string()));
    assert_eq!(material_name("def Xform \"root\""), None);
    assert_eq!(material_name("def Material iceCube"), None);
    assert_eq!(material_name("def Material \"unterminated"), None);
}

#[test]
fn asset_tokens_with_targets() {
    let block = "    prepend references = @./iceCube.mtlx@</MaterialX/Materials/iceCube>\n";
    assert_eq!(
        collect_asset_tokens(block),
        vec![("./iceCube.mtlx".to_string(), Some("/MaterialX/Materials/iceCube".to_string()))]
    );
}

#[test]
fn asset_tokens_pair_only_the_target_written_after_them_and_skip_blank_ones() {
    let block = "references = [@ a.mtlx @, @  @, @b.mtlx@ </T>]\n";
    assert_eq!(
        collect_asset_tokens(block),
        vec![("a.mtlx".to_string(), None), ("b.mtlx".to_string(), Some("/T".to_string()))]
    );
    assert_eq!(
        collect_asset_tokens("references = [@b.usda@, @./a.mtlx@</M/a>]"),
        vec![("b.usda".to_string(), None), ("./a.mtlx".to_string(), Some("/M/a".to_string()))]
    );
    assert_eq!(collect_asset_tokens("@a.mtlx@ x </T>"), vec![("a.mtlx".to_string(), None)]);
    assert_eq!(collect_asset_tokens("@a.mtlx@ <unclosed"), vec![("a.mtlx".to_string(), None)]);
    assert_eq!(collect_asset_tokens("@x.mtlx@ and nothing else"), vec![("x.mtlx".to_string(), None)]);
    assert!(collect_asset_tokens("no tokens here").is_empty());
    assert!(collect_asset_tokens("@unterminated").is_empty());
}

#[test]
fn asset_tokens_are_never_empty() {
    for block in ["@@", "@ @x@ @", "@@@@@@", "a@b@c@ @d"] {
        for (asset, _) in collect_asset_tokens(block) {
            assert!(!asset.is_empty());
        }
    }
}

#[test]
fn references_of_a_document() {
    let usda = "#usda 1.0\n\
def Xform \"root\"\n\
{\n\
    def Material \"iceCube\" (\n\
        prepend references = @./iceCube.mtlx@</MaterialX/Materials/iceCube>\n\
    )\n\
    {\n\
    }\n\
    def Material \"plain\"\n\
    {\n\
    }\n\
}\n";
    let refs = usda_mtlx_references(usda);
    assert_eq!(
        refs,
        vec![UsdaMtlxReference {
            material: "iceCube".to_string(),
            mtlx_asset: "./iceCube.mtlx".to_string(),
            mtlx_target: Some("/MaterialX/Materials/iceCube".to_string()),
        }]
    );
}

#[test]
fn references_of_an_empty_document() {
    assert!(usda_mtlx_references("").is_empty());
    assert!(usda_mtlx_references("#usda 1.0\n").is_empty());
}

#[test]
fn a_reference_on_the_material_line_belongs_to_it() {
    let usda = [r#"def Material "gold" ( prepend references = @./gold.mtlx@ )"#, "{", "}"].join("\n");
    assert_eq!(
        usda_mtlx_references(&usda),
        vec![UsdaMtlxReference {
            material: "gold".to_string(),
            mtlx_asset: "./gold.mtlx".to_string(),
            mtlx_target: None,
        }]
    );
}

#[test]
fn a_material_opened_on_its_own_line_closes_on_its_brace() {
    let usda = "def Material \"a\" {\n    prepend references = @a.mtlx@</A>\n}\ndef Material \"b\" ( references = @b.mtlx@ )\n{\n}\n";
    assert_eq!(
        usda_mtlx_references(usda),
        vec![
            UsdaMtlxReference { material: "a".to_string(), mtlx_asset: "a.mtlx".to_string(), mtlx_target: Some("/A".to_string()) },
            UsdaMtlxReference { material: "b".to_string(), mtlx_asset: "b.mtlx".to_string(), mtlx_target: None },
        ]
    );
}
