use c2patool::assemble::{
    assemble, check_definition, check_embed_output, check_report_output, claim_generator,
    ingredient_origin, load_ingredient, output_check, placement, resolve_ingredient_path,
    AssembleError, Declaration,
    IngredientEntry, IngredientOrigin, Placement,
};
use c2patool::extract::PathKind;
use c2patool::paths::{ext_normal, is_absolute, join, normalize_extension};

fn asset(file: &str) -> IngredientOrigin {
    IngredientOrigin::Asset { file: file.to_string() }
}

fn decl(ings: Vec<IngredientEntry>) -> Declaration {
    Declaration {
        claim_generator: "c2pa/0.36".to_string(),
        base_path: Some("/work".to_string()),
        ingredients: ings,
    }
}

fn origin_file(o: &IngredientOrigin) -> String {
    match o {
        IngredientOrigin::Asset { file } => format!("asset:{}", file),
        IngredientOrigin::Descriptor { file, .. } => format!("descriptor:{}", file),
        IngredientOrigin::Declared { index } => format!("declared:{}", index),
    }
}

#[test]
fn join_and_absolute() {
    assert_eq!(join("/a/b", "c.json"), "/a/b/c.json");
    assert_eq!(join("/a/b/", "c.json"), "/a/b/c.json");
    assert_eq!(join("", "c.json"), "c.json");
    assert_eq!(join("/a", "/x/y"), "/x/y");
    assert!(is_absolute("/x"));
    assert!(!is_absolute("x/y"));
}

#[test]
fn extensions_compare_normalized() {
    assert_eq!(ext_normal("photo.JPEG"), "jpg");
    assert_eq!(ext_normal("scan.Tiff"), "tif");
    assert_eq!(ext_normal("image.PNG"), "png");
    assert_eq!(ext_normal("noext"), "");
    assert_eq!(normalize_extension("jpeg"), "jpg");
    assert_eq!(normalize_extension("gif"), "gif");
}

#[test]
fn generator_records_tool_once() {
    assert_eq!(claim_generator("c2pa/0.36.4", "c2patool/0.9.0"), "c2patool/0.9.0");
    let g = claim_generator("make_test_images/0.1", "c2patool/0.9.0");
    assert_eq!(g, "make_test_images/0.1 c2patool/0.9.0");
    assert_eq!(g.matches("c2patool/0.9.0").count(), 1);
}

#[test]
fn ingredient_paths_resolve_against_declaration() {
    let base = Some("/decl/dir".to_string());
    assert_eq!(resolve_ingredient_path(&base, "a.json"), "/decl/dir/a.json");
    assert_eq!(resolve_ingredient_path(&base, "/abs/a.json"), "/abs/a.json");
    assert_eq!(resolve_ingredient_path(&None, "a.json"), "a.json");
}

#[test]
fn descriptor_resources_read_from_its_own_folder() {
    let base = Some("/decl".to_string());
    let p = resolve_ingredient_path(&base, "ingredients/a.json");
    match load_ingredient(&p, false) {
        IngredientOrigin::Descriptor { file, base } => {
            assert_eq!(file, "/decl/ingredients/a.json");
            assert_eq!(base, Some("/decl/ingredients".to_string()));
        }
        _ => panic!("expected a descriptor"),
    }
    match load_ingredient("/decl/folder", true) {
        IngredientOrigin::Descriptor { file, base } => {
            assert_eq!(file, "/decl/folder/ingredient.json");
            assert_eq!(base, Some("/decl/folder".to_string()));
        }
        _ => panic!("expected a descriptor"),
    }
    match load_ingredient("/decl/photo.jpg", false) {
        IngredientOrigin::Asset { file } => assert_eq!(file, "/decl/photo.jpg"),
        _ => panic!("expected an asset"),
    }
}

#[test]
fn explicit_parent_wins_over_source() {
    let ings = vec![IngredientEntry { origin: asset("/work/i.jpg"), is_parent: false }];
    for has_manifest in [false, true] {
        let plan = assemble(
            decl(vec![IngredientEntry { origin: asset("/work/i.jpg"), is_parent: false }]),
            "c2patool/0.9.0",
            Some(asset("parent.jpg")),
            &"source.jpg".to_string(),
            has_manifest,
            None,
            false,
        )
        .unwrap();
        let parents: Vec<String> = plan
            .ingredients
            .iter()
            .filter(|e| e.is_parent)
            .map(|e| origin_file(&e.origin))
            .collect();
        assert_eq!(parents, vec!["asset:parent.jpg".to_string()]);
        assert_eq!(plan.ingredients.len(), 2);
        assert_eq!(origin_file(&plan.ingredients[1].origin), "asset:/work/i.jpg");
        assert_eq!(plan.claim_generator, "c2patool/0.9.0");
        assert_eq!(plan.base_path, Some("/work".to_string()));
    }
    assert_eq!(ings.len(), 1);
}

#[test]
fn source_with_manifest_becomes_parent() {
    let plan = assemble(
        decl(vec![]),
        "c2patool/0.9.0",
        None,
        &"source.jpg".to_string(),
        true,
        None,
        true,
    )
    .unwrap();
    assert_eq!(plan.ingredients.len(), 1);
    assert!(plan.ingredients[0].is_parent);
    assert_eq!(origin_file(&plan.ingredients[0].origin), "asset:source.jpg");
    assert_eq!(plan.placement, Placement::Sidecar);
    let plain = assemble(
        decl(vec![]),
        "t/1",
        None,
        &"source.jpg".to_string(),
        false,
        None,
        false,
    )
    .unwrap();
    assert!(plain.ingredients.is_empty());
}

#[test]
fn second_parent_is_refused() {
    let r = assemble(
        decl(vec![IngredientEntry { origin: IngredientOrigin::Declared { index: 0 }, is_parent: true }]),
        "t/1",
        Some(asset("p.jpg")),
        &"s.jpg".to_string(),
        false,
        None,
        false,
    );
    assert_eq!(r.err(), Some(AssembleError::ParentExists));
    let kept = assemble(
        decl(vec![IngredientEntry { origin: IngredientOrigin::Declared { index: 0 }, is_parent: true }]),
        "t/1",
        None,
        &"s.jpg".to_string(),
        true,
        None,
        false,
    )
    .unwrap();
    assert_eq!(kept.ingredients.len(), 1);
    assert_eq!(origin_file(&kept.ingredients[0].origin), "declared:0");
}

#[test]
fn placements_are_exclusive() {
    let url = "https://example.com/m.c2pa".to_string();
    assert_eq!(placement(None, false), Placement::Embedded);
    assert_eq!(placement(None, true), Placement::Sidecar);
    assert_eq!(placement(Some(url.clone()), false), Placement::Remote { url: url.clone() });
    assert_eq!(
        placement(Some(url.clone()), true),
        Placement::EmbeddedWithRemoteRef { url }
    );
}

#[test]
fn embed_output_checks() {
    assert_eq!(check_embed_output("out.jpeg", "in.JPG", false, false), Ok(()));
    assert_eq!(
        check_embed_output("out.png", "in.jpg", false, false),
        Err(AssembleError::OutputTypeMismatch)
    );
    assert_eq!(
        check_embed_output("out.jpg", "in.jpg", true, false),
        Err(AssembleError::OutputExists)
    );
    assert_eq!(check_embed_output("out.jpg", "in.jpg", true, true), Ok(()));
    assert_eq!(
        check_embed_output("dir/..", "in", false, false),
        Err(AssembleError::MissingFileName)
    );
    assert_eq!(
        check_embed_output("out", "in", false, false),
        Err(AssembleError::MissingExtension)
    );
    assert_eq!(
        AssembleError::OutputExists.message(),
        "Output already exists, use -f/force to force write"
    );
}

#[test]
fn report_output_checks() {
    assert_eq!(check_report_output("out.jpg", PathKind::Missing, false), Err(AssembleError::OutputNotFolder));
    assert_eq!(check_report_output("out", PathKind::File, true), Err(AssembleError::OutputNotFolder));
    assert_eq!(check_report_output("out", PathKind::Folder, false), Err(AssembleError::OutputExists));
    assert_eq!(check_report_output("out", PathKind::Folder, true), Ok(true));
    assert_eq!(check_report_output("out", PathKind::Missing, false), Ok(false));
    assert_eq!(check_definition(false, true, false, false), Err(AssembleError::DefinitionRequired));
    assert_eq!(check_definition(true, true, true, true), Ok(()));
    assert_eq!(check_definition(false, false, false, false), Ok(()));
}

#[test]
fn ingredient_origin_from_parts() {
    let d = ingredient_origin(
        "/x/a.json".to_string(),
        Some("json".to_string()),
        Some("/x".to_string()),
    );
    assert_eq!(origin_file(&d), "descriptor:/x/a.json");
    let a = ingredient_origin("/x/a.JSON".to_string(), Some("JSON".to_string()), None);
    assert_eq!(origin_file(&a), "asset:/x/a.JSON");
}

#[test]
fn output_check_order() {
    let j = "jpg".to_string();
    let p = "png".to_string();
    assert_eq!(
        output_check(&j, &p, true, false, false, false),
        Err(AssembleError::OutputTypeMismatch)
    );
    assert_eq!(
        output_check(&j, &j, false, false, false, true),
        Err(AssembleError::MissingFileName)
    );
    assert_eq!(output_check(&j, &j, false, false, true, true), Ok(()));
}
