use c2patool::extract::{
    safe_name, Extract, ExtractError, ExtractStep, OutputPrep, PathKind, Resources, Trust,
};
use c2patool::graph::{active_index, walk, IngredientNode, ManifestGraph, ManifestNode, ResourceRef};

fn no_trust() -> Trust {
    Trust { trust_anchors: None, allowed_list: None, trust_config: None }
}

fn resources(paths: Vec<&str>, output: &str, force: bool, unknown: bool) -> Resources {
    Resources {
        paths: paths.into_iter().map(|s| s.to_string()).collect(),
        output: output.to_string(),
        force,
        unknown,
        trust: no_trust(),
    }
}

fn res(id: &str, format: &str) -> ResourceRef {
    ResourceRef { identifier: id.to_string(), format: format.to_string() }
}

fn node(label: &str, links: Vec<&str>, resources: Vec<ResourceRef>) -> ManifestNode {
    ManifestNode {
        label: Some(label.to_string()),
        title: None,
        thumbnail_format: None,
        ingredients: links
            .into_iter()
            .map(|l| IngredientNode {
                title: "i".to_string(),
                thumbnail_format: None,
                active_manifest: Some(l.to_string()),
            })
            .collect(),
        resources,
    }
}

#[test]
fn self_referential_store_walks_each_manifest_once() {
    let g = ManifestGraph {
        manifests: vec![
            node("a", vec!["a", "b"], vec![res("t.jpg", "image/jpeg")]),
            node("b", vec!["a", "b", "missing"], vec![res("u.png", "image/png")]),
            node("c", vec![], vec![res("v.png", "image/png")]),
        ],
        active_label: Some("a".to_string()),
    };
    let w = walk(&g, 0);
    assert_eq!(w.pre, vec![0, 1]);
    assert_eq!(w.post, vec![1, 0]);
    let r = resources(vec!["x.jpg"], "out", true, false);
    let plan = r.extract_resources(&g).unwrap();
    let paths: Vec<String> = plan.writes.iter().map(|w| w.path.clone()).collect();
    assert_eq!(paths, vec!["out/a/t.jpg".to_string(), "out/b/u.png".to_string()]);
}

#[test]
fn ingredient_declaration_scenario() {
    let g = ManifestGraph {
        manifests: vec![
            node(
                "urn:uuid:top",
                vec!["urn:uuid:a"],
                vec![res("self#jumbf=c2pa.thumbnail.claim.jpeg", "image/jpeg")],
            ),
            node(
                "urn:uuid:a",
                vec![],
                vec![res("a_thumb.jpg", "image/jpeg"), res("blob", "application/octet-stream")],
            ),
        ],
        active_label: Some("urn:uuid:top".to_string()),
    };
    let r = resources(vec!["signed.jpg"], "out/", true, false);
    let plan = r.extract_resources(&g).unwrap();
    assert_eq!(plan.order, vec![0, 1]);
    let got: Vec<(usize, usize, String)> =
        plan.writes.iter().map(|w| (w.manifest, w.resource, w.path.clone())).collect();
    assert_eq!(
        got,
        vec![
            (0, 0, "out/urn_uuid_top/self#jumbf=c2pa.thumbnail.claim.jpeg".to_string()),
            (1, 0, "out/urn_uuid_a/a_thumb.jpg".to_string()),
        ]
    );
    let with_unknown = resources(vec!["signed.jpg"], "out", true, true);
    let plan = with_unknown.extract_resources(&g).unwrap();
    assert_eq!(plan.writes.len(), 3);
    assert_eq!(plan.writes[2].path, "out/urn_uuid_a/blob");
}

#[test]
fn missing_active_manifest_fails() {
    let r = resources(vec!["x.jpg"], "out", true, false);
    let g = ManifestGraph { manifests: vec![node("a", vec![], vec![])], active_label: None };
    assert_eq!(r.extract_resources(&g).err(), Some(ExtractError::NoActiveManifest));
    assert_eq!(active_index(&g), None);
    let g = ManifestGraph {
        manifests: vec![node("a", vec![], vec![])],
        active_label: Some("zz".to_string()),
    };
    assert_eq!(
        r.extract_resources(&g).err(),
        Some(ExtractError::LabelMissing("zz".to_string()))
    );
}

#[test]
fn safe_names_stay_inside_folder() {
    assert_eq!(safe_name("a/b\\c:d"), "a_b_c_d");
    assert_eq!(safe_name(".."), "_..");
    assert_eq!(safe_name(""), "_");
    assert_eq!(safe_name("..."), "...");
}

#[test]
fn extract_manifest_checks() {
    let e = Extract::Manifest {
        path: "a.jpg".to_string(),
        output: "o.json".to_string(),
        binary: true,
        force: false,
        trust: no_trust(),
    };
    assert_eq!(e.execute(PathKind::Missing, PathKind::Missing), Err(ExtractError::InputMissing));
    assert_eq!(e.execute(PathKind::Folder, PathKind::Missing), Err(ExtractError::InputNotFile));
    assert_eq!(e.execute(PathKind::File, PathKind::Folder), Err(ExtractError::OutputNotFile));
    assert_eq!(e.execute(PathKind::File, PathKind::File), Err(ExtractError::OutputExists));
    assert_eq!(
        e.execute(PathKind::File, PathKind::Missing),
        Ok(ExtractStep::WriteManifest { binary: true })
    );
    let i = Extract::Ingredient {
        path: "a.jpg".to_string(),
        output: "o.json".to_string(),
        force: true,
        trust: no_trust(),
    };
    assert_eq!(i.execute(PathKind::File, PathKind::File), Ok(ExtractStep::WriteIngredient));
}

#[test]
fn extract_resources_checks() {
    let none = resources(vec![], "out", false, false);
    assert_eq!(none.execute(PathKind::Missing), Err(ExtractError::InputMissing));
    let r = resources(vec!["a.jpg", "b.jpg"], "out", false, false);
    assert_eq!(r.execute(PathKind::Missing), Ok(OutputPrep::Create));
    assert_eq!(r.execute(PathKind::File), Err(ExtractError::OutputNotFolder));
    assert_eq!(r.execute(PathKind::Folder), Err(ExtractError::OutputFolderExists));
    let forced = resources(vec!["a.jpg"], "out", true, false);
    assert_eq!(forced.execute(PathKind::Folder), Ok(OutputPrep::Clear));
    assert_eq!(r.check_input(PathKind::Folder), Err(ExtractError::InputIsFolder));
    assert_eq!(r.check_input(PathKind::File), Ok(()));
    let e = Extract::Resources(forced);
    assert_eq!(
        e.execute(PathKind::Missing, PathKind::Missing),
        Ok(ExtractStep::ExtractResources { prep: OutputPrep::Create })
    );
}

#[test]
fn batch_outcome_counts_failures() {
    let r = resources(vec!["a.jpg", "b.jpg", "c.jpg"], "out", true, false);
    assert_eq!(r.outcome(0), Ok(()));
    let e = r.outcome(2).unwrap_err();
    assert_eq!(e, ExtractError::AssetsFailed { failed: 2, total: 3 });
    assert_eq!(e.message(), "Failed to extract resources from 2/3 assets");
}

#[test]
fn batch_tries_every_asset_after_a_failure() {
    let r = resources(vec!["a.jpg", "b.jpg", "c.jpg"], "out", true, false);
    let tried = std::cell::RefCell::new(Vec::new());
    let (outcome, record) = r.run_batch(
        |_| PathKind::File,
        |k| {
            tried.borrow_mut().push(k);
            k != 0
        },
    );
    assert_eq!(*tried.borrow(), vec![0, 1, 2]);
    assert_eq!(record.extracted, vec![false, true, true]);
    assert_eq!(outcome, Err(ExtractError::AssetsFailed { failed: 1, total: 3 }));
    let (all_ok, _) = r.run_batch(|_| PathKind::File, |_| true);
    assert_eq!(all_ok, Ok(()));
}

#[test]
fn batch_stops_at_a_folder() {
    let r = resources(vec!["a.jpg", "dir", "c.jpg"], "out", true, false);
    let tried = std::cell::RefCell::new(Vec::new());
    let (outcome, record) = r.run_batch(
        |k| if k == 1 { PathKind::Folder } else { PathKind::File },
        |k| {
            tried.borrow_mut().push(k);
            false
        },
    );
    assert_eq!(*tried.borrow(), vec![0]);
    assert_eq!(record.kinds, vec![PathKind::File, PathKind::Folder]);
    assert_eq!(outcome, Err(ExtractError::InputIsFolder));
}
