use c2patool::graph::{IngredientNode, ManifestGraph, ManifestNode, ResourceRef};
use c2patool::sdk::SdkError;
use c2patool::report::{
    add_extension, media_extension, report_dir_name, report_thumbnails, write_html_report,
};

fn ingredient(title: &str, thumb: Option<&str>, active: Option<&str>) -> IngredientNode {
    IngredientNode {
        title: title.to_string(),
        thumbnail_format: thumb.map(|s| s.to_string()),
        active_manifest: active.map(|s| s.to_string()),
    }
}

fn manifest(label: Option<&str>, title: Option<&str>, ings: Vec<IngredientNode>) -> ManifestNode {
    ManifestNode {
        label: label.map(|s| s.to_string()),
        title: title.map(|s| s.to_string()),
        thumbnail_format: Some("image/jpeg".to_string()),
        ingredients: ings,
        resources: Vec::<ResourceRef>::new(),
    }
}

#[test]
fn test_file_extension() {
    assert_eq!(add_extension("filename.png", "image/png"), "filename.png");
}

#[test]
fn test_file_extension_not_equal_ingredient_name() {
    assert_eq!(add_extension("filename.psd", "image/png"), "filename.png");
}

#[test]
fn test_file_extension_ingredient_has_no_extension() {
    assert_eq!(add_extension("filename", "image/jpeg"), "filename.jpg");
}

#[test]
fn test_file_extension_ingredient_filename_has_period_in_name() {
    assert_eq!(
        add_extension("filename.final.version", "image/jpeg"),
        "filename.final.jpg"
    );
}

#[test]
fn unknown_media_type_keeps_name() {
    assert_eq!(add_extension("filename.psd", "image/tiff"), "filename.psd");
    assert_eq!(media_extension("image/jpg"), Some("jpg"));
    assert_eq!(media_extension("application/json"), None);
}

#[test]
fn report_dir_names() {
    assert_eq!(
        report_dir_name(&Some("urn:uuid:a/b".to_string()), 0),
        "urn-uuid-a-b"
    );
    assert_eq!(report_dir_name(&None, 12), "manifest_12");
}

#[test]
fn thumbnails_of_a_store() {
    let g = ManifestGraph {
        manifests: vec![manifest(
            Some("urn:m1"),
            Some("Top"),
            vec![
                ingredient("a.psd", Some("image/png"), None),
                ingredient("b", None, None),
            ],
        )],
        active_label: Some("urn:m1".to_string()),
    };
    let t = report_thumbnails(&g);
    assert_eq!(t.len(), 2);
    assert_eq!(t[0].ingredient, None);
    assert_eq!(t[0].dir, "urn-m1");
    assert_eq!(t[0].file_name, "thumbnail_claim.jpg");
    assert_eq!(t[1].ingredient, Some(0));
    assert_eq!(t[1].file_name, "a.png");
}

#[test]
fn html_tree_lists_children_before_parent_once() {
    let g = ManifestGraph {
        manifests: vec![
            manifest(
                Some("m:1"),
                Some("Top"),
                vec![ingredient("Child.psd", Some("image/png"), Some("m:2"))],
            ),
            manifest(Some("m:2"), None, vec![ingredient("Grand", None, Some("m:1"))]),
            manifest(Some("m:3"), Some("Unreached"), vec![]),
        ],
        active_label: Some("m:1".to_string()),
    };
    let r = write_html_report(&g, "\"x.jpg\"");
    assert_eq!(r.order, vec![1, 0]);
    let child = "<img src=\"m-2/thumbnail_claim.jpg\"></img>\nUntitled<p>\n<ul class=tree>\n<li>Grand\n</ul>\n";
    let top = "<img src=\"m-1/thumbnail_claim.jpg\"></img>\nTop<p>\n<ul class=tree>\n<li><img src=\"m-1/Child.png\"></img>Child.psd\n</ul>\n";
    assert!(r.html.contains("<h3>Report for: \"x.jpg\"</h3>\n<ul class=\"tree\">\n"));
    assert!(r.html.contains(&format!("{}{}</ul>\n", child, top)));
    assert_eq!(r.html.matches("thumbnail_claim.jpg").count(), 2);
    assert!(!r.html.contains("Unreached"));
    assert!(r.html.starts_with("<!DOCTYPE html>"));
}

#[test]
fn html_tree_shows_manifest_without_ingredients() {
    let mut m = manifest(Some("only"), Some("Alone"), vec![]);
    m.thumbnail_format = Some("image/png".to_string());
    let g = ManifestGraph { manifests: vec![m], active_label: Some("only".to_string()) };
    let r = write_html_report(&g, "p");
    assert_eq!(r.order, vec![0]);
    assert!(r
        .html
        .contains("<ul class=\"tree\">\n<img src=\"only/thumbnail_claim.png\"></img>\nAlone<p>\n</ul>\n"));
}

#[test]
fn html_tree_without_active_manifest_is_empty() {
    let g = ManifestGraph { manifests: vec![], active_label: None };
    let r = write_html_report(&g, "p");
    assert!(r.order.is_empty());
    assert!(r.html.contains("<ul class=\"tree\">\n</ul>\n"));
}

#[test]
fn sdk_failures_in_the_tools_words() {
    assert_eq!(SdkError::JumbfNotFound.message(), "No claim found");
    assert_eq!(SdkError::FileNotFound("a.jpg".to_string()).message(), "File not found: a.jpg");
    assert_eq!(SdkError::UnsupportedType.message(), "Unsupported file type");
    assert_eq!(SdkError::PrereleaseError.message(), "Prerelease claim found");
    assert_eq!(SdkError::Other("bad jumbf".to_string()).message(), "bad jumbf");
}
