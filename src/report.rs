use vstd::prelude::*;
use vstd::string::*;
use crate::graph::{
    ManifestGraph, ManifestNode, IngredientNode, active_root, active_index, walk, holds, reaches,
    lemma_walk_meets_reachable_once,
};
use crate::paths::{with_extension_of, path_with_extension};
use crate::text::{push_decimal, decimal_spec, replace_chars, replace_chars_spec};

verus! {

/// Base name of the file that holds a manifest's own thumbnail.
pub const THUMBNAIL_CLAIM_NAME: &'static str = "thumbnail_claim";

/// The file extension that a thumbnail of media type `mt` is written with, where
/// the type is one the report knows.
pub open spec fn media_extension_spec(mt: Seq<char>) -> Option<Seq<char>> {
    if mt == "image/jpg"@ || mt == "image/jpeg"@ {
        Some("jpg"@)
    } else if mt == "image/png"@ {
        Some("png"@)
    } else {
        None
    }
}

pub fn media_extension(media_type: &str) -> (r: Option<&'static str>)
    ensures
        match r {
            Some(e) => media_extension_spec(media_type@) == Some(e@),
            None => media_extension_spec(media_type@) is None,
        },
{
    let m = media_type.to_string();
    if m == "image/jpg".to_string() || m == "image/jpeg".to_string() {
        Some("jpg")
    } else if m == "image/png".to_string() {
        Some("png")
    } else {
        None
    }
}

/// `file_name` with the extension that matches `media_type`, or unchanged where the
/// media type has no known extension.
pub open spec fn add_extension_spec(file_name: Seq<char>, media_type: Seq<char>) -> Seq<char> {
    match media_extension_spec(media_type) {
        Some(e) => match with_extension_of(file_name, e) {
            Some(s) => s,
            None => file_name,
        },
        None => file_name,
    }
}

/// Gives `file_name` the extension of a thumbnail of type `media_type`.
pub fn add_extension(file_name: &str, media_type: &str) -> (r: String)
    ensures
        r@ == add_extension_spec(file_name@, media_type@),
{
    match media_extension(media_type) {
        Some(e) => {
            proof {
                reveal_strlit("jpg");
                reveal_strlit("png");
                assert forall|i: int| 0 <= i < 3 implies "jpg"@[i] != '/' && "png"@[i] != '/' by {}
            }
            match path_with_extension(file_name, e) {
                Some(s) => s,
                None => file_name.to_string(),
            }
        },
        None => file_name.to_string(),
    }
}

/// The name of the report folder of a manifest: its label, or `manifest_<index>`
/// where it has none, with `/` and `:` turned into `-`.
pub open spec fn report_dir_spec(label: Option<String>, index: nat) -> Seq<char> {
    match label {
        Some(l) => replace_chars_spec(l@, "/:"@, '-'),
        None => replace_chars_spec("manifest_"@ + decimal_spec(index), "/:"@, '-'),
    }
}

pub fn report_dir_name(label: &Option<String>, index: usize) -> (r: String)
    ensures
        r@ == report_dir_spec(*label, index as nat),
{
    match label {
        Some(l) => replace_chars(l.as_str(), "/:", '-'),
        None => {
            let mut s = "manifest_".to_string();
            push_decimal(&mut s, index);
            replace_chars(s.as_str(), "/:", '-')
        },
    }
}

/// A thumbnail that the report writes: from manifest `manifest`, its own thumbnail
/// where `ingredient` is `None`, else that ingredient's; into folder `dir` under the
/// report's destination, as `file_name`.
pub struct ThumbnailWrite {
    pub manifest: usize,
    pub ingredient: Option<usize>,
    pub dir: String,
    pub file_name: String,
}

impl View for ThumbnailWrite {
    type V = (usize, Option<usize>, Seq<char>, Seq<char>);

    open spec fn view(&self) -> Self::V {
        (self.manifest, self.ingredient, self.dir@, self.file_name@)
    }
}

/// The thumbnails of the first `k` ingredients of manifest `i`, in order, each
/// named after the ingredient's title.
pub open spec fn ingredient_thumbs_spec(m: ManifestNode, i: nat, dir: Seq<char>, k: nat) -> Seq<
    (usize, Option<usize>, Seq<char>, Seq<char>),
>
    decreases k,
{
    if k == 0 {
        seq![]
    } else {
        let rest = ingredient_thumbs_spec(m, i, dir, (k - 1) as nat);
        let ing = m.ingredients@[k - 1];
        match ing.thumbnail_format {
            Some(f) => rest.push(
                (i as usize, Some((k - 1) as usize), dir, add_extension_spec(ing.title@, f@)),
            ),
            None => rest,
        }
    }
}

/// The thumbnails of manifest `i`: its own, then its ingredients'.
pub open spec fn manifest_thumbs_spec(m: ManifestNode, i: nat) -> Seq<
    (usize, Option<usize>, Seq<char>, Seq<char>),
> {
    let dir = report_dir_spec(m.label, i);
    let own = match m.thumbnail_format {
        Some(f) => seq![
            (i as usize, None::<usize>, dir, add_extension_spec(THUMBNAIL_CLAIM_NAME@, f@)),
        ],
        None => seq![],
    };
    own + ingredient_thumbs_spec(m, i, dir, m.ingredients@.len())
}

/// The thumbnails of the first `n` manifests, manifest by manifest.
pub open spec fn report_thumbs_spec(ms: Seq<ManifestNode>, n: nat) -> Seq<
    (usize, Option<usize>, Seq<char>, Seq<char>),
>
    decreases n,
{
    if n == 0 {
        seq![]
    } else {
        report_thumbs_spec(ms, (n - 1) as nat) + manifest_thumbs_spec(ms[n - 1], (n - 1) as nat)
    }
}

fn push_manifest_thumbs(m: &ManifestNode, i: usize, out: &mut Vec<ThumbnailWrite>)
    ensures
        final(out)@.map_values(|w: ThumbnailWrite| w@) == old(out)@.map_values(
            |w: ThumbnailWrite| w@,
        ) + manifest_thumbs_spec(*m, i as nat),
{
    let ghost start = out@.map_values(|w: ThumbnailWrite| w@);
    let dir = report_dir_name(&m.label, i);
    let ghost own: Seq<(usize, Option<usize>, Seq<char>, Seq<char>)> = seq![];
    if let Some(f) = &m.thumbnail_format {
        let name = add_extension(THUMBNAIL_CLAIM_NAME, f.as_str());
        out.push(ThumbnailWrite { manifest: i, ingredient: None, dir: dir.clone(), file_name: name });
        proof {
            own = seq![(i, None::<usize>, dir@, add_extension_spec(THUMBNAIL_CLAIM_NAME@, f@))];
        }
    }
    assert(out@.map_values(|w: ThumbnailWrite| w@) =~= start + own);
    let n = m.ingredients.len();
    let mut k: usize = 0;
    while k < n
        invariant
            k <= n,
            n == m.ingredients@.len(),
            dir@ == report_dir_spec(m.label, i as nat),
            out@.map_values(|w: ThumbnailWrite| w@) =~= start + own + ingredient_thumbs_spec(
                *m,
                i as nat,
                dir@,
                k as nat,
            ),
        decreases n - k,
    {
        let ghost before = out@;
        let ing = &m.ingredients[k];
        if let Some(f) = &ing.thumbnail_format {
            let name = add_extension(ing.title.as_str(), f.as_str());
            let w = ThumbnailWrite { manifest: i, ingredient: Some(k), dir: dir.clone(), file_name: name };
            out.push(w);
            proof {
                assert(out@ == before.push(w));
                assert(out@.map_values(|w: ThumbnailWrite| w@) =~= before.map_values(
                    |w: ThumbnailWrite| w@,
                ).push(w@));
                assert(w@ == (i, Some(k), dir@, add_extension_spec(ing.title@, f@)));
            }
        }
        proof {
            assert(ing == m.ingredients@[k as int]);
            assert(ingredient_thumbs_spec(*m, i as nat, dir@, (k + 1) as nat) == {
                let rest = ingredient_thumbs_spec(*m, i as nat, dir@, k as nat);
                match ing.thumbnail_format {
                    Some(f) => rest.push((i, Some(k), dir@, add_extension_spec(ing.title@, f@))),
                    None => rest,
                }
            });
        }
        k = k + 1;
    }
}

/// The thumbnails that a report of the store writes, each into the folder of its
/// manifest (see `report_dir_name`): for each manifest in turn its own thumbnail,
/// named `thumbnail_claim` with the extension of its type, then those of its
/// ingredients, named after their titles.
pub fn report_thumbnails(g: &ManifestGraph) -> (r: Vec<ThumbnailWrite>)
    ensures
        r@.map_values(|w: ThumbnailWrite| w@) == report_thumbs_spec(
            g.manifests@,
            g.manifests@.len(),
        ),
{
    let mut out: Vec<ThumbnailWrite> = Vec::new();
    let n = g.manifests.len();
    let mut i: usize = 0;
    while i < n
        invariant
            i <= n,
            n == g.manifests@.len(),
            out@.map_values(|w: ThumbnailWrite| w@) == report_thumbs_spec(g.manifests@, i as nat),
        decreases n - i,
    {
        push_manifest_thumbs(&g.manifests[i], i, &mut out);
        i = i + 1;
    }
    out
}

} // verus!

verus! {

/// Opening of the HTML report, up to its body.
pub const HTML_START: &'static str = "<!DOCTYPE html>\n    <html>\n        <head>\n        <meta charset=\"utf-8\">\n        <style>\n            img {\n                height: 75px;\n            } \n        </style>\n        </head>\n        <body> \n    ";

/// Close of the HTML report.
pub const HTML_END: &'static str = "\n        </body>\n    </html>\n    ";

/// The title shown for a manifest.
pub open spec fn title_spec(m: ManifestNode) -> Seq<char> {
    match m.title {
        Some(t) => t@,
        None => "Untitled"@,
    }
}

/// The image of a thumbnail of type `format`, stored in folder `dir` under the
/// name that `report_thumbnails` gives it for `name`.
pub open spec fn thumbnail_img_spec(dir: Seq<char>, name: Seq<char>, format: Option<String>) -> Seq<
    char,
> {
    match format {
        Some(f) => "<img src=\""@ + dir + "/"@ + add_extension_spec(name, f@) + "\"></img>"@,
        None => seq![],
    }
}

/// One list entry per ingredient among the first `k`: its thumbnail, where it has
/// one, then its title.
pub open spec fn ingredient_items_spec(ings: Seq<IngredientNode>, dir: Seq<char>, k: nat) -> Seq<
    char,
>
    decreases k,
{
    if k == 0 {
        seq![]
    } else {
        let ing = ings[k - 1];
        ingredient_items_spec(ings, dir, (k - 1) as nat) + "<li>"@ + thumbnail_img_spec(
            dir,
            ing.title@,
            ing.thumbnail_format,
        ) + ing.title@ + "\n"@
    }
}

/// The entry of manifest `i` in the tree: its claim thumbnail, where it has one, and
/// its title, then the list of its ingredients where it has any. The thumbnails are
/// those that `report_thumbnails` writes into the manifest's report folder.
pub open spec fn manifest_block_spec(g: ManifestGraph, i: int) -> Seq<char> {
    let m = g.manifests@[i];
    let dir = report_dir_spec(m.label, i as nat);
    let claim = match m.thumbnail_format {
        Some(_) => thumbnail_img_spec(dir, THUMBNAIL_CLAIM_NAME@, m.thumbnail_format) + "\n"@,
        None => seq![],
    };
    let head = claim + title_spec(m) + "<p>\n"@;
    if m.ingredients@.len() == 0 {
        head
    } else {
        head + "<ul class=tree>\n"@ + ingredient_items_spec(m.ingredients@, dir, m.ingredients@.len())
            + "</ul>\n"@
    }
}

fn append_thumbnail_img(html: &mut String, dir: &String, name: &str, format: &Option<String>)
    ensures
        final(html)@ == old(html)@ + thumbnail_img_spec(dir@, name@, *format),
{
    match format {
        Some(f) => {
            html.append("<img src=\"");
            html.append(dir.as_str());
            html.append("/");
            let file = add_extension(name, f.as_str());
            html.append(file.as_str());
            html.append("\"></img>");
        },
        None => {
            assert(old(html)@ + thumbnail_img_spec(dir@, name@, *format) =~= old(html)@);
        },
    }
}

fn append_manifest_block(g: &ManifestGraph, i: usize, html: &mut String)
    requires
        i < g.manifests@.len(),
    ensures
        final(html)@ == old(html)@ + manifest_block_spec(*g, i as int),
{
    let m = &g.manifests[i];
    let n = m.ingredients.len();
    let dir = report_dir_name(&m.label, i);
    let ghost start = html@;
    if m.thumbnail_format.is_some() {
        append_thumbnail_img(html, &dir, THUMBNAIL_CLAIM_NAME, &m.thumbnail_format);
        html.append("\n");
    }
    match &m.title {
        Some(t) => html.append(t.as_str()),
        None => html.append("Untitled"),
    }
    html.append("<p>\n");
    let ghost head = html@;
    let ghost claim = match m.thumbnail_format {
        Some(_) => thumbnail_img_spec(dir@, THUMBNAIL_CLAIM_NAME@, m.thumbnail_format) + "\n"@,
        None => Seq::<char>::empty(),
    };
    assert(head =~= start + claim + title_spec(*m) + "<p>\n"@);
    if n == 0 {
        return ;
    }
    html.append("<ul class=tree>\n");
    let ghost list_start = html@;
    let mut k: usize = 0;
    while k < n
        invariant
            k <= n,
            n == m.ingredients@.len(),
            m == &g.manifests@[i as int],
            html@ =~= list_start + ingredient_items_spec(m.ingredients@, dir@, k as nat),
        decreases n - k,
    {
        let ing = &m.ingredients[k];
        html.append("<li>");
        append_thumbnail_img(html, &dir, ing.title.as_str(), &ing.thumbnail_format);
        html.append(ing.title.as_str());
        html.append("\n");
        k = k + 1;
    }
    html.append("</ul>\n");
}

/// The blocks of the manifests of `order`, in that order.
pub open spec fn blocks_spec(g: ManifestGraph, order: Seq<usize>) -> Seq<char>
    decreases order.len(),
{
    if order.len() == 0 {
        seq![]
    } else {
        blocks_spec(g, order.drop_last()) + manifest_block_spec(g, order.last() as int)
    }
}

/// The whole HTML report of the manifests of `order`, headed by `source`.
pub open spec fn html_report_spec(g: ManifestGraph, source: Seq<char>, order: Seq<usize>) -> Seq<
    char,
> {
    HTML_START@ + "<h3>Report for: "@ + source + "</h3>\n"@ + "<ul class=\"tree\">"@ + "\n"@
        + blocks_spec(g, order) + "</ul>\n"@ + HTML_END@
}

/// Renders the HTML report of the manifests of `order`, headed by `source`.
pub fn render_html(g: &ManifestGraph, source: &str, order: &Vec<usize>) -> (r: String)
    requires
        forall|p: int| 0 <= p < order@.len() ==> order@[p] < g.manifests@.len(),
    ensures
        r@ == html_report_spec(*g, source@, order@),
{
    let mut html = HTML_START.to_string();
    html.append("<h3>Report for: ");
    html.append(source);
    html.append("</h3>\n");
    html.append("<ul class=\"tree\">");
    html.append("\n");
    let ghost head = html@;
    let n = order.len();
    let mut p: usize = 0;
    while p < n
        invariant
            p <= n,
            n == order@.len(),
            forall|q: int| 0 <= q < order@.len() ==> order@[q] < g.manifests@.len(),
            html@ == head + blocks_spec(*g, order@.subrange(0, p as int)),
        decreases n - p,
    {
        append_manifest_block(g, order[p], &mut html);
        proof {
            let s = order@.subrange(0, p + 1);
            assert(s.drop_last() =~= order@.subrange(0, p as int));
            assert(html@ =~= head + blocks_spec(*g, s));
        }
        p = p + 1;
    }
    html.append("</ul>\n");
    html.append(HTML_END);
    assert(order@.subrange(0, n as int) =~= order@);
    html
}

} // verus!

verus! {

/// The HTML tree report of a store and the manifests it shows, in the order shown.
pub struct HtmlReport {
    pub html: String,
    pub order: Vec<usize>,
}

/// Renders the tree of a store from its active manifest: a manifest's block follows
/// the blocks of the manifests its ingredients lead to, and a manifest met a second
/// time (a cycle, or a shared ingredient) is not shown again: the blocks follow
/// `order`, which lists once each manifest that the active one reaches, and no
/// other, and ends with the active one. A store without an
/// active manifest gives an empty tree.
pub fn write_html_report(g: &ManifestGraph, source: &str) -> (r: HtmlReport)
    ensures
        r.html@ == html_report_spec(*g, source@, r.order@),
        forall|p: int| 0 <= p < r.order@.len() ==> r.order@[p] < g.manifests@.len(),
        match active_root(*g) {
            Some(root) => r.order@.len() > 0 && r.order@.last() == root && r.order@.no_duplicates()
                && forall|j: int| #[trigger] holds(r.order@, j) <==> reaches(*g, root, j),
            None => r.order@.len() == 0,
        },
{
    let order = match active_index(g) {
        Some(root) => {
            let w = walk(g, root);
            proof {
                lemma_walk_meets_reachable_once(*g, root as int, w.pre@);
                assert forall|j: int| #[trigger] holds(w.post@, j) <==> holds(w.pre@, j) by {
                    if holds(w.post@, j) {
                        let q = choose|q: int| 0 <= q < w.post@.len() && w.post@[q] as int == j;
                        assert(w.pre@.contains(w.post@[q]));
                        let t = choose|t: int| 0 <= t < w.pre@.len() && w.pre@[t] == w.post@[q];
                        assert(w.pre@[t] as int == j);
                    }
                    if holds(w.pre@, j) {
                        let q = choose|q: int| 0 <= q < w.pre@.len() && w.pre@[q] as int == j;
                        assert(w.post@.contains(w.pre@[q]));
                        let t = choose|t: int| 0 <= t < w.post@.len() && w.post@[t] == w.pre@[q];
                        assert(w.post@[t] as int == j);
                    }
                }
            }
            w.post
        },
        None => Vec::new(),
    };
    let html = render_html(g, source, &order);
    HtmlReport { html, order }
}

} // verus!
