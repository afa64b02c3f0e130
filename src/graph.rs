use vstd::prelude::*;

verus! {

/// A resource that a manifest carries: its identifier in the store and its media type.
pub struct ResourceRef {
    pub identifier: String,
    pub format: String,
}

/// An ingredient as the report and the traversal read it.
pub struct IngredientNode {
    pub title: String,
    /// Media type of the ingredient's thumbnail, where it has one.
    pub thumbnail_format: Option<String>,
    /// Label of the manifest that describes this ingredient, where it has one.
    pub active_manifest: Option<String>,
}

/// One manifest of a store.
pub struct ManifestNode {
    pub label: Option<String>,
    pub title: Option<String>,
    /// Media type of the claim thumbnail, where there is one.
    pub thumbnail_format: Option<String>,
    pub ingredients: Vec<IngredientNode>,
    pub resources: Vec<ResourceRef>,
}

/// A manifest store: its manifests, linked by label through their ingredients,
/// and the label of the active one.
pub struct ManifestGraph {
    pub manifests: Vec<ManifestNode>,
    pub active_label: Option<String>,
}

/// Manifest `m` is labelled `l`.
pub open spec fn has_label(m: ManifestNode, l: Seq<char>) -> bool {
    match m.label {
        Some(x) => x@ == l,
        None => false,
    }
}

/// `i` is the first manifest labelled `l`.
pub open spec fn is_first_with_label(ms: Seq<ManifestNode>, l: Seq<char>, i: int) -> bool {
    0 <= i < ms.len() && has_label(ms[i], l) && forall|j: int| 0 <= j < i ==> !has_label(ms[j], l)
}

/// No manifest is labelled `l`.
pub open spec fn label_absent(ms: Seq<ManifestNode>, l: Seq<char>) -> bool {
    forall|j: int| 0 <= j < ms.len() ==> !has_label(ms[j], l)
}

/// The `k`-th ingredient of manifest `i` points, by its active-manifest label, at manifest `j`.
pub open spec fn links(g: ManifestGraph, i: int, k: int, j: int) -> bool {
    0 <= i < g.manifests@.len() && 0 <= k < g.manifests@[i].ingredients@.len() && match g.manifests@[
        i
    ].ingredients@[k].active_manifest {
        Some(l) => is_first_with_label(g.manifests@, l@, j),
        None => false,
    }
}

/// Every manifest that `i` links to is marked in `v`.
pub open spec fn closed(g: ManifestGraph, i: int, v: Seq<bool>) -> bool {
    forall|k: int, j: int| #[trigger] links(g, i, k, j) ==> v[j]
}

/// The marks of `v` are exactly the entries of `order`, which holds valid indices once each.
pub open spec fn marks_match(n: int, v: Seq<bool>, order: Seq<usize>) -> bool {
    &&& v.len() == n
    &&& order.no_duplicates()
    &&& forall|p: int| 0 <= p < order.len() ==> order[p] < n
    &&& forall|j: int| 0 <= j < n ==> (v[j] <==> order.contains(j as usize))
}

/// `v1` keeps every mark of `v0`.
pub open spec fn grows(v0: Seq<bool>, v1: Seq<bool>) -> bool {
    v1.len() == v0.len() && forall|j: int| 0 <= j < v0.len() && v0[j] ==> v1[j]
}

/// How many entries of `v` are unmarked.
pub open spec fn count_unmarked(v: Seq<bool>) -> nat
    decreases v.len(),
{
    if v.len() == 0 {
        0
    } else {
        count_unmarked(v.drop_last()) + if v.last() {
            0nat
        } else {
            1nat
        }
    }
}

proof fn lemma_count_grows(v0: Seq<bool>, v1: Seq<bool>)
    requires
        grows(v0, v1),
    ensures
        count_unmarked(v1) <= count_unmarked(v0),
    decreases v0.len(),
{
    if v0.len() > 0 {
        lemma_count_grows(v0.drop_last(), v1.drop_last());
    }
}

proof fn lemma_count_mark(v: Seq<bool>, i: int)
    requires
        0 <= i < v.len(),
        !v[i],
    ensures
        count_unmarked(v.update(i, true)) + 1 == count_unmarked(v),
    decreases v.len(),
{
    let w = v.update(i, true);
    if i == v.len() - 1 {
        assert(w.drop_last() =~= v.drop_last());
    } else {
        assert(w.drop_last() =~= v.drop_last().update(i, true));
        lemma_count_mark(v.drop_last(), i);
    }
}

/// Some ingredient of manifest `a` links to manifest `b`.
pub open spec fn step(g: ManifestGraph, a: int, b: int) -> bool {
    exists|k: int| #[trigger] links(g, a, k, b)
}

/// `path` follows ingredient links, one step at a time, from its first manifest.
pub open spec fn is_link_path(g: ManifestGraph, path: Seq<int>) -> bool {
    &&& path.len() > 0
    &&& forall|s: int| 0 <= s < path.len() - 1 ==> step(g, #[trigger] path[s], path[s + 1])
}

/// Manifest `j` can be reached from manifest `root` by following ingredient links.
pub open spec fn reaches(g: ManifestGraph, root: int, j: int) -> bool {
    exists|path: Seq<int>| #[trigger] is_link_path(g, path) && path[0] == root && path.last() == j
}

proof fn lemma_reaches_start(g: ManifestGraph, root: int)
    ensures
        reaches(g, root, root),
{
    let path = seq![root];
    assert(is_link_path(g, path));
}

proof fn lemma_reaches_link(g: ManifestGraph, root: int, i: int, k: int, j: int)
    requires
        reaches(g, root, i),
        links(g, i, k, j),
    ensures
        reaches(g, root, j),
{
    let path = choose|path: Seq<int>| #[trigger] is_link_path(g, path) && path[0] == root && path.last() == i;
    let longer = path.push(j);
    assert forall|s: int| 0 <= s < longer.len() - 1 implies step(g, #[trigger] longer[s], longer[s + 1]) by {
        if s < path.len() - 1 {
            assert(longer[s] == path[s] && longer[s + 1] == path[s + 1]);
            assert(step(g, path[s], path[s + 1]));
        } else {
            assert(longer[s] == i && longer[s + 1] == j);
            assert(links(g, i, k, j));
        }
    }
    assert(is_link_path(g, longer));
    assert(longer[0] == root);
}

/// Finds the first manifest labelled `l`.
pub fn find_label(g: &ManifestGraph, l: &String) -> (r: Option<usize>)
    ensures
        match r {
            Some(i) => is_first_with_label(g.manifests@, l@, i as int),
            None => label_absent(g.manifests@, l@),
        },
{
    let mut i: usize = 0;
    while i < g.manifests.len()
        invariant
            i <= g.manifests@.len(),
            forall|j: int| 0 <= j < i ==> !has_label(g.manifests@[j], l@),
        decreases g.manifests@.len() - i,
    {
        if let Some(x) = &g.manifests[i].label {
            if *x == *l {
                return Some(i);
            }
        }
        i = i + 1;
    }
    None
}

/// Visits manifest `i` and, depth first, every manifest reachable from it that is
/// not marked yet. Each manifest is entered once: it is marked and appended to
/// `pre` on entry, and appended to `post` once its ingredients are done.
fn visit(
    g: &ManifestGraph,
    i: usize,
    visited: &mut Vec<bool>,
    pre: &mut Vec<usize>,
    post: &mut Vec<usize>,
    Ghost(unmarked): Ghost<nat>,
    Ghost(root): Ghost<int>,
)
    requires
        reaches(*g, root, i as int),
        forall|p: int| 0 <= p < old(pre)@.len() ==> reaches(*g, root, #[trigger] old(pre)@[p] as int),
        unmarked == count_unmarked(old(visited)@),
        i < g.manifests@.len(),
        marks_match(g.manifests@.len() as int, old(visited)@, old(pre)@),
        !old(visited)@[i as int],
        forall|p: int| 0 <= p < old(post)@.len() ==> old(post)@[p] < g.manifests@.len(),
        old(post)@.no_duplicates(),
        forall|p: int| 0 <= p < old(post)@.len() ==> old(pre)@.contains(#[trigger] old(post)@[p]),
    ensures
        marks_match(g.manifests@.len() as int, final(visited)@, final(pre)@),
        grows(old(visited)@, final(visited)@),
        count_unmarked(final(visited)@) < count_unmarked(old(visited)@),
        final(pre)@.len() > old(pre)@.len(),
        final(pre)@.subrange(0, old(pre)@.len() as int) == old(pre)@,
        final(pre)@[old(pre)@.len() as int] == i,
        forall|p: int|
            old(pre)@.len() <= p < final(pre)@.len() ==> closed(
                *g,
                #[trigger] final(pre)@[p] as int,
                final(visited)@,
            ),
        final(post)@.len() > old(post)@.len(),
        final(post)@.subrange(0, old(post)@.len() as int) == old(post)@,
        final(post)@.last() == i,
        forall|p: int| 0 <= p < final(post)@.len() ==> final(post)@[p] < g.manifests@.len(),
        final(post)@.no_duplicates(),
        forall|p: int| 0 <= p < final(post)@.len() ==> final(pre)@.contains(#[trigger] final(post)@[p]),
        forall|p: int|
            old(post)@.len() <= p < final(post)@.len() ==> !old(visited)@[#[trigger] final(post)@[p] as int],
        final(post)@.len() - old(post)@.len() == final(pre)@.len() - old(pre)@.len(),
        forall|p: int| 0 <= p < final(pre)@.len() ==> reaches(*g, root, #[trigger] final(pre)@[p] as int),
        forall|p: int|
            old(pre)@.len() <= p < final(pre)@.len() ==> final(post)@.contains(#[trigger] final(pre)@[p]),
    decreases unmarked,
{
    let ghost v0 = visited@;
    let ghost p0 = pre@;
    let ghost q0 = post@;
    let n = g.manifests.len();
    visited.set(i, true);
    pre.push(i);
    let ghost v1 = visited@;
    proof {
        assert forall|p: int| 0 <= p < pre@.len() implies reaches(*g, root, #[trigger] pre@[p] as int) by {
            if p < p0.len() {
                assert(p0[p] == pre@[p]);
            }
        }
        lemma_count_mark(v0, i as int);
        assert forall|p: int| 0 <= p < post@.len() implies pre@.contains(#[trigger] post@[p]) by {
            assert(p0.contains(q0[p]));
            let q = choose|q: int| 0 <= q < p0.len() && p0[q] == q0[p];
            assert(pre@[q] == p0[q]);
        }
        assert(v1 == v0.update(i as int, true));
        assert forall|j: int| 0 <= j < n implies (v1[j] <==> pre@.contains(j as usize)) by {
            if j == i as int {
                assert(pre@[p0.len() as int] == i);
            } else if v1[j] {
                let p = choose|p: int| 0 <= p < p0.len() && p0[p] == j as usize;
                assert(pre@[p] == j as usize);
            } else if pre@.contains(j as usize) {
                let p = choose|p: int| 0 <= p < pre@.len() && pre@[p] == j as usize;
                if p < p0.len() {
                    assert(p0[p] == j as usize);
                }
            }
        }
        assert forall|a: int, b: int| 0 <= a < b < pre@.len() implies pre@[a] != pre@[b] by {
            if b == p0.len() {
                assert(p0.contains(pre@[a]));
            }
        }
    }
    let node = &g.manifests[i];
    let m = node.ingredients.len();
    let mut k: usize = 0;
    while k < m
        invariant
            n == g.manifests@.len(),
            i < n,
            node == &g.manifests@[i as int],
            m == node.ingredients@.len(),
            k <= m,
            marks_match(n as int, visited@, pre@),
            grows(v1, visited@),
            v0.len() == n,
            v1 == v0.update(i as int, true),
            count_unmarked(v1) + 1 == count_unmarked(v0),
            unmarked == count_unmarked(v0),
            pre@.len() > p0.len(),
            pre@.subrange(0, p0.len() as int) == p0,
            pre@[p0.len() as int] == i,
            forall|p: int|
                p0.len() < p < pre@.len() ==> closed(*g, #[trigger] pre@[p] as int, visited@),
            forall|kk: int, j: int| 0 <= kk < k && #[trigger] links(*g, i as int, kk, j) ==> visited@[j],
            post@.len() >= q0.len(),
            post@.subrange(0, q0.len() as int) == q0,
            forall|p: int| 0 <= p < post@.len() ==> post@[p] < n,
            post@.no_duplicates(),
            forall|p: int| 0 <= p < post@.len() ==> pre@.contains(#[trigger] post@[p]),
            forall|p: int|
                q0.len() <= p < post@.len() ==> !v0[#[trigger] post@[p] as int] && post@[p] != i,
            post@.len() - q0.len() == pre@.len() - p0.len() - 1,
            reaches(*g, root, i as int),
            forall|p: int| 0 <= p < pre@.len() ==> reaches(*g, root, #[trigger] pre@[p] as int),
            forall|p: int| p0.len() < p < pre@.len() ==> post@.contains(#[trigger] pre@[p]),
        decreases m - k,
    {
        let ghost v2 = visited@;
        let ghost p2 = pre@;
        let ghost q2 = post@;
        match &node.ingredients[k].active_manifest {
            Some(l) => {
                match find_label(g, l) {
                    Some(j) => {
                        if !visited[j] {
                            proof {
                                lemma_count_grows(v1, v2);
                                assert(links(*g, i as int, k as int, j as int));
                                lemma_reaches_link(*g, root, i as int, k as int, j as int);
                            }
                            visit(g, j, visited, pre, post, Ghost(count_unmarked(visited@)), Ghost(root));
                            proof {
                                assert(pre@.subrange(0, p0.len() as int) =~= p2.subrange(
                                    0,
                                    p0.len() as int,
                                ));
                                assert(post@.subrange(0, q0.len() as int) =~= q2.subrange(
                                    0,
                                    q0.len() as int,
                                ));
                                assert forall|p: int|
                                    p0.len() < p < pre@.len() implies post@.contains(
                                    #[trigger] pre@[p],
                                ) by {
                                    if p < p2.len() {
                                        assert(p2[p] == pre@[p]);
                                        assert(q2.contains(p2[p]));
                                        let w = choose|w: int| 0 <= w < q2.len() && q2[w] == p2[p];
                                        assert(post@[w] == q2[w]);
                                    }
                                }
                                assert forall|p: int|
                                    q0.len() <= p < post@.len() implies !v0[#[trigger] post@[p] as int]
                                    && post@[p] != i by {
                                    if p < q2.len() {
                                        assert(q2[p] == post@[p]);
                                    } else {
                                        assert(!v2[post@[p] as int]);
                                        assert(v2[i as int]);
                                    }
                                }
                                assert forall|p: int|
                                    p0.len() < p < pre@.len() implies closed(
                                    *g,
                                    #[trigger] pre@[p] as int,
                                    visited@,
                                ) by {
                                    if p < p2.len() {
                                        assert(p2[p] == pre@[p]);
                                        assert(closed(*g, p2[p] as int, v2));
                                    }
                                }
                                assert forall|kk: int, jj: int|
                                    0 <= kk < k + 1 && #[trigger] links(
                                        *g,
                                        i as int,
                                        kk,
                                        jj,
                                    ) implies visited@[jj] by {
                                    if kk == k {
                                        assert(jj == j);
                                    }
                                }
                            }
                        } else {
                            proof {
                                assert forall|kk: int, jj: int|
                                    0 <= kk < k + 1 && #[trigger] links(
                                        *g,
                                        i as int,
                                        kk,
                                        jj,
                                    ) implies visited@[jj] by {
                                    if kk == k {
                                        assert(jj == j);
                                    }
                                }
                            }
                        }
                    },
                    None => {
                        assert forall|kk: int, jj: int|
                            0 <= kk < k + 1 && #[trigger] links(
                                *g,
                                i as int,
                                kk,
                                jj,
                            ) implies visited@[jj] by {
                            if kk == k {
                                assert(has_label(g.manifests@[jj], l@));
                            }
                        }
                    },
                }
            },
            None => {},
        }
        k = k + 1;
    }
    let ghost q3 = post@;
    proof {
        assert forall|p: int| 0 <= p < q3.len() implies q3[p] != i by {
            if p < q0.len() {
                assert(q0[p] == q3[p]);
                assert(p0.contains(q3[p]));
            }
        }
    }
    post.push(i);
    proof {
        assert(pre@.contains(i)) by {
            assert(pre@[p0.len() as int] == i);
        }
        assert forall|a: int, b: int| 0 <= a < b < post@.len() implies post@[a] != post@[b] by {
            if b == q3.len() {
                assert(q3[a] != i);
            } else {
                assert(q3[a] == post@[a] && q3[b] == post@[b]);
            }
        }
        assert forall|p: int| 0 <= p < post@.len() implies pre@.contains(#[trigger] post@[p]) by {
            if p < q3.len() {
                assert(q3[p] == post@[p]);
            }
        }
        assert forall|p: int| p0.len() <= p < pre@.len() implies post@.contains(#[trigger] pre@[p]) by {
            if p == p0.len() {
                assert(post@[q3.len() as int] == i);
            } else {
                assert(q3.contains(pre@[p]));
                let w = choose|w: int| 0 <= w < q3.len() && q3[w] == pre@[p];
                assert(post@[w] == q3[w]);
            }
        }
        assert forall|p: int| q0.len() <= p < post@.len() implies !v0[#[trigger] post@[p] as int] by {
            if p < q3.len() {
                assert(q3[p] == post@[p]);
            }
        }
        lemma_count_grows(v1, visited@);
        assert(post@.subrange(0, q0.len() as int) =~= q0);
        assert forall|p: int| p0.len() <= p < pre@.len() implies closed(
            *g,
            #[trigger] pre@[p] as int,
            visited@,
        ) by {
            if p == p0.len() {
                assert forall|kk: int, jj: int| #[trigger] links(*g, pre@[p] as int, kk, jj) implies visited@[jj] by {
                    assert(links(*g, i as int, kk, jj));
                }
            }
        }
    }
}

} // verus!

verus! {

/// Manifest `j` is an entry of `order`.
pub open spec fn holds(order: Seq<usize>, j: int) -> bool {
    exists|q: int| 0 <= q < order.len() && order[q] as int == j
}

/// The visit order of a depth-first walk from `root`: it starts at `root`, holds
/// valid indices once each, holds every manifest that one of its entries links to,
/// and only manifests that `root` reaches.
pub open spec fn is_walk_from(g: ManifestGraph, root: int, order: Seq<usize>) -> bool {
    &&& order.len() > 0
    &&& order[0] == root
    &&& order.no_duplicates()
    &&& forall|p: int| 0 <= p < order.len() ==> order[p] < g.manifests@.len()
    &&& forall|p: int, k: int, j: int|
        0 <= p < order.len() && #[trigger] links(g, order[p] as int, k, j) ==> holds(order, j)
    &&& forall|p: int| 0 <= p < order.len() ==> reaches(g, root, #[trigger] order[p] as int)
}


/// Both orders in which a walk meets the manifests: on entry, and once their
/// ingredients are done.
pub struct Walk {
    pub pre: Vec<usize>,
    pub post: Vec<usize>,
}

/// Walks the store depth first from manifest `root`, following each ingredient's
/// active-manifest label and entering each manifest once, so that a store whose
/// labels form a cycle is walked to the end as well. `pre` lists the manifests in
/// the order they are entered, `post` the same manifests in the order they are left.
pub fn walk(g: &ManifestGraph, root: usize) -> (r: Walk)
    requires
        root < g.manifests@.len(),
    ensures
        is_walk_from(*g, root as int, r.pre@),
        r.post@.len() > 0,
        r.post@.last() == root,
        forall|p: int| 0 <= p < r.pre@.len() ==> reaches(*g, root as int, #[trigger] r.pre@[p] as int),
        r.post@.len() == r.pre@.len(),
        r.post@.no_duplicates(),
        forall|p: int| 0 <= p < r.post@.len() ==> r.pre@.contains(#[trigger] r.post@[p]),
        forall|p: int| 0 <= p < r.pre@.len() ==> r.post@.contains(#[trigger] r.pre@[p]),
        forall|p: int| 0 <= p < r.post@.len() ==> r.post@[p] < g.manifests@.len(),
{
    let n = g.manifests.len();
    let mut visited: Vec<bool> = Vec::new();
    let mut i: usize = 0;
    while i < n
        invariant
            i <= n,
            visited@.len() == i,
            forall|j: int| 0 <= j < i ==> !visited@[j],
        decreases n - i,
    {
        visited.push(false);
        i = i + 1;
    }
    let mut pre: Vec<usize> = Vec::new();
    let mut post: Vec<usize> = Vec::new();
    proof {
        assert(pre@.no_duplicates());
        assert forall|j: int| 0 <= j < n implies (visited@[j] <==> pre@.contains(j as usize)) by {}
    }
    let ghost unmarked = count_unmarked(visited@);
    proof {
        lemma_reaches_start(*g, root as int);
    }
    visit(g, root, &mut visited, &mut pre, &mut post, Ghost(unmarked), Ghost(root as int));
    proof {
        assert forall|p: int, k: int, j: int|
            0 <= p < pre@.len() && #[trigger] links(*g, pre@[p] as int, k, j) implies holds(
            pre@,
            j,
        ) by {
            assert(closed(*g, pre@[p] as int, visited@));
            assert(pre@.contains(j as usize));
            let q = choose|q: int| 0 <= q < pre@.len() && pre@[q] == j as usize;
            assert(pre@[q] as int == j);
        }
    }
    Walk { pre, post }
}

/// A depth-first walk meets every manifest that can be reached from its start along
/// the link path `path`.
proof fn lemma_walk_follows_path(g: ManifestGraph, order: Seq<usize>, path: Seq<int>)
    requires
        is_link_path(g, path),
        is_walk_from(g, path[0], order),
    ensures
        holds(order, path.last()),
    decreases path.len(),
{
    if path.len() == 1 {
        assert(order[0] as int == path[0]);
    } else {
        let prefix = path.drop_last();
        assert forall|s: int| 0 <= s < prefix.len() - 1 implies step(
            g,
            #[trigger] prefix[s],
            prefix[s + 1],
        ) by {
            assert(prefix[s] == path[s] && prefix[s + 1] == path[s + 1]);
            assert(step(g, path[s], path[s + 1]));
        }
        lemma_walk_follows_path(g, order, prefix);
        let s = path.len() - 2;
        assert(step(g, path[s], path[s + 1]));
        let k = choose|k: int| #[trigger] links(g, path[s], k, path[s + 1]);
        assert(prefix.last() == path[s]);
        assert(0 <= path[s] < g.manifests@.len());
        assert(0 <= path[s + 1] < g.manifests@.len());
        let p = choose|p: int| 0 <= p < order.len() && order[p] as int == prefix.last();
        assert(path.last() == path[s + 1]);
        assert(links(g, order[p] as int, k, path.last()));
    }
}

} // verus!

verus! {

/// Where the walk of a store starts: the first manifest that carries the active
/// label, where the store has an active label and a manifest carries it.
pub open spec fn active_root(g: ManifestGraph) -> Option<int> {
    match g.active_label {
        Some(l) => if exists|i: int| is_first_with_label(g.manifests@, l@, i) {
            Some(choose|i: int| is_first_with_label(g.manifests@, l@, i))
        } else {
            None
        },
        None => None,
    }
}

/// Finds the active manifest of the store.
pub fn active_index(g: &ManifestGraph) -> (r: Option<usize>)
    ensures
        match r {
            Some(i) => active_root(*g) == Some(i as int) && i < g.manifests@.len(),
            None => active_root(*g) is None,
        },
{
    match &g.active_label {
        Some(l) => {
            let r = find_label(g, l);
            proof {
                match r {
                    Some(i) => {
                        let c = choose|c: int| is_first_with_label(g.manifests@, l@, c);
                        if c < i {
                        } else if i < c {
                        }
                    },
                    None => {},
                }
            }
            r
        },
        None => None,
    }
}

/// A depth-first walk, even of a store whose labels form cycles, meets exactly the
/// manifests that can be reached from its start by following ingredient links, and
/// meets each of them once.
pub proof fn lemma_walk_meets_reachable_once(g: ManifestGraph, root: int, order: Seq<usize>)
    requires
        is_walk_from(g, root, order),
    ensures
        order.no_duplicates(),
        forall|j: int| #[trigger] holds(order, j) <==> reaches(g, root, j),
{
    assert forall|j: int| #[trigger] holds(order, j) <==> reaches(g, root, j) by {
        if holds(order, j) {
            let q = choose|q: int| 0 <= q < order.len() && order[q] as int == j;
            assert(reaches(g, root, order[q] as int));
        }
        if reaches(g, root, j) {
            let path = choose|path: Seq<int>| #[trigger] is_link_path(g, path) && path[0] == root
                && path.last() == j;
            lemma_walk_follows_path(g, order, path);
        }
    }
}

} // verus!
