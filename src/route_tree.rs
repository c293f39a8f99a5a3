//! The route tree: a nested view of the routes, built from a listing of
//! the route root's directories.

use crate::paths::{
    classify, classify_segment, ends_with_script_suffix, file_stem, has_script_suffix,
    is_skipped_dir, kind_label, kind_name, stem_of, SegmentKind,
};
use crate::text::{chars_of, eq_str, opt_view, starts_with_str};
use crate::order::{insert_ranked, sort_ranked, Ranked};
use crate::table::table_views;
use vstd::prelude::*;

verus! {

/// A file of a listed directory.
#[derive(Debug, Clone)]
pub struct DirFile {
    /// Its name.
    pub file_name: String,
    /// Its full path.
    pub full_path: String,
}

/// A directory as a walk of the route root lists it.
#[derive(Debug)]
pub struct DirListing {
    /// Its own name, empty when it has none.
    pub name: String,
    /// Its files, in listing order.
    pub files: Vec<DirFile>,
    /// Its subdirectories, in listing order.
    pub subdirs: Vec<DirListing>,
}

/// A node of the route tree.
#[derive(Debug)]
pub struct RouteNode {
    /// The segment's label: a parameter's name, empty for the root and for
    /// groups.
    pub segment: String,
    /// `static`, `dynamic`, `catch-all` or `group`.
    pub kind: String,
    /// The page (`page` or `index`).
    pub index_path: Option<String>,
    /// The layout (`layout` or `root`).
    pub layout_path: Option<String>,
    pub loading_path: Option<String>,
    pub error_path: Option<String>,
    pub not_found_path: Option<String>,
    /// Subtrees with content, static before dynamic before the rest, then
    /// by label.
    pub children: Vec<RouteNode>,
}

pub struct RouteNodeView {
    pub segment: Seq<char>,
    pub kind: Seq<char>,
    pub index_path: Option<Seq<char>>,
    pub layout_path: Option<Seq<char>>,
    pub loading_path: Option<Seq<char>>,
    pub error_path: Option<Seq<char>>,
    pub not_found_path: Option<Seq<char>>,
    pub children: Seq<RouteNodeView>,
}

/// The view of a route tree.
pub open spec fn node_view(n: RouteNode) -> RouteNodeView
    decreases n, 0int,
{
    RouteNodeView {
        segment: n.segment@,
        kind: n.kind@,
        index_path: opt_view(n.index_path),
        layout_path: opt_view(n.layout_path),
        loading_path: opt_view(n.loading_path),
        error_path: opt_view(n.error_path),
        not_found_path: opt_view(n.not_found_path),
        children: node_views(n.children@, n.children@.len() as int),
    }
}

/// The views of the first `k` trees of `cs`.
pub open spec fn node_views(cs: Seq<RouteNode>, k: int) -> Seq<RouteNodeView>
    decreases cs, k,
{
    if k <= 0 || k > cs.len() {
        Seq::empty()
    } else {
        node_views(cs, k - 1).push(node_view(cs[k - 1]))
    }
}

proof fn lemma_node_views(cs: Seq<RouteNode>, k: int)
    requires
        0 <= k <= cs.len(),
    ensures
        node_views(cs, k).len() == k,
        forall|i: int| 0 <= i < k ==> #[trigger] node_views(cs, k)[i] == node_view(cs[i]),
    decreases k,
{
    if k > 0 {
        lemma_node_views(cs, k - 1);
    }
}

// ---------------------------------------------------------------------------
// The tree of a listing

/// The special files of a directory, as far as found.
pub struct SpecialPaths {
    pub index: Option<Seq<char>>,
    pub layout: Option<Seq<char>>,
    pub loading: Option<Seq<char>>,
    pub error: Option<Seq<char>>,
    pub not_found: Option<Seq<char>>,
}

/// The special files after one more file: a script file named `page` or
/// `index`, `layout` or `root`, `loading`, `error` or `not-found` takes its
/// place, a later one over an earlier.
pub open spec fn special_step(sp: SpecialPaths, f: DirFile) -> SpecialPaths {
    let name = f.file_name@;
    let path = Some(f.full_path@);
    let stem = file_stem(name);
    if !has_script_suffix(name) {
        sp
    } else if stem == "page"@ || stem == "index"@ {
        SpecialPaths { index: path, ..sp }
    } else if stem == "layout"@ || stem == "root"@ {
        SpecialPaths { layout: path, ..sp }
    } else if stem == "loading"@ {
        SpecialPaths { loading: path, ..sp }
    } else if stem == "error"@ {
        SpecialPaths { error: path, ..sp }
    } else if stem == "not-found"@ {
        SpecialPaths { not_found: path, ..sp }
    } else {
        sp
    }
}

/// The special files among the first `k` files.
pub open spec fn special_paths(files: Seq<DirFile>, k: int) -> SpecialPaths
    decreases k,
{
    if k <= 0 {
        SpecialPaths { index: None, layout: None, loading: None, error: None, not_found: None }
    } else {
        special_step(special_paths(files, k - 1), files[k - 1])
    }
}

/// A subtree worth showing: it has a page or a layout, or children.
pub open spec fn has_content(t: RouteNodeView) -> bool {
    t.index_path is Some || t.layout_path is Some || t.children.len() > 0
}

/// Sort rank of a node kind: static, dynamic, then the rest.
pub open spec fn child_rank(kind: Seq<char>) -> int {
    if kind == "static"@ {
        0
    } else if kind == "dynamic"@ {
        1
    } else {
        2
    }
}

impl View for RouteNode {
    type V = RouteNodeView;

    open spec fn view(&self) -> RouteNodeView {
        node_view(*self)
    }
}

impl Ranked for RouteNode {
    open spec fn rank_of(v: RouteNodeView) -> int {
        child_rank(v.kind)
    }

    open spec fn label_of(v: RouteNodeView) -> Seq<char> {
        v.segment
    }

    fn rank(&self) -> (r: u8) {
        let k = chars_of(self.kind.as_str());
        if eq_str(&k, "static") {
            0
        } else if eq_str(&k, "dynamic") {
            1
        } else {
            2
        }
    }

    fn label(&self) -> (r: &String) {
        &self.segment
    }
}

/// The nodes in sorted order: by kind, then by label, equal ones in the
/// order given.
pub open spec fn sort_children(cs: Seq<RouteNodeView>) -> Seq<RouteNodeView> {
    sort_ranked::<RouteNode>(cs)
}

proof fn lemma_node_views_table(cs: Seq<RouteNode>)
    ensures
        node_views(cs, cs.len() as int) == table_views(cs),
{
    lemma_node_views(cs, cs.len() as int);
    assert(node_views(cs, cs.len() as int) =~= table_views(cs));
}

/// The tree of a listed directory; the root's own static segment is left
/// unlabelled.
pub open spec fn tree_of(d: DirListing, is_root: bool) -> RouteNodeView
    decreases d, 0int,
{
    let (label, kind) = classify(d.name@);
    let sp = special_paths(d.files@, d.files@.len() as int);
    RouteNodeView {
        segment: if kind == SegmentKind::Static && is_root {
            Seq::empty()
        } else {
            label
        },
        kind: kind_name(kind),
        index_path: sp.index,
        layout_path: sp.layout,
        loading_path: sp.loading,
        error_path: sp.error,
        not_found_path: sp.not_found,
        children: sort_children(kept_subtrees(d.subdirs@, d.subdirs@.len() as int)),
    }
}

/// The trees with content of the first `k` subdirectories that walks do
/// not skip.
pub open spec fn kept_subtrees(ds: Seq<DirListing>, k: int) -> Seq<RouteNodeView>
    decreases ds, k,
{
    if k <= 0 || k > ds.len() {
        Seq::empty()
    } else {
        let prev = kept_subtrees(ds, k - 1);
        let d = ds[k - 1];
        if is_skipped_dir(d.name@) {
            prev
        } else if has_content(tree_of(d, false)) {
            prev.push(tree_of(d, false))
        } else {
            prev
        }
    }
}

fn path_copy(f: &DirFile) -> (r: Option<String>)
    ensures
        opt_view(r) == Some(f.full_path@),
{
    Some(f.full_path.clone())
}

/// The route tree of a listed directory: its segment's label and kind,
/// its special files, and, sorted, the trees with content of the
/// subdirectories that walks do not skip.
pub fn build_route_node(dir: &DirListing, is_root: bool) -> (r: RouteNode)
    ensures
        node_view(r) == tree_of(*dir, is_root),
    decreases dir,
{
    let name = chars_of(dir.name.as_str());
    let (label, kind) = classify_segment(&name);
    let segment = if kind == SegmentKind::Static && is_root {
        String::new()
    } else {
        crate::text::string_of(&label)
    };
    let mut index_path: Option<String> = None;
    let mut layout_path: Option<String> = None;
    let mut loading_path: Option<String> = None;
    let mut error_path: Option<String> = None;
    let mut not_found_path: Option<String> = None;
    let mut i: usize = 0;
    while i < dir.files.len()
        invariant
            i <= dir.files@.len(),
            special_paths(dir.files@, i as int) == (SpecialPaths {
                index: opt_view(index_path),
                layout: opt_view(layout_path),
                loading: opt_view(loading_path),
                error: opt_view(error_path),
                not_found: opt_view(not_found_path),
            }),
        decreases dir.files@.len() - i,
    {
        let f = &dir.files[i];
        let fname = chars_of(f.file_name.as_str());
        if ends_with_script_suffix(&fname) {
            let stem = stem_of(&fname);
            if eq_str(&stem, "page") || eq_str(&stem, "index") {
                index_path = path_copy(f);
            } else if eq_str(&stem, "layout") || eq_str(&stem, "root") {
                layout_path = path_copy(f);
            } else if eq_str(&stem, "loading") {
                loading_path = path_copy(f);
            } else if eq_str(&stem, "error") {
                error_path = path_copy(f);
            } else if eq_str(&stem, "not-found") {
                not_found_path = path_copy(f);
            }
        }
        i = i + 1;
    }
    let mut children: Vec<RouteNode> = Vec::new();
    let mut j: usize = 0;
    while j < dir.subdirs.len()
        invariant
            j <= dir.subdirs@.len(),
            table_views(children@) == sort_children(kept_subtrees(dir.subdirs@, j as int)),
        decreases dir.subdirs@.len() - j,
    {
        let sub = &dir.subdirs[j];
        let ghost before = kept_subtrees(dir.subdirs@, j as int);
        let sname = chars_of(sub.name.as_str());
        if !(starts_with_str(&sname, ".") || eq_str(&sname, "node_modules")) {
            let child = build_route_node(sub, false);
            if child.index_path.is_some() || child.layout_path.is_some() || child.children.len()
                > 0 {
                proof {
                    lemma_node_views(child.children@, child.children@.len() as int);
                    assert(kept_subtrees(dir.subdirs@, j + 1) =~= before.push(node_view(child)));
                    assert(kept_subtrees(dir.subdirs@, j + 1).drop_last() =~= before);
                }
                insert_ranked(&mut children, child);
            } else {
                proof {
                    lemma_node_views(child.children@, child.children@.len() as int);
                }
            }
        }
        j = j + 1;
    }
    proof {
        lemma_node_views_table(children@);
    }
    let kind_text = kind_label(kind);
    RouteNode {
        segment,
        kind: kind_text,
        index_path,
        layout_path,
        loading_path,
        error_path,
        not_found_path,
        children,
    }
}

/// The route tree of the route root.
pub fn get_route_tree(root: &DirListing) -> (r: RouteNode)
    ensures
        node_view(r) == tree_of(*root, true),
{
    build_route_node(root, true)
}

} // verus!
