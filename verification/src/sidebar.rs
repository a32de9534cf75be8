//! The request tree of the sidebar: project folders, the folders and files under them and
//! the requests of each file, as the rows the window draws, in order.
use vstd::prelude::*;

use crate::domain::{best_root_index, project_root_for_file, project_views};
use crate::model::{DraftView, HttpFile, HttpFileView, RequestDraft, RequestId, RequestIdView};
use crate::pathing::{GlobalEnvRoot, ProjectRoot};
use crate::paths::{path_components, path_file_stem, path_strip_prefix};
use crate::session::{EditState, EditTarget, EditTargetView};
use crate::status::string_views;
use crate::text::{join, lower_seq};
use crate::workspace::{file_paths, file_views, first_index, find_file};

verus! {

/// Whether the sidebar draws its icons from the icon font or with plain characters.
#[derive(Debug, Clone, Copy, PartialEq, Eq, Structural)]
pub enum IconSet {
    Bootstrap,
    Ascii,
}

impl IconSet {
    /// The icon set that a `ZAGEL_ICON_SET` value asks for: `ascii`, in any case, asks for
    /// plain characters; any other value, or none, for the icon font.
    pub fn from_env_value(value: Option<&str>) -> (r: IconSet)
        ensures
            r == (match value {
                Some(v) => if lower_seq(v@) == "ascii"@ {
                    IconSet::Ascii
                } else {
                    IconSet::Bootstrap
                },
                None => IconSet::Bootstrap,
            }),
    {
        match value {
            Some(v) => {
                let low = crate::text::lowercase(&crate::text::chars_of(v));
                let ascii = crate::text::chars_of("ascii");
                proof {
                    reveal_strlit("ascii");
                }
                if crate::text::seq_eq(&low, &ascii) {
                    IconSet::Ascii
                } else {
                    IconSet::Bootstrap
                }
            },
            None => IconSet::Bootstrap,
        }
    }
}

// ---------------------------------------------------------------------------
// The tree
// ---------------------------------------------------------------------------

/// A request listed under a file.
#[derive(Debug)]
pub struct RequestItem {
    pub id: RequestId,
    pub draft: RequestDraft,
}

/// A node of the tree, named by the labels on the way to it from the top; the nodes are
/// kept in the order they were made.
#[derive(Debug)]
pub struct TreeNode {
    pub segments: Vec<String>,
    pub file_path: Option<String>,
    pub requests: Vec<RequestItem>,
}

pub ghost struct NodeView {
    pub segments: Seq<Seq<char>>,
    pub file_path: Option<Seq<char>>,
    pub requests: Seq<(RequestIdView, DraftView)>,
}

pub open spec fn item_views(v: Seq<RequestItem>) -> Seq<(RequestIdView, DraftView)> {
    v.map_values(|r: RequestItem| (r.id@, r.draft@))
}

impl View for TreeNode {
    type V = NodeView;

    open spec fn view(&self) -> NodeView {
        NodeView {
            segments: string_views(self.segments@),
            file_path: crate::cli::opt_seq(self.file_path),
            requests: item_views(self.requests@),
        }
    }
}

pub open spec fn node_views(v: Seq<TreeNode>) -> Seq<NodeView> {
    v.map_values(|n: TreeNode| n@)
}

/// Where the node named by `segs` is, the first one, or -1.
pub open spec fn node_index(nodes: Seq<NodeView>, segs: Seq<Seq<char>>) -> int
    decreases nodes.len(),
{
    if nodes.len() == 0 {
        -1
    } else {
        let i = node_index(nodes.drop_last(), segs);
        if i >= 0 {
            i
        } else if nodes.last().segments == segs {
            nodes.len() - 1
        } else {
            -1
        }
    }
}

/// The nodes with one named by `segs`: made at the end when there is none yet.
pub open spec fn ensure_node(nodes: Seq<NodeView>, segs: Seq<Seq<char>>) -> Seq<NodeView> {
    if node_index(nodes, segs) >= 0 {
        nodes
    } else {
        nodes.push(NodeView { segments: segs, file_path: None, requests: Seq::empty() })
    }
}

/// The nodes with one for each of the first `k` prefixes of `segs`, shortest first.
pub open spec fn ensure_prefixes(nodes: Seq<NodeView>, segs: Seq<Seq<char>>, k: nat) -> Seq<NodeView>
    decreases k,
{
    if k == 0 {
        nodes
    } else {
        ensure_node(ensure_prefixes(nodes, segs, (k - 1) as nat), segs.take(k as int))
    }
}

/// Puts a collection into the tree at `segs`, making the folders on the way: its node keeps
/// the file it first got and lists `reqs` after the requests it has.
pub open spec fn insert_collection_spec(
    nodes: Seq<NodeView>,
    segs: Seq<Seq<char>>,
    file_path: Option<Seq<char>>,
    reqs: Seq<(RequestIdView, DraftView)>,
) -> Seq<NodeView> {
    if segs.len() == 0 {
        nodes
    } else {
        let n1 = ensure_prefixes(nodes, segs, segs.len());
        let i = node_index(n1, segs);
        let old_node = n1[i];
        n1.update(
            i,
            NodeView {
                segments: old_node.segments,
                file_path: if old_node.file_path is None {
                    file_path
                } else {
                    old_node.file_path
                },
                requests: old_node.requests + reqs,
            },
        )
    }
}

proof fn lemma_node_index_bounds(nodes: Seq<NodeView>, segs: Seq<Seq<char>>)
    ensures
        -1 <= node_index(nodes, segs) < nodes.len(),
        node_index(nodes, segs) >= 0 ==> nodes[node_index(nodes, segs)].segments == segs,
        node_index(nodes, segs) < 0 ==> forall|j: int| 0 <= j < nodes.len() ==> #[trigger] nodes[j].segments != segs,
    decreases nodes.len(),
{
    if nodes.len() > 0 {
        lemma_node_index_bounds(nodes.drop_last(), segs);
        if node_index(nodes.drop_last(), segs) < 0 {
            assert forall|j: int| 0 <= j < nodes.len() - 1 implies #[trigger] nodes[j].segments != segs by {
                assert(nodes.drop_last()[j] == nodes[j]);
            }
        } else {
            assert(nodes.drop_last()[node_index(nodes.drop_last(), segs)] == nodes[node_index(nodes.drop_last(), segs)]);
        }
    }
}

proof fn lemma_ensure_node_found(nodes: Seq<NodeView>, segs: Seq<Seq<char>>)
    ensures
        node_index(ensure_node(nodes, segs), segs) >= 0,
{
    if node_index(nodes, segs) < 0 {
        let n = ensure_node(nodes, segs);
        assert(n.drop_last() =~= nodes);
    }
}

fn segments_eq(a: &[String], b: &[String]) -> (r: bool)
    ensures
        r == (string_views(a@) == string_views(b@)),
{
    if a.len() != b.len() {
        assert(string_views(a@).len() != string_views(b@).len());
        return false;
    }
    let mut i: usize = 0;
    while i < a.len()
        invariant
            i <= a@.len(),
            a@.len() == b@.len(),
            forall|j: int| 0 <= j < i ==> string_views(a@)[j] == string_views(b@)[j],
        decreases a.len() - i,
    {
        if !crate::text::str_eq(a[i].as_str(), b[i].as_str()) {
            assert(string_views(a@)[i as int] != string_views(b@)[i as int]);
            return false;
        }
        i = i + 1;
    }
    assert(string_views(a@) =~= string_views(b@));
    true
}

fn find_node(nodes: &Vec<TreeNode>, segs: &[String]) -> (r: Option<usize>)
    ensures
        match r {
            Some(i) => i as int == node_index(node_views(nodes@), string_views(segs@)) && i < nodes@.len(),
            None => node_index(node_views(nodes@), string_views(segs@)) < 0,
        },
{
    let ghost nv = node_views(nodes@);
    let ghost sv = string_views(segs@);
    let mut i: usize = 0;
    assert(nv.take(0) =~= Seq::<NodeView>::empty());
    while i < nodes.len()
        invariant
            i <= nodes@.len(),
            nv == node_views(nodes@),
            sv == string_views(segs@),
            node_index(nv.take(i as int), sv) < 0,
        decreases nodes.len() - i,
    {
        let ghost t = nv.take(i + 1);
        assert(t.drop_last() =~= nv.take(i as int));
        assert(t.last() == nodes@[i as int]@);
        if segments_eq(nodes[i].segments.as_slice(), segs) {
            proof {
                lemma_node_index_prefix(nv, sv, i + 1);
            }
            return Some(i);
        }
        i = i + 1;
    }
    assert(nv.take(nodes@.len() as int) =~= nv);
    None
}

/// A node found among the first `k` nodes is where it is among all of them.
proof fn lemma_node_index_prefix(nodes: Seq<NodeView>, segs: Seq<Seq<char>>, k: int)
    requires
        0 <= k <= nodes.len(),
        node_index(nodes.take(k), segs) >= 0,
    ensures
        node_index(nodes, segs) == node_index(nodes.take(k), segs),
    decreases nodes.len() - k,
{
    if k == nodes.len() {
        assert(nodes.take(k) =~= nodes);
    } else {
        assert(nodes.drop_last().take(k) =~= nodes.take(k));
        lemma_node_index_prefix(nodes.drop_last(), segs, k);
    }
}

fn clone_segments(v: &[String], k: usize) -> (r: Vec<String>)
    requires
        k <= v@.len(),
    ensures
        string_views(r@) == string_views(v@).take(k as int),
{
    let mut r: Vec<String> = Vec::new();
    let mut i: usize = 0;
    while i < k
        invariant
            i <= k,
            k <= v@.len(),
            string_views(r@) == string_views(v@).take(i as int),
        decreases k - i,
    {
        let ghost prev = string_views(r@);
        r.push(v[i].clone());
        assert(string_views(r@) =~= prev.push(v@[i as int]@));
        assert(string_views(v@).take(i + 1) =~= string_views(v@).take(i as int).push(v@[i as int]@));
        i = i + 1;
    }
    r
}

fn ensure_node_exec(nodes: &mut Vec<TreeNode>, segs: Vec<String>)
    ensures
        node_views(final(nodes)@) == ensure_node(node_views(old(nodes)@), string_views(segs@)),
{
    match find_node(nodes, segs.as_slice()) {
        Some(_) => {},
        None => {
            let ghost before = node_views(nodes@);
            let ghost sv = string_views(segs@);
            let n = TreeNode { segments: segs, file_path: None, requests: Vec::new() };
            assert(item_views(n.requests@) =~= Seq::<(RequestIdView, DraftView)>::empty());
            nodes.push(n);
            assert(node_views(nodes@) =~= before.push(
                NodeView { segments: sv, file_path: None, requests: Seq::empty() },
            ));
        },
    }
}

fn append_items(dst: &mut Vec<RequestItem>, src: Vec<RequestItem>)
    ensures
        item_views(final(dst)@) == item_views(old(dst)@) + item_views(src@),
{
    let mut src = src;
    let ghost a = dst@;
    let ghost b = src@;
    dst.append(&mut src);
    assert(item_views(dst@) =~= item_views(a) + item_views(b));
}

/// Puts a collection into the tree at `segments`, making the folders on the way.
pub fn insert_collection(
    nodes: &mut Vec<TreeNode>,
    segments: &[String],
    file_path: Option<String>,
    requests: Vec<RequestItem>,
)
    ensures
        node_views(final(nodes)@) == insert_collection_spec(
            node_views(old(nodes)@),
            string_views(segments@),
            crate::cli::opt_seq(file_path),
            item_views(requests@),
        ),
{
    if segments.len() == 0 {
        return;
    }
    let ghost sv = string_views(segments@);
    let ghost start = node_views(nodes@);
    let mut k: usize = 0;
    while k < segments.len()
        invariant
            k <= segments@.len(),
            sv == string_views(segments@),
            node_views(nodes@) == ensure_prefixes(start, sv, k as nat),
        decreases segments.len() - k,
    {
        let prefix = clone_segments(segments, k + 1);
        ensure_node_exec(nodes, prefix);
        k = k + 1;
    }
    let ghost n1 = node_views(nodes@);
    assert(sv.take(sv.len() as int) =~= sv);
    proof {
        lemma_ensure_node_found(ensure_prefixes(start, sv, (sv.len() - 1) as nat), sv.take(sv.len() as int));
        lemma_node_index_bounds(n1, sv);
    }
    let i = match find_node(nodes, segments) {
        Some(i) => i,
        None => {
            return;
        },
    };
    let mut node = nodes.remove(i);
    assert(node@ == n1[i as int]);
    if node.file_path.is_none() {
        node.file_path = file_path;
    }
    append_items(&mut node.requests, requests);
    nodes.insert(i, node);
    assert(node_views(nodes@) =~= insert_collection_spec(start, sv, crate::cli::opt_seq(file_path), item_views(requests@)));
}

// ---------------------------------------------------------------------------
// The rows
// ---------------------------------------------------------------------------

/// A row of the sidebar's tree.
#[derive(Debug)]
pub enum SidebarRow {
    /// A folder or file; `full_path` is the labels on the way to it joined by `/`, the name
    /// under which it is collapsed.
    Collection { name: String, full_path: String, depth: usize, collapsed: bool, file_path: Option<String> },
    /// A request of a file, under the file's row at `depth`.
    Request { id: RequestId, draft: RequestDraft, depth: usize },
}

pub ghost enum RowView {
    Collection { name: Seq<char>, full_path: Seq<char>, depth: nat, collapsed: bool, file_path: Option<Seq<char>> },
    Request { id: RequestIdView, draft: DraftView, depth: nat },
}

impl View for SidebarRow {
    type V = RowView;

    open spec fn view(&self) -> RowView {
        match self {
            SidebarRow::Collection { name, full_path, depth, collapsed, file_path } => RowView::Collection {
                name: name@,
                full_path: full_path@,
                depth: *depth as nat,
                collapsed: *collapsed,
                file_path: crate::cli::opt_seq(*file_path),
            },
            SidebarRow::Request { id, draft, depth } => RowView::Request { id: id@, draft: draft@, depth: *depth as nat },
        }
    }
}

pub open spec fn row_views(v: Seq<SidebarRow>) -> Seq<RowView> {
    v.map_values(|r: SidebarRow| r@)
}

/// Whether a node sits right under the node named by `prefix`.
pub open spec fn child_of(n: NodeView, prefix: Seq<Seq<char>>) -> bool {
    n.segments.len() == prefix.len() + 1 && n.segments.take(prefix.len() as int) == prefix
}

/// The rows of the requests of the node named by `prefix`.
pub open spec fn request_rows(nodes: Seq<NodeView>, prefix: Seq<Seq<char>>, depth: nat) -> Seq<RowView> {
    let i = node_index(nodes, prefix);
    if i >= 0 {
        nodes[i].requests.map_values(|r: (RequestIdView, DraftView)| RowView::Request { id: r.0, draft: r.1, depth })
    } else {
        Seq::empty()
    }
}

/// The rows under the node named by `prefix`, down to `fuel` levels: each child in the order
/// the nodes were made, followed by its own rows unless it is collapsed; then the node's
/// requests.
pub open spec fn render_node(
    nodes: Seq<NodeView>,
    prefix: Seq<Seq<char>>,
    depth: nat,
    collapsed: Seq<Seq<char>>,
    fuel: nat,
) -> Seq<RowView>
    decreases fuel, nodes.len() + 1,
{
    render_children(nodes, prefix, depth, collapsed, fuel, nodes.len()) + request_rows(nodes, prefix, depth)
}

/// The rows of the children of the node named by `prefix` among the first `i` nodes.
pub open spec fn render_children(
    nodes: Seq<NodeView>,
    prefix: Seq<Seq<char>>,
    depth: nat,
    collapsed: Seq<Seq<char>>,
    fuel: nat,
    i: nat,
) -> Seq<RowView>
    decreases fuel, i,
{
    if i == 0 || i > nodes.len() {
        Seq::empty()
    } else {
        let prev = render_children(nodes, prefix, depth, collapsed, fuel, (i - 1) as nat);
        let c = nodes[i - 1];
        if child_of(c, prefix) {
            let full = join(c.segments, "/"@);
            let is_collapsed = collapsed.contains(full);
            let row = RowView::Collection {
                name: c.segments.last(),
                full_path: full,
                depth,
                collapsed: is_collapsed,
                file_path: c.file_path,
            };
            if is_collapsed || fuel == 0 {
                prev.push(row)
            } else {
                prev.push(row) + render_node(nodes, c.segments, depth + 1, collapsed, (fuel - 1) as nat)
            }
        } else {
            prev
        }
    }
}

fn join_segments(v: &[String]) -> (r: String)
    ensures
        r@ == join(string_views(v@), "/"@),
{
    let ghost sv = string_views(v@);
    let mut r = String::new();
    proof {
        reveal_strlit("/");
    }
    assert(r@ =~= Seq::<char>::empty());
    assert(sv.take(0) =~= Seq::<Seq<char>>::empty());
    let mut i: usize = 0;
    while i < v.len()
        invariant
            i <= v@.len(),
            sv == string_views(v@),
            r@ == join(sv.take(i as int), "/"@),
        decreases v.len() - i,
    {
        let ghost t = sv.take(i + 1);
        assert(t.drop_last() =~= sv.take(i as int));
        assert(t.last() == v@[i as int]@);
        if i > 0 {
            crate::text::push_str(&mut r, "/");
        } else {
            assert(t.len() == 1);
            assert(r@ + v@[0]@ =~= v@[0]@);
        }
        crate::text::push_str(&mut r, v[i].as_str());
        i = i + 1;
    }
    assert(sv.take(v@.len() as int) =~= sv);
    r
}

fn lists(v: &[String], p: &str) -> (r: bool)
    ensures
        r == string_views(v@).contains(p@),
{
    let mut i: usize = 0;
    while i < v.len()
        invariant
            i <= v@.len(),
            forall|j: int| 0 <= j < i ==> string_views(v@)[j] != p@,
        decreases v.len() - i,
    {
        if crate::text::str_eq(v[i].as_str(), p) {
            assert(string_views(v@)[i as int] == p@);
            return true;
        }
        i = i + 1;
    }
    false
}

fn is_child_of(n: &TreeNode, prefix: &[String]) -> (r: bool)
    ensures
        r == child_of(n@, string_views(prefix@)),
{
    if n.segments.len() == 0 || n.segments.len() - 1 != prefix.len() {
        return false;
    }
    let head = clone_segments(n.segments.as_slice(), prefix.len());
    segments_eq(head.as_slice(), prefix)
}

fn push_request_rows(nodes: &Vec<TreeNode>, prefix: &[String], depth: usize, out: &mut Vec<SidebarRow>)
    ensures
        row_views(final(out)@) == row_views(old(out)@) + request_rows(node_views(nodes@), string_views(prefix@), depth as nat),
{
    let ghost base = row_views(out@);
    match find_node(nodes, prefix) {
        None => {
            assert(row_views(out@) =~= base + Seq::<RowView>::empty());
        },
        Some(k) => {
            let ghost iv = item_views(nodes@[k as int].requests@);
            assert(node_views(nodes@)[k as int].requests == iv);
            let mut j: usize = 0;
            while j < nodes[k].requests.len()
                invariant
                    k < nodes@.len(),
                    j <= nodes@[k as int].requests@.len(),
                    iv == item_views(nodes@[k as int].requests@),
                    row_views(out@) == base + iv.take(j as int).map_values(
                        |r: (RequestIdView, DraftView)| RowView::Request { id: r.0, draft: r.1, depth: depth as nat },
                    ),
                decreases nodes@[k as int].requests@.len() - j,
            {
                let item = &nodes[k].requests[j];
                let row = SidebarRow::Request { id: item.id.clone(), draft: item.draft.clone(), depth };
                let ghost prev = row_views(out@);
                out.push(row);
                assert(row_views(out@) =~= prev.push(RowView::Request { id: iv[j as int].0, draft: iv[j as int].1, depth: depth as nat }));
                assert(iv.take(j + 1) =~= iv.take(j as int).push(iv[j as int]));
                j = j + 1;
            }
            assert(iv.take(iv.len() as int) =~= iv);
        },
    }
}

fn render_node_exec(
    nodes: &Vec<TreeNode>,
    prefix: &[String],
    depth: usize,
    collapsed: &[String],
    fuel: usize,
    out: &mut Vec<SidebarRow>,
)
    requires
        depth + fuel <= usize::MAX,
    ensures
        row_views(final(out)@) == row_views(old(out)@) + render_node(
            node_views(nodes@),
            string_views(prefix@),
            depth as nat,
            string_views(collapsed@),
            fuel as nat,
        ),
    decreases fuel,
{
    let ghost nv = node_views(nodes@);
    let ghost pv = string_views(prefix@);
    let ghost cv = string_views(collapsed@);
    let ghost base = row_views(out@);
    let mut i: usize = 0;
    while i < nodes.len()
        invariant
            i <= nodes@.len(),
            depth + fuel <= usize::MAX,
            nv == node_views(nodes@),
            pv == string_views(prefix@),
            cv == string_views(collapsed@),
            row_views(out@) == base + render_children(nv, pv, depth as nat, cv, fuel as nat, i as nat),
        decreases nodes.len() - i,
    {
        let ghost before = row_views(out@);
        assert(nv[i as int] == nodes@[i as int]@);
        if is_child_of(&nodes[i], prefix) {
            let full = join_segments(nodes[i].segments.as_slice());
            let is_collapsed = lists(collapsed, full.as_str());
            let last = nodes[i].segments.len() - 1;
            let name = nodes[i].segments[last].clone();
            let file_path = match &nodes[i].file_path {
                Some(p) => Some(p.clone()),
                None => None,
            };
            out.push(SidebarRow::Collection { name, full_path: full, depth, collapsed: is_collapsed, file_path });
            assert(row_views(out@) =~= before.push(row_views(out@).last()));
            if !is_collapsed && fuel > 0 {
                let child_segments = clone_segments(nodes[i].segments.as_slice(), nodes[i].segments.len());
                assert(string_views(nodes@[i as int].segments@).take(nodes@[i as int].segments@.len() as int)
                    =~= string_views(nodes@[i as int].segments@));
                render_node_exec(nodes, child_segments.as_slice(), depth + 1, collapsed, fuel - 1, out);
            }
        }
        i = i + 1;
    }
    let ghost mid = row_views(out@);
    push_request_rows(nodes, prefix, depth, out);
}

// ---------------------------------------------------------------------------
// The sidebar
// ---------------------------------------------------------------------------

/// What the sidebar shows.
pub struct SidebarContext<'a> {
    pub http_files: &'a [HttpFile],
    pub http_file_order: &'a [String],
    pub selection: Option<&'a RequestId>,
    pub collapsed: &'a [String],
    pub project_roots: &'a [ProjectRoot],
    pub global_env_roots: &'a [GlobalEnvRoot],
    pub project_path_input: &'a str,
    pub global_env_path_input: &'a str,
    pub edit_state: &'a EditState,
    pub icon_set: IconSet,
}

/// The labels of a file's node: its project folder, then the components of its path inside
/// that folder (all of the path when it is not inside), the last one without its extension.
pub open spec fn file_segments(file_path: Seq<char>, root: Seq<char>) -> Seq<Seq<char>> {
    let rel = match path_strip_prefix(file_path, root) {
        Some(r) => r,
        None => file_path,
    };
    let segs = seq![root] + path_components(rel);
    match path_file_stem(segs.last()) {
        Some(stem) => segs.update(segs.len() - 1, stem),
        None => segs,
    }
}

/// The requests a file lists, each with its identifier.
pub open spec fn file_items(f: HttpFileView) -> Seq<(RequestIdView, DraftView)> {
    Seq::new(f.requests.len(), |i: int| (RequestIdView::HttpFile { path: f.path, index: i as usize }, f.requests[i]))
}

/// The tree with a node for each project folder, in order.
pub open spec fn add_roots(roots: Seq<Seq<char>>) -> Seq<NodeView>
    decreases roots.len(),
{
    if roots.len() == 0 {
        Seq::empty()
    } else {
        insert_collection_spec(add_roots(roots.drop_last()), seq![roots.last()], None, Seq::empty())
    }
}

/// The tree with the file loaded at `path` put under its project folder; a path with no
/// loaded file, or a file in no project folder, adds nothing.
pub open spec fn add_file(nodes: Seq<NodeView>, files: Seq<HttpFileView>, path: Seq<char>, roots: Seq<Seq<char>>) -> Seq<NodeView> {
    let fi = first_index(file_paths(files), path);
    if fi < 0 {
        nodes
    } else {
        let f = files[fi];
        match best_root_index(roots, f.path) {
            None => nodes,
            Some(ri) => insert_collection_spec(nodes, file_segments(f.path, roots[ri]), Some(f.path), file_items(f)),
        }
    }
}

/// The tree with the files at `order` put in, in that order.
pub open spec fn add_files(nodes: Seq<NodeView>, files: Seq<HttpFileView>, order: Seq<Seq<char>>, roots: Seq<Seq<char>>) -> Seq<NodeView>
    decreases order.len(),
{
    if order.len() == 0 {
        nodes
    } else {
        add_file(add_files(nodes, files, order.drop_last(), roots), files, order.last(), roots)
    }
}

/// The sidebar's tree: the project folders, then the loaded files in the workspace's order.
pub open spec fn sidebar_tree(files: Seq<HttpFileView>, order: Seq<Seq<char>>, roots: Seq<Seq<char>>) -> Seq<NodeView> {
    add_files(add_roots(roots), files, order, roots)
}

/// The rows of the sidebar's tree, all levels of it.
pub open spec fn sidebar_rows_spec(
    files: Seq<HttpFileView>,
    order: Seq<Seq<char>>,
    roots: Seq<Seq<char>>,
    collapsed: Seq<Seq<char>>,
) -> Seq<RowView> {
    let t = sidebar_tree(files, order, roots);
    render_node(t, Seq::empty(), 0, collapsed, t.len())
}

fn file_request_items(f: &HttpFile) -> (r: Vec<RequestItem>)
    ensures
        item_views(r@) == file_items(f@),
{
    let ghost fi = file_items(f@);
    let mut r: Vec<RequestItem> = Vec::new();
    let mut i: usize = 0;
    while i < f.requests.len()
        invariant
            i <= f.requests@.len(),
            fi == file_items(f@),
            item_views(r@) == fi.take(i as int),
        decreases f.requests.len() - i,
    {
        let item = RequestItem { id: RequestId::HttpFile { path: f.path.clone(), index: i }, draft: f.requests[i].clone() };
        let ghost prev = item_views(r@);
        r.push(item);
        assert(f@.requests[i as int] == f.requests@[i as int]@);
        assert(item_views(r@) =~= prev.push(fi[i as int]));
        assert(fi.take(i + 1) =~= fi.take(i as int).push(fi[i as int]));
        i = i + 1;
    }
    assert(fi.take(f.requests@.len() as int) =~= fi);
    r
}

fn segments_for(file_path: &str, root: &str) -> (r: Vec<String>)
    ensures
        string_views(r@) == file_segments(file_path@, root@),
{
    let rel = match crate::paths::strip_prefix(file_path, root) {
        Some(r) => r,
        None => String::from_str(file_path),
    };
    let comps = crate::paths::components(rel.as_str());
    let mut segs: Vec<String> = Vec::new();
    segs.push(String::from_str(root));
    let ghost cv = string_views(comps@);
    assert(cv == comps@.map_values(|c: String| c@));
    let mut i: usize = 0;
    while i < comps.len()
        invariant
            i <= comps@.len(),
            cv == string_views(comps@),
            string_views(segs@) == seq![root@] + cv.take(i as int),
        decreases comps.len() - i,
    {
        let ghost prev = string_views(segs@);
        segs.push(comps[i].clone());
        assert(string_views(segs@) =~= prev.push(comps@[i as int]@));
        assert(seq![root@] + cv.take(i + 1) =~= (seq![root@] + cv.take(i as int)).push(cv[i as int]));
        i = i + 1;
    }
    assert(cv.take(comps@.len() as int) =~= cv);
    let last = segs.len() - 1;
    match crate::paths::file_stem(segs[last].as_str()) {
        Some(stem) => {
            let ghost prev = string_views(segs@);
            segs.set(last, stem);
            assert(string_views(segs@) =~= prev.update(last as int, string_views(segs@)[last as int]));
        },
        None => {},
    }
    segs
}

fn add_roots_exec(roots: &[ProjectRoot]) -> (r: Vec<TreeNode>)
    ensures
        node_views(r@) == add_roots(project_views(roots@)),
{
    let ghost rv = project_views(roots@);
    let mut nodes: Vec<TreeNode> = Vec::new();
    let mut i: usize = 0;
    assert(rv.take(0) =~= Seq::<Seq<char>>::empty());
    assert(node_views(nodes@) =~= Seq::<NodeView>::empty());
    while i < roots.len()
        invariant
            i <= roots@.len(),
            rv == project_views(roots@),
            node_views(nodes@) == add_roots(rv.take(i as int)),
        decreases roots.len() - i,
    {
        let ghost t = rv.take(i + 1);
        assert(t.drop_last() =~= rv.take(i as int));
        assert(t.last() == roots@[i as int]@);
        let mut segs: Vec<String> = Vec::new();
        segs.push(String::from_str(roots[i].as_path()));
        assert(string_views(segs@) =~= seq![t.last()]);
        let empty: Vec<RequestItem> = Vec::new();
        assert(item_views(empty@) =~= Seq::<(RequestIdView, DraftView)>::empty());
        insert_collection(&mut nodes, segs.as_slice(), None, empty);
        i = i + 1;
    }
    assert(rv.take(roots@.len() as int) =~= rv);
    nodes
}

/// The rows of the sidebar's tree.
pub fn sidebar_rows(ctx: &SidebarContext) -> (r: Vec<SidebarRow>)
    ensures
        row_views(r@) == sidebar_rows_spec(
            file_views(ctx.http_files@),
            string_views(ctx.http_file_order@),
            project_views(ctx.project_roots@),
            string_views(ctx.collapsed@),
        ),
{
    let ghost fv = file_views(ctx.http_files@);
    let ghost ov = string_views(ctx.http_file_order@);
    let ghost rv = project_views(ctx.project_roots@);
    let mut nodes = add_roots_exec(ctx.project_roots);
    let mut i: usize = 0;
    assert(ov.take(0) =~= Seq::<Seq<char>>::empty());
    while i < ctx.http_file_order.len()
        invariant
            i <= ov.len(),
            fv == file_views(ctx.http_files@),
            ov == string_views(ctx.http_file_order@),
            rv == project_views(ctx.project_roots@),
            node_views(nodes@) == add_files(add_roots(rv), fv, ov.take(i as int), rv),
        decreases ov.len() - i,
    {
        let ghost t = ov.take(i + 1);
        assert(t.drop_last() =~= ov.take(i as int));
        assert(t.last() == ctx.http_file_order@[i as int]@);
        let path = ctx.http_file_order[i].as_str();
        match find_file(ctx.http_files, path) {
            None => {},
            Some(k) => {
                let file = &ctx.http_files[k];
                assert(fv[k as int] == file@);
                match project_root_for_file(file.path.as_str(), ctx.project_roots) {
                    None => {},
                    Some(ri) => {
                        assert(rv[ri as int] == ctx.project_roots@[ri as int]@);
                        let segs = segments_for(file.path.as_str(), ctx.project_roots[ri].as_path());
                        let items = file_request_items(file);
                        insert_collection(&mut nodes, segs.as_slice(), Some(file.path.clone()), items);
                    },
                }
            },
        }
        i = i + 1;
    }
    assert(ov.take(ov.len() as int) =~= ov);
    let mut out: Vec<SidebarRow> = Vec::new();
    let root: Vec<String> = Vec::new();
    assert(string_views(root@) =~= Seq::<Seq<char>>::empty());
    let fuel = nodes.len();
    render_node_exec(&nodes, root.as_slice(), 0, ctx.collapsed, fuel, &mut out);
    assert(row_views(out@) =~= Seq::<RowView>::empty() + row_views(out@));
    out
}

/// Whether a row stands for the selected request: a file's row when a request of the file
/// is selected, a request's row when it is.
pub open spec fn row_selected_spec(row: RowView, selection: Option<RequestIdView>) -> bool {
    match row {
        RowView::Collection { file_path, .. } => file_path matches Some(p) && (selection matches Some(
            RequestIdView::HttpFile { path, .. },
        ) && path == p),
        RowView::Request { id, .. } => selection == Some(id),
    }
}

pub fn row_selected(row: &SidebarRow, selection: Option<&RequestId>) -> (r: bool)
    ensures
        r == row_selected_spec(row@, crate::workspace::opt_ref_id_view(selection)),
{
    match row {
        SidebarRow::Collection { file_path, .. } => match (file_path, selection) {
            (Some(p), Some(RequestId::HttpFile { path, .. })) => crate::text::str_eq(path.as_str(), p.as_str()),
            _ => false,
        },
        SidebarRow::Request { id, .. } => match selection {
            Some(s) => crate::model::same_request(s, id),
            None => false,
        },
    }
}

/// What a row's mark box shows in edit mode: whether its item is marked. Outside edit mode,
/// and for a folder that is no file, there is no box.
pub open spec fn row_mark_spec(row: RowView, edit: Option<Set<EditTargetView>>) -> Option<bool> {
    match edit {
        None => None,
        Some(s) => match row {
            RowView::Collection { file_path, .. } => match file_path {
                Some(p) => Some(s.contains(EditTargetView::Collection(p))),
                None => None,
            },
            RowView::Request { id, .. } => Some(s.contains(EditTargetView::Request(id))),
        },
    }
}

fn edit_marks(edit: &EditState, t: &EditTarget) -> (r: Option<bool>)
    ensures
        r == match edit@ {
            None => None,
            Some(s) => Some(s.contains(t@)),
        },
{
    match edit {
        EditState::Off => None,
        EditState::On { selection } => {
            let ghost tv = crate::session::target_views(selection@);
            let mut i: usize = 0;
            while i < selection.len()
                invariant
                    i <= selection@.len(),
                    tv == crate::session::target_views(selection@),
                    edit@ == Some(tv.to_set()),
                    forall|j: int| 0 <= j < i ==> tv[j] != t@,
                decreases selection.len() - i,
            {
                if selection[i] == *t {
                    assert(tv[i as int] == t@);
                    assert(tv.contains(t@));
                    return Some(true);
                }
                i = i + 1;
            }
            Some(false)
        },
    }
}

pub fn row_mark(row: &SidebarRow, edit: &EditState) -> (r: Option<bool>)
    ensures
        r == row_mark_spec(row@, edit@),
{
    match row {
        SidebarRow::Collection { file_path, .. } => match file_path {
            Some(p) => edit_marks(edit, &EditTarget::Collection(p.clone())),
            None => match edit {
                EditState::Off => None,
                EditState::On { .. } => None,
            },
        },
        SidebarRow::Request { id, .. } => edit_marks(edit, &EditTarget::Request(id.clone())),
    }
}

} // verus!
