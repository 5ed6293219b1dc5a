//! The include graph of a workspace: which file includes which, the roots of the
//! graph and the sub-graph (project) reachable from each root.
use vstd::prelude::*;
use vstd::set_lib::lemma_len_subset;
use crate::base_db::{FileExtension, FileId, Include};

verus! {

/// A file of the include graph. Two nodes are the same node when their file ids agree.
#[derive(Debug, Clone, Copy)]
pub struct Node {
    pub file_id: FileId,
    pub extension: FileExtension,
}

/// An include: `source` includes `target`.
#[derive(Debug, Clone, Copy)]
pub struct Edge {
    pub source: Node,
    pub target: Node,
}

/// The include graph. Nodes are unique by file id, edges unique by their pair of file ids.
#[derive(Debug, Clone)]
pub struct Graph {
    pub edges: Vec<Edge>,
    pub nodes: Vec<Node>,
}

/// The part of the graph reachable from `root`, with the edges of a spanning search.
#[derive(Debug, Clone)]
pub struct SubGraph {
    pub root: Node,
    pub nodes: Vec<Node>,
    pub edges: Vec<Edge>,
}

// ---------------------------------------------------------------------------
// Specification vocabulary
// ---------------------------------------------------------------------------

pub open spec fn id_of(n: Node) -> u32 {
    n.file_id.0
}

/// Some node of `s` has file id `id`.
pub open spec fn contains_id(s: Seq<Node>, id: u32) -> bool {
    exists|i: int| 0 <= i < s.len() && #[trigger] s[i].file_id.0 == id
}

/// No two nodes of `s` share a file id.
pub open spec fn unique_ids(s: Seq<Node>) -> bool {
    forall|i: int, j: int| 0 <= i < j < s.len() ==> s[i].file_id.0 != s[j].file_id.0
}

/// Some edge of `s` goes from file `a` to file `b`.
pub open spec fn edge_in(s: Seq<Edge>, a: u32, b: u32) -> bool {
    exists|i: int|
        0 <= i < s.len() && (#[trigger] s[i]).source.file_id.0 == a && s[i].target.file_id.0 == b
}

/// No two edges of `s` join the same pair of file ids.
pub open spec fn unique_edges(s: Seq<Edge>) -> bool {
    forall|i: int, j: int|
        0 <= i < j < s.len() ==> !(s[i].source.file_id.0 == s[j].source.file_id.0
            && s[i].target.file_id.0 == s[j].target.file_id.0)
}

/// The extension recorded for file `id` among `s` (meaningful when some node of `s` has that id).
pub open spec fn node_ext(s: Seq<Node>, id: u32) -> FileExtension {
    s[choose|i: int| 0 <= i < s.len() && #[trigger] s[i].file_id.0 == id].extension
}

/// With unique ids, the node of `s` with file id `s[i].file_id` is `s[i]`.
pub proof fn lemma_node_ext(s: Seq<Node>, i: int)
    requires
        unique_ids(s),
        0 <= i < s.len(),
    ensures
        node_ext(s, s[i].file_id.0) == s[i].extension,
{
    let id = s[i].file_id.0;
    let k = choose|k: int| 0 <= k < s.len() && #[trigger] s[k].file_id.0 == id;
    assert(s[i].file_id.0 == id);
    if k < i {
        assert(s[k].file_id.0 != s[i].file_id.0);
    } else if i < k {
        assert(s[i].file_id.0 != s[k].file_id.0);
    }
}

impl Graph {
    pub open spec fn has_node(&self, id: u32) -> bool {
        contains_id(self.nodes@, id)
    }

    pub open spec fn has_edge(&self, a: u32, b: u32) -> bool {
        edge_in(self.edges@, a, b)
    }

    /// Well-formedness: unique nodes, unique edges, and every endpoint is a node.
    pub open spec fn wf(&self) -> bool {
        &&& unique_ids(self.nodes@)
        &&& unique_edges(self.edges@)
        &&& forall|i: int|
            0 <= i < self.edges.len() ==> self.has_node(#[trigger] self.edges@[i].source.file_id.0)
                && self.has_node(self.edges@[i].target.file_id.0)
    }

    /// `p` is a walk along edges of the graph.
    pub open spec fn is_path(&self, p: Seq<u32>) -> bool {
        &&& p.len() >= 1
        &&& forall|i: int| 0 <= i < p.len() - 1 ==> #[trigger] self.has_edge(p[i], p[i + 1])
    }

    /// `b` can be reached from `a` by following includes (every file reaches itself).
    pub open spec fn reachable(&self, a: u32, b: u32) -> bool {
        exists|p: Seq<u32>| #[trigger] self.is_path(p) && p[0] == a && p[p.len() - 1] == b
    }

    /// File `id` includes some file.
    pub open spec fn has_out_edge(&self, id: u32) -> bool {
        exists|b: u32| self.has_edge(id, b)
    }

    /// File `id` is included by some file.
    pub open spec fn has_in_edge(&self, id: u32) -> bool {
        exists|a: u32| self.has_edge(a, id)
    }

    /// A root of the graph as `find_roots` selects them: a node that includes some
    /// file, or that no file includes.
    pub open spec fn is_root(&self, id: u32) -> bool {
        self.has_node(id) && (self.has_out_edge(id) || !self.has_in_edge(id))
    }

    /// The nodes of `s` that are roots, in order.
    pub open spec fn roots_among(&self, s: Seq<Node>) -> Seq<Node> {
        s.filter(|n: Node| self.is_root(n.file_id.0))
    }

    /// The roots of the graph, in the order of its nodes.
    pub open spec fn root_nodes(&self) -> Seq<Node> {
        self.roots_among(self.nodes@)
    }
}

/// What walking up the includes from a file finds.
pub enum ProjectTop {
    /// The file or one of its ancestors is included by two different files.
    Shared,
    /// The project's top: the nearest include file on the way up (the file
    /// itself first), or else the file that nothing includes.
    Top(u32),
    /// The walk took as many steps as it was allowed without reaching a file
    /// that nothing includes.
    Cycle,
}

/// `t`, with `Top` replaced by the include file `inc` when one was met lower down.
pub open spec fn below_include(inc: Option<u32>, t: ProjectTop) -> ProjectTop {
    match (inc, t) {
        (Some(i), ProjectTop::Top(_)) => ProjectTop::Top(i),
        _ => t,
    }
}

impl Graph {
    /// File `x` is included by two different files.
    pub open spec fn has_two_parents(&self, x: u32) -> bool {
        exists|a: u32, b: u32| a != b && #[trigger] self.has_edge(a, x) && #[trigger] self.has_edge(b, x)
    }

    /// Walks up from file `x` to the file that nothing includes, at most `fuel`
    /// steps, going each time to the one file that includes the current one: it
    /// fails when a file on the way is included by two files; otherwise the top of
    /// the project is the first include file met, or else the file reached.
    pub open spec fn project_top(&self, x: u32, fuel: nat) -> ProjectTop
        decreases fuel,
    {
        if self.has_two_parents(x) {
            ProjectTop::Shared
        } else if !self.has_in_edge(x) {
            ProjectTop::Top(x)
        } else if fuel == 0 {
            ProjectTop::Cycle
        } else {
            below_include(
                if node_ext(self.nodes@, x) == FileExtension::Inc {
                    Some(x)
                } else {
                    None
                },
                self.project_top(choose|a: u32| self.has_edge(a, x), (fuel - 1) as nat),
            )
        }
    }
}

/// Adjacency lists of `g`: one entry per source file, listing exactly its targets.
pub open spec fn adj_wf(g: &Graph, adj: Seq<(Node, Vec<Node>)>) -> bool {
    &&& forall|i: int, j: int| 0 <= i < j < adj.len() ==> adj[i].0.file_id.0 != adj[j].0.file_id.0
    &&& forall|i: int, j: int|
        0 <= i < adj.len() && 0 <= j < adj[i].1.len() ==> g.has_edge(
            adj[i].0.file_id.0,
            #[trigger] adj[i].1@[j].file_id.0,
        )
    &&& forall|a: u32, b: u32|
        #[trigger] g.has_edge(a, b) ==> exists|i: int, j: int|
            0 <= i < adj.len() && 0 <= j < adj[i].1.len() && adj[i].0.file_id.0 == a
                && #[trigger] adj[i].1@[j].file_id.0 == b
}

// ---------------------------------------------------------------------------
// Lemmas
// ---------------------------------------------------------------------------

/// Every file reaches itself.
pub proof fn lemma_reachable_refl(g: &Graph, a: u32)
    ensures
        g.reachable(a, a),
{
    let p = seq![a];
    assert(g.is_path(p));
}

/// Following one more include keeps a file reachable.
pub proof fn lemma_reachable_step(g: &Graph, a: u32, b: u32, c: u32)
    requires
        g.reachable(a, b),
        g.has_edge(b, c),
    ensures
        g.reachable(a, c),
{
    let p = choose|p: Seq<u32>| #[trigger] g.is_path(p) && p[0] == a && p[p.len() - 1] == b;
    let q = p.push(c);
    assert forall|i: int| 0 <= i < q.len() - 1 implies #[trigger] g.has_edge(q[i], q[i + 1]) by {
        if i < p.len() - 1 {
            assert(g.has_edge(p[i], p[i + 1]));
        }
    }
    assert(g.is_path(q));
}

/// A file that includes `a` reaches whatever `a` reaches.
pub proof fn lemma_reachable_prepend(g: &Graph, x: u32, a: u32, b: u32)
    requires
        g.has_edge(x, a),
        g.reachable(a, b),
    ensures
        g.reachable(x, b),
{
    let p = choose|p: Seq<u32>| #[trigger] g.is_path(p) && p[0] == a && p[p.len() - 1] == b;
    let q = seq![x] + p;
    assert forall|i: int| 0 <= i < q.len() - 1 implies #[trigger] g.has_edge(q[i], q[i + 1]) by {
        if i > 0 {
            let j = i - 1;
            assert(q[i] == p[j] && q[i + 1] == p[j + 1]);
            assert(g.has_edge(p[j], p[j + 1]));
        }
    }
    assert(g.is_path(q));
}

/// A set of files that contains `a` and is closed under includes contains every
/// file reachable from `a`.
pub proof fn lemma_closed_contains_path(g: &Graph, s: Seq<Node>, a: u32, p: Seq<u32>)
    requires
        g.is_path(p),
        p[0] == a,
        contains_id(s, a),
        forall|u: u32, v: u32| contains_id(s, u) && #[trigger] g.has_edge(u, v) ==> contains_id(s, v),
    ensures
        contains_id(s, p[p.len() - 1]),
    decreases p.len(),
{
    if p.len() > 1 {
        let q = p.drop_last();
        assert forall|i: int| 0 <= i < q.len() - 1 implies #[trigger] g.has_edge(q[i], q[i + 1]) by {
            assert(g.has_edge(p[i], p[i + 1]));
        }
        lemma_closed_contains_path(g, s, a, q);
        let k = p.len() - 2;
        assert(g.has_edge(p[k], p[k + 1]));
    }
}

/// A duplicate-free sequence of ids drawn from `b` is no longer than `b`.
pub proof fn lemma_unique_len_bound(a: Seq<u32>, b: Seq<u32>)
    requires
        a.no_duplicates(),
        forall|i: int| 0 <= i < a.len() ==> b.contains(#[trigger] a[i]),
    ensures
        a.len() <= b.len(),
{
    a.unique_seq_to_set();
    b.lemma_cardinality_of_set();
    assert(a.to_set().subset_of(b.to_set())) by {
        assert forall|x: u32| a.to_set().contains(x) implies b.to_set().contains(x) by {
            let i = choose|i: int| 0 <= i < a.len() && a[i] == x;
            assert(b.contains(a[i]));
        }
    }
    lemma_len_subset(a.to_set(), b.to_set());
}

/// The files that the includes of `s` name, with the extension each include gives.
pub open spec fn include_pairs(s: Seq<Include>) -> Seq<(u32, FileExtension)> {
    s.map_values(|inc: Include| (inc.spec_file_id().0, inc.spec_extension()))
}

/// The edges from document `doc` to the files its includes `s` name.
pub open spec fn include_edges(doc: (FileId, FileExtension), s: Seq<Include>) -> Seq<Edge> {
    s.map_values(
        |inc: Include|
            Edge {
                source: Node { file_id: doc.0, extension: doc.1 },
                target: Node { file_id: inc.spec_file_id(), extension: inc.spec_extension() },
            },
    )
}

/// The files (with extensions) that building the graph from the first `n` documents
/// meets, in the order it meets them: each document, then the files it includes.
pub open spec fn node_order(
    documents: Seq<(FileId, FileExtension)>,
    includes: Seq<Vec<Include>>,
    n: nat,
) -> Seq<(u32, FileExtension)>
    decreases n,
{
    if n == 0 {
        Seq::empty()
    } else {
        node_order(documents, includes, (n - 1) as nat) + seq![(documents[n - 1].0.0, documents[n - 1].1)]
            + include_pairs(includes[n - 1]@)
    }
}

/// The edges that building the graph from the first `n` documents meets, in order.
pub open spec fn edge_order(
    documents: Seq<(FileId, FileExtension)>,
    includes: Seq<Vec<Include>>,
    n: nat,
) -> Seq<Edge>
    decreases n,
{
    if n == 0 {
        Seq::empty()
    } else {
        edge_order(documents, includes, (n - 1) as nat) + include_edges(documents[n - 1], includes[n - 1]@)
    }
}

/// Some entry of `order` is about file `x`.
pub open spec fn ids_in(order: Seq<(u32, FileExtension)>, x: u32) -> bool {
    exists|k: int| 0 <= k < order.len() && #[trigger] order[k].0 == x
}

/// `(x, e)` is the first entry of `order` about file `x`.
pub open spec fn first_for_id(order: Seq<(u32, FileExtension)>, x: u32, e: FileExtension) -> bool {
    exists|k: int|
        0 <= k < order.len() && #[trigger] order[k] == (x, e) && forall|m: int| 0 <= m < k ==> order[m].0 != x
}

/// `e` is the first edge of `order` between its two files.
pub open spec fn first_edge(order: Seq<Edge>, e: Edge) -> bool {
    exists|k: int|
        0 <= k < order.len() && #[trigger] order[k] == e && forall|m: int|
            0 <= m < k ==> !(order[m].source.file_id.0 == e.source.file_id.0 && order[m].target.file_id.0
                == e.target.file_id.0)
}

proof fn lemma_first_push(s: Seq<(u32, FileExtension)>, p: (u32, FileExtension), x: u32, e: FileExtension)
    requires
        first_for_id(s, x, e),
    ensures
        first_for_id(s.push(p), x, e),
{
    let k = choose|k: int|
        0 <= k < s.len() && #[trigger] s[k] == (x, e) && forall|m: int| 0 <= m < k ==> s[m].0 != x;
    assert(s.push(p)[k] == (x, e));
    assert forall|m: int| 0 <= m < k implies s.push(p)[m].0 != x by {
        assert(s.push(p)[m] == s[m]);
    }
}

proof fn lemma_first_new(s: Seq<(u32, FileExtension)>, x: u32, e: FileExtension)
    requires
        !ids_in(s, x),
    ensures
        first_for_id(s.push((x, e)), x, e),
{
    let t = s.push((x, e));
    assert(t[s.len() as int] == (x, e));
    assert forall|m: int| 0 <= m < s.len() implies t[m].0 != x by {
        assert(t[m] == s[m]);
    }
}

proof fn lemma_ids_in_push(s: Seq<(u32, FileExtension)>, p: (u32, FileExtension))
    ensures
        forall|x: u32| ids_in(s.push(p), x) <==> (ids_in(s, x) || p.0 == x),
{
    let t = s.push(p);
    assert forall|x: u32| ids_in(t, x) <==> (ids_in(s, x) || p.0 == x) by {
        if ids_in(t, x) {
            let k = choose|k: int| 0 <= k < t.len() && #[trigger] t[k].0 == x;
            if k < s.len() {
                assert(s[k] == t[k]);
            }
        }
        if ids_in(s, x) {
            let k = choose|k: int| 0 <= k < s.len() && #[trigger] s[k].0 == x;
            assert(t[k] == s[k]);
        }
        if p.0 == x {
            assert(t[s.len() as int].0 == x);
        }
    }
}

proof fn lemma_edge_first_push(s: Seq<Edge>, p: Edge, e: Edge)
    requires
        first_edge(s, e),
    ensures
        first_edge(s.push(p), e),
{
    let k = choose|k: int|
        0 <= k < s.len() && #[trigger] s[k] == e && forall|m: int|
            0 <= m < k ==> !(s[m].source.file_id.0 == e.source.file_id.0 && s[m].target.file_id.0
                == e.target.file_id.0);
    assert(s.push(p)[k] == e);
    assert forall|m: int| 0 <= m < k implies !(s.push(p)[m].source.file_id.0 == e.source.file_id.0
        && s.push(p)[m].target.file_id.0 == e.target.file_id.0) by {
        assert(s.push(p)[m] == s[m]);
    }
}

proof fn lemma_edge_first_new(s: Seq<Edge>, e: Edge)
    requires
        !edge_in(s, e.source.file_id.0, e.target.file_id.0),
    ensures
        first_edge(s.push(e), e),
{
    let t = s.push(e);
    assert(t[s.len() as int] == e);
    assert forall|m: int| 0 <= m < s.len() implies !(t[m].source.file_id.0 == e.source.file_id.0
        && t[m].target.file_id.0 == e.target.file_id.0) by {
        assert(t[m] == s[m]);
    }
}

proof fn lemma_edge_in_push(s: Seq<Edge>, p: Edge)
    ensures
        forall|a: u32, b: u32|
            edge_in(s.push(p), a, b) <==> (edge_in(s, a, b) || (p.source.file_id.0 == a && p.target.file_id.0
                == b)),
{
    let t = s.push(p);
    assert forall|a: u32, b: u32|
        edge_in(t, a, b) <==> (edge_in(s, a, b) || (p.source.file_id.0 == a && p.target.file_id.0 == b)) by {
        if edge_in(t, a, b) {
            let k = choose|k: int|
                0 <= k < t.len() && (#[trigger] t[k]).source.file_id.0 == a && t[k].target.file_id.0 == b;
            if k < s.len() {
                assert(s[k] == t[k]);
            }
        }
        if edge_in(s, a, b) {
            let k = choose|k: int|
                0 <= k < s.len() && (#[trigger] s[k]).source.file_id.0 == a && s[k].target.file_id.0 == b;
            assert(t[k] == s[k]);
        }
        if p.source.file_id.0 == a && p.target.file_id.0 == b {
            assert(t[s.len() as int] == p);
        }
    }
}

/// The ids of `s` in order.
pub open spec fn ids(s: Seq<Node>) -> Seq<u32> {
    s.map_values(|n: Node| n.file_id.0)
}

/// A visited list of unique nodes, all among the graph's nodes or equal to
/// `extra`, holds at most one more node than the graph.
proof fn lemma_visited_bound(g: &Graph, v: Seq<Node>, extra: u32)
    requires
        unique_ids(v),
        forall|i: int| 0 <= i < v.len() ==> g.has_node(#[trigger] v[i].file_id.0) || v[i].file_id.0 == extra,
    ensures
        v.len() <= g.nodes.len() + 1,
{
    let a = ids(v);
    let b = ids(g.nodes@).push(extra);
    assert(a.no_duplicates()) by {
        assert forall|i: int, j: int| 0 <= i < a.len() && 0 <= j < a.len() && i != j implies a[i] != a[j] by {
            if i < j {
                assert(v[i].file_id.0 != v[j].file_id.0);
            } else {
                assert(v[j].file_id.0 != v[i].file_id.0);
            }
        }
    }
    assert forall|i: int| 0 <= i < a.len() implies b.contains(#[trigger] a[i]) by {
        if v[i].file_id.0 == extra {
            assert(b[b.len() - 1] == extra);
        } else {
            assert(g.has_node(v[i].file_id.0));
            let k = choose|k: int| 0 <= k < g.nodes.len() && #[trigger] g.nodes@[k].file_id.0 == v[i].file_id.0;
            assert(b[k] == a[i]);
        }
    }
    lemma_unique_len_bound(a, b);
}

// ---------------------------------------------------------------------------
// Executable helpers
// ---------------------------------------------------------------------------

/// Whether some node of `v` has file id `id`.
fn contains_node_id(v: &Vec<Node>, id: u32) -> (res: bool)
    ensures
        res == contains_id(v@, id),
{
    let mut i: usize = 0;
    while i < v.len()
        invariant
            0 <= i <= v.len(),
            forall|k: int| 0 <= k < i ==> v@[k].file_id.0 != id,
        decreases v.len() - i,
    {
        if v[i].file_id.0 == id {
            return true;
        }
        i = i + 1;
    }
    false
}

/// Whether some edge of `v` goes from `a` to `b`.
fn contains_edge_ids(v: &Vec<Edge>, a: u32, b: u32) -> (res: bool)
    ensures
        res == edge_in(v@, a, b),
{
    let mut i: usize = 0;
    while i < v.len()
        invariant
            0 <= i <= v.len(),
            forall|k: int| 0 <= k < i ==> !(v@[k].source.file_id.0 == a && v@[k].target.file_id.0 == b),
        decreases v.len() - i,
    {
        if v[i].source.file_id.0 == a && v[i].target.file_id.0 == b {
            return true;
        }
        i = i + 1;
    }
    false
}

/// Adds `n` to `nodes` unless a node with its file id is already there (set insertion).
fn insert_node(nodes: &mut Vec<Node>, n: Node)
    requires
        unique_ids(old(nodes)@),
    ensures
        unique_ids(final(nodes)@),
        forall|x: u32| contains_id(final(nodes)@, x) <==> (contains_id(old(nodes)@, x) || x == n.file_id.0),
        final(nodes)@.len() >= old(nodes)@.len(),
        forall|i: int| 0 <= i < old(nodes)@.len() ==> final(nodes)@[i] == old(nodes)@[i],
        final(nodes)@ == if contains_id(old(nodes)@, n.file_id.0) {
            old(nodes)@
        } else {
            old(nodes)@.push(n)
        },
{
    if !contains_node_id(nodes, n.file_id.0) {
        let ghost old_nodes = nodes@;
        nodes.push(n);
        assert forall|x: u32| contains_id(nodes@, x) implies (contains_id(old_nodes, x) || x == n.file_id.0) by {
            let i = choose|i: int| 0 <= i < nodes@.len() && #[trigger] nodes@[i].file_id.0 == x;
            if i < old_nodes.len() {
                assert(old_nodes[i].file_id.0 == x);
            }
        }
        assert forall|x: u32| (contains_id(old_nodes, x) || x == n.file_id.0) implies contains_id(nodes@, x) by {
            if x == n.file_id.0 {
                assert(nodes@[old_nodes.len() as int].file_id.0 == x);
            } else {
                let i = choose|i: int| 0 <= i < old_nodes.len() && #[trigger] old_nodes[i].file_id.0 == x;
                assert(nodes@[i].file_id.0 == x);
            }
        }
    }
}

/// What holds of the nodes and edges that a search from `root` has collected:
/// unique nodes, each a node of `g` (or `root`) and reachable from `root`;
/// each collected edge an edge of `g` between collected nodes.
pub open spec fn search_inv(g: &Graph, root: u32, ns: Seq<Node>, es: Seq<Edge>) -> bool {
    &&& unique_ids(ns)
    &&& forall|i: int| 0 <= i < ns.len() ==> g.has_node(#[trigger] ns[i].file_id.0) || ns[i].file_id.0 == root
    &&& forall|i: int| 0 <= i < ns.len() ==> g.reachable(root, #[trigger] ns[i].file_id.0)
    &&& forall|i: int|
        0 <= i < es.len() ==> g.has_edge((#[trigger] es[i]).source.file_id.0, es[i].target.file_id.0)
            && contains_id(ns, es[i].source.file_id.0) && contains_id(ns, es[i].target.file_id.0)
}

/// `a` is a prefix of `b`.
pub open spec fn extends<T>(a: Seq<T>, b: Seq<T>) -> bool {
    a.len() <= b.len() && forall|i: int| 0 <= i < a.len() ==> b[i] == a[i]
}

/// Depth-first search from `node`: collects in `nodes` every file reachable from
/// `node` that was not collected yet, and in `edges` the edges the search followed.
fn dfs(
    node: &Node,
    adj_map: &Vec<(Node, Vec<Node>)>,
    nodes: &mut Vec<Node>,
    edges: &mut Vec<Edge>,
    Ghost(g): Ghost<&Graph>,
    Ghost(root): Ghost<u32>,
)
    requires
        g.wf(),
        adj_wf(g, adj_map@),
        !contains_id(old(nodes)@, node.file_id.0),
        g.reachable(root, node.file_id.0),
        g.has_node(node.file_id.0) || node.file_id.0 == root,
        search_inv(g, root, old(nodes)@, old(edges)@),
    ensures
        search_inv(g, root, final(nodes)@, final(edges)@),
        contains_id(final(nodes)@, node.file_id.0),
        extends(old(nodes)@, final(nodes)@),
        extends(old(edges)@, final(edges)@),
        final(edges)@.len() + old(nodes)@.len() + 1 == final(nodes)@.len() + old(edges)@.len(),
        forall|u: u32, v: u32|
            contains_id(final(nodes)@, u) && !contains_id(old(nodes)@, u) && #[trigger] g.has_edge(u, v)
                ==> contains_id(final(nodes)@, v),
    decreases g.nodes.len() + 1 - old(nodes)@.len(),
{
    let ghost old_nodes = nodes@;
    let ghost old_edges = edges@;
    proof {
        lemma_visited_bound(g, old_nodes, root);
    }
    nodes.push(*node);
    assert(nodes@[old_nodes.len() as int].file_id.0 == node.file_id.0);
    assert forall|x: u32| contains_id(old_nodes, x) implies contains_id(nodes@, x) by {
        let i = choose|i: int| 0 <= i < old_nodes.len() && #[trigger] old_nodes[i].file_id.0 == x;
        assert(nodes@[i].file_id.0 == x);
    }
    assert(search_inv(g, root, nodes@, edges@));

    let mut k: usize = 0;
    while k < adj_map.len() && adj_map[k].0.file_id.0 != node.file_id.0
        invariant
            0 <= k <= adj_map.len(),
            forall|m: int| 0 <= m < k ==> adj_map@[m].0.file_id.0 != node.file_id.0,
        decreases adj_map.len() - k,
    {
        k = k + 1;
    }
    if k < adj_map.len() {
        let neighbors = &adj_map[k].1;
        let mut j: usize = 0;
        while j < neighbors.len()
            invariant
                g.wf(),
                adj_wf(g, adj_map@),
                k < adj_map.len(),
                adj_map@[k as int].0.file_id.0 == node.file_id.0,
                neighbors@ == adj_map@[k as int].1@,
                0 <= j <= neighbors.len(),
                g.reachable(root, node.file_id.0),
                search_inv(g, root, nodes@, edges@),
                contains_id(nodes@, node.file_id.0),
                !contains_id(old_nodes, node.file_id.0),
                extends(old_nodes, nodes@),
                nodes@.len() > old_nodes.len(),
                old_nodes == old(nodes)@,
                extends(old_edges, edges@),
                edges@.len() + old_nodes.len() + 1 == nodes@.len() + old_edges.len(),
                forall|m: int| 0 <= m < j ==> contains_id(nodes@, (#[trigger] neighbors@[m]).file_id.0),
                forall|u: u32, v: u32|
                    contains_id(nodes@, u) && !contains_id(old_nodes, u) && u != node.file_id.0
                        && #[trigger] g.has_edge(u, v) ==> contains_id(nodes@, v),
            decreases neighbors.len() - j,
        {
            let nb = neighbors[j];
            assert(g.has_edge(node.file_id.0, nb.file_id.0)) by {
                assert(adj_map@[k as int].1@[j as int] == nb);
            }
            if !contains_node_id(nodes, nb.file_id.0) {
                let ghost before_nodes = nodes@;
                let ghost before_edges = edges@;
                proof {
                    lemma_reachable_step(g, root, node.file_id.0, nb.file_id.0);
                    let e = choose|e: int|
                        0 <= e < g.edges@.len() && (#[trigger] g.edges@[e]).source.file_id.0
                            == node.file_id.0 && g.edges@[e].target.file_id.0 == nb.file_id.0;
                    assert(g.has_node(g.edges@[e].target.file_id.0));
                    let pushed = nodes@.push(nb);
                    assert forall|i: int, l: int| 0 <= i < l < pushed.len() implies pushed[i].file_id.0
                        != pushed[l].file_id.0 by {
                        if l == nodes@.len() {
                            assert(pushed[i] == nodes@[i]);
                        }
                    }
                    assert forall|i: int| 0 <= i < pushed.len() implies g.has_node(#[trigger] pushed[i].file_id.0)
                        || pushed[i].file_id.0 == root by {
                        if i < nodes@.len() {
                            assert(pushed[i] == nodes@[i]);
                        }
                    }
                    lemma_visited_bound(g, pushed, root);
                }
                dfs(&nb, adj_map, nodes, edges, Ghost(g), Ghost(root));
                let ghost mid_edges = edges@;
                edges.push(Edge { source: *node, target: nb });
                proof {
                    assert forall|x: u32| contains_id(before_nodes, x) implies contains_id(nodes@, x) by {
                        let i = choose|i: int| 0 <= i < before_nodes.len() && #[trigger] before_nodes[i].file_id.0 == x;
                        assert(nodes@[i].file_id.0 == x);
                    }
                    assert forall|i: int| 0 <= i < edges@.len() implies g.has_edge(
                        (#[trigger] edges@[i]).source.file_id.0,
                        edges@[i].target.file_id.0,
                    ) && contains_id(nodes@, edges@[i].source.file_id.0) && contains_id(
                        nodes@,
                        edges@[i].target.file_id.0,
                    ) by {
                        if i < mid_edges.len() {
                            assert(edges@[i] == mid_edges[i]);
                        }
                    }
                    assert forall|m: int| 0 <= m < j + 1 implies contains_id(nodes@, (#[trigger] neighbors@[m]).file_id.0) by {
                        if m < j {
                            assert(contains_id(before_nodes, neighbors@[m].file_id.0));
                        }
                    }
                    assert forall|u: u32, v: u32|
                        contains_id(nodes@, u) && !contains_id(old_nodes, u) && u != node.file_id.0
                            && #[trigger] g.has_edge(u, v) implies contains_id(nodes@, v) by {
                        if contains_id(before_nodes, u) {
                            assert(contains_id(before_nodes, v));
                        }
                    }
                    assert forall|x: u32| contains_id(old_nodes, x) implies contains_id(nodes@, x) by {
                        let i = choose|i: int| 0 <= i < old_nodes.len() && #[trigger] old_nodes[i].file_id.0 == x;
                        assert(nodes@[i] == old_nodes[i]);
                    }
                }
            }
            j = j + 1;
        }
        assert forall|u: u32, v: u32|
            contains_id(nodes@, u) && !contains_id(old_nodes, u) && #[trigger] g.has_edge(u, v)
                implies contains_id(nodes@, v) by {
            if u == node.file_id.0 {
                let (kk, jj) = choose|kk: int, jj: int|
                    0 <= kk < adj_map@.len() && 0 <= jj < adj_map@[kk].1.len() && adj_map@[kk].0.file_id.0 == u
                        && #[trigger] adj_map@[kk].1@[jj].file_id.0 == v;
                assert(kk == k);
                assert(contains_id(nodes@, neighbors@[jj].file_id.0));
            }
        }
    } else {
        assert forall|u: u32, v: u32|
            contains_id(nodes@, u) && !contains_id(old_nodes, u) && #[trigger] g.has_edge(u, v)
                implies contains_id(nodes@, v) by {
            if contains_id(nodes@, u) && !contains_id(old_nodes, u) {
                let i = choose|i: int| 0 <= i < nodes@.len() && #[trigger] nodes@[i].file_id.0 == u;
                if i < old_nodes.len() {
                    assert(old_nodes[i].file_id.0 == u);
                }
                let (kk, jj) = choose|kk: int, jj: int|
                    0 <= kk < adj_map@.len() && 0 <= jj < adj_map@[kk].1.len() && adj_map@[kk].0.file_id.0 == u
                        && #[trigger] adj_map@[kk].1@[jj].file_id.0 == v;
                assert(adj_map@[kk].0.file_id.0 != node.file_id.0);
            }
        }
    }
}

/// The file ids of `nodes`, in order.
fn file_ids_of(nodes: &Vec<Node>) -> (res: Vec<FileId>)
    requires
        unique_ids(nodes@),
    ensures
        res@.no_duplicates(),
        res.len() == nodes.len(),
        forall|i: int| 0 <= i < res.len() ==> res@[i] == (#[trigger] nodes@[i]).file_id,
        forall|x: u32| res@.contains(FileId(x)) <==> contains_id(nodes@, x),
{
    let mut res: Vec<FileId> = Vec::new();
    let mut i: usize = 0;
    while i < nodes.len()
        invariant
            0 <= i <= nodes.len(),
            res.len() == i,
            forall|k: int| 0 <= k < i ==> res@[k] == (#[trigger] nodes@[k]).file_id,
        decreases nodes.len() - i,
    {
        res.push(nodes[i].file_id);
        i = i + 1;
    }
    assert forall|a: int, b: int| 0 <= a < res.len() && 0 <= b < res.len() && a != b implies res@[a] != res@[b] by {
        if a < b {
            assert(nodes@[a].file_id.0 != nodes@[b].file_id.0);
        } else {
            assert(nodes@[b].file_id.0 != nodes@[a].file_id.0);
        }
    }
    assert forall|x: u32| res@.contains(FileId(x)) implies contains_id(nodes@, x) by {
        let k = choose|k: int| 0 <= k < res.len() && res@[k] == FileId(x);
        assert(nodes@[k].file_id.0 == x);
    }
    assert forall|x: u32| contains_id(nodes@, x) implies res@.contains(FileId(x)) by {
        let k = choose|k: int| 0 <= k < nodes@.len() && #[trigger] nodes@[k].file_id.0 == x;
        assert(res@[k] == FileId(x));
    }
    res
}

impl SubGraph {
    /// This is the sub-graph of `g` rooted at `root`: its nodes are exactly the files
    /// reachable from the root, and its edges are edges of `g` between them.
    pub open spec fn spans(&self, g: &Graph) -> bool {
        &&& search_inv(g, self.root.file_id.0, self.nodes@, self.edges@)
        &&& forall|x: u32| contains_id(self.nodes@, x) <==> g.reachable(self.root.file_id.0, x)
        &&& self.edges@.len() + 1 == self.nodes@.len()
    }

    fn clone_subgraph(&self) -> (res: SubGraph)
        ensures
            res.root == self.root,
            res.nodes@ == self.nodes@,
            res.edges@ == self.edges@,
    {
        let nodes = self.nodes.clone();
        let edges = self.edges.clone();
        assert(nodes@ == self.nodes@);
        assert(edges@ == self.edges@);
        SubGraph { root: self.root, nodes, edges }
    }

    /// The file ids of the nodes of the sub-graph.
    pub fn file_ids(&self) -> (res: Vec<FileId>)
        requires
            unique_ids(self.nodes@),
        ensures
            res@.no_duplicates(),
            forall|x: u32| res@.contains(FileId(x)) <==> contains_id(self.nodes@, x),
    {
        file_ids_of(&self.nodes)
    }

    /// Returns true if the subgraph contains the given file_id.
    pub fn contains_file(&self, file_id: FileId) -> (res: bool)
        ensures
            res == contains_id(self.nodes@, file_id.0),
    {
        contains_node_id(&self.nodes, file_id.0)
    }
}

impl Graph {
    /// Records that file `source_id` includes file `target_id`.
    pub fn add_file_id(
        &mut self,
        source_id: FileId,
        source_extension: FileExtension,
        target_id: FileId,
        target_extension: FileExtension,
    )
        requires
            old(self).wf(),
        ensures
            final(self).wf(),
            forall|x: u32|
                final(self).has_node(x) <==> (old(self).has_node(x) || x == source_id.0 || x == target_id.0),
            forall|a: u32, b: u32|
                final(self).has_edge(a, b) <==> (old(self).has_edge(a, b) || (a == source_id.0 && b
                    == target_id.0)),
            extends(old(self).nodes@, final(self).nodes@),
            extends(old(self).edges@, final(self).edges@),
            forall|x: u32|
                #![trigger final(self).has_node(x)]
                final(self).has_node(x) ==> node_ext(final(self).nodes@, x) == if old(self).has_node(x) {
                    node_ext(old(self).nodes@, x)
                } else if x == source_id.0 {
                    source_extension
                } else {
                    target_extension
                },
            forall|i: int|
                old(self).nodes.len() <= i < final(self).nodes.len() ==> ((#[trigger] final(self).nodes@[i]
                    == (Node { file_id: source_id, extension: source_extension }) && !old(self).has_node(source_id.0))
                    || (final(self).nodes@[i] == (Node { file_id: target_id, extension: target_extension })
                    && !old(self).has_node(target_id.0) && target_id != source_id)),
            forall|i: int|
                old(self).edges.len() <= i < final(self).edges.len() ==> #[trigger] final(self).edges@[i] == (Edge {
                    source: Node { file_id: source_id, extension: source_extension },
                    target: Node { file_id: target_id, extension: target_extension },
                }) && !old(self).has_edge(source_id.0, target_id.0),
    {
        let source = Node { file_id: source_id, extension: source_extension };
        let target = Node { file_id: target_id, extension: target_extension };
        let ghost old_edges = self.edges@;
        if !contains_edge_ids(&self.edges, source_id.0, target_id.0) {
            self.edges.push(Edge { source, target });
        }
        assert forall|a: u32, b: u32|
            edge_in(self.edges@, a, b) <==> (edge_in(old_edges, a, b) || (a == source_id.0 && b
                == target_id.0)) by {
            if edge_in(self.edges@, a, b) {
                let i = choose|i: int|
                    0 <= i < self.edges@.len() && (#[trigger] self.edges@[i]).source.file_id.0 == a
                        && self.edges@[i].target.file_id.0 == b;
                if i < old_edges.len() {
                    assert(old_edges[i] == self.edges@[i]);
                }
            }
            if edge_in(old_edges, a, b) {
                let i = choose|i: int|
                    0 <= i < old_edges.len() && (#[trigger] old_edges[i]).source.file_id.0 == a
                        && old_edges[i].target.file_id.0 == b;
                assert(self.edges@[i] == old_edges[i]);
            }
            if a == source_id.0 && b == target_id.0 && !edge_in(old_edges, a, b) {
                assert(self.edges@[old_edges.len() as int].source.file_id.0 == a);
            }
        }
        let ghost n0 = self.nodes@;
        insert_node(&mut self.nodes, source);
        let ghost n1 = self.nodes@;
        insert_node(&mut self.nodes, target);
        proof {
            let n2 = self.nodes@;
            assert forall|x: u32| #[trigger] contains_id(n2, x) implies node_ext(n2, x) == if contains_id(n0, x) {
                node_ext(n0, x)
            } else if x == source_id.0 {
                source_extension
            } else {
                target_extension
            } by {
                let k = choose|k: int| 0 <= k < n2.len() && #[trigger] n2[k].file_id.0 == x;
                lemma_node_ext(n2, k);
                if k < n0.len() {
                    assert(n2[k] == n0[k]);
                    lemma_node_ext(n0, k);
                } else {
                    if k < n1.len() {
                        assert(n1[k] == source);
                        assert(!contains_id(n0, x));
                    } else {
                        assert(n2[k] == target);
                        if contains_id(n0, x) {
                            let m = choose|m: int| 0 <= m < n0.len() && #[trigger] n0[m].file_id.0 == x;
                            assert(n1[m].file_id.0 == x);
                        }
                        if x == source_id.0 {
                            assert(n1[n0.len() as int].file_id.0 == x);
                        }
                    }
                }
            }
            assert forall|i: int| n0.len() <= i < n2.len() implies ((#[trigger] n2[i] == source
                && !contains_id(n0, source_id.0)) || (n2[i] == target && !contains_id(n0, target_id.0)
                && target_id != source_id)) by {
                if i < n1.len() {
                    assert(n2[i] == n1[i]);
                } else {
                    if contains_id(n0, target_id.0) {
                        let m = choose|m: int| 0 <= m < n0.len() && #[trigger] n0[m].file_id.0 == target_id.0;
                        assert(n1[m].file_id.0 == target_id.0);
                    }
                    if target_id == source_id {
                        assert(contains_id(n1, source_id.0));
                    }
                }
            }
        }
    }
    /// For every source file, the files it includes.
    fn get_adjacent_targets(&self) -> (adj: Vec<(Node, Vec<Node>)>)
        ensures
            adj_wf(self, adj@),
    {
        let mut adj: Vec<(Node, Vec<Node>)> = Vec::new();
        let mut i: usize = 0;
        while i < self.edges.len()
            invariant
                0 <= i <= self.edges.len(),
                forall|k: int, l: int| 0 <= k < l < adj.len() ==> adj@[k].0.file_id.0 != adj@[l].0.file_id.0,
                forall|k: int, j: int|
                    0 <= k < adj.len() && 0 <= j < adj@[k].1.len() ==> self.has_edge(
                        adj@[k].0.file_id.0,
                        #[trigger] adj@[k].1@[j].file_id.0,
                    ),
                forall|e: int|
                    0 <= e < i ==> exists|k: int, j: int|
                        0 <= k < adj.len() && 0 <= j < adj@[k].1.len() && adj@[k].0.file_id.0
                            == (#[trigger] self.edges@[e]).source.file_id.0 && adj@[k].1@[j].file_id.0
                            == self.edges@[e].target.file_id.0,
            decreases self.edges.len() - i,
        {
            let edge = self.edges[i];
            let ghost old_adj = adj@;
            assert(self.has_edge(edge.source.file_id.0, edge.target.file_id.0)) by {
                assert(self.edges@[i as int] == edge);
            }
            // look for the entry of the source file
            let mut k: usize = 0;
            while k < adj.len() && adj[k].0.file_id.0 != edge.source.file_id.0
                invariant
                    0 <= k <= adj.len(),
                    adj@ == old_adj,
                    forall|m: int| 0 <= m < k ==> adj@[m].0.file_id.0 != edge.source.file_id.0,
                decreases adj.len() - k,
            {
                k = k + 1;
            }
            let found = k < adj.len();
            if found {
                let key = adj[k].0;
                let mut targets = adj[k].1.clone();
                let ghost old_targets = targets@;
                assert(targets@ == adj@[k as int].1@);
                targets.push(edge.target);
                adj.set(k, (key, targets));
                assert forall|m: int, l: int| 0 <= m < l < adj.len() implies adj@[m].0.file_id.0
                    != adj@[l].0.file_id.0 by {
                    assert(old_adj[m].0.file_id.0 != old_adj[l].0.file_id.0);
                }
                assert forall|e: int|
                    0 <= e < i + 1 implies exists|kk: int, j: int|
                        0 <= kk < adj.len() && 0 <= j < adj@[kk].1.len() && adj@[kk].0.file_id.0
                            == (#[trigger] self.edges@[e]).source.file_id.0 && adj@[kk].1@[j].file_id.0
                            == self.edges@[e].target.file_id.0 by {
                    if e == i {
                        assert(adj@[k as int].1@[old_targets.len() as int] == edge.target);
                    } else {
                        let (kk, j) = choose|kk: int, j: int|
                            0 <= kk < old_adj.len() && 0 <= j < old_adj[kk].1.len()
                                && old_adj[kk].0.file_id.0 == (#[trigger] self.edges@[e]).source.file_id.0
                                && old_adj[kk].1@[j].file_id.0 == self.edges@[e].target.file_id.0;
                        if kk == k {
                            assert(adj@[kk].1@[j] == old_adj[kk].1@[j]);
                        } else {
                            assert(adj@[kk] == old_adj[kk]);
                        }
                    }
                }
                assert forall|kk: int, j: int|
                    0 <= kk < adj.len() && 0 <= j < adj@[kk].1.len() implies self.has_edge(
                        adj@[kk].0.file_id.0,
                        #[trigger] adj@[kk].1@[j].file_id.0,
                    ) by {
                    if kk == k && j < old_targets.len() {
                        assert(adj@[kk].1@[j] == old_adj[kk].1@[j]);
                    } else if kk != k {
                        assert(adj@[kk] == old_adj[kk]);
                    }
                }
            } else {
                let mut targets: Vec<Node> = Vec::new();
                targets.push(edge.target);
                adj.push((edge.source, targets));
                assert forall|m: int, l: int| 0 <= m < l < adj.len() implies adj@[m].0.file_id.0
                    != adj@[l].0.file_id.0 by {
                    if l < old_adj.len() {
                        assert(old_adj[m].0.file_id.0 != old_adj[l].0.file_id.0);
                    }
                }
                assert forall|e: int|
                    0 <= e < i + 1 implies exists|kk: int, j: int|
                        0 <= kk < adj.len() && 0 <= j < adj@[kk].1.len() && adj@[kk].0.file_id.0
                            == (#[trigger] self.edges@[e]).source.file_id.0 && adj@[kk].1@[j].file_id.0
                            == self.edges@[e].target.file_id.0 by {
                    if e == i {
                        assert(adj@[old_adj.len() as int].1@[0] == edge.target);
                    } else {
                        let (kk, j) = choose|kk: int, j: int|
                            0 <= kk < old_adj.len() && 0 <= j < old_adj[kk].1.len()
                                && old_adj[kk].0.file_id.0 == (#[trigger] self.edges@[e]).source.file_id.0
                                && old_adj[kk].1@[j].file_id.0 == self.edges@[e].target.file_id.0;
                        assert(adj@[kk] == old_adj[kk]);
                    }
                }
                assert forall|kk: int, j: int|
                    0 <= kk < adj.len() && 0 <= j < adj@[kk].1.len() implies self.has_edge(
                        adj@[kk].0.file_id.0,
                        #[trigger] adj@[kk].1@[j].file_id.0,
                    ) by {
                    if kk < old_adj.len() {
                        assert(adj@[kk] == old_adj[kk]);
                    }
                }
            }
            i = i + 1;
        }
        assert forall|a: u32, b: u32| #[trigger] self.has_edge(a, b) implies exists|k: int, j: int|
            0 <= k < adj.len() && 0 <= j < adj@[k].1.len() && adj@[k].0.file_id.0 == a
                && #[trigger] adj@[k].1@[j].file_id.0 == b by {
            let e = choose|e: int|
                0 <= e < self.edges@.len() && (#[trigger] self.edges@[e]).source.file_id.0 == a
                    && self.edges@[e].target.file_id.0 == b;
            assert(0 <= e < i);
        }
        adj
    }
    /// Whether file `id` includes some file.
    fn has_out_edge_exec(&self, id: u32) -> (res: bool)
        ensures
            res == self.has_out_edge(id),
    {
        let mut i: usize = 0;
        while i < self.edges.len()
            invariant
                0 <= i <= self.edges.len(),
                forall|k: int| 0 <= k < i ==> self.edges@[k].source.file_id.0 != id,
            decreases self.edges.len() - i,
        {
            if self.edges[i].source.file_id.0 == id {
                assert(self.has_edge(id, self.edges@[i as int].target.file_id.0));
                return true;
            }
            i = i + 1;
        }
        assert forall|b: u32| !self.has_edge(id, b) by {
            if self.has_edge(id, b) {
                let k = choose|k: int|
                    0 <= k < self.edges@.len() && (#[trigger] self.edges@[k]).source.file_id.0 == id
                        && self.edges@[k].target.file_id.0 == b;
            }
        }
        false
    }

    /// Whether some file includes file `id`.
    fn has_in_edge_exec(&self, id: u32) -> (res: bool)
        ensures
            res == self.has_in_edge(id),
    {
        let mut i: usize = 0;
        while i < self.edges.len()
            invariant
                0 <= i <= self.edges.len(),
                forall|k: int| 0 <= k < i ==> self.edges@[k].target.file_id.0 != id,
            decreases self.edges.len() - i,
        {
            if self.edges[i].target.file_id.0 == id {
                assert(self.has_edge(self.edges@[i as int].source.file_id.0, id));
                return true;
            }
            i = i + 1;
        }
        assert forall|a: u32| !self.has_edge(a, id) by {
            if self.has_edge(a, id) {
                let k = choose|k: int|
                    0 <= k < self.edges@.len() && (#[trigger] self.edges@[k]).source.file_id.0 == a
                        && self.edges@[k].target.file_id.0 == id;
            }
        }
        false
    }

    /// The roots of the graph: every node that includes some file or that no file includes.
    pub fn find_roots(&self) -> (roots: Vec<Node>)
        requires
            self.wf(),
        ensures
            unique_ids(roots@),
            forall|x: u32| contains_id(roots@, x) <==> self.is_root(x),
            forall|i: int| 0 <= i < roots.len() ==> self.nodes@.contains(#[trigger] roots@[i]),
            roots@ == self.root_nodes(),
    {
        let mut roots: Vec<Node> = Vec::new();
        let mut i: usize = 0;
        while i < self.nodes.len()
            invariant
                self.wf(),
                0 <= i <= self.nodes.len(),
                unique_ids(roots@),
                forall|r: int| 0 <= r < roots.len() ==> exists|k: int| 0 <= k < i && #[trigger] self.nodes@[k] == #[trigger] roots@[r],
                forall|x: u32| contains_id(roots@, x) ==> self.is_root(x),
                forall|k: int| 0 <= k < i && self.is_root(#[trigger] self.nodes@[k].file_id.0) ==> contains_id(roots@, self.nodes@[k].file_id.0),
                roots@ == self.roots_among(self.nodes@.take(i as int)),
            decreases self.nodes.len() - i,
        {
            let ghost r0 = roots@;
            let node = self.nodes[i];
            let id = node.file_id.0;
            let nb_target = self.has_out_edge_exec(id);
            let nb_source = self.has_in_edge_exec(id);
            if nb_target || !nb_source {
                let ghost old_roots = roots@;
                assert(self.has_node(id)) by {
                    assert(self.nodes@[i as int].file_id.0 == id);
                }
                assert forall|r: int| 0 <= r < old_roots.len() implies old_roots[r].file_id.0 != id by {
                    let k = choose|k: int| 0 <= k < i && #[trigger] self.nodes@[k] == old_roots[r];
                    assert(self.nodes@[k].file_id.0 != self.nodes@[i as int].file_id.0);
                }
                roots.push(node);
                assert forall|x: u32| contains_id(roots@, x) implies self.is_root(x) by {
                    let r = choose|r: int| 0 <= r < roots@.len() && #[trigger] roots@[r].file_id.0 == x;
                    if r < old_roots.len() {
                        assert(contains_id(old_roots, x));
                    }
                }
                assert forall|k: int| 0 <= k < i + 1 && self.is_root(#[trigger] self.nodes@[k].file_id.0)
                    implies contains_id(roots@, self.nodes@[k].file_id.0) by {
                    if k < i {
                        let r = choose|r: int| 0 <= r < old_roots.len() && #[trigger] old_roots[r].file_id.0 == self.nodes@[k].file_id.0;
                        assert(roots@[r] == old_roots[r]);
                    } else {
                        assert(roots@[old_roots.len() as int] == node);
                    }
                }
                assert forall|r: int| 0 <= r < roots.len() implies exists|k: int| 0 <= k < i + 1 && #[trigger] self.nodes@[k] == #[trigger] roots@[r] by {
                    if r < old_roots.len() {
                        let k = choose|k: int| 0 <= k < i && #[trigger] self.nodes@[k] == old_roots[r];
                        assert(self.nodes@[k] == roots@[r]);
                    } else {
                        assert(self.nodes@[i as int] == roots@[r]);
                    }
                }
            }
            proof {
                reveal(Seq::filter);
                let t = self.nodes@.take(i + 1);
                assert(t.drop_last() =~= self.nodes@.take(i as int));
                assert(t.last() == node);
                assert(self.has_node(node.file_id.0)) by {
                    assert(self.nodes@[i as int].file_id.0 == node.file_id.0);
                }
            }
            i = i + 1;
        }
        assert(self.nodes@.take(self.nodes.len() as int) =~= self.nodes@);
        assert forall|x: u32| self.is_root(x) implies contains_id(roots@, x) by {
            let k = choose|k: int| 0 <= k < self.nodes@.len() && #[trigger] self.nodes@[k].file_id.0 == x;
        }
        assert forall|r: int| 0 <= r < roots.len() implies #[trigger] self.nodes@.contains(roots@[r]) by {
            let k = choose|k: int| 0 <= k < self.nodes@.len() && #[trigger] self.nodes@[k] == roots@[r];
        }
        roots
    }

    /// Searches the graph from `root`: the files reachable from it, and the edges followed.
    fn search(&self, root: &Node, adj: &Vec<(Node, Vec<Node>)>) -> (res: (Vec<Node>, Vec<Edge>))
        requires
            self.wf(),
            adj_wf(self, adj@),
        ensures
            search_inv(self, root.file_id.0, res.0@, res.1@),
            forall|x: u32| contains_id(res.0@, x) <==> self.reachable(root.file_id.0, x),
            res.1@.len() + 1 == res.0@.len(),
    {
        let mut nodes: Vec<Node> = Vec::new();
        let mut edges: Vec<Edge> = Vec::new();
        proof {
            lemma_reachable_refl(self, root.file_id.0);
        }
        dfs(root, adj, &mut nodes, &mut edges, Ghost(self), Ghost(root.file_id.0));
        assert forall|x: u32| self.reachable(root.file_id.0, x) implies contains_id(nodes@, x) by {
            let p = choose|p: Seq<u32>| #[trigger] self.is_path(p) && p[0] == root.file_id.0 && p[p.len() - 1] == x;
            lemma_closed_contains_path(self, nodes@, root.file_id.0, p);
        }
        assert forall|x: u32| contains_id(nodes@, x) implies self.reachable(root.file_id.0, x) by {
            let i = choose|i: int| 0 <= i < nodes@.len() && #[trigger] nodes@[i].file_id.0 == x;
        }
        (nodes, edges)
    }

    /// The file ids of the sub-graph rooted at `root_id`: every file it reaches.
    pub fn get_subgraph_ids_from_root(&self, root_id: FileId) -> (res: Vec<FileId>)
        requires
            self.wf(),
        ensures
            res@.no_duplicates(),
            forall|x: u32| res@.contains(FileId(x)) <==> self.reachable(root_id.0, x),
    {
        let adj_targets = self.get_adjacent_targets();
        let root = Node { file_id: root_id, extension: FileExtension::Sp };
        let (nodes, _edges) = self.search(&root, &adj_targets);
        let res = file_ids_of(&nodes);
        assert forall|x: u32| res@.contains(FileId(x)) <==> self.reachable(root_id.0, x) by {
            assert(res@.contains(FileId(x)) <==> contains_id(nodes@, x));
            assert(contains_id(nodes@, x) <==> self.reachable(root.file_id.0, x));
        }
        res
    }

    /// One sub-graph per root of the graph.
    pub fn find_subgraphs(&self) -> (res: Vec<SubGraph>)
        requires
            self.wf(),
        ensures
            forall|i: int| 0 <= i < res.len() ==> (#[trigger] res@[i]).spans(self),
            forall|i: int| 0 <= i < res.len() ==> self.is_root((#[trigger] res@[i]).root.file_id.0),
            forall|i: int| 0 <= i < res.len() ==> self.nodes@.contains((#[trigger] res@[i]).root),
            forall|i: int, j: int| 0 <= i < j < res.len() ==> res@[i].root.file_id.0 != res@[j].root.file_id.0,
            forall|x: u32| self.is_root(x) ==> exists|i: int| 0 <= i < res.len() && (#[trigger] res@[i]).root.file_id.0 == x,
            res.len() == self.root_nodes().len(),
            forall|i: int| 0 <= i < res.len() ==> (#[trigger] res@[i]).root == self.root_nodes()[i],
    {
        let adj_targets = self.get_adjacent_targets();
        let roots = self.find_roots();
        let mut subgraphs: Vec<SubGraph> = Vec::new();
        let mut i: usize = 0;
        while i < roots.len()
            invariant
                self.wf(),
                adj_wf(self, adj_targets@),
                unique_ids(roots@),
                forall|x: u32| contains_id(roots@, x) <==> self.is_root(x),
                forall|k: int| 0 <= k < roots.len() ==> #[trigger] self.nodes@.contains(roots@[k]),
                0 <= i <= roots.len(),
                subgraphs.len() == i,
                forall|k: int| 0 <= k < i ==> (#[trigger] subgraphs@[k]).spans(self),
                forall|k: int| 0 <= k < i ==> (#[trigger] subgraphs@[k]).root == roots@[k],
            decreases roots.len() - i,
        {
            let root = roots[i];
            let (nodes, edges) = self.search(&root, &adj_targets);
            subgraphs.push(SubGraph { root, nodes, edges });
            i = i + 1;
        }
        assert forall|k: int| 0 <= k < subgraphs.len() implies self.is_root((#[trigger] subgraphs@[k]).root.file_id.0) by {
            assert(contains_id(roots@, roots@[k].file_id.0));
        }
        assert forall|x: u32| self.is_root(x) implies exists|k: int| 0 <= k < subgraphs.len() && (#[trigger] subgraphs@[k]).root.file_id.0 == x by {
            let k = choose|k: int| 0 <= k < roots@.len() && #[trigger] roots@[k].file_id.0 == x;
            assert(subgraphs@[k].root == roots@[k]);
        }
        subgraphs
    }

    /// The sub-graphs keyed by the file id of their root.
    pub fn subgraphs_with_roots(&self) -> (res: Vec<(FileId, SubGraph)>)
        requires
            self.wf(),
        ensures
            forall|i: int| 0 <= i < res.len() ==> (#[trigger] res@[i]).1.spans(self) && res@[i].0 == res@[i].1.root.file_id,
            forall|i: int| 0 <= i < res.len() ==> self.is_root((#[trigger] res@[i]).0.0),
            forall|i: int, j: int| 0 <= i < j < res.len() ==> res@[i].0 != res@[j].0,
            forall|x: u32| self.is_root(x) ==> exists|i: int| 0 <= i < res.len() && (#[trigger] res@[i]).0.0 == x,
    {
        let subgraphs = self.find_subgraphs();
        let mut res: Vec<(FileId, SubGraph)> = Vec::new();
        let mut i: usize = 0;
        while i < subgraphs.len()
            invariant
                0 <= i <= subgraphs.len(),
                res.len() == i,
                forall|k: int| 0 <= k < i ==> (#[trigger] res@[k]).1.root == subgraphs@[k].root && res@[k].1.nodes@ == subgraphs@[k].nodes@ && res@[k].1.edges@ == subgraphs@[k].edges@ && res@[k].0 == subgraphs@[k].root.file_id,
            decreases subgraphs.len() - i,
        {
            let sg = subgraphs[i].clone_subgraph();
            res.push((sg.root.file_id, sg));
            i = i + 1;
        }
        assert forall|x: u32| self.is_root(x) implies exists|k: int| 0 <= k < res.len() && (#[trigger] res@[k]).0.0 == x by {
            let k = choose|k: int| 0 <= k < subgraphs.len() && (#[trigger] subgraphs@[k]).root.file_id.0 == x;
            assert(res@[k].0.0 == x);
        }
        assert forall|k: int, j: int| 0 <= k < j < res.len() implies res@[k].0 != res@[j].0 by {
            assert(subgraphs@[k].root.file_id.0 != subgraphs@[j].root.file_id.0);
        }
        res
    }
    /// The files that include file `x`: one of them, and whether two different files do.
    fn parent_of(&self, x: u32) -> (res: (Option<u32>, bool))
        ensures
            res.1 == self.has_two_parents(x),
            res.0 is None <==> !self.has_in_edge(x),
            res.0 matches Some(a) ==> self.has_edge(a, x),
            !res.1 ==> forall|b: u32| #[trigger] self.has_edge(b, x) ==> res.0 == Some(b),
    {
        let mut parent: Option<u32> = None;
        let mut two = false;
        let mut i: usize = 0;
        while i < self.edges.len()
            invariant
                0 <= i <= self.edges.len(),
                parent is None <==> forall|k: int| 0 <= k < i ==> (#[trigger] self.edges@[k]).target.file_id.0 != x,
                parent matches Some(a) ==> self.has_edge(a, x),
                !two ==> forall|k: int|
                    0 <= k < i && (#[trigger] self.edges@[k]).target.file_id.0 == x ==> parent == Some(
                        self.edges@[k].source.file_id.0,
                    ),
                two ==> self.has_two_parents(x),
            decreases self.edges.len() - i,
        {
            let e = self.edges[i];
            if e.target.file_id.0 == x {
                assert(self.has_edge(e.source.file_id.0, x)) by {
                    assert(self.edges@[i as int] == e);
                }
                match parent {
                    None => {
                        parent = Some(e.source.file_id.0);
                    },
                    Some(a) => {
                        if a != e.source.file_id.0 {
                            two = true;
                        }
                    },
                }
            }
            i = i + 1;
        }
        proof {
            if !two {
                assert forall|b: u32| #[trigger] self.has_edge(b, x) implies parent == Some(b) by {
                    let k = choose|k: int|
                        0 <= k < self.edges@.len() && (#[trigger] self.edges@[k]).source.file_id.0 == b
                            && self.edges@[k].target.file_id.0 == x;
                }
                assert(!self.has_two_parents(x)) by {
                    if self.has_two_parents(x) {
                        let (a, b) = choose|a: u32, b: u32| a != b && self.has_edge(a, x) && self.has_edge(b, x);
                        assert(parent == Some(a));
                        assert(parent == Some(b));
                    }
                }
            }
            if parent is None {
                assert forall|a: u32| !self.has_edge(a, x) by {
                    if self.has_edge(a, x) {
                        let k = choose|k: int|
                            0 <= k < self.edges@.len() && (#[trigger] self.edges@[k]).source.file_id.0 == a
                                && self.edges@[k].target.file_id.0 == x;
                        assert(self.edges@[k].target.file_id.0 != x);
                    }
                }
            }
        }
        (parent, two)
    }

    /// The node of the graph with file id `x`, if there is one.
    fn node_with_id(&self, x: u32) -> (res: Option<Node>)
        requires
            unique_ids(self.nodes@),
        ensures
            res is Some <==> self.has_node(x),
            res matches Some(n) ==> n.file_id.0 == x && self.nodes@.contains(n) && n.extension == node_ext(
                self.nodes@,
                x,
            ),
    {
        let mut i: usize = 0;
        while i < self.nodes.len()
            invariant
                unique_ids(self.nodes@),
                0 <= i <= self.nodes.len(),
                forall|k: int| 0 <= k < i ==> (#[trigger] self.nodes@[k]).file_id.0 != x,
            decreases self.nodes.len() - i,
        {
            if self.nodes[i].file_id.0 == x {
                proof {
                    lemma_node_ext(self.nodes@, i as int);
                    assert(self.nodes@.contains(self.nodes@[i as int]));
                }
                return Some(self.nodes[i]);
            }
            i = i + 1;
        }
        None
    }

    /// The project of a file, found by walking up the includes from it:
    /// - a file that is not in the graph has none;
    /// - if the file or one of its ancestors is included by two different files, it has none;
    /// - otherwise the project is the sub-graph rooted at the first include file met on
    ///   the way up (the file itself first), or else at the file that nothing includes.
    /// A walk that goes on for as many steps as the graph has nodes runs around a cycle
    /// that no file tops, and finds no project.
    pub fn projet_subgraph_query(&self, file_id: FileId) -> (res: Option<SubGraph>)
        requires
            self.wf(),
        ensures
            !self.has_node(file_id.0) ==> res is None,
            self.has_node(file_id.0) ==> match self.project_top(file_id.0, self.nodes.len() as nat) {
                ProjectTop::Top(r) => res matches Some(sg) && sg.root.file_id.0 == r && sg.spans(self)
                    && self.nodes@.contains(sg.root) && contains_id(sg.nodes@, file_id.0),
                _ => res is None,
            },
    {
        let start = match self.node_with_id(file_id.0) {
            Some(n) => n,
            None => {
                return None;
            },
        };
        proof {
            lemma_reachable_refl(self, file_id.0);
        }
        let mut cur = start;
        let mut found: Option<Node> = None;
        let mut fuel: usize = self.nodes.len();
        loop
            invariant
                self.wf(),
                self.has_node(file_id.0),
                self.nodes@.contains(cur),
                cur.extension == node_ext(self.nodes@, cur.file_id.0),
                found matches Some(n) ==> self.nodes@.contains(n),
                self.project_top(file_id.0, self.nodes.len() as nat) == below_include(
                    match found {
                        Some(n) => Some(n.file_id.0),
                        None => None,
                    },
                    self.project_top(cur.file_id.0, fuel as nat),
                ),
                self.reachable(cur.file_id.0, file_id.0),
                found matches Some(n) ==> self.reachable(n.file_id.0, file_id.0),
            ensures
                self.nodes@.contains(cur),
                found matches Some(n) ==> self.nodes@.contains(n),
                self.project_top(file_id.0, self.nodes.len() as nat) == below_include(
                    match found {
                        Some(n) => Some(n.file_id.0),
                        None => None,
                    },
                    ProjectTop::Top(cur.file_id.0),
                ),
                self.reachable(cur.file_id.0, file_id.0),
                found matches Some(n) ==> self.reachable(n.file_id.0, file_id.0),
            decreases fuel,
        {
            let (parent, two) = self.parent_of(cur.file_id.0);
            if two {
                return None;
            }
            let a = match parent {
                Some(a) => a,
                None => {
                    break;
                },
            };
            if fuel == 0 {
                return None;
            }
            proof {
                let c = choose|c: u32| self.has_edge(c, cur.file_id.0);
                assert(self.has_edge(c, cur.file_id.0));
                assert(c == a);
                let k = choose|k: int|
                    0 <= k < self.edges@.len() && (#[trigger] self.edges@[k]).source.file_id.0 == a
                        && self.edges@[k].target.file_id.0 == cur.file_id.0;
                assert(self.has_node(self.edges@[k].source.file_id.0));
                lemma_reachable_prepend(self, a, cur.file_id.0, file_id.0);
            }
            let next = match self.node_with_id(a) {
                Some(n) => n,
                None => {
                    return None;
                },
            };
            if found.is_none() {
                if let FileExtension::Inc = cur.extension {
                    found = Some(cur);
                }
            }
            cur = next;
            fuel = fuel - 1;
        }
        let root = match found {
            Some(n) => n,
            None => cur,
        };
        let adj = self.get_adjacent_targets();
        let (nodes, edges) = self.search(&root, &adj);
        Some(SubGraph { root, nodes, edges })
    }

    /// Builds the include graph from the known files and, for each of them, its resolved includes.
    pub fn graph_query(documents: &Vec<(FileId, FileExtension)>, includes: &Vec<Vec<Include>>) -> (graph: Graph)
        requires
            documents.len() == includes.len(),
        ensures
            graph.wf(),
            forall|x: u32| graph.has_node(x) <==> ((exists|i: int| 0 <= i < documents.len() && (#[trigger] documents@[i]).0.0 == x)
                || (exists|i: int, j: int| 0 <= i < includes.len() && 0 <= j < includes@[i].len() && (#[trigger] includes@[i]@[j]).spec_file_id().0 == x)),
            forall|a: u32, b: u32| graph.has_edge(a, b) <==> (exists|i: int, j: int| 0 <= i < includes.len() && 0 <= j < includes@[i].len()
                && (#[trigger] documents@[i]).0.0 == a && (#[trigger] includes@[i]@[j]).spec_file_id().0 == b),
            forall|x: u32|
                #![trigger graph.has_node(x)]
                graph.has_node(x) ==> first_for_id(
                    node_order(documents@, includes@, documents.len() as nat),
                    x,
                    node_ext(graph.nodes@, x),
                ),
            forall|k: int|
                0 <= k < graph.edges.len() ==> first_edge(
                    edge_order(documents@, includes@, documents.len() as nat),
                    #[trigger] graph.edges@[k],
                ),
    {
        let mut graph = Graph { edges: Vec::new(), nodes: Vec::new() };
        let ghost mut seen: Seq<(u32, FileExtension)> = Seq::empty();
        let ghost mut eseen: Seq<Edge> = Seq::empty();
        let mut i: usize = 0;
        while i < documents.len()
            invariant
                documents.len() == includes.len(),
                0 <= i <= documents.len(),
                graph.wf(),
                forall|x: u32| graph.has_node(x) <==> ((exists|k: int| 0 <= k < i && (#[trigger] documents@[k]).0.0 == x)
                    || (exists|k: int, j: int| 0 <= k < i && 0 <= j < includes@[k].len() && (#[trigger] includes@[k]@[j]).spec_file_id().0 == x)),
                forall|a: u32, b: u32| graph.has_edge(a, b) <==> (exists|k: int, j: int| 0 <= k < i && 0 <= j < includes@[k].len()
                    && (#[trigger] documents@[k]).0.0 == a && (#[trigger] includes@[k]@[j]).spec_file_id().0 == b),
                seen == node_order(documents@, includes@, i as nat),
                eseen == edge_order(documents@, includes@, i as nat),
                forall|k: int| 0 <= k < graph.nodes.len() ==> first_for_id(seen, (#[trigger] graph.nodes@[k]).file_id.0, graph.nodes@[k].extension),
                forall|x: u32| graph.has_node(x) <==> ids_in(seen, x),
                forall|k: int| 0 <= k < graph.edges.len() ==> first_edge(eseen, #[trigger] graph.edges@[k]),
                forall|a: u32, b: u32| graph.has_edge(a, b) <==> edge_in(eseen, a, b),
            decreases documents.len() - i,
        {
            let (file_id, extension) = documents[i];
            let ghost g0 = graph;
            insert_node(&mut graph.nodes, Node { file_id, extension });
            proof {
                let p = (file_id.0, extension);
                lemma_ids_in_push(seen, p);
                assert forall|k: int| 0 <= k < graph.nodes.len() implies first_for_id(seen.push(p), (#[trigger] graph.nodes@[k]).file_id.0, graph.nodes@[k].extension) by {
                    if k < g0.nodes.len() {
                        assert(graph.nodes@[k] == g0.nodes@[k]);
                        lemma_first_push(seen, p, g0.nodes@[k].file_id.0, g0.nodes@[k].extension);
                    } else {
                        assert(!g0.has_node(file_id.0));
                        lemma_first_new(seen, file_id.0, extension);
                    }
                }
                assert forall|x: u32| graph.has_node(x) <==> ids_in(seen.push(p), x) by {
                    assert(g0.has_node(x) <==> ids_in(seen, x));
                }
                seen = seen.push(p);
            }
            assert(graph.edges@ == g0.edges@);
            assert forall|e: int| 0 <= e < graph.edges.len() implies graph.has_node(
                #[trigger] graph.edges@[e].source.file_id.0,
            ) && graph.has_node(graph.edges@[e].target.file_id.0) by {
                assert(g0.has_node(g0.edges@[e].source.file_id.0));
                assert(g0.has_node(g0.edges@[e].target.file_id.0));
            }
            assert(graph.wf());
            assert forall|x: u32| graph.has_node(x) <==> ((exists|k: int| 0 <= k < i + 1 && (#[trigger] documents@[k]).0.0 == x)
                || (exists|k: int, j: int| 0 <= k < i && 0 <= j < includes@[k].len() && (#[trigger] includes@[k]@[j]).spec_file_id().0 == x)) by {
                if x == file_id.0 {
                    assert(documents@[i as int].0.0 == x);
                } else {
                    assert(graph.has_node(x) == g0.has_node(x));
                    if exists|k: int| 0 <= k < i + 1 && (#[trigger] documents@[k]).0.0 == x {
                        let k = choose|k: int| 0 <= k < i + 1 && (#[trigger] documents@[k]).0.0 == x;
                        assert(k < i);
                    }
                }
            }
            assert forall|a: u32, b: u32| graph.has_edge(a, b) == g0.has_edge(a, b) by {}
            let incs = &includes[i];
            let mut j: usize = 0;
            assert(seen =~= node_order(documents@, includes@, i as nat).push((file_id.0, extension))
                + include_pairs(incs@.subrange(0, 0)));
            assert(eseen =~= edge_order(documents@, includes@, i as nat)
                + include_edges((file_id, extension), incs@.subrange(0, 0)));
            while j < incs.len()
                invariant
                    documents.len() == includes.len(),
                    0 <= i < documents.len(),
                    seen == node_order(documents@, includes@, i as nat).push((file_id.0, extension))
                        + include_pairs(incs@.subrange(0, j as int)),
                    eseen == edge_order(documents@, includes@, i as nat)
                        + include_edges((file_id, extension), incs@.subrange(0, j as int)),
                    graph.has_node(file_id.0),
                    forall|k: int| 0 <= k < graph.nodes.len() ==> first_for_id(seen, (#[trigger] graph.nodes@[k]).file_id.0, graph.nodes@[k].extension),
                    forall|x: u32| graph.has_node(x) <==> ids_in(seen, x),
                    forall|k: int| 0 <= k < graph.edges.len() ==> first_edge(eseen, #[trigger] graph.edges@[k]),
                    forall|a: u32, b: u32| graph.has_edge(a, b) <==> edge_in(eseen, a, b),
                    documents@[i as int] == (file_id, extension),
                    incs@ == includes@[i as int]@,
                    0 <= j <= incs.len(),
                    graph.wf(),
                    forall|x: u32| graph.has_node(x) <==> ((exists|k: int| 0 <= k < i + 1 && (#[trigger] documents@[k]).0.0 == x)
                        || (exists|k: int, l: int| 0 <= k < i && 0 <= l < includes@[k].len() && (#[trigger] includes@[k]@[l]).spec_file_id().0 == x)
                        || (exists|l: int| 0 <= l < j && (#[trigger] incs@[l]).spec_file_id().0 == x)),
                    forall|a: u32, b: u32| graph.has_edge(a, b) <==> ((exists|k: int, l: int| 0 <= k < i && 0 <= l < includes@[k].len()
                        && (#[trigger] documents@[k]).0.0 == a && (#[trigger] includes@[k]@[l]).spec_file_id().0 == b)
                        || (a == file_id.0 && exists|l: int| 0 <= l < j && (#[trigger] incs@[l]).spec_file_id().0 == b)),
                decreases incs.len() - j,
            {
                let inc = incs[j];
                let ghost g1 = graph;
                graph.add_file_id(file_id, extension, inc.file_id(), inc.extension());
                proof {
                    let p = (inc.spec_file_id().0, inc.spec_extension());
                    let e = Edge {
                        source: Node { file_id, extension },
                        target: Node { file_id: inc.spec_file_id(), extension: inc.spec_extension() },
                    };
                    lemma_ids_in_push(seen, p);
                    lemma_edge_in_push(eseen, e);
                    assert forall|k: int| 0 <= k < graph.nodes.len() implies first_for_id(seen.push(p), (#[trigger] graph.nodes@[k]).file_id.0, graph.nodes@[k].extension) by {
                        if k < g1.nodes.len() {
                            assert(graph.nodes@[k] == g1.nodes@[k]);
                            lemma_first_push(seen, p, g1.nodes@[k].file_id.0, g1.nodes@[k].extension);
                        } else {
                            lemma_first_new(seen, p.0, p.1);
                        }
                    }
                    if g1.has_edge(file_id.0, inc.spec_file_id().0) {
                        assert(graph.edges.len() == g1.edges.len()) by {
                            if graph.edges.len() > g1.edges.len() {
                                assert(graph.edges@[g1.edges.len() as int] == e);
                            }
                        }
                    }
                    assert forall|k: int| 0 <= k < graph.edges.len() implies first_edge(eseen.push(e), #[trigger] graph.edges@[k]) by {
                        if k < g1.edges.len() {
                            assert(graph.edges@[k] == g1.edges@[k]);
                            lemma_edge_first_push(eseen, e, g1.edges@[k]);
                        } else {
                            assert(graph.edges@[k] == e);
                            lemma_edge_first_new(eseen, e);
                        }
                    }
                    assert(include_pairs(incs@.subrange(0, j + 1)) =~= include_pairs(incs@.subrange(0, j as int)).push(p));
                    assert(include_edges((file_id, extension), incs@.subrange(0, j + 1))
                        =~= include_edges((file_id, extension), incs@.subrange(0, j as int)).push(e));
                    seen = seen.push(p);
                    eseen = eseen.push(e);
                }
                j = j + 1;
            }
            proof {
                assert(incs@.subrange(0, incs.len() as int) =~= incs@);
                assert(seen =~= node_order(documents@, includes@, (i + 1) as nat));
                assert(eseen =~= edge_order(documents@, includes@, (i + 1) as nat));
            }
            proof {
                assert forall|x: u32| graph.has_node(x) <==> ((exists|k: int| 0 <= k < i + 1 && (#[trigger] documents@[k]).0.0 == x)
                    || (exists|k: int, l: int| 0 <= k < i + 1 && 0 <= l < includes@[k].len() && (#[trigger] includes@[k]@[l]).spec_file_id().0 == x)) by {
                    if exists|l: int| 0 <= l < incs.len() && (#[trigger] incs@[l]).spec_file_id().0 == x {
                        let l = choose|l: int| 0 <= l < incs.len() && (#[trigger] incs@[l]).spec_file_id().0 == x;
                        assert(includes@[i as int]@[l].spec_file_id().0 == x);
                    }
                    if exists|k: int, l: int| 0 <= k < i + 1 && 0 <= l < includes@[k].len() && (#[trigger] includes@[k]@[l]).spec_file_id().0 == x {
                        let (k, l) = choose|k: int, l: int| 0 <= k < i + 1 && 0 <= l < includes@[k].len() && (#[trigger] includes@[k]@[l]).spec_file_id().0 == x;
                        if k == i {
                            assert(incs@[l].spec_file_id().0 == x);
                        }
                    }
                }
                assert forall|a: u32, b: u32| graph.has_edge(a, b) <==> (exists|k: int, l: int| 0 <= k < i + 1 && 0 <= l < includes@[k].len()
                    && (#[trigger] documents@[k]).0.0 == a && (#[trigger] includes@[k]@[l]).spec_file_id().0 == b) by {
                    if a == file_id.0 && exists|l: int| 0 <= l < incs.len() && (#[trigger] incs@[l]).spec_file_id().0 == b {
                        let l = choose|l: int| 0 <= l < incs.len() && (#[trigger] incs@[l]).spec_file_id().0 == b;
                        assert(includes@[i as int]@[l].spec_file_id().0 == b);
                        assert(documents@[i as int].0.0 == a);
                    }
                    if exists|k: int, l: int| 0 <= k < i + 1 && 0 <= l < includes@[k].len()
                        && (#[trigger] documents@[k]).0.0 == a && (#[trigger] includes@[k]@[l]).spec_file_id().0 == b {
                        let (k, l) = choose|k: int, l: int| 0 <= k < i + 1 && 0 <= l < includes@[k].len()
                            && (#[trigger] documents@[k]).0.0 == a && (#[trigger] includes@[k]@[l]).spec_file_id().0 == b;
                        if k == i {
                            assert(incs@[l].spec_file_id().0 == b);
                        }
                    }
                }
            }
            i = i + 1;
        }
        proof {
            assert forall|x: u32| #[trigger] graph.has_node(x) implies first_for_id(seen, x, node_ext(graph.nodes@, x)) by {
                let k = choose|k: int| 0 <= k < graph.nodes.len() && #[trigger] graph.nodes@[k].file_id.0 == x;
                lemma_node_ext(graph.nodes@, k);
                assert(first_for_id(seen, graph.nodes@[k].file_id.0, graph.nodes@[k].extension));
            }
        }
        graph
    }
}

} // verus!
