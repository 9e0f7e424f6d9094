//! The petgraph graph that holds the dependency nodes: its declaration, the
//! names for what it holds, what each call does to it, and the calls.
//!
//! A graph is seen as its nodes by index, each with a weight and two edge
//! lists (the edges that leave it and those that enter it, in the order in
//! which petgraph walks them), and its edges by index, each with a source and
//! a target node.

use vstd::prelude::*;
use petgraph::graph::{EdgeIndex, Graph, NodeIndex};
use petgraph::Directed;
use crate::graph::DependencyNode;

verus! {

/// Declaration of `petgraph::graph::Graph`, carried opaquely.
#[verifier::external_type_specification]
#[verifier::external_body]
#[verifier::reject_recursive_types(N)]
#[verifier::reject_recursive_types(E)]
#[verifier::reject_recursive_types(Ty)]
#[verifier::reject_recursive_types(Ix)]
pub struct ExGraph<N, E, Ty, Ix>(Graph<N, E, Ty, Ix>);

/// Declaration of `petgraph::Directed`, the marker of directed graphs.
#[verifier::external_type_specification]
#[verifier::external_body]
pub struct ExDirected(Directed);

/// The nodes of `g` by index: each node's weight, then the indices of the
/// edges that leave it, then those of the edges that enter it, each list in
/// the order in which petgraph walks it.
pub uninterp spec fn graph_nodes(g: Graph<DependencyNode, (), Directed, u32>) -> Seq<(DependencyNode, Seq<int>, Seq<int>)>;

/// The edges of `g` by index: each edge's source and target node.
pub uninterp spec fn graph_edges(g: Graph<DependencyNode, (), Directed, u32>) -> Seq<(int, int)>;

/// How the nodes of a graph are linked, apart from their weights.
#[verifier::ext_equal]
pub struct Shape {
    /// For each node, the edges that leave it, in walking order.
    pub outs: Seq<Seq<int>>,
    /// For each node, the edges that enter it, in walking order.
    pub ins: Seq<Seq<int>>,
    /// For each edge, its source and target node.
    pub edges: Seq<(int, int)>,
}

/// The node weights of `g` by index.
pub open spec fn weights_of(g: Graph<DependencyNode, (), Directed, u32>) -> Seq<DependencyNode> {
    graph_nodes(g).map_values(|n: (DependencyNode, Seq<int>, Seq<int>)| n.0)
}

/// How the nodes of `g` are linked.
pub open spec fn shape_of(g: Graph<DependencyNode, (), Directed, u32>) -> Shape {
    Shape {
        outs: graph_nodes(g).map_values(|n: (DependencyNode, Seq<int>, Seq<int>)| n.1),
        ins: graph_nodes(g).map_values(|n: (DependencyNode, Seq<int>, Seq<int>)| n.2),
        edges: graph_edges(g),
    }
}

/// An empty shape.
pub open spec fn empty_shape() -> Shape {
    Shape { outs: Seq::empty(), ins: Seq::empty(), edges: Seq::empty() }
}

/// The shape after a node with no edges is added.
pub open spec fn shape_node_added(s: Shape) -> Shape {
    Shape { outs: s.outs.push(Seq::empty()), ins: s.ins.push(Seq::empty()), edges: s.edges }
}

/// The shape after an edge from `a` to `b` is added: the new edge takes the
/// next index and is linked first in the out-list of `a` and the in-list of
/// `b`.
pub open spec fn shape_edge_added(s: Shape, a: int, b: int) -> Shape {
    let e = s.edges.len() as int;
    Shape {
        outs: s.outs.update(a, seq![e] + s.outs[a]),
        ins: s.ins.update(b, seq![e] + s.ins[b]),
        edges: s.edges.push((a, b)),
    }
}

/// `l` without the first occurrence of `x`.
pub open spec fn remove_first(l: Seq<int>, x: int) -> Seq<int>
    decreases l.len(),
{
    if l.len() == 0 {
        l
    } else if l[0] == x {
        l.drop_first()
    } else {
        seq![l[0]] + remove_first(l.drop_first(), x)
    }
}

/// `l` with the first occurrence of `x` replaced by `y`.
pub open spec fn replace_first(l: Seq<int>, x: int, y: int) -> Seq<int>
    decreases l.len(),
{
    if l.len() == 0 {
        l
    } else if l[0] == x {
        l.update(0, y)
    } else {
        seq![l[0]] + replace_first(l.drop_first(), x, y)
    }
}

/// The shape after edge `e` is removed: it is unlinked from the out-list of
/// its source and the in-list of its target, and the last edge moves to
/// index `e`, keeping its places in the lists.
pub open spec fn shape_edge_removed(s: Shape, e: int) -> Shape {
    let src = s.edges[e].0;
    let dst = s.edges[e].1;
    let last = s.edges.len() - 1;
    let outs1 = if 0 <= src < s.outs.len() { s.outs.update(src, remove_first(s.outs[src], e)) } else { s.outs };
    let ins1 = if 0 <= dst < s.ins.len() { s.ins.update(dst, remove_first(s.ins[dst], e)) } else { s.ins };
    if e == last {
        Shape { outs: outs1, ins: ins1, edges: s.edges.drop_last() }
    } else {
        let lsrc = s.edges[last].0;
        let ldst = s.edges[last].1;
        Shape {
            outs: if 0 <= lsrc < outs1.len() { outs1.update(lsrc, replace_first(outs1[lsrc], last, e)) } else { outs1 },
            ins: if 0 <= ldst < ins1.len() { ins1.update(ldst, replace_first(ins1[ldst], last, e)) } else { ins1 },
            edges: s.edges.update(e, s.edges[last]).drop_last(),
        }
    }
}

/// The edge list of node `a` that `out` picks: its out-list or its in-list.
pub open spec fn list_of(s: Shape, a: int, out: bool) -> Seq<int> {
    if out { s.outs[a] } else { s.ins[a] }
}

/// The shape after the edges of one list of node `a` are removed, first edge
/// first.
pub open spec fn shape_list_cleared(s: Shape, a: int, out: bool) -> Shape
    decreases s.edges.len(),
{
    let l = list_of(s, a, out);
    if l.len() > 0 && 0 <= l[0] < s.edges.len() {
        shape_list_cleared(shape_edge_removed(s, l[0]), a, out)
    } else {
        s
    }
}

/// The shape after node `a` is removed: first its out-edges, then its
/// in-edges, then the last node moves to index `a` and the edges in its lists
/// are repointed to `a`. Nothing changes when there is no node `a`.
pub open spec fn shape_node_removed(s: Shape, a: int) -> Shape {
    if !(0 <= a < s.outs.len()) {
        s
    } else {
        let s2 = shape_list_cleared(shape_list_cleared(s, a, true), a, false);
        let last = s2.outs.len() - 1;
        if a == last {
            Shape { outs: s2.outs.drop_last(), ins: s2.ins.drop_last(), edges: s2.edges }
        } else {
            let mo = s2.outs[last];
            let mi = s2.ins[last];
            Shape {
                outs: s2.outs.update(a, mo).drop_last(),
                ins: s2.ins.update(a, mi).drop_last(),
                edges: Seq::new(
                    s2.edges.len(),
                    |e: int|
                        (
                            if mo.contains(e) { a } else { s2.edges[e].0 },
                            if mi.contains(e) { a } else { s2.edges[e].1 },
                        ),
                ),
            }
        }
    }
}

/// `w` with the element at `a` replaced by the last one, which is dropped;
/// unchanged when there is no element `a`.
pub open spec fn swap_removed<T>(w: Seq<T>, a: int) -> Seq<T> {
    if !(0 <= a < w.len()) {
        w
    } else if a == w.len() - 1 {
        w.drop_last()
    } else {
        w.update(a, w.last()).drop_last()
    }
}

/// For each node, the targets of its out-edges in walking order: the order
/// in which petgraph lists its neighbors.
pub open spec fn successors(s: Shape) -> Seq<Seq<int>> {
    Seq::new(s.outs.len(), |i: int| s.outs[i].map_values(|e: int| s.edges[e].1))
}

/// `p` is a walk along edges of a graph with successor lists `succ`.
pub open spec fn is_walk(succ: Seq<Seq<int>>, p: Seq<int>) -> bool {
    &&& p.len() >= 1
    &&& forall|i: int| 0 <= i < p.len() ==> 0 <= #[trigger] p[i] < succ.len()
    &&& forall|i: int, j: int| #![trigger p[i], p[j]] 0 <= i && j == i + 1 && j < p.len() ==> succ[p[i]].contains(p[j])
}

/// Some walk leads from `a` to `b` (from a node to itself, the walk of one node).
pub open spec fn reaches(succ: Seq<Seq<int>>, a: int, b: int) -> bool {
    exists|p: Seq<int>| #[trigger] is_walk(succ, p) && p[0] == a && p.last() == b
}

/// Some edge lies on a cycle (a self loop counts).
pub open spec fn has_cycle(succ: Seq<Seq<int>>) -> bool {
    exists|a: int, b: int| 0 <= a < succ.len() && #[trigger] succ[a].contains(b) && reaches(succ, b, a)
}

/// `s` holds no element twice.
pub open spec fn distinct(s: Seq<int>) -> bool {
    forall|i: int, j: int| 0 <= i < j < s.len() ==> s[i] != s[j]
}

/// The order in which petgraph's `Dfs`, started at `start`, emits the nodes
/// of a graph whose successor lists are `succ`.
pub uninterp spec fn dfs_visit_order(succ: Seq<Seq<int>>, start: int) -> Seq<int>;

/// The order in which petgraph's `toposort` lists the nodes of an acyclic
/// graph whose successor lists are `succ`.
pub uninterp spec fn toposort_order(succ: Seq<Seq<int>>) -> Seq<int>;

/// The indices in `v` as integers.
pub open spec fn ints(v: Seq<usize>) -> Seq<int> {
    v.map_values(|x: usize| x as int)
}

/// `Graph::new`: a graph with no nodes and no edges.
#[verifier::external_body]
pub(crate) fn graph_new() -> (g: Graph<DependencyNode, (), Directed, u32>)
    ensures
        graph_nodes(g).len() == 0,
        graph_edges(g).len() == 0,
{
    Graph::new()
}

/// `Graph::node_count`: the number of nodes, which never passes `u32::MAX`
/// since the crate refuses to give a node the index `u32::MAX`.
#[verifier::external_body]
pub(crate) fn node_count(g: &Graph<DependencyNode, (), Directed, u32>) -> (n: usize)
    ensures
        n == graph_nodes(*g).len(),
        n <= u32::MAX,
{
    g.node_count()
}

/// `Graph::edge_count`: the number of edges, which never passes `u32::MAX`
/// since the crate refuses to give an edge the index `u32::MAX`.
#[verifier::external_body]
pub(crate) fn edge_count(g: &Graph<DependencyNode, (), Directed, u32>) -> (n: usize)
    ensures
        n == graph_edges(*g).len(),
        n <= u32::MAX,
{
    g.edge_count()
}

/// `Graph::add_node`: the node takes the next index and has no edges. The
/// crate panics when the index would be `u32::MAX`, its end marker.
#[verifier::external_body]
pub(crate) fn add_node(g: &mut Graph<DependencyNode, (), Directed, u32>, weight: DependencyNode) -> (i: usize)
    requires
        graph_nodes(*old(g)).len() < u32::MAX,
    ensures
        i == graph_nodes(*old(g)).len(),
        weights_of(*final(g)) == weights_of(*old(g)).push(weight),
        shape_of(*final(g)) == shape_node_added(shape_of(*old(g))),
{
    g.add_node(weight).index()
}

/// `Graph::add_edge`: an edge from `a` to `b` (see `shape_edge_added`). The
/// crate panics when a node is missing or the edge index would be
/// `u32::MAX`.
#[verifier::external_body]
pub(crate) fn add_edge(g: &mut Graph<DependencyNode, (), Directed, u32>, a: usize, b: usize)
    requires
        a < graph_nodes(*old(g)).len(),
        b < graph_nodes(*old(g)).len(),
        graph_edges(*old(g)).len() < u32::MAX,
    ensures
        weights_of(*final(g)) == weights_of(*old(g)),
        shape_of(*final(g)) == shape_edge_added(shape_of(*old(g)), a as int, b as int),
{
    g.add_edge(NodeIndex::new(a), NodeIndex::new(b), ());
}

/// `Graph::remove_node`: removes node `a` and its edges, the last node taking
/// its index (see `shape_node_removed`); nothing happens when there is no
/// node `a`.
#[verifier::external_body]
pub(crate) fn remove_node(g: &mut Graph<DependencyNode, (), Directed, u32>, a: u32)
    ensures
        weights_of(*final(g)) == swap_removed(weights_of(*old(g)), a as int),
        shape_of(*final(g)) == shape_node_removed(shape_of(*old(g)), a as int),
{
    let _ = g.remove_node(NodeIndex::from(a));
}

/// Indexing a `Graph` by a node: the node's weight. The crate panics when
/// there is no such node.
#[verifier::external_body]
pub(crate) fn weight(g: &Graph<DependencyNode, (), Directed, u32>, i: usize) -> (w: &DependencyNode)
    requires
        i < graph_nodes(*g).len(),
    ensures
        *w == weights_of(*g)[i as int],
{
    &g[NodeIndex::new(i)]
}

/// Indexing a `Graph` mutably by a node: the node's weight, which the caller
/// may change; nothing else changes. The crate panics when there is no such
/// node.
#[verifier::external_body]
pub(crate) fn weight_mut(g: &mut Graph<DependencyNode, (), Directed, u32>, i: usize) -> (w: &mut DependencyNode)
    requires
        i < graph_nodes(*old(g)).len(),
    ensures
        *w == weights_of(*old(g))[i as int],
        weights_of(*final(g)) == weights_of(*old(g)).update(i as int, *final(w)),
        shape_of(*final(g)) == shape_of(*old(g)),
{
    &mut g[NodeIndex::new(i)]
}

/// `Graph::edge_endpoints`: the source and target of edge `e`, both nodes of
/// the graph (the crate adds edges between existing nodes only and removes
/// the edges of a node it removes).
#[verifier::external_body]
pub(crate) fn edge_endpoints(g: &Graph<DependencyNode, (), Directed, u32>, e: usize) -> (r: (usize, usize))
    requires
        e < graph_edges(*g).len(),
    ensures
        r.0 == graph_edges(*g)[e as int].0,
        r.1 == graph_edges(*g)[e as int].1,
        r.0 < graph_nodes(*g).len(),
        r.1 < graph_nodes(*g).len(),
{
    let (a, b) = g.edge_endpoints(EdgeIndex::new(e)).unwrap();
    (a.index(), b.index())
}

/// `petgraph::visit::Dfs` started at `start`, run to its end: the nodes in
/// the order it emits them (named `dfs_visit_order`). As the crate documents,
/// it emits each node reachable from `start` once, in preorder, starting with
/// `start`. The crate panics when there is no node `start`.
#[verifier::external_body]
pub(crate) fn dfs_preorder(g: &Graph<DependencyNode, (), Directed, u32>, start: usize) -> (order: Vec<usize>)
    requires
        start < graph_nodes(*g).len(),
    ensures
        ints(order@) == dfs_visit_order(successors(shape_of(*g)), start as int),
        1 <= order@.len() <= graph_nodes(*g).len(),
        order@[0] == start,
        distinct(ints(order@)),
        forall|i: int| 0 <= i < order@.len() ==> #[trigger] order@[i] < graph_nodes(*g).len(),
        forall|v: int|
            ints(order@).contains(v) <==> reaches(successors(shape_of(*g)), start as int, v),
{
    let mut dfs = petgraph::visit::Dfs::new(g, NodeIndex::new(start));
    let mut order = Vec::new();
    while let Some(n) = dfs.next(g) {
        order.push(n.index());
    }
    order
}

/// `petgraph::algo::has_path_connecting`: whether a walk leads from `from` to
/// `to`. The crate panics when there is no node `from`.
#[verifier::external_body]
pub(crate) fn has_path(g: &Graph<DependencyNode, (), Directed, u32>, from: usize, to: u32) -> (b: bool)
    requires
        from < graph_nodes(*g).len(),
    ensures
        b == reaches(successors(shape_of(*g)), from as int, to as int),
{
    petgraph::algo::has_path_connecting(g, NodeIndex::new(from), NodeIndex::from(to), None)
}

/// `petgraph::algo::toposort`: `None` when some edge lies on a cycle;
/// otherwise each node once (in the order named `toposort_order`), every
/// node before the targets of its edges, as the crate documents.
#[verifier::external_body]
pub(crate) fn toposort(g: &Graph<DependencyNode, (), Directed, u32>) -> (r: Option<Vec<usize>>)
    ensures
        r is None <==> has_cycle(successors(shape_of(*g))),
        r matches Some(order) ==> {
            &&& ints(order@) == toposort_order(successors(shape_of(*g)))
            &&& order@.len() == graph_nodes(*g).len()
            &&& distinct(ints(order@))
            &&& forall|i: int| 0 <= i < order@.len() ==> #[trigger] order@[i] < graph_nodes(*g).len()
            &&& forall|i: int, j: int|
                #![trigger order@[i], order@[j]]
                0 <= i < order@.len() && 0 <= j < order@.len()
                    && successors(shape_of(*g))[order@[i] as int].contains(order@[j] as int) ==> i < j
        },
{
    match petgraph::algo::toposort(g, None) {
        Ok(order) => Some(order.iter().map(|n| n.index()).collect()),
        Err(_) => None,
    }
}

} // verus!
