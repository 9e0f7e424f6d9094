//! The dependency graph of an environment: packages as nodes, "depends on"
//! as edges, kept in a petgraph graph and found again by name.

pub mod store;

use vstd::prelude::*;
use petgraph::graph::Graph;
use petgraph::Directed;
use crate::package::{Dependency, DependencyView, GraphChange, GraphChangeView, opt_view};
use crate::strmap::StrMap;
use crate::text::same_text;
use crate::time::{clock_now, Timestamp};
use vstd::string::StringExecFns;
use self::store::{
    add_edge, add_node, dfs_preorder, graph_nodes, dfs_visit_order, distinct, edge_count, edge_endpoints, empty_shape, graph_new,
    has_cycle, has_path, ints, is_walk, node_count, reaches, remove_node, shape_edge_added, shape_node_added, shape_node_removed,
    shape_of, successors, swap_removed, toposort, toposort_order, weight, weight_mut, weights_of, Shape,
};


verus! {

/// Dependency node information
#[derive(Debug)]
pub struct DependencyNode {
    /// Package name
    pub name: String,
    /// Package version
    pub version: String,
    /// Current version (if updating)
    pub current_version: Option<String>,
    /// Package dependencies
    pub dependencies: Vec<Dependency>,
    /// Direct dependency
    pub direct: bool,
    /// Package hash
    pub hash: Option<String>,
    /// Package size
    pub size: u64,
    /// Package source
    pub source: String,
    /// Last updated timestamp
    pub last_updated: Timestamp,
}

/// The value of a dependency node: its texts and flags.
#[verifier::ext_equal]
pub struct DependencyNodeView {
    pub name: Seq<char>,
    pub version: Seq<char>,
    pub current_version: Option<Seq<char>>,
    pub dependencies: Seq<DependencyView>,
    pub direct: bool,
    pub hash: Option<Seq<char>>,
    pub size: u64,
    pub source: Seq<char>,
    pub last_updated: Timestamp,
}

impl View for DependencyNode {
    type V = DependencyNodeView;

    open spec fn view(&self) -> DependencyNodeView {
        DependencyNodeView {
            name: self.name@,
            version: self.version@,
            current_version: opt_view(self.current_version),
            dependencies: self.dependencies@.map_values(|d: Dependency| d@),
            direct: self.direct,
            hash: opt_view(self.hash),
            size: self.size,
            source: self.source@,
            last_updated: self.last_updated,
        }
    }
}

/// The node views of `w`.
pub open spec fn views_of(w: Seq<DependencyNode>) -> Seq<DependencyNodeView> {
    w.map_values(|n: DependencyNode| n@)
}

/// The views of the changes `c`.
pub open spec fn change_views(c: Seq<GraphChange>) -> Seq<GraphChangeView> {
    c.map_values(|x: GraphChange| x@)
}

/// What a dependency graph holds, as values.
#[verifier::ext_equal]
pub struct GraphState {
    /// The node of each index.
    pub nodes: Seq<DependencyNodeView>,
    /// How the nodes are linked.
    pub shape: Shape,
    /// The index stored for each package name.
    pub index: Map<Seq<char>, u32>,
    /// The changes announced and not yet handed out.
    pub sent: Seq<GraphChangeView>,
    /// The changes seen in a watched directory.
    pub pending: Seq<GraphChangeView>,
}

/// A node made for a package first seen with `version` at `now`.
pub open spec fn fresh_node(name: Seq<char>, version: Seq<char>, now: Timestamp) -> DependencyNodeView {
    DependencyNodeView {
        name,
        version,
        current_version: None,
        dependencies: Seq::empty(),
        direct: false,
        hash: None,
        size: 0,
        source: Seq::empty(),
        last_updated: now,
    }
}

/// `w` moved to `version` at `now`.
pub open spec fn with_version(w: DependencyNodeView, version: Seq<char>, now: Timestamp) -> DependencyNodeView {
    DependencyNodeView {
        name: w.name,
        version,
        current_version: w.current_version,
        dependencies: w.dependencies,
        direct: w.direct,
        hash: w.hash,
        size: w.size,
        source: w.source,
        last_updated: now,
    }
}

/// The stored index of `name`, if any, names a node.
pub open spec fn index_ok(s: GraphState, name: Seq<char>) -> bool {
    s.index.contains_key(name) ==> (s.index[name] as int) < s.nodes.len()
}

/// Adding the package `name` does not fail: a stored index names a node,
/// and a new node still has an index below `u32::MAX`.
pub open spec fn can_add_package(s: GraphState, name: Seq<char>) -> bool {
    if s.index.contains_key(name) {
        (s.index[name] as int) < s.nodes.len()
    } else {
        s.nodes.len() < u32::MAX
    }
}

/// The index that adding the package `name` returns.
pub open spec fn package_index(s: GraphState, name: Seq<char>) -> int {
    if s.index.contains_key(name) {
        s.index[name] as int
    } else {
        s.nodes.len() as int
    }
}

/// `s` after the package `name` is added with `version` at `now`: a known
/// name whose node has another version gets that version and the time, and
/// a `NodeUpdated` change; a new name gets a fresh node at the next index,
/// and a `NodeAdded` change.
pub open spec fn package_added(s: GraphState, name: Seq<char>, version: Seq<char>, now: Timestamp) -> GraphState {
    if s.index.contains_key(name) {
        let i = s.index[name] as int;
        let w = s.nodes[i];
        if w.version != version {
            GraphState {
                nodes: s.nodes.update(i, with_version(w, version, now)),
                shape: s.shape,
                index: s.index,
                sent: s.sent.push(GraphChangeView::NodeUpdated { name, old_version: w.version, new_version: version }),
                pending: s.pending,
            }
        } else {
            s
        }
    } else {
        GraphState {
            nodes: s.nodes.push(fresh_node(name, version, now)),
            shape: shape_node_added(s.shape),
            index: s.index.insert(name, s.nodes.len() as u32),
            sent: s.sent.push(GraphChangeView::NodeAdded { name, version }),
            pending: s.pending,
        }
    }
}

/// Adding an edge between the packages `from` and `to` does not fail.
pub open spec fn can_add_dependency(s: GraphState, from: Seq<char>, to: Seq<char>) -> bool {
    s.index.contains_key(from) && s.index.contains_key(to) ==> {
        &&& (s.index[from] as int) < s.nodes.len()
        &&& (s.index[to] as int) < s.nodes.len()
        &&& s.shape.edges.len() < u32::MAX
    }
}

/// `s` after an edge from `from` to `to` is added: only when both names are
/// known, with an `EdgeAdded` change.
pub open spec fn dependency_added(s: GraphState, from: Seq<char>, to: Seq<char>) -> GraphState {
    if s.index.contains_key(from) && s.index.contains_key(to) {
        GraphState {
            nodes: s.nodes,
            shape: shape_edge_added(s.shape, s.index[from] as int, s.index[to] as int),
            index: s.index,
            sent: s.sent.push(GraphChangeView::EdgeAdded { from, to }),
            pending: s.pending,
        }
    } else {
        s
    }
}

/// `s` after the package `name` is removed: when the name is known, the node
/// at its stored index goes (the last node taking that index, while the
/// index kept for the last node's name stays as it was), the name is
/// forgotten and a `NodeRemoved` change is announced.
pub open spec fn package_removed(s: GraphState, name: Seq<char>) -> GraphState {
    if s.index.contains_key(name) {
        let i = s.index[name] as int;
        GraphState {
            nodes: swap_removed(s.nodes, i),
            shape: shape_node_removed(s.shape, i),
            index: s.index.remove(name),
            sent: s.sent.push(GraphChangeView::NodeRemoved { name }),
            pending: s.pending,
        }
    } else {
        s
    }
}

/// `s` with no pending changes.
pub open spec fn pending_cleared(s: GraphState) -> GraphState {
    GraphState { nodes: s.nodes, shape: s.shape, index: s.index, sent: s.sent, pending: Seq::empty() }
}

/// `s` with no changes left to hand out.
pub open spec fn sent_cleared(s: GraphState) -> GraphState {
    GraphState { nodes: s.nodes, shape: s.shape, index: s.index, sent: Seq::empty(), pending: s.pending }
}

/// Kinds of file events in a watched directory.
#[derive(Debug, Clone, Copy, PartialEq, Eq, Structural)]
pub enum WatchEventKind {
    Create,
    Remove,
    Modify,
    Other,
}

/// The change that a file event at `path` stands for: a created file is a
/// new node of version "0.0.0", a removed file a removed node; other events
/// stand for none.
pub open spec fn watch_change_view(kind: WatchEventKind, path: Seq<char>) -> Option<GraphChangeView> {
    match kind {
        WatchEventKind::Create => Some(GraphChangeView::NodeAdded { name: path, version: "0.0.0"@ }),
        WatchEventKind::Remove => Some(GraphChangeView::NodeRemoved { name: path }),
        _ => None,
    }
}

/// `s` after a file event at `path`: its change, if any, is both announced
/// and kept as pending.
pub open spec fn watch_event_noted(s: GraphState, kind: WatchEventKind, path: Seq<char>) -> GraphState {
    match watch_change_view(kind, path) {
        Some(c) => GraphState {
            nodes: s.nodes,
            shape: s.shape,
            index: s.index,
            sent: s.sent.push(c),
            pending: s.pending.push(c),
        },
        None => s,
    }
}

/// The change that a file event at `path` stands for.
pub fn watch_change(kind: WatchEventKind, path: &str) -> (c: Option<GraphChange>)
    ensures
        match c {
            Some(x) => watch_change_view(kind, path@) == Some(x@),
            None => watch_change_view(kind, path@) is None,
        },
{
    match kind {
        WatchEventKind::Create => Some(
            GraphChange::NodeAdded { name: String::from_str(path), version: String::from_str("0.0.0") },
        ),
        WatchEventKind::Remove => Some(GraphChange::NodeRemoved { name: String::from_str(path) }),
        _ => None,
    }
}

/// Copies of the changes in `v`.
fn copy_changes(v: &Vec<GraphChange>) -> (r: Vec<GraphChange>)
    ensures
        change_views(r@) == change_views(v@),
{
    let mut r: Vec<GraphChange> = Vec::new();
    let mut i: usize = 0;
    while i < v.len()
        invariant
            i <= v@.len(),
            change_views(r@) == change_views(v@.take(i as int)),
        decreases v@.len() - i,
    {
        let c = v[i].clone();
        let ghost before = r@;
        r.push(c);
        proof {
            assert(change_views(r@) =~= change_views(before).push(c@));
            assert(change_views(v@.take(i + 1)) =~= change_views(v@.take(i as int)).push(v@[i as int]@));
        }
        i += 1;
    }
    assert(v@.take(v@.len() as int) =~= v@);
    r
}

/// The node views behind the references in `r`.
pub open spec fn ref_views(r: Seq<&DependencyNode>) -> Seq<DependencyNodeView> {
    r.map_values(|w: &DependencyNode| w@)
}

/// Filtering by a test that every element passes keeps the sequence.
proof fn lemma_filter_keeps_all(s: Seq<int>, f: spec_fn(int) -> bool)
    requires
        forall|x: int| #[trigger] f(x),
    ensures
        s.filter(f) == s,
    decreases s.len(),
{
    if s.len() > 0 {
        lemma_filter_keeps_all(s.drop_last(), f);
        s.drop_last().lemma_filter_push(s.last(), f);
        assert(s.drop_last().push(s.last()) =~= s);
    } else {
        assert(s.filter(f) =~= s);
    }
}

/// Removing an element commutes with taking views.
proof fn lemma_views_swap_removed(w: Seq<DependencyNode>, a: int)
    ensures
        views_of(swap_removed(w, a)) == swap_removed(views_of(w), a),
{
    if 0 <= a < w.len() {
        if a == w.len() - 1 {
            assert(views_of(w.drop_last()) =~= views_of(w).drop_last());
        } else {
            assert(views_of(w.update(a, w.last()).drop_last()) =~= views_of(w).update(a, views_of(w).last()).drop_last());
        }
    }
}

/// The successor lists of the graph `s`, in walking order.
pub open spec fn succ_of(s: GraphState) -> Seq<Seq<int>> {
    successors(s.shape)
}

/// The node views at the indices `ix`.
pub open spec fn nodes_at(s: GraphState, ix: Seq<int>) -> Seq<DependencyNodeView> {
    ix.map_values(|i: int| s.nodes[i])
}

/// The indices `0..n`.
pub open spec fn all_indices(n: nat) -> Seq<int> {
    Seq::new(n, |i: int| i)
}

/// `order` lists every node of a graph with successor lists `succ` once,
/// each before the targets of its edges.
pub open spec fn is_topological(succ: Seq<Seq<int>>, order: Seq<int>) -> bool {
    &&& order.len() == succ.len()
    &&& distinct(order)
    &&& forall|i: int| 0 <= i < order.len() ==> 0 <= #[trigger] order[i] < succ.len()
    &&& forall|i: int, j: int|
        #![trigger order[i], order[j]]
        0 <= i < order.len() && 0 <= j < order.len() && succ[order[i]].contains(order[j]) ==> i < j
}

/// Node `v` is reached by a walk from a node of a direct dependency.
pub open spec fn is_used(s: GraphState, v: int) -> bool {
    exists|d: int| 0 <= d < s.nodes.len() && s.nodes[d].direct && #[trigger] reaches(succ_of(s), d, v)
}

/// The indices of the nodes that no walk from a direct dependency reaches,
/// in index order.
pub open spec fn unused_indices(s: GraphState) -> Seq<int> {
    all_indices(s.nodes.len()).filter(|v: int| !is_used(s, v))
}

/// The names of the nodes at the indices `ix`.
pub open spec fn names_at(s: GraphState, ix: Seq<int>) -> Set<Seq<char>> {
    Set::new(|k: Seq<char>| exists|j: int| 0 <= j < ix.len() && #[trigger] s.nodes[ix[j]].name == k)
}

/// The nodes and links that remain after the nodes at `ix` are removed one
/// after the other, each index taken in the graph as it then is.
pub open spec fn removed_in_turn(nodes: Seq<DependencyNodeView>, shape: Shape, ix: Seq<int>) -> (Seq<DependencyNodeView>, Shape)
    decreases ix.len(),
{
    if ix.len() == 0 {
        (nodes, shape)
    } else {
        let t = removed_in_turn(nodes, shape, ix.drop_last());
        (swap_removed(t.0, ix.last()), shape_node_removed(t.1, ix.last()))
    }
}

/// `s` after pruning: the names of the unused nodes are forgotten, then the
/// unused nodes are removed in index order, each index taken in the graph as
/// it then is (a node moved into an index already passed stays).
pub open spec fn pruned(s: GraphState) -> GraphState {
    let gone = unused_indices(s);
    let t = removed_in_turn(s.nodes, s.shape, gone);
    GraphState { nodes: t.0, shape: t.1, index: s.index.remove_keys(names_at(s, gone)), sent: s.sent, pending: s.pending }
}

/// `x` with the dependencies, flag, hash, size and source of `w`.
pub open spec fn fields_copied(x: DependencyNodeView, w: DependencyNodeView) -> DependencyNodeView {
    DependencyNodeView {
        name: x.name,
        version: x.version,
        current_version: x.current_version,
        dependencies: w.dependencies,
        direct: w.direct,
        hash: w.hash,
        size: w.size,
        source: w.source,
        last_updated: x.last_updated,
    }
}

/// `s` after the node `w` is copied in at `now`: its package is added with
/// its version, then the node found for its name takes its dependencies,
/// flag, hash, size and source.
pub open spec fn node_merged(s: GraphState, w: DependencyNodeView, now: Timestamp) -> GraphState {
    let t = package_added(s, w.name, w.version, now);
    let i = package_index(s, w.name);
    GraphState {
        nodes: t.nodes.update(i, fields_copied(t.nodes[i], w)),
        shape: t.shape,
        index: t.index,
        sent: t.sent,
        pending: t.pending,
    }
}

/// `s` after the nodes `ws` are copied in, in order, the `k`-th at
/// `times[k]`.
pub open spec fn nodes_merged(s: GraphState, ws: Seq<DependencyNodeView>, times: Seq<Timestamp>) -> GraphState
    decreases ws.len(),
{
    if ws.len() == 0 {
        s
    } else {
        node_merged(nodes_merged(s, ws.drop_last(), times), ws.last(), times[ws.len() - 1])
    }
}

/// `s` after an edge is added, in order, for each edge of `edges` between
/// the names of the nodes `ws` at its ends (see `dependency_added`).
pub open spec fn edges_merged(s: GraphState, ws: Seq<DependencyNodeView>, edges: Seq<(int, int)>) -> GraphState
    decreases edges.len(),
{
    if edges.len() == 0 {
        s
    } else {
        let t = edges_merged(s, ws, edges.drop_last());
        dependency_added(t, ws[edges.last().0].name, ws[edges.last().1].name)
    }
}

/// Every stored index names a node.
pub open spec fn indices_valid(s: GraphState) -> bool {
    forall|k: Seq<char>| #[trigger] s.index.contains_key(k) ==> (s.index[k] as int) < s.nodes.len()
}

/// `s` after the graph `o` is merged into it, the `k`-th node of `o`
/// stamped, when added or changed, at `times[k]`.
pub open spec fn merged(s: GraphState, o: GraphState, times: Seq<Timestamp>) -> GraphState {
    edges_merged(nodes_merged(s, o.nodes, times), o.nodes, o.shape.edges)
}

/// Merging `o` into `s` does not fail: the index stored for each name of a
/// node of `o` names a node, and the nodes and edges of both fit below
/// `u32::MAX`.
pub open spec fn can_merge(s: GraphState, o: GraphState) -> bool {
    &&& forall|j: int| 0 <= j < o.nodes.len() ==> index_ok(s, #[trigger] o.nodes[j].name)
    &&& s.nodes.len() + o.nodes.len() <= u32::MAX
    &&& s.shape.edges.len() + o.shape.edges.len() <= u32::MAX
}

/// The empty graph's state.
pub open spec fn empty_state() -> GraphState {
    GraphState { nodes: Seq::empty(), shape: empty_shape(), index: Map::empty(), sent: Seq::empty(), pending: Seq::empty() }
}

/// The subgraph of `s` from the node of index `st`: a new graph into which
/// the nodes that a depth-first walk from `st` reaches are copied in walk
/// order, the `k`-th at `times[k]`, then every edge of `s` between names
/// the new graph knows.
pub open spec fn subgraph(s: GraphState, st: int, times: Seq<Timestamp>) -> GraphState {
    let ws = nodes_at(s, dfs_visit_order(succ_of(s), st));
    edges_merged(nodes_merged(empty_state(), ws, times), s.nodes, s.shape.edges)
}

/// Copying nodes in depends only on the times of the nodes copied.
proof fn lemma_nodes_merged_times(s: GraphState, ws: Seq<DependencyNodeView>, t1: Seq<Timestamp>, t2: Seq<Timestamp>)
    requires
        forall|k: int| 0 <= k < ws.len() ==> t1[k] == t2[k],
    ensures
        nodes_merged(s, ws, t1) == nodes_merged(s, ws, t2),
    decreases ws.len(),
{
    if ws.len() > 0 {
        lemma_nodes_merged_times(s, ws.drop_last(), t1, t2);
    }
}

/// Copying a node in keeps every stored index that named a node naming one,
/// leaves the node's name known, adds at most one node and no edge.
proof fn lemma_node_merged(s: GraphState, w: DependencyNodeView, now: Timestamp)
    requires
        can_add_package(s, w.name),
    ensures
        node_merged(s, w, now).index.contains_key(w.name),
        forall|k: Seq<char>| index_ok(s, k) ==> #[trigger] index_ok(node_merged(s, w, now), k),
        s.nodes.len() <= node_merged(s, w, now).nodes.len() <= s.nodes.len() + 1,
        node_merged(s, w, now).shape.edges == s.shape.edges,
{
}

/// Adding an edge between known names keeps every stored index and adds one
/// edge at most.
proof fn lemma_dependency_added(s: GraphState, from: Seq<char>, to: Seq<char>)
    ensures
        dependency_added(s, from, to).index == s.index,
        dependency_added(s, from, to).nodes == s.nodes,
        dependency_added(s, from, to).shape.edges.len() <= s.shape.edges.len() + 1,
{
}

/// A copy of the optional text `o`.
fn copy_text(o: &Option<String>) -> (r: Option<String>)
    ensures
        opt_view(r) == opt_view(*o),
{
    match o {
        Some(t) => Some(t.clone()),
        None => None,
    }
}

/// Copies of the dependencies `v`.
fn copy_dependencies(v: &Vec<Dependency>) -> (r: Vec<Dependency>)
    ensures
        r@.map_values(|d: Dependency| d@) == v@.map_values(|d: Dependency| d@),
{
    let mut r: Vec<Dependency> = Vec::new();
    let mut i: usize = 0;
    while i < v.len()
        invariant
            i <= v@.len(),
            r@.map_values(|d: Dependency| d@) == v@.take(i as int).map_values(|d: Dependency| d@),
        decreases v@.len() - i,
    {
        let d = v[i].clone();
        let ghost before = r@;
        r.push(d);
        proof {
            assert(r@.map_values(|d: Dependency| d@) =~= before.map_values(|d: Dependency| d@).push(d@));
            assert(v@.take(i + 1).map_values(|d: Dependency| d@) =~= v@.take(i as int).map_values(
                |d: Dependency| d@,
            ).push(v@[i as int]@));
        }
        i += 1;
    }
    assert(v@.take(v@.len() as int) =~= v@);
    r
}

/// `s` with the node at `i` replaced by `w`.
pub open spec fn node_replaced(s: GraphState, i: int, w: DependencyNodeView) -> GraphState {
    GraphState { nodes: s.nodes.update(i, w), shape: s.shape, index: s.index, sent: s.sent, pending: s.pending }
}

/// Dependency graph implementation
pub struct DependencyGraph {
    /// Graph structure
    graph: Graph<DependencyNode, (), Directed, u32>,
    /// Node indices by package name
    nodes: StrMap<u32>,
    /// Changes announced and not yet handed out
    sent: Vec<GraphChange>,
    /// Changes seen in a watched directory
    pending_changes: Vec<GraphChange>,
}

impl DependencyGraph {
    /// What the graph holds.
    pub closed spec fn view(&self) -> GraphState {
        GraphState {
            nodes: views_of(weights_of(self.graph)),
            shape: shape_of(self.graph),
            index: self.nodes@,
            sent: change_views(self.sent@),
            pending: change_views(self.pending_changes@),
        }
    }

    /// Create new dependency graph
    pub fn new() -> (g: Self)
        ensures
            g@.nodes.len() == 0,
            g@.shape == empty_shape(),
            g@.index == Map::<Seq<char>, u32>::empty(),
            g@.sent.len() == 0,
            g@.pending.len() == 0,
    {
        let g = DependencyGraph {
            graph: graph_new(),
            nodes: StrMap::new(),
            sent: Vec::new(),
            pending_changes: Vec::new(),
        };
        assert(g@.shape.outs =~= empty_shape().outs);
        assert(g@.shape.ins =~= empty_shape().ins);
        assert(g@.shape.edges =~= empty_shape().edges);
        g
    }

    /// Add package to graph with change notification, stamping a new or
    /// changed node with `now`.
    pub fn add_package_at(&mut self, name: &str, version: String, now: Timestamp) -> (i: usize)
        requires
            can_add_package(old(self)@, name@),
        ensures
            i == package_index(old(self)@, name@),
            final(self)@ == package_added(old(self)@, name@, version@, now),
    {
        let ghost old_w = weights_of(self.graph);
        let ghost old_sent = self.sent@;
        match self.nodes.get(name) {
            Some(found) => {
                let idx = *found as usize;
                let node = weight_mut(&mut self.graph, idx);
                if !same_text(node.version.as_str(), version.as_str()) {
                    let change = GraphChange::NodeUpdated {
                        name: String::from_str(name),
                        old_version: node.version.clone(),
                        new_version: version.clone(),
                    };
                    self.sent.push(change);
                    node.version = version;
                    node.last_updated = now;
                    proof {
                        assert(change_views(self.sent@) =~= change_views(old_sent).push(self.sent@.last()@));
                    }
                }
                proof {
                    assert(views_of(weights_of(self.graph)) =~= views_of(old_w).update(
                        idx as int,
                        weights_of(self.graph)[idx as int]@,
                    ));
                }
                idx
            },
            None => {
                let node = DependencyNode {
                    name: String::from_str(name),
                    version: version.clone(),
                    current_version: None,
                    dependencies: Vec::new(),
                    direct: false,
                    hash: None,
                    size: 0,
                    source: String::new(),
                    last_updated: now,
                };
                proof {
                    assert(node@.dependencies =~= Seq::<DependencyView>::empty());
                    assert(node@ == fresh_node(name@, version@, now));
                }
                let idx = add_node(&mut self.graph, node);
                self.nodes.insert(String::from_str(name), idx as u32);
                self.sent.push(GraphChange::NodeAdded { name: String::from_str(name), version });
                proof {
                    assert(views_of(old_w.push(node)) =~= views_of(old_w).push(node@));
                    assert(change_views(self.sent@) =~= change_views(old_sent).push(self.sent@.last()@));
                }
                idx
            },
        }
    }

    /// Add package to graph with change notification; a new or changed node
    /// is stamped with the time of the call.
    pub fn add_package(&mut self, name: &str, version: String) -> (i: usize)
        requires
            can_add_package(old(self)@, name@),
        ensures
            i == package_index(old(self)@, name@),
            exists|now: Timestamp| final(self)@ == #[trigger] package_added(old(self)@, name@, version@, now),
    {
        let now = clock_now();
        let i = self.add_package_at(name, version, now);
        assert(self@ == package_added(old(self)@, name@, version@, now));
        i
    }

    /// The stored index of `name`.
    fn index_of(&self, name: &str) -> (r: Option<u32>)
        ensures
            match r {
                Some(i) => self@.index.contains_key(name@) && self@.index[name@] == i,
                None => !self@.index.contains_key(name@),
            },
    {
        match self.nodes.get(name) {
            Some(i) => Some(*i),
            None => None,
        }
    }

    /// Add dependency between packages with change notification
    pub fn add_dependency(&mut self, from: &str, to: &str)
        requires
            can_add_dependency(old(self)@, from@, to@),
        ensures
            final(self)@ == dependency_added(old(self)@, from@, to@),
    {
        let ghost old_sent = self.sent@;
        match (self.index_of(from), self.index_of(to)) {
            (Some(a), Some(b)) => {
                add_edge(&mut self.graph, a as usize, b as usize);
                self.sent.push(GraphChange::EdgeAdded { from: String::from_str(from), to: String::from_str(to) });
                proof {
                    assert(change_views(self.sent@) =~= change_views(old_sent).push(self.sent@.last()@));
                }
            },
            _ => {},
        }
    }

    /// Remove package from graph with change notification
    pub fn remove_package(&mut self, name: &str)
        ensures
            final(self)@ == package_removed(old(self)@, name@),
    {
        let ghost old_sent = self.sent@;
        let ghost old_w = weights_of(self.graph);
        match self.index_of(name) {
            Some(idx) => {
                remove_node(&mut self.graph, idx);
                self.nodes.remove(name);
                self.sent.push(GraphChange::NodeRemoved { name: String::from_str(name) });
                proof {
                    assert(change_views(self.sent@) =~= change_views(old_sent).push(self.sent@.last()@));
                    lemma_views_swap_removed(old_w, idx as int);
                }
            },
            None => {},
        }
    }

    /// Get pending changes
    pub fn get_pending_changes(&self) -> (r: Vec<GraphChange>)
        ensures
            change_views(r@) == self@.pending,
    {
        copy_changes(&self.pending_changes)
    }

    /// Clear pending changes
    pub fn clear_pending_changes(&mut self)
        ensures
            final(self)@ == pending_cleared(old(self)@),
    {
        self.pending_changes = Vec::new();
        assert(change_views(self.pending_changes@) =~= Seq::<GraphChangeView>::empty());
    }

    /// Hands out the announced changes, oldest first, for delivery to the
    /// subscribers.
    pub fn take_sent_changes(&mut self) -> (r: Vec<GraphChange>)
        ensures
            change_views(r@) == old(self)@.sent,
            final(self)@ == sent_cleared(old(self)@),
    {
        let mut r: Vec<GraphChange> = Vec::new();
        std::mem::swap(&mut r, &mut self.sent);
        assert(change_views(self.sent@) =~= Seq::<GraphChangeView>::empty());
        r
    }

    /// Notes a file event at `path` in a watched directory.
    pub fn record_watch_event(&mut self, kind: WatchEventKind, path: &str)
        ensures
            final(self)@ == watch_event_noted(old(self)@, kind, path@),
    {
        let ghost old_sent = self.sent@;
        let ghost old_pending = self.pending_changes@;
        match watch_change(kind, path) {
            Some(change) => {
                let copy = change.clone();
                self.sent.push(change);
                self.pending_changes.push(copy);
                proof {
                    assert(change_views(self.sent@) =~= change_views(old_sent).push(self.sent@.last()@));
                    assert(change_views(self.pending_changes@) =~= change_views(old_pending).push(
                        self.pending_changes@.last()@,
                    ));
                }
            },
            None => {},
        }
    }

    /// Get package node
    pub fn get_node(&self, name: &str) -> (r: Option<&DependencyNode>)
        requires
            index_ok(self@, name@),
        ensures
            match r {
                Some(w) => self@.index.contains_key(name@) && w@ == self@.nodes[self@.index[name@] as int],
                None => !self@.index.contains_key(name@),
            },
    {
        match self.index_of(name) {
            Some(i) => Some(weight(&self.graph, i as usize)),
            None => None,
        }
    }

    /// Get all nodes
    pub fn nodes(&self) -> (r: Vec<&DependencyNode>)
        ensures
            ref_views(r@) == self@.nodes,
    {
        let n = node_count(&self.graph);
        let mut r: Vec<&DependencyNode> = Vec::new();
        let mut i: usize = 0;
        while i < n
            invariant
                n == self@.nodes.len(),
                i <= n,
                ref_views(r@) == self@.nodes.take(i as int),
            decreases n - i,
        {
            let w = weight(&self.graph, i);
            let ghost before = r@;
            r.push(w);
            proof {
                assert(ref_views(r@) =~= ref_views(before).push(w@));
                assert(self@.nodes.take(i + 1) =~= self@.nodes.take(i as int).push(self@.nodes[i as int]));
            }
            i += 1;
        }
        assert(self@.nodes.take(n as int) =~= self@.nodes);
        r
    }

    /// Get direct dependencies
    pub fn direct_dependencies(&self) -> (r: Vec<&DependencyNode>)
        ensures
            ref_views(r@) == self@.nodes.filter(|w: DependencyNodeView| w.direct),
    {
        let ghost keep = |w: DependencyNodeView| w.direct;
        let n = node_count(&self.graph);
        let mut r: Vec<&DependencyNode> = Vec::new();
        let mut i: usize = 0;
        while i < n
            invariant
                n == self@.nodes.len(),
                i <= n,
                keep == (|w: DependencyNodeView| w.direct),
                ref_views(r@) == self@.nodes.take(i as int).filter(keep),
            decreases n - i,
        {
            let w = weight(&self.graph, i);
            let ghost before = r@;
            proof {
                assert(self@.nodes.take(i + 1) =~= self@.nodes.take(i as int).push(self@.nodes[i as int]));
                self@.nodes.take(i as int).lemma_filter_push(self@.nodes[i as int], keep);
            }
            if w.direct {
                r.push(w);
                proof {
                    assert(ref_views(r@) =~= ref_views(before).push(w@));
                }
            }
            i += 1;
        }
        assert(self@.nodes.take(n as int) =~= self@.nodes);
        r
    }

    /// The views of the nodes at the indices `ix`, each below the node count.
    fn nodes_at_indices(&self, ix: &Vec<usize>, skip: Option<usize>) -> (r: Vec<&DependencyNode>)
        requires
            forall|i: int| 0 <= i < ix@.len() ==> #[trigger] ix@[i] < self@.nodes.len(),
        ensures
            ref_views(r@) == nodes_at(
                self@,
                match skip {
                    Some(k) => ints(ix@).filter(|v: int| v != k as int),
                    None => ints(ix@),
                },
            ),
    {
        let ghost keep = |v: int|
            match skip {
                Some(k) => v != k as int,
                None => true,
            };
        let mut r: Vec<&DependencyNode> = Vec::new();
        let mut i: usize = 0;
        while i < ix.len()
            invariant
                i <= ix@.len(),
                forall|j: int| 0 <= j < ix@.len() ==> #[trigger] ix@[j] < self@.nodes.len(),
                keep == (|v: int|
                    match skip {
                        Some(k) => v != k as int,
                        None => true,
                    }),
                ref_views(r@) == nodes_at(self@, ints(ix@).take(i as int).filter(keep)),
            decreases ix@.len() - i,
        {
            let v = ix[i];
            let ghost before = r@;
            proof {
                assert(ints(ix@).take(i + 1) =~= ints(ix@).take(i as int).push(v as int));
                ints(ix@).take(i as int).lemma_filter_push(v as int, keep);
            }
            let wanted = match skip {
                Some(k) => v != k,
                None => true,
            };
            if wanted {
                let w = weight(&self.graph, v);
                r.push(w);
                proof {
                    assert(ref_views(r@) =~= ref_views(before).push(w@));
                    assert(nodes_at(self@, ints(ix@).take(i as int).filter(keep).push(v as int)) =~= nodes_at(
                        self@,
                        ints(ix@).take(i as int).filter(keep),
                    ).push(w@));
                }
            }
            i += 1;
        }
        proof {
            assert(ints(ix@).take(ix@.len() as int) =~= ints(ix@));
            match skip {
                Some(k) => {
                    assert(keep =~= (|v: int| v != k as int));
                },
                None => {
                    lemma_filter_keeps_all(ints(ix@), keep);
                },
            }
        }
        r
    }

    /// Get all dependencies for package: the nodes that a depth-first walk
    /// from the package reaches, in the walk's order, without the package's
    /// own node; none for an unknown name.
    pub fn get_dependencies(&self, name: &str) -> (r: Vec<&DependencyNode>)
        requires
            index_ok(self@, name@),
        ensures
            !self@.index.contains_key(name@) ==> r@.len() == 0,
            self@.index.contains_key(name@) ==> {
                let st = self@.index[name@] as int;
                &&& ref_views(r@) == nodes_at(self@, dfs_visit_order(succ_of(self@), st).filter(|v: int| v != st))
                &&& forall|v: int|
                    #![trigger reaches(succ_of(self@), st, v)]
                    dfs_visit_order(succ_of(self@), st).filter(|v: int| v != st).contains(v) <==> (v != st
                        && reaches(succ_of(self@), st, v))
            },
    {
        match self.index_of(name) {
            Some(start) => {
                let order = dfs_preorder(&self.graph, start as usize);
                let r = self.nodes_at_indices(&order, Some(start as usize));
                proof {
                    let st = start as int;
                    let o = dfs_visit_order(succ_of(self@), st);
                    assert forall|v: int| o.filter(|v: int| v != st).contains(v) <==> (v != st && reaches(
                        succ_of(self@),
                        st,
                        v,
                    )) by {
                        if o.filter(|v: int| v != st).contains(v) {
                            o.lemma_filter_contains_rev(|v: int| v != st, v);
                        }
                        if v != st && reaches(succ_of(self@), st, v) {
                            assert(o.contains(v));
                            let k = choose|k: int| 0 <= k < o.len() && o[k] == v;
                            o.lemma_filter_contains(|v: int| v != st, k);
                        }
                    }
                }
                r
            },
            None => Vec::new(),
        }
    }

    /// Get reverse dependencies: every node from which a walk reaches the
    /// package's node, in index order (the package's own node among them);
    /// none for an unknown name.
    pub fn get_reverse_dependencies(&self, name: &str) -> (r: Vec<&DependencyNode>)
        ensures
            !self@.index.contains_key(name@) ==> r@.len() == 0,
            self@.index.contains_key(name@) ==> ref_views(r@) == nodes_at(
                self@,
                all_indices(self@.nodes.len()).filter(
                    |i: int| reaches(succ_of(self@), i, self@.index[name@] as int),
                ),
            ),
    {
        match self.index_of(name) {
            Some(target) => {
                let ghost keep = |i: int| reaches(succ_of(self@), i, target as int);
                let n = node_count(&self.graph);
                let mut found: Vec<usize> = Vec::new();
                let mut i: usize = 0;
                while i < n
                    invariant
                        n == self@.nodes.len(),
                        n == self@.shape.outs.len(),
                        i <= n,
                        keep == (|i: int| reaches(succ_of(self@), i, target as int)),
                        ints(found@) == all_indices(n as nat).take(i as int).filter(keep),
                        forall|j: int| 0 <= j < found@.len() ==> #[trigger] found@[j] < n,
                    decreases n - i,
                {
                    let ghost before = found@;
                    proof {
                        assert(all_indices(n as nat).take(i + 1) =~= all_indices(n as nat).take(i as int).push(
                            i as int,
                        ));
                        all_indices(n as nat).take(i as int).lemma_filter_push(i as int, keep);
                    }
                    if has_path(&self.graph, i, target) {
                        found.push(i);
                        proof {
                            assert(ints(found@) =~= ints(before).push(i as int));
                        }
                    }
                    i += 1;
                }
                proof {
                    assert(all_indices(n as nat).take(n as int) =~= all_indices(n as nat));
                }
                self.nodes_at_indices(&found, None)
            },
            None => Vec::new(),
        }
    }

    /// Check for cycles: some edge lies on a cycle.
    pub fn has_cycles(&self) -> (b: bool)
        ensures
            b == has_cycle(succ_of(self@)),
    {
        toposort(&self.graph).is_none()
    }

    /// Get installation order: for a graph without cycles, every node once,
    /// each before the targets of its edges, in the order of petgraph's
    /// topological sort; nothing for a graph with a cycle.
    pub fn installation_order(&self) -> (r: Vec<&DependencyNode>)
        ensures
            has_cycle(succ_of(self@)) ==> r@.len() == 0,
            !has_cycle(succ_of(self@)) ==> {
                &&& ref_views(r@) == nodes_at(self@, toposort_order(succ_of(self@)))
                &&& is_topological(succ_of(self@), toposort_order(succ_of(self@)))
            },
    {
        match toposort(&self.graph) {
            Some(order) => {
                let r = self.nodes_at_indices(&order, None);
                proof {
                    let o = ints(order@);
                    assert forall|i: int| 0 <= i < o.len() implies 0 <= #[trigger] o[i] < succ_of(self@).len() by {
                        assert(order@[i] < self@.nodes.len());
                    }
                    assert forall|i: int, j: int|
                        #![trigger o[i], o[j]]
                        0 <= i < o.len() && 0 <= j < o.len() && succ_of(self@)[o[i]].contains(o[j]) implies i < j by {
                        assert(order@[i] as int == o[i] && order@[j] as int == o[j]);
                    }
                }
                r
            },
            None => Vec::new(),
        }
    }

    /// Which nodes a walk from a direct dependency reaches.
    fn used_nodes(&self) -> (used: Vec<bool>)
        ensures
            used@.len() == self@.nodes.len(),
            forall|v: int| 0 <= v < used@.len() ==> (#[trigger] used@[v] <==> is_used(self@, v)),
    {
        let n = node_count(&self.graph);
        let mut used: Vec<bool> = Vec::new();
        let mut i: usize = 0;
        while i < n
            invariant
                i <= n,
                used@.len() == i,
                forall|v: int| 0 <= v < i ==> !#[trigger] used@[v],
            decreases n - i,
        {
            used.push(false);
            i += 1;
        }
        let mut d: usize = 0;
        while d < n
            invariant
                n == self@.nodes.len(),
                n == self@.shape.outs.len(),
                d <= n,
                used@.len() == n,
                forall|v: int|
                    0 <= v < n ==> (#[trigger] used@[v] <==> exists|e: int|
                        0 <= e < d && self@.nodes[e].direct && #[trigger] reaches(succ_of(self@), e, v)),
            decreases n - d,
        {
            if weight(&self.graph, d).direct {
                let order = dfs_preorder(&self.graph, d);
                let ghost before = used@;
                let mut k: usize = 0;
                while k < order.len()
                    invariant
                        n == self@.nodes.len(),
                        d < n,
                        self@.nodes[d as int].direct,
                        k <= order@.len(),
                        used@.len() == n,
                        forall|j: int| 0 <= j < order@.len() ==> #[trigger] order@[j] < n,
                        forall|v: int|
                            ints(order@).contains(v) <==> reaches(succ_of(self@), d as int, v),
                        forall|v: int|
                            0 <= v < n ==> (#[trigger] used@[v] <==> (before[v] || ints(order@).take(
                                k as int,
                            ).contains(v))),
                    decreases order@.len() - k,
                {
                    let v = order[k];
                    used.set(v, true);
                    proof {
                        assert(ints(order@).take(k + 1) =~= ints(order@).take(k as int).push(v as int));
                        let t0 = ints(order@).take(k as int);
                        let t1 = ints(order@).take(k + 1);
                        assert forall|w: int| #[trigger] t1.contains(w) <==> (t0.contains(w) || w == v) by {
                            if t1.contains(w) && w != v {
                                let j = choose|j: int| 0 <= j < t1.len() && #[trigger] t1[j] == w;
                                assert(t0[j] == w);
                            }
                            if t0.contains(w) {
                                let j = choose|j: int| 0 <= j < t0.len() && #[trigger] t0[j] == w;
                                assert(t1[j] == w);
                            }
                            if w == v {
                                assert(t1[k as int] == w);
                            }
                        }
                    }
                    k += 1;
                }
                proof {
                    assert(ints(order@).take(order@.len() as int) =~= ints(order@));
                    assert forall|v: int| 0 <= v < n implies (#[trigger] used@[v] <==> exists|e: int|
                        0 <= e < d + 1 && self@.nodes[e].direct && #[trigger] reaches(succ_of(self@), e, v)) by {
                        if reaches(succ_of(self@), d as int, v) {
                            assert(ints(order@).contains(v));
                        }
                    }
                }
            } else {
                proof {
                    assert forall|v: int| 0 <= v < n implies (#[trigger] used@[v] <==> exists|e: int|
                        0 <= e < d + 1 && self@.nodes[e].direct && #[trigger] reaches(succ_of(self@), e, v)) by {
                        if exists|e: int|
                            0 <= e < d + 1 && self@.nodes[e].direct && #[trigger] reaches(succ_of(self@), e, v) {
                            let e = choose|e: int|
                                0 <= e < d + 1 && self@.nodes[e].direct && #[trigger] reaches(succ_of(self@), e, v);
                            assert(e != d);
                        }
                    }
                }
            }
            d += 1;
        }
        used
    }

    /// Prune unused dependencies: forget the names of the nodes that no walk
    /// from a direct dependency reaches, then remove those nodes in index
    /// order.
    pub fn prune_unused(&mut self)
        ensures
            final(self)@ == pruned(old(self)@),
    {
        let ghost s = self@;
        let used = self.used_nodes();
        let n = node_count(&self.graph);
        let ghost keep = |v: int| !is_used(s, v);
        let mut to_remove: Vec<usize> = Vec::new();
        let mut i: usize = 0;
        while i < n
            invariant
                n == s.nodes.len(),
                n <= u32::MAX,
                i <= n,
                used@.len() == n,
                forall|v: int| 0 <= v < n ==> (#[trigger] used@[v] <==> is_used(s, v)),
                keep == (|v: int| !is_used(s, v)),
                views_of(weights_of(self.graph)) == s.nodes,
                shape_of(self.graph) == s.shape,
                change_views(self.sent@) == s.sent,
                change_views(self.pending_changes@) == s.pending,
                ints(to_remove@) == all_indices(n as nat).take(i as int).filter(keep),
                forall|j: int| 0 <= j < to_remove@.len() ==> #[trigger] to_remove@[j] < n,
                self.nodes@ == s.index.remove_keys(names_at(s, ints(to_remove@))),
            decreases n - i,
        {
            let ghost before = to_remove@;
            proof {
                assert(all_indices(n as nat).take(i + 1) =~= all_indices(n as nat).take(i as int).push(i as int));
                all_indices(n as nat).take(i as int).lemma_filter_push(i as int, keep);
            }
            if !used[i] {
                to_remove.push(i);
                let name = &weight(&self.graph, i).name;
                self.nodes.remove(name.as_str());
                proof {
                    assert(ints(to_remove@) =~= ints(before).push(i as int));
                    assert(names_at(s, ints(to_remove@)) =~= names_at(s, ints(before)).insert(s.nodes[i as int].name))
                        by {
                        assert forall|k: Seq<char>| names_at(s, ints(before)).insert(s.nodes[i as int].name).contains(k)
                            implies names_at(s, ints(to_remove@)).contains(k) by {
                            if k == s.nodes[i as int].name {
                                assert(s.nodes[ints(to_remove@)[before.len() as int]].name == k);
                            } else {
                                let j = choose|j: int|
                                    0 <= j < ints(before).len() && #[trigger] s.nodes[ints(before)[j]].name == k;
                                assert(s.nodes[ints(to_remove@)[j]].name == k);
                            }
                        }
                        assert forall|k: Seq<char>| names_at(s, ints(to_remove@)).contains(k)
                            implies names_at(s, ints(before)).insert(s.nodes[i as int].name).contains(k) by {
                            let j = choose|j: int|
                                0 <= j < ints(to_remove@).len() && #[trigger] s.nodes[ints(to_remove@)[j]].name == k;
                            if j < before.len() {
                                assert(s.nodes[ints(before)[j]].name == k);
                            }
                        }
                    }
                    assert(self.nodes@ =~= s.index.remove_keys(names_at(s, ints(to_remove@))));
                }
            }
            i += 1;
        }
        proof {
            assert(all_indices(n as nat).take(n as int) =~= all_indices(n as nat));
            assert(keep =~= (|v: int| !is_used(s, v)));
        }
        let ghost mid = self@;
        let mut k: usize = 0;
        while k < to_remove.len()
            invariant
                k <= to_remove@.len(),
                forall|j: int| 0 <= j < to_remove@.len() ==> #[trigger] to_remove@[j] < n,
                n <= u32::MAX,
                self@.index == mid.index,
                self@.sent == mid.sent,
                self@.pending == mid.pending,
                (self@.nodes, self@.shape) == removed_in_turn(mid.nodes, mid.shape, ints(to_remove@).take(k as int)),
            decreases to_remove@.len() - k,
        {
            let ghost w = weights_of(self.graph);
            let idx = to_remove[k];
            remove_node(&mut self.graph, idx as u32);
            proof {
                lemma_views_swap_removed(w, idx as int);
                assert(ints(to_remove@).take(k + 1).drop_last() =~= ints(to_remove@).take(k as int));
            }
            k += 1;
        }
        proof {
            assert(ints(to_remove@).take(to_remove@.len() as int) =~= ints(to_remove@));
        }
    }

    /// Copies the node `node` in, stamping it, when added or changed, with
    /// `now`.
    fn copy_node_in(&mut self, node: &DependencyNode, now: Timestamp)
        requires
            can_add_package(old(self)@, node@.name),
        ensures
            final(self)@ == node_merged(old(self)@, node@, now),
    {
        let i = self.add_package_at(node.name.as_str(), node.version.clone(), now);
        let ghost mid = self@;
        assert(i < graph_nodes(self.graph).len()) by {
            assert(self@.nodes.len() == graph_nodes(self.graph).len());
        }
        let ghost w = weights_of(self.graph);
        let target = weight_mut(&mut self.graph, i);
        target.dependencies = copy_dependencies(&node.dependencies);
        target.direct = node.direct;
        target.hash = copy_text(&node.hash);
        target.size = node.size;
        target.source = node.source.clone();
        proof {
            assert(views_of(weights_of(self.graph)) =~= views_of(w).update(
                i as int,
                weights_of(self.graph)[i as int]@,
            ));
            assert(weights_of(self.graph)[i as int]@ == fields_copied(mid.nodes[i as int], node@));
        }
    }

    /// Adds, in order, an edge for each edge of `src` between the names of
    /// the nodes at its ends (where both names are known here).
    fn copy_edges_from(&mut self, src: &DependencyGraph)
        requires
            forall|j: int| 0 <= j < src@.nodes.len() ==> index_ok(old(self)@, #[trigger] src@.nodes[j].name),
            old(self)@.shape.edges.len() + src@.shape.edges.len() <= u32::MAX,
        ensures
            final(self)@ == edges_merged(old(self)@, src@.nodes, src@.shape.edges),
    {
        let ghost s0 = self@;
        let m = edge_count(&src.graph);
        let mut e: usize = 0;
        while e < m
            invariant
                m == src@.shape.edges.len(),
                e <= m,
                s0.shape.edges.len() + m <= u32::MAX,
                self@ == edges_merged(s0, src@.nodes, src@.shape.edges.take(e as int)),
                self@.index == s0.index,
                self@.nodes == s0.nodes,
                self@.shape.edges.len() <= s0.shape.edges.len() + e,
                forall|j: int| 0 <= j < src@.nodes.len() ==> index_ok(s0, #[trigger] src@.nodes[j].name),
            decreases m - e,
        {
            let (a, b) = edge_endpoints(&src.graph, e);
            let from = &weight(&src.graph, a).name;
            let to = &weight(&src.graph, b).name;
            proof {
                assert(index_ok(s0, src@.nodes[a as int].name));
                assert(index_ok(s0, src@.nodes[b as int].name));
                let t = src@.shape.edges.take(e + 1);
                assert(t.drop_last() =~= src@.shape.edges.take(e as int));
                lemma_dependency_added(self@, from@, to@);
            }
            self.add_dependency(from.as_str(), to.as_str());
            e += 1;
        }
        assert(src@.shape.edges.take(m as int) =~= src@.shape.edges);
    }

    /// Merge with another graph: each node of `other`, in index order, is
    /// copied in, then an edge is added for each edge of `other`, in index
    /// order, between the names at its ends; added or changed nodes are
    /// stamped with the time of their copy.
    pub fn merge(&mut self, other: &DependencyGraph)
        requires
            can_merge(old(self)@, other@),
        ensures
            exists|times: Seq<Timestamp>|
                times.len() == other@.nodes.len() && final(self)@ == #[trigger] merged(old(self)@, other@, times),
    {
        let ghost s0 = self@;
        let ghost mut times: Seq<Timestamp> = Seq::empty();
        let n = node_count(&other.graph);
        let mut j: usize = 0;
        while j < n
            invariant
                n == other@.nodes.len(),
                j <= n,
                times.len() == j,
                self@ == nodes_merged(s0, other@.nodes.take(j as int), times),
                self@.nodes.len() <= s0.nodes.len() + j,
                self@.shape.edges == s0.shape.edges,
                forall|k: int| 0 <= k < n ==> index_ok(self@, #[trigger] other@.nodes[k].name),
                forall|k: int| 0 <= k < j ==> self@.index.contains_key(#[trigger] other@.nodes[k].name),
                can_merge(s0, other@),
            decreases n - j,
        {
            let node = weight(&other.graph, j);
            let now = clock_now();
            proof {
                assert(index_ok(self@, other@.nodes[j as int].name));
                lemma_node_merged(self@, node@, now);
                let prev = self@;
                assert(other@.nodes.take(j + 1).drop_last() =~= other@.nodes.take(j as int));
                assert forall|k: int| 0 <= k < n implies index_ok(
                    node_merged(prev, node@, now),
                    #[trigger] other@.nodes[k].name,
                ) by {
                    assert(index_ok(prev, other@.nodes[k].name));
                }
            }
            self.copy_node_in(node, now);
            proof {
                let old_times = times;
                times = times.push(now);
                lemma_nodes_merged_times(s0, other@.nodes.take(j as int), old_times, times);
                assert(other@.nodes.take(j + 1).last() == other@.nodes[j as int]);
            }
            j += 1;
        }
        proof {
            assert(other@.nodes.take(n as int) =~= other@.nodes);
            assert forall|k: int| 0 <= k < other@.nodes.len() implies index_ok(self@, #[trigger] other@.nodes[k].name) by {
            }
        }
        self.copy_edges_from(other);
        assert(self@ == merged(s0, other@, times));
    }

    /// Clone subgraph starting from node: `None` for an unknown name;
    /// otherwise a new graph into which the nodes that a depth-first walk
    /// from the named node reaches are copied, in walk order, then every
    /// edge between names it knows; added or changed nodes are stamped with
    /// the time of their copy.
    pub fn clone_subgraph(&self, start: &str) -> (r: Option<DependencyGraph>)
        requires
            index_ok(self@, start@),
        ensures
            !self@.index.contains_key(start@) ==> r is None,
            self@.index.contains_key(start@) ==> (r matches Some(g) && exists|times: Seq<Timestamp>|
                times.len() == dfs_visit_order(succ_of(self@), self@.index[start@] as int).len() && g@
                    == #[trigger] subgraph(self@, self@.index[start@] as int, times)),
    {
        match self.index_of(start) {
            Some(st) => {
                let total = node_count(&self.graph);
                let order = dfs_preorder(&self.graph, st as usize);
                let ghost ws = nodes_at(self@, ints(order@));
                let mut g = DependencyGraph::new();
                proof {
                    assert(g@ == empty_state());
                }
                let ghost mut times: Seq<Timestamp> = Seq::empty();
                let mut k: usize = 0;
                while k < order.len()
                    invariant
                        ws == nodes_at(self@, ints(order@)),
                        order@.len() <= self@.nodes.len(),
                        self@.nodes.len() == graph_nodes(self.graph).len(),
                        total == graph_nodes(self.graph).len(),
                        total <= u32::MAX,
                        forall|j: int| 0 <= j < order@.len() ==> #[trigger] order@[j] < graph_nodes(self.graph).len(),
                        k <= order@.len(),
                        times.len() == k,
                        g@ == nodes_merged(empty_state(), ws.take(k as int), times),
                        indices_valid(g@),
                        g@.nodes.len() <= k,
                        g@.shape.edges.len() == 0,
                    decreases order@.len() - k,
                {
                    let node = weight(&self.graph, order[k]);
                    let now = clock_now();
                    proof {
                        assert(g@.nodes.len() < u32::MAX);
                        lemma_node_merged(g@, node@, now);
                        assert(ws.take(k + 1).drop_last() =~= ws.take(k as int));
                        assert(ws.take(k + 1).last() == node@);
                    }
                    g.copy_node_in(node, now);
                    proof {
                        let old_times = times;
                        times = times.push(now);
                        lemma_nodes_merged_times(empty_state(), ws.take(k as int), old_times, times);
                        assert forall|name: Seq<char>| #[trigger] g@.index.contains_key(name) implies (g@.index[name] as int)
                            < g@.nodes.len() by {
                            assert(index_ok(g@, name));
                        }
                    }
                    k += 1;
                }
                let source_edges = edge_count(&self.graph);
                proof {
                    assert(g@.shape.edges.len() + source_edges <= u32::MAX);
                    assert(ws.take(order@.len() as int) =~= ws);
                    assert forall|j: int| 0 <= j < self@.nodes.len() implies index_ok(g@, #[trigger] self@.nodes[j].name) by {
                    }
                }
                g.copy_edges_from(self);
                assert(g@ == subgraph(self@, st as int, times));
                Some(g)
            },
            None => None,
        }
    }

    /// Get package node mut: the node at the name's stored index, which the
    /// caller may change; nothing else changes.
    pub fn get_node_mut(&mut self, name: &str) -> (r: Option<&mut DependencyNode>)
        requires
            index_ok(old(self)@, name@),
        ensures
            !old(self)@.index.contains_key(name@) ==> r is None && final(self)@ == old(self)@,
            r matches Some(w) ==> {
                &&& old(self)@.index.contains_key(name@)
                &&& w@ == old(self)@.nodes[old(self)@.index[name@] as int]
                &&& final(self)@ == node_replaced(old(self)@, old(self)@.index[name@] as int, final(w)@)
            },
            old(self)@.index.contains_key(name@) ==> r is Some,
    {
        match self.index_of(name) {
            Some(i) => {
                let ghost w0 = weights_of(self.graph);
                let w = weight_mut(&mut self.graph, i as usize);
                proof {
                    assert(views_of(w0.update(i as int, *final(w))) =~= views_of(w0).update(i as int, final(w)@));
                }
                Some(w)
            },
            None => None,
        }
    }
}

impl DependencyGraph {
    /// Every node of the graph has its two edge lists.
    pub proof fn lemma_lists_match_nodes(&self)
        ensures
            self@.shape.outs.len() == self@.nodes.len(),
            self@.shape.ins.len() == self@.nodes.len(),
            succ_of(self@).len() == self@.nodes.len(),
    {
    }
}

/// A package added to a graph is found under its name, at the index that
/// the addition returned, with the version it was added with.
pub proof fn law_added_package_is_found(s: GraphState, name: Seq<char>, version: Seq<char>, now: Timestamp)
    requires
        can_add_package(s, name),
    ensures
        ({
            let t = package_added(s, name, version, now);
            &&& t.index.contains_key(name)
            &&& t.index[name] as int == package_index(s, name)
            &&& index_ok(t, name)
            &&& t.nodes[t.index[name] as int].version == version
        }),
{
}

/// A removed package's name is no longer known.
pub proof fn law_removed_package_is_forgotten(s: GraphState, name: Seq<char>)
    ensures
        !package_removed(s, name).index.contains_key(name),
{
}

/// A node reaches itself: every package is among its own reverse
/// dependencies.
pub proof fn law_package_reaches_itself(g: &DependencyGraph, i: int)
    requires
        0 <= i < g@.nodes.len(),
    ensures
        reaches(succ_of(g@), i, i),
{
    g.lemma_lists_match_nodes();
    let p = seq![i];
    assert(is_walk(succ_of(g@), p));
}

/// After an edge is added between two known packages, a walk leads from the
/// first to the second: the second is among the first's dependencies.
pub proof fn law_added_dependency_is_reached(g: &DependencyGraph, from: Seq<char>, to: Seq<char>)
    requires
        can_add_dependency(g@, from, to),
        g@.index.contains_key(from),
        g@.index.contains_key(to),
    ensures
        ({
            let t = dependency_added(g@, from, to);
            reaches(succ_of(t), t.index[from] as int, t.index[to] as int)
        }),
{
    g.lemma_lists_match_nodes();
    let t = dependency_added(g@, from, to);
    let a = g@.index[from] as int;
    let b = g@.index[to] as int;
    let e = g@.shape.edges.len() as int;
    assert(t.shape.outs[a][0] == e);
    assert(t.shape.edges[e] == (a, b));
    assert(succ_of(t)[a][0] == b);
    let p = seq![a, b];
    assert(is_walk(succ_of(t), p));
}

/// Copying nodes in leaves each copied node's name known.
proof fn lemma_nodes_merged_knows(s: GraphState, ws: Seq<DependencyNodeView>, times: Seq<Timestamp>)
    requires
        forall|j: int| 0 <= j < ws.len() ==> index_ok(s, #[trigger] ws[j].name),
        s.nodes.len() + ws.len() <= u32::MAX,
    ensures
        forall|j: int| 0 <= j < ws.len() ==> #[trigger] nodes_merged(s, ws, times).index.contains_key(ws[j].name),
        forall|j: int| 0 <= j < ws.len() ==> index_ok(nodes_merged(s, ws, times), #[trigger] ws[j].name),
        forall|k: Seq<char>| s.index.contains_key(k) ==> #[trigger] nodes_merged(s, ws, times).index.contains_key(k),
        forall|k: Seq<char>| index_ok(s, k) ==> #[trigger] index_ok(nodes_merged(s, ws, times), k),
        nodes_merged(s, ws, times).nodes.len() <= s.nodes.len() + ws.len(),
    decreases ws.len(),
{
    if ws.len() > 0 {
        let ws0 = ws.drop_last();
        assert forall|j: int| 0 <= j < ws0.len() implies index_ok(s, #[trigger] ws0[j].name) by {
            assert(ws0[j] == ws[j]);
        }
        lemma_nodes_merged_knows(s, ws0, times);
        let t = nodes_merged(s, ws0, times);
        assert(index_ok(s, ws.last().name));
        assert(index_ok(t, ws.last().name));
        lemma_node_merged(t, ws.last(), times[ws.len() - 1]);
        assert forall|j: int| 0 <= j < ws.len() implies index_ok(nodes_merged(s, ws, times), #[trigger] ws[j].name) by {
            if j < ws.len() - 1 {
                assert(ws0[j] == ws[j]);
            }
        }
        assert forall|j: int| 0 <= j < ws.len() implies #[trigger] nodes_merged(s, ws, times).index.contains_key(
            ws[j].name,
        ) by {
            if j < ws.len() - 1 {
                assert(ws0[j] == ws[j]);
            }
        }
    }
}

/// Adding edges keeps the names known.
proof fn lemma_edges_merged_index(s: GraphState, ws: Seq<DependencyNodeView>, edges: Seq<(int, int)>)
    ensures
        edges_merged(s, ws, edges).index == s.index,
        edges_merged(s, ws, edges).nodes == s.nodes,
    decreases edges.len(),
{
    if edges.len() > 0 {
        lemma_edges_merged_index(s, ws, edges.drop_last());
    }
}

/// After a merge, the name of every node of the merged graph is known.
pub proof fn law_merge_knows_every_name(s: GraphState, o: GraphState, times: Seq<Timestamp>)
    requires
        can_merge(s, o),
    ensures
        forall|j: int| 0 <= j < o.nodes.len() ==> #[trigger] merged(s, o, times).index.contains_key(o.nodes[j].name),
{
    lemma_nodes_merged_knows(s, o.nodes, times);
    lemma_edges_merged_index(nodes_merged(s, o.nodes, times), o.nodes, o.shape.edges);
}

} // verus!
