//! Debug information: what a report records about the machine, the
//! operations run, the environment captured and its dependency graph, which
//! a report renders in the DOT language of petgraph.

use vstd::prelude::*;
use petgraph::dot::{Config, Dot};
use petgraph::graph::{Graph, NodeIndex};
use petgraph::Directed;
use crate::package::opt_view;
use crate::strmap::StrMap;
use crate::text::same_text;
use crate::time::{clock_now, Timestamp};

verus! {

/// System information: the operating system and architecture, the Python
/// version, the available memory in bytes, the environment variables and
/// the version of Blast.
#[derive(Debug)]
pub struct SystemInfo {
    pub os: String,
    pub arch: String,
    pub python_version: String,
    pub memory: u64,
    pub env_vars: StrMap<String>,
    pub blast_version: String,
}

/// `a` and `b` record the same system.
pub open spec fn same_system(a: SystemInfo, b: SystemInfo) -> bool {
    &&& a.os == b.os
    &&& a.arch == b.arch
    &&& a.python_version == b.python_version
    &&& a.memory == b.memory
    &&& a.env_vars@ == b.env_vars@
    &&& a.blast_version == b.blast_version
}

impl Clone for SystemInfo {
    fn clone(&self) -> (r: Self)
        ensures
            same_system(r, *self),
    {
        SystemInfo {
            os: self.os.clone(),
            arch: self.arch.clone(),
            python_version: self.python_version.clone(),
            memory: self.memory,
            env_vars: self.env_vars.copy(),
            blast_version: self.blast_version.clone(),
        }
    }
}

/// Operation status
#[derive(Debug, Clone, Copy, PartialEq, Eq, Structural)]
pub enum OperationStatus {
    /// Operation succeeded
    Success,
    /// Operation failed
    Failed,
    /// Operation was cancelled
    Cancelled,
    /// Operation is in progress
    InProgress,
}

/// Operation record: its identifier, kind, start, duration (whole seconds
/// and the nanoseconds beyond them), status, and the error and stack trace
/// of a failure.
#[derive(Debug)]
pub struct OperationRecord {
    pub id: String,
    pub operation_type: String,
    pub timestamp: Timestamp,
    pub duration_secs: u64,
    pub duration_nanos: u32,
    pub status: OperationStatus,
    pub error: Option<String>,
    pub stack_trace: Option<String>,
}

impl Clone for OperationRecord {
    fn clone(&self) -> (r: Self)
        ensures
            r == *self,
    {
        OperationRecord {
            id: self.id.clone(),
            operation_type: self.operation_type.clone(),
            timestamp: self.timestamp,
            duration_secs: self.duration_secs,
            duration_nanos: self.duration_nanos,
            status: self.status,
            error: self.error.clone(),
            stack_trace: self.stack_trace.clone(),
        }
    }
}

/// Package information: name, version, installation time, the names of its
/// dependencies and whether it was installed directly.
#[derive(Debug)]
pub struct PackageInfo {
    pub name: String,
    pub version: String,
    pub installed_at: Timestamp,
    pub dependencies: Vec<String>,
    pub is_direct: bool,
}

/// The value of a package record: its texts and flags.
#[verifier::ext_equal]
pub struct PackageInfoView {
    pub name: Seq<char>,
    pub version: Seq<char>,
    pub installed_at: Timestamp,
    pub dependencies: Seq<Seq<char>>,
    pub is_direct: bool,
}

/// The texts of the strings `v`.
pub open spec fn texts(v: Seq<String>) -> Seq<Seq<char>> {
    v.map_values(|s: String| s@)
}

impl View for PackageInfo {
    type V = PackageInfoView;

    open spec fn view(&self) -> PackageInfoView {
        PackageInfoView {
            name: self.name@,
            version: self.version@,
            installed_at: self.installed_at,
            dependencies: texts(self.dependencies@),
            is_direct: self.is_direct,
        }
    }
}

/// Copies of the strings `v`.
fn copy_strings(v: &Vec<String>) -> (r: Vec<String>)
    ensures
        r@ == v@,
{
    let mut r: Vec<String> = Vec::new();
    let mut i: usize = 0;
    while i < v.len()
        invariant
            i <= v@.len(),
            r@ == v@.take(i as int),
        decreases v@.len() - i,
    {
        r.push(v[i].clone());
        proof {
            assert(v@.take(i + 1) =~= v@.take(i as int).push(v@[i as int]));
        }
        i += 1;
    }
    assert(v@.take(v@.len() as int) =~= v@);
    r
}

impl Clone for PackageInfo {
    fn clone(&self) -> (r: Self)
        ensures
            r@ == self@,
    {
        PackageInfo {
            name: self.name.clone(),
            version: self.version.clone(),
            installed_at: self.installed_at,
            dependencies: copy_strings(&self.dependencies),
            is_direct: self.is_direct,
        }
    }
}

/// Environment state: the installed packages, the Python version, the
/// environment variables, the path of the virtual environment and the time
/// of the last change.
#[derive(Debug)]
pub struct EnvironmentState {
    pub packages: Vec<PackageInfo>,
    pub python_version: String,
    pub env_vars: StrMap<String>,
    pub venv_path: String,
    pub last_modified: Timestamp,
}

/// The value of an environment state.
#[verifier::ext_equal]
pub struct EnvironmentStateView {
    pub packages: Seq<PackageInfoView>,
    pub python_version: Seq<char>,
    pub env_vars: Map<Seq<char>, String>,
    pub venv_path: Seq<char>,
    pub last_modified: Timestamp,
}

/// The views of the package records `v`.
pub open spec fn package_views(v: Seq<PackageInfo>) -> Seq<PackageInfoView> {
    v.map_values(|p: PackageInfo| p@)
}

impl View for EnvironmentState {
    type V = EnvironmentStateView;

    open spec fn view(&self) -> EnvironmentStateView {
        EnvironmentStateView {
            packages: package_views(self.packages@),
            python_version: self.python_version@,
            env_vars: self.env_vars@,
            venv_path: self.venv_path@,
            last_modified: self.last_modified,
        }
    }
}

impl Clone for EnvironmentState {
    fn clone(&self) -> (r: Self)
        ensures
            r@ == self@,
    {
        let mut packages: Vec<PackageInfo> = Vec::new();
        let mut i: usize = 0;
        while i < self.packages.len()
            invariant
                i <= self.packages@.len(),
                package_views(packages@) == package_views(self.packages@.take(i as int)),
            decreases self.packages@.len() - i,
        {
            let p = self.packages[i].clone();
            let ghost before = packages@;
            packages.push(p);
            proof {
                assert(package_views(packages@) =~= package_views(before).push(p@));
                assert(package_views(self.packages@.take(i + 1)) =~= package_views(self.packages@.take(i as int)).push(
                    self.packages@[i as int]@,
                ));
            }
            i += 1;
        }
        assert(self.packages@.take(self.packages@.len() as int) =~= self.packages@);
        EnvironmentState {
            packages,
            python_version: self.python_version.clone(),
            env_vars: self.env_vars.copy(),
            venv_path: self.venv_path.clone(),
            last_modified: self.last_modified,
        }
    }
}

/// The labels of the nodes of `g` by index.
pub uninterp spec fn label_graph_labels(g: Graph<String, (), Directed, u32>) -> Seq<String>;

/// The edges of `g` by index: each edge's source and target node.
pub uninterp spec fn label_graph_edges(g: Graph<String, (), Directed, u32>) -> Seq<(int, int)>;

/// The DOT text that petgraph's `Dot` with `Config::EdgeNoLabel` writes for
/// a graph with the node labels `labels` and the edges `edges`, both by
/// index.
pub uninterp spec fn dot_text(labels: Seq<Seq<char>>, edges: Seq<(int, int)>) -> Seq<char>;

/// `Graph::new` for a graph of labels: no nodes and no edges.
#[verifier::external_body]
fn label_graph_new() -> (g: Graph<String, (), Directed, u32>)
    ensures
        label_graph_labels(g).len() == 0,
        label_graph_edges(g).len() == 0,
{
    Graph::new()
}

/// `Graph::add_node` for a graph of labels: the node takes the next index.
/// The crate panics when the index would be `u32::MAX`, its end marker.
#[verifier::external_body]
fn label_graph_add_node(g: &mut Graph<String, (), Directed, u32>, label: String) -> (i: usize)
    requires
        label_graph_labels(*old(g)).len() < u32::MAX,
    ensures
        i == label_graph_labels(*old(g)).len(),
        label_graph_labels(*final(g)) == label_graph_labels(*old(g)).push(label),
        label_graph_edges(*final(g)) == label_graph_edges(*old(g)),
{
    g.add_node(label).index()
}

/// `Graph::add_edge` for a graph of labels: the edge takes the next index.
/// The crate panics when a node is missing or the index would be
/// `u32::MAX`.
#[verifier::external_body]
fn label_graph_add_edge(g: &mut Graph<String, (), Directed, u32>, a: usize, b: usize)
    requires
        a < label_graph_labels(*old(g)).len(),
        b < label_graph_labels(*old(g)).len(),
        label_graph_edges(*old(g)).len() < u32::MAX,
    ensures
        label_graph_labels(*final(g)) == label_graph_labels(*old(g)),
        label_graph_edges(*final(g)) == label_graph_edges(*old(g)).push((a as int, b as int)),
{
    g.add_edge(NodeIndex::new(a), NodeIndex::new(b), ());
}

/// `Dot::with_config(&g, &[Config::EdgeNoLabel])` written out with `{:?}`:
/// the text named `dot_text` of the graph's labels and edges.
#[verifier::external_body]
fn label_graph_dot(g: &Graph<String, (), Directed, u32>) -> (t: String)
    ensures
        t@ == dot_text(texts(label_graph_labels(*g)), label_graph_edges(*g)),
{
    format!("{:?}", Dot::with_config(g, &[Config::EdgeNoLabel]))
}

/// A graph of labels as values: the labels by index and the edges.
#[verifier::ext_equal]
pub struct LabelGraph {
    pub labels: Seq<Seq<char>>,
    pub edges: Seq<(int, int)>,
}

/// The index of the label `l` in `g`: where it stands, or the next index
/// when it is new.
pub open spec fn label_index(g: LabelGraph, l: Seq<char>) -> int {
    if g.labels.contains(l) {
        choose|i: int| 0 <= i < g.labels.len() && g.labels[i] == l
    } else {
        g.labels.len() as int
    }
}

/// `g` with the label `l` as a node, added when new.
pub open spec fn label_added(g: LabelGraph, l: Seq<char>) -> LabelGraph {
    if g.labels.contains(l) {
        g
    } else {
        LabelGraph { labels: g.labels.push(l), edges: g.edges }
    }
}

/// `g` with an edge from the label `from` to the label `to`, each added as a
/// node first when new.
pub open spec fn label_edge_added(g: LabelGraph, from: Seq<char>, to: Seq<char>) -> LabelGraph {
    let g1 = label_added(g, from);
    let g2 = label_added(g1, to);
    LabelGraph { labels: g2.labels, edges: g2.edges.push((label_index(g, from), label_index(g1, to))) }
}

/// `g` with an edge from `name` to each of `deps`, in order.
pub open spec fn label_edges_added(g: LabelGraph, name: Seq<char>, deps: Seq<Seq<char>>) -> LabelGraph
    decreases deps.len(),
{
    if deps.len() == 0 {
        g
    } else {
        label_edge_added(label_edges_added(g, name, deps.drop_last()), name, deps.last())
    }
}

/// The graph of the packages `pkgs`: each package's name as a node, then an
/// edge from it to each of its dependencies, package by package.
pub open spec fn package_graph(pkgs: Seq<PackageInfoView>) -> LabelGraph
    decreases pkgs.len(),
{
    if pkgs.len() == 0 {
        LabelGraph { labels: Seq::empty(), edges: Seq::empty() }
    } else {
        let p = pkgs.last();
        label_edges_added(label_added(package_graph(pkgs.drop_last()), p.name), p.name, p.dependencies)
    }
}

/// The number of names in `pkgs`: the packages and their dependencies.
pub open spec fn name_count(pkgs: Seq<PackageInfoView>) -> int
    decreases pkgs.len(),
{
    if pkgs.len() == 0 {
        0
    } else {
        name_count(pkgs.drop_last()) + 1 + pkgs.last().dependencies.len()
    }
}

/// No label of `g` is there twice.
pub open spec fn labels_distinct(g: LabelGraph) -> bool {
    forall|i: int, j: int| 0 <= i < j < g.labels.len() ==> g.labels[i] != g.labels[j]
}

/// Dependency graph representation
#[derive(Debug)]
pub struct DependencyGraph {
    /// Graph structure
    graph: Graph<String, (), Directed, u32>,
    /// Node mapping
    node_map: StrMap<usize>,
}

impl DependencyGraph {
    /// The labels and edges, as values.
    pub closed spec fn view(&self) -> LabelGraph {
        LabelGraph { labels: texts(label_graph_labels(self.graph)), edges: label_graph_edges(self.graph) }
    }

    /// The node map holds the index of each label, and the labels differ.
    pub closed spec fn wf(&self) -> bool {
        &&& labels_distinct(self@)
        &&& forall|l: Seq<char>| #[trigger] self.node_map@.contains_key(l) <==> self@.labels.contains(l)
        &&& forall|l: Seq<char>|
            #[trigger] self.node_map@.contains_key(l) ==> {
                let i = self.node_map@[l] as int;
                0 <= i < self@.labels.len() && self@.labels[i] == l
            }
    }

    /// Create a new dependency graph
    fn new() -> (g: Self)
        ensures
            g.wf(),
            g@ == (LabelGraph { labels: Seq::empty(), edges: Seq::empty() }),
    {
        let g = DependencyGraph { graph: label_graph_new(), node_map: StrMap::new() };
        assert(g@.labels =~= Seq::<Seq<char>>::empty());
        assert(g@.edges =~= Seq::<(int, int)>::empty());
        g
    }

    /// Add a node to the graph: the index of the label, added when new.
    fn add_node(&mut self, package: &str) -> (i: usize)
        requires
            old(self).wf(),
            old(self)@.labels.len() < u32::MAX,
        ensures
            final(self).wf(),
            i == label_index(old(self)@, package@),
            final(self)@ == label_added(old(self)@, package@),
    {
        let ghost g0 = self@;
        match self.node_map.get(package) {
            Some(node) => {
                let i = *node;
                proof {
                    let j = choose|j: int| 0 <= j < g0.labels.len() && g0.labels[j] == package@;
                    assert(j == i as int);
                }
                i
            },
            None => {
                let ghost labels0 = label_graph_labels(self.graph);
                let label = String::from_str(package);
                let ghost lab = label;
                let node = label_graph_add_node(&mut self.graph, label);
                self.node_map.insert(String::from_str(package), node);
                proof {
                    assert(texts(labels0.push(lab)) =~= g0.labels.push(package@));
                    assert(self@.labels == g0.labels.push(package@));
                    assert(!g0.labels.contains(package@));
                    assert forall|l: Seq<char>| #[trigger] self.node_map@.contains_key(l) implies self@.labels.contains(l) by {
                        if l == package@ {
                            assert(self@.labels[g0.labels.len() as int] == l);
                        } else {
                            let k = choose|k: int| 0 <= k < g0.labels.len() && g0.labels[k] == l;
                            assert(self@.labels[k] == l);
                        }
                    }
                    assert forall|l: Seq<char>| self@.labels.contains(l) implies #[trigger] self.node_map@.contains_key(l) by {
                        let k = choose|k: int| 0 <= k < self@.labels.len() && self@.labels[k] == l;
                        if k < g0.labels.len() {
                            assert(g0.labels[k] == l);
                            assert(g0.labels.contains(l));
                        }
                    }
                    assert forall|l: Seq<char>| #[trigger] self.node_map@.contains_key(l) implies {
                        let i = self.node_map@[l] as int;
                        0 <= i < self@.labels.len() && self@.labels[i] == l
                    } by {
                        if l != package@ {
                            let k = choose|k: int| 0 <= k < g0.labels.len() && g0.labels[k] == l;
                            assert(g0.labels.contains(l));
                        }
                    }
                }
                node
            },
        }
    }

    /// Add a dependency edge
    fn add_dependency(&mut self, from: &str, to: &str)
        requires
            old(self).wf(),
            old(self)@.labels.len() + 2 < u32::MAX,
            old(self)@.edges.len() < u32::MAX,
        ensures
            final(self).wf(),
            final(self)@ == label_edge_added(old(self)@, from@, to@),
    {
        let ghost g0 = self@;
        let from_node = self.add_node(from);
        let ghost g1 = self@;
        let to_node = self.add_node(to);
        proof {
            if g0.labels.contains(from@) {
                let j = choose|j: int| 0 <= j < g0.labels.len() && g0.labels[j] == from@;
            }
            if g1.labels.contains(to@) {
                let j = choose|j: int| 0 <= j < g1.labels.len() && g1.labels[j] == to@;
            }
            assert(from_node < g1.labels.len());
            assert(to_node < self@.labels.len());
            assert(label_graph_labels(self.graph).len() == self@.labels.len());
        }
        label_graph_add_edge(&mut self.graph, from_node, to_node);
        proof {
            assert(self@.labels == label_edge_added(g0, from@, to@).labels);
        }
    }

    /// Convert graph to DOT format
    fn to_dot(&self) -> (t: String)
        ensures
            t@ == dot_text(self@.labels, self@.edges),
    {
        label_graph_dot(&self.graph)
    }
}

/// Debug report containing all collected information
#[derive(Debug)]
pub struct DebugReport {
    /// Timestamp of the report
    pub timestamp: Timestamp,
    /// System information
    pub system_info: SystemInfo,
    /// Operation history
    pub operation_history: Vec<OperationRecord>,
    /// Environment state
    pub environment_state: Option<EnvironmentState>,
    /// Dependency graph in DOT format
    pub dependency_graph: Option<String>,
}

/// Debug information collector
#[derive(Debug)]
pub struct DebugCollector {
    /// System information
    system_info: SystemInfo,
    /// Operation history
    history: Vec<OperationRecord>,
    /// Environment state
    environment_state: Option<EnvironmentState>,
    /// Dependency graph
    dependency_graph: Option<DependencyGraph>,
}

/// The view of an optional environment state.
pub open spec fn env_view(e: Option<EnvironmentState>) -> Option<EnvironmentStateView> {
    match e {
        Some(s) => Some(s@),
        None => None,
    }
}

impl DebugCollector {
    /// The system the collector describes.
    pub closed spec fn system(&self) -> SystemInfo {
        self.system_info
    }

    /// The operations recorded, oldest first.
    pub closed spec fn history(&self) -> Seq<OperationRecord> {
        self.history@
    }

    /// The environment last captured.
    pub closed spec fn environment(&self) -> Option<EnvironmentStateView> {
        env_view(self.environment_state)
    }

    /// The dependency graph of the environment last captured.
    pub closed spec fn graph(&self) -> Option<LabelGraph> {
        match self.dependency_graph {
            Some(g) => Some(g@),
            None => None,
        }
    }

    /// The collector holds its invariants.
    pub closed spec fn wf(&self) -> bool {
        match self.dependency_graph {
            Some(g) => g.wf(),
            None => true,
        }
    }

    /// Create a new debug collector for the system `system_info`.
    pub fn new(system_info: SystemInfo) -> (c: Self)
        ensures
            c.wf(),
            c.system() == system_info,
            c.history().len() == 0,
            c.environment() is None,
            c.graph() is None,
    {
        DebugCollector { system_info, history: Vec::new(), environment_state: None, dependency_graph: None }
    }

    /// Record an operation
    pub fn record_operation(&mut self, operation: OperationRecord)
        ensures
            final(self).system() == old(self).system(),
            final(self).history() == old(self).history().push(operation),
            final(self).environment() == old(self).environment(),
            final(self).graph() == old(self).graph(),
            final(self).wf() == old(self).wf(),
    {
        self.history.push(operation);
    }

    /// Capture current environment state and build its dependency graph.
    pub fn capture_environment(&mut self, state: EnvironmentState)
        requires
            name_count(state@.packages) + 2 < u32::MAX,
        ensures
            final(self).wf(),
            final(self).system() == old(self).system(),
            final(self).history() == old(self).history(),
            final(self).environment() == Some(state@),
            final(self).graph() == Some(package_graph(state@.packages)),
    {
        self.environment_state = Some(state);
        self.update_dependency_graph();
    }

    /// Update dependency graph from environment state
    fn update_dependency_graph(&mut self)
        requires
            old(self).environment() matches Some(e) ==> name_count(e.packages) + 2 < u32::MAX,
        ensures
            final(self).system() == old(self).system(),
            final(self).history() == old(self).history(),
            final(self).environment() == old(self).environment(),
            old(self).environment() matches Some(e) ==> final(self).wf() && final(self).graph() == Some(
                package_graph(e.packages),
            ),
            old(self).environment() is None ==> final(self).graph() == old(self).graph() && final(self).wf()
                == old(self).wf(),
    {
        if let Some(state) = &self.environment_state {
            let ghost pkgs = state@.packages;
            let mut graph = DependencyGraph::new();
            let mut i: usize = 0;
            while i < state.packages.len()
                invariant
                    pkgs == state@.packages,
                    name_count(pkgs) + 2 < u32::MAX,
                    i <= pkgs.len(),
                    graph.wf(),
                    graph@ == package_graph(pkgs.take(i as int)),
                    graph@.labels.len() <= name_count(pkgs.take(i as int)),
                    graph@.edges.len() <= name_count(pkgs.take(i as int)),
                decreases pkgs.len() - i,
            {
                let package = &state.packages[i];
                proof {
                    lemma_name_count_prefix(pkgs, i as int);
                    assert(pkgs.take(i + 1).drop_last() =~= pkgs.take(i as int));
                    assert(pkgs.take(i + 1).last() == package@);
                }
                graph.add_node(package.name.as_str());
                let ghost g1 = graph@;
                proof {
                    if !graph@.labels.contains(package@.name) {
                        assert(graph@.labels[graph@.labels.len() - 1] == package@.name);
                    }
                }
                let mut k: usize = 0;
                while k < package.dependencies.len()
                    invariant
                        pkgs == state@.packages,
                        name_count(pkgs) + 2 < u32::MAX,
                        i < pkgs.len(),
                        pkgs[i as int] == package@,
                        name_count(pkgs.take(i + 1)) <= name_count(pkgs),
                        name_count(pkgs.take(i + 1)) == name_count(pkgs.take(i as int)) + 1
                            + package@.dependencies.len(),
                        k <= package@.dependencies.len(),
                        graph.wf(),
                        graph@ == label_edges_added(g1, package@.name, package@.dependencies.take(k as int)),
                        graph@.labels.contains(package@.name),
                        graph@.labels.len() <= name_count(pkgs.take(i as int)) + 1 + k,
                        graph@.edges.len() <= name_count(pkgs.take(i as int)) + k,
                    decreases package@.dependencies.len() - k,
                {
                    proof {
                        assert(package@.dependencies.take(k + 1).drop_last() =~= package@.dependencies.take(k as int));
                        assert(package@.dependencies.take(k + 1).last() == package.dependencies@[k as int]@);
                    }
                    proof {
                        lemma_label_edge_added_len(graph@, package@.name, package.dependencies@[k as int]@);
                    }
                    graph.add_dependency(package.name.as_str(), package.dependencies[k].as_str());
                    k += 1;
                }
                proof {
                    assert(package@.dependencies.take(package@.dependencies.len() as int) =~= package@.dependencies);
                }
                i += 1;
            }
            proof {
                assert(pkgs.take(pkgs.len() as int) =~= pkgs);
            }
            self.dependency_graph = Some(graph);
        }
    }

    /// Generate debug report: the time of the call, copies of what was
    /// collected, and the dependency graph in the DOT language.
    pub fn generate_report(&self) -> (r: DebugReport)
        ensures
            same_system(r.system_info, self.system()),
            r.operation_history@ == self.history(),
            env_view(r.environment_state) == self.environment(),
            match self.graph() {
                Some(g) => r.dependency_graph matches Some(t) && t@ == dot_text(g.labels, g.edges),
                None => r.dependency_graph is None,
            },
    {
        let mut history: Vec<OperationRecord> = Vec::new();
        let mut i: usize = 0;
        while i < self.history.len()
            invariant
                i <= self.history@.len(),
                history@ == self.history@.take(i as int),
            decreases self.history@.len() - i,
        {
            history.push(self.history[i].clone());
            proof {
                assert(self.history@.take(i + 1) =~= self.history@.take(i as int).push(self.history@[i as int]));
            }
            i += 1;
        }
        assert(self.history@.take(self.history@.len() as int) =~= self.history@);
        let environment_state = match &self.environment_state {
            Some(s) => Some(s.clone()),
            None => None,
        };
        let dependency_graph = match &self.dependency_graph {
            Some(g) => Some(g.to_dot()),
            None => None,
        };
        DebugReport {
            timestamp: clock_now(),
            system_info: self.system_info.clone(),
            operation_history: history,
            environment_state,
            dependency_graph,
        }
    }
}

/// An edge from a label already present adds at most one label and one edge.
proof fn lemma_label_edge_added_len(g: LabelGraph, from: Seq<char>, to: Seq<char>)
    requires
        g.labels.contains(from),
    ensures
        label_edge_added(g, from, to).labels.len() <= g.labels.len() + 1,
        label_edge_added(g, from, to).edges.len() == g.edges.len() + 1,
        label_edge_added(g, from, to).labels.contains(from),
{
    let r = label_edge_added(g, from, to);
    let k = choose|k: int| 0 <= k < g.labels.len() && g.labels[k] == from;
    assert(r.labels[k] == from);
}

/// The names of a prefix of `pkgs` are no more than those of all of them.
proof fn lemma_name_count_prefix(pkgs: Seq<PackageInfoView>, i: int)
    requires
        0 <= i < pkgs.len(),
    ensures
        name_count(pkgs.take(i)) + 1 + pkgs[i].dependencies.len() == name_count(pkgs.take(i + 1)),
        name_count(pkgs.take(i + 1)) <= name_count(pkgs),
    decreases pkgs.len() - i,
{
    assert(pkgs.take(i + 1).drop_last() =~= pkgs.take(i));
    if i + 1 < pkgs.len() {
        lemma_name_count_prefix(pkgs, i + 1);
    } else {
        assert(pkgs.take(i + 1) =~= pkgs);
    }
}

} // verus!
