//! The package layer of an environment: the packages it has installed, the
//! dependency records kept beside them, and how one package operation
//! changes both.

use vstd::prelude::*;
use crate::error::BlastResult;
use crate::package::Dependency;
use crate::package_state::PackageOperation;
use crate::scheduler::package_name_of;
use crate::strmap::StrMap;
use crate::text::{same_text, texts_of};
use crate::time::Timestamp;
use vstd::string::StringExecFns;

verus! {

/// The version an install without one records.
pub const DEFAULT_VERSION: &'static str = "0.1.0";

/// The constraint recorded for a package that lists itself among its
/// dependencies: any version.
pub const ANY_VERSION: &'static str = "*";

/// A package as the layer keeps it: its name, the text of its version and
/// the names of the packages it depends on.
#[derive(Debug)]
pub struct LayerPackage {
    pub name: String,
    pub version: String,
    pub dependencies: Vec<String>,
}

/// The value of a kept package.
pub struct LayerPackageView {
    pub name: Seq<char>,
    pub version: Seq<char>,
    pub dependencies: Seq<Seq<char>>,
}

impl View for LayerPackage {
    type V = LayerPackageView;

    open spec fn view(&self) -> LayerPackageView {
        LayerPackageView {
            name: self.name@,
            version: self.version@,
            dependencies: texts_of(self.dependencies@),
        }
    }
}

/// A copy of a list of texts.
fn copy_texts(v: &Vec<String>) -> (r: Vec<String>)
    ensures
        r@ == v@,
{
    let mut r: Vec<String> = Vec::new();
    let mut i: usize = 0;
    while i < v.len()
        invariant
            i <= v@.len(),
            r@ == v@.take(i as int),
        decreases v@.len() - i,
    {
        r.push(v[i].clone());
        proof {
            assert(v@.take(i + 1) =~= v@.take(i as int).push(v@[i as int]));
        }
        i += 1;
    }
    assert(v@.take(v@.len() as int) =~= v@);
    r
}

impl Clone for LayerPackage {
    fn clone(&self) -> (r: Self)
        ensures
            r@ == self@,
    {
        LayerPackage {
            name: self.name.clone(),
            version: self.version.clone(),
            dependencies: copy_texts(&self.dependencies),
        }
    }
}

/// The names of `deps`.
pub open spec fn dependency_names(deps: Seq<Dependency>) -> Seq<Seq<char>> {
    deps.map_values(|d: Dependency| d.name@)
}

/// The names of `deps`, in order.
fn names_of(deps: &Vec<Dependency>) -> (r: Vec<String>)
    ensures
        texts_of(r@) == dependency_names(deps@),
{
    let mut r: Vec<String> = Vec::new();
    let mut i: usize = 0;
    while i < deps.len()
        invariant
            i <= deps@.len(),
            r@.len() == i,
            forall|k: int| 0 <= k < i ==> (#[trigger] r@[k])@ == deps@[k].name@,
        decreases deps@.len() - i,
    {
        r.push(deps[i].name.clone());
        i += 1;
    }
    assert(texts_of(r@) =~= dependency_names(deps@));
    r
}

/// Whether `name` is among `names`.
fn lists(names: &Vec<String>, name: &str) -> (b: bool)
    ensures
        b == texts_of(names@).contains(name@),
{
    let mut i: usize = 0;
    while i < names.len()
        invariant
            i <= names@.len(),
            forall|j: int| 0 <= j < i ==> names@[j]@ != name@,
        decreases names@.len() - i,
    {
        if same_text(names[i].as_str(), name) {
            assert(texts_of(names@)[i as int] == name@);
            return true;
        }
        i += 1;
    }
    assert(!texts_of(names@).contains(name@)) by {
        if texts_of(names@).contains(name@) {
            let j = choose|j: int| 0 <= j < texts_of(names@).len() && texts_of(names@)[j] == name@;
            assert(names@[j]@ == name@);
        }
    }
    false
}

/// Status of the package layer.
#[derive(Debug, Clone, Copy, PartialEq, Eq, Structural)]
pub enum PackageLayerStatus {
    /// Layer is idle
    Idle,
    /// Layer is processing operations
    Processing,
    /// Layer has pending operations
    Pending,
    /// Layer has conflicts
    Conflicted,
}

/// The installed packages by name, as values.
pub open spec fn installed_view(m: Map<Seq<char>, LayerPackage>) -> Map<Seq<char>, LayerPackageView> {
    m.map_values(|p: LayerPackage| p@)
}

/// What the layer holds: the installed packages by name, the operations
/// waiting, when the last one was applied, and its status.
pub struct PackageLayerState {
    pub installed: StrMap<LayerPackage>,
    pub pending_operations: Vec<PackageOperation>,
    pub last_operation: Option<Timestamp>,
    pub status: PackageLayerStatus,
}

impl Default for PackageLayerState {
    /// Nothing installed, nothing waiting, no operation yet, idle.
    fn default() -> (s: Self)
        ensures
            installed_view(s.installed@) == Map::<Seq<char>, LayerPackageView>::empty(),
            s.pending_operations@.len() == 0,
            s.last_operation is None,
            s.status == PackageLayerStatus::Idle,
    {
        let s = PackageLayerState {
            installed: StrMap::new(),
            pending_operations: Vec::new(),
            last_operation: None,
            status: PackageLayerStatus::Idle,
        };
        assert(installed_view(s.installed@) =~= Map::<Seq<char>, LayerPackageView>::empty());
        s
    }
}

/// The dependency records of the layer: the version of each package
/// installed directly, the names each package depends on, and the
/// constraint on a package that lists itself.
pub struct DependencyGraph {
    direct: StrMap<String>,
    transitive: StrMap<Vec<String>>,
    constraints: StrMap<String>,
}

/// The value of the dependency records.
pub struct DependencyGraphView {
    pub direct: Map<Seq<char>, Seq<char>>,
    pub transitive: Map<Seq<char>, Set<Seq<char>>>,
    pub constraints: Map<Seq<char>, Seq<char>>,
}

impl View for DependencyGraph {
    type V = DependencyGraphView;

    closed spec fn view(&self) -> DependencyGraphView {
        DependencyGraphView {
            direct: self.direct@.map_values(|s: String| s@),
            transitive: self.transitive@.map_values(|v: Vec<String>| texts_of(v@).to_set()),
            constraints: self.constraints@.map_values(|s: String| s@),
        }
    }
}

/// The records after `p` is added: its version when it is direct, its
/// dependencies, and the any-version constraint when it lists itself.
pub open spec fn graph_with(g: DependencyGraphView, p: LayerPackageView, is_direct: bool) -> DependencyGraphView {
    DependencyGraphView {
        direct: if is_direct {
            g.direct.insert(p.name, p.version)
        } else {
            g.direct
        },
        transitive: g.transitive.insert(p.name, p.dependencies.to_set()),
        constraints: if p.dependencies.contains(p.name) {
            g.constraints.insert(p.name, ANY_VERSION@)
        } else {
            g.constraints
        },
    }
}

/// The records with nothing left of `name`.
pub open spec fn graph_without(g: DependencyGraphView, name: Seq<char>) -> DependencyGraphView {
    DependencyGraphView {
        direct: g.direct.remove(name),
        transitive: g.transitive.remove(name),
        constraints: g.constraints.remove(name),
    }
}

impl Default for DependencyGraph {
    /// No records.
    fn default() -> (g: Self)
        ensures
            g@.direct == Map::<Seq<char>, Seq<char>>::empty(),
            g@.transitive == Map::<Seq<char>, Set<Seq<char>>>::empty(),
            g@.constraints == Map::<Seq<char>, Seq<char>>::empty(),
    {
        let g = DependencyGraph { direct: StrMap::new(), transitive: StrMap::new(), constraints: StrMap::new() };
        assert(g@.direct =~= Map::<Seq<char>, Seq<char>>::empty());
        assert(g@.transitive =~= Map::<Seq<char>, Set<Seq<char>>>::empty());
        assert(g@.constraints =~= Map::<Seq<char>, Seq<char>>::empty());
        g
    }
}

impl DependencyGraph {
    /// Add package to graph: its version when it is installed directly, the
    /// names it depends on, and an any-version constraint when it lists
    /// itself.
    pub fn add_package(&mut self, package: &LayerPackage, is_direct: bool)
        ensures
            final(self)@ == graph_with(old(self)@, package@, is_direct),
    {
        if is_direct {
            let _ = self.direct.insert(package.name.clone(), package.version.clone());
        }
        let _ = self.transitive.insert(package.name.clone(), copy_texts(&package.dependencies));
        if lists(&package.dependencies, package.name.as_str()) {
            let _ = self.constraints.insert(package.name.clone(), String::from_str(ANY_VERSION));
        }
        assert(self@.direct =~= graph_with(old(self)@, package@, is_direct).direct);
        assert(self@.transitive =~= graph_with(old(self)@, package@, is_direct).transitive);
        assert(self@.constraints =~= graph_with(old(self)@, package@, is_direct).constraints);
    }

    /// Remove package from graph
    pub fn remove_package(&mut self, name: &str)
        ensures
            final(self)@ == graph_without(old(self)@, name@),
    {
        let _ = self.direct.remove(name);
        let _ = self.transitive.remove(name);
        let _ = self.constraints.remove(name);
        assert(self@.direct =~= graph_without(old(self)@, name@).direct);
        assert(self@.transitive =~= graph_without(old(self)@, name@).transitive);
        assert(self@.constraints =~= graph_without(old(self)@, name@).constraints);
    }

    /// Get direct dependencies
    pub fn direct_dependencies(&self) -> (r: &StrMap<String>)
        ensures
            r@.map_values(|s: String| s@) == self@.direct,
    {
        &self.direct
    }

    /// Get all dependencies for package
    pub fn dependencies_for(&self, name: &str) -> (r: Option<&Vec<String>>)
        ensures
            r matches Some(v) ==> self@.transitive.contains_key(name@) && texts_of(v@).to_set()
                == self@.transitive[name@],
            r is None ==> !self@.transitive.contains_key(name@),
    {
        self.transitive.get(name)
    }

    /// Get version constraint for package
    pub fn constraint_for(&self, name: &str) -> (r: Option<&String>)
        ensures
            r matches Some(c) ==> self@.constraints.contains_key(name@) && c@ == self@.constraints[name@],
            r is None ==> !self@.constraints.contains_key(name@),
    {
        self.constraints.get(name)
    }
}

/// The version text an install records: the one given, else the default.
pub open spec fn install_version(op: PackageOperation) -> Seq<char> {
    match op {
        PackageOperation::Install { version, .. } => match version {
            Some(v) => v.version@,
            None => DEFAULT_VERSION@,
        },
        _ => Seq::empty(),
    }
}

/// The package an install records.
pub open spec fn installed_package(op: PackageOperation) -> LayerPackageView {
    match op {
        PackageOperation::Install { name, dependencies, .. } => LayerPackageView {
            name: name@,
            version: install_version(op),
            dependencies: dependency_names(dependencies@),
        },
        _ => LayerPackageView { name: Seq::empty(), version: Seq::empty(), dependencies: Seq::empty() },
    }
}

/// What an operation does to the layer and its records, applied at `now`:
/// an install records the package (with its version, else the default
/// version, and its dependencies' names) in both, directly installed; an
/// uninstall forgets the package in both; an update replaces the version of
/// an installed package and keeps its dependencies, and is ignored for a
/// package not installed. An operation that changed something records
/// `now` as the last one. The waiting operations and the status stay.
pub open spec fn operation_applied(
    op: PackageOperation,
    installed: Map<Seq<char>, LayerPackageView>,
    graph: DependencyGraphView,
    last: Option<Timestamp>,
    now: Timestamp,
    installed2: Map<Seq<char>, LayerPackageView>,
    graph2: DependencyGraphView,
    last2: Option<Timestamp>,
) -> bool {
    match op {
        PackageOperation::Install { name, .. } => {
            &&& installed2 == installed.insert(name@, installed_package(op))
            &&& graph2 == graph_with(graph, installed_package(op), true)
            &&& last2 == Some(now)
        },
        PackageOperation::Uninstall { name } => {
            &&& installed2 == installed.remove(name@)
            &&& graph2 == graph_without(graph, name@)
            &&& last2 == Some(now)
        },
        PackageOperation::Update { name, to_version, .. } => {
            &&& graph2 == graph
            &&& if installed.contains_key(name@) {
                &&& installed2 == installed.insert(
                    name@,
                    LayerPackageView {
                        name: name@,
                        version: to_version.version@,
                        dependencies: installed[name@].dependencies,
                    },
                )
                &&& last2 == Some(now)
            } else {
                installed2 == installed && last2 == last
            }
        },
    }
}

/// Installing a package and then uninstalling it leaves the layer's
/// packages as they were without that name, and no record of the name.
pub proof fn law_uninstall_undoes_install(
    install: PackageOperation,
    uninstall: PackageOperation,
    i0: Map<Seq<char>, LayerPackageView>,
    g0: DependencyGraphView,
    l0: Option<Timestamp>,
    t1: Timestamp,
    i1: Map<Seq<char>, LayerPackageView>,
    g1: DependencyGraphView,
    l1: Option<Timestamp>,
    t2: Timestamp,
    i2: Map<Seq<char>, LayerPackageView>,
    g2: DependencyGraphView,
    l2: Option<Timestamp>,
)
    requires
        install matches PackageOperation::Install { name: a, .. } && uninstall matches PackageOperation::Uninstall {
            name: b,
        } && a@ == b@,
        operation_applied(install, i0, g0, l0, t1, i1, g1, l1),
        operation_applied(uninstall, i1, g1, l1, t2, i2, g2, l2),
    ensures
        i2 == i0.remove(package_name_of(install)),
        !g2.direct.contains_key(package_name_of(install)),
        !g2.transitive.contains_key(package_name_of(install)),
        !g2.constraints.contains_key(package_name_of(install)),
        l2 == Some(t2),
{
    let n = package_name_of(install);
    assert(i2 =~= i0.remove(n));
}

/// Applies one package operation to the layer's state and dependency
/// records at `now` (see `operation_applied`).
pub fn process_operation(
    op: PackageOperation,
    state: &mut PackageLayerState,
    graph: &mut DependencyGraph,
    now: Timestamp,
) -> (r: BlastResult<()>)
    ensures
        r is Ok,
        operation_applied(
            op,
            installed_view(old(state).installed@),
            old(graph)@,
            old(state).last_operation,
            now,
            installed_view(final(state).installed@),
            final(graph)@,
            final(state).last_operation,
        ),
        final(state).pending_operations@ == old(state).pending_operations@,
        final(state).status == old(state).status,
{
    let ghost before = installed_view(state.installed@);
    match &op {
        PackageOperation::Install { name, version, dependencies } => {
            let version_text = match version {
                Some(v) => v.version.clone(),
                None => String::from_str(DEFAULT_VERSION),
            };
            let package = LayerPackage {
                name: name.clone(),
                version: version_text,
                dependencies: names_of(dependencies),
            };
            assert(package@ == installed_package(op));
            graph.add_package(&package, true);
            let _ = state.installed.insert(name.clone(), package);
            state.last_operation = Some(now);
            assert(installed_view(state.installed@) =~= before.insert(name@, installed_package(op)));
        },
        PackageOperation::Uninstall { name } => {
            graph.remove_package(name.as_str());
            let _ = state.installed.remove(name.as_str());
            state.last_operation = Some(now);
            assert(installed_view(state.installed@) =~= before.remove(name@));
        },
        PackageOperation::Update { name, from_version: _, to_version } => {
            let updated = match state.installed.get(name.as_str()) {
                Some(old_package) => Some(
                    LayerPackage {
                        name: name.clone(),
                        version: to_version.version.clone(),
                        dependencies: copy_texts(&old_package.dependencies),
                    },
                ),
                None => None,
            };
            if let Some(package) = updated {
                let ghost new_view = LayerPackageView {
                    name: name@,
                    version: to_version.version@,
                    dependencies: before[name@].dependencies,
                };
                assert(package@ == new_view);
                let _ = state.installed.insert(name.clone(), package);
                state.last_operation = Some(now);
                assert(installed_view(state.installed@) =~= before.insert(name@, new_view));
            }
        },
    }
    Ok(())
}

} // verus!
