//! What is installed in an environment, and the transactions that change
//! it: a transaction gathers changes, then either commits them, applying
//! each in order, or rolls back and leaves the packages as they were.

use vstd::prelude::*;
use crate::error::{BlastError, BlastResult};
use crate::package::{opt_view, Dependency, DependencyView, StateChange, TransactionStatus};
use crate::strmap::{lemma_pairs_map_at, StrMap};
use crate::text::{
    chars_of, find_from, find_text, has_prefix, line_bounds, lines_of, starts_with, string_of_range, same_text,
    texts_of, trim, trim_text,
};
use crate::time::{clock_now, no_randomness, random_id, random_source_error, Timestamp};
use vstd::string::StringExecFns;

verus! {

/// The values of a list of dependencies.
pub open spec fn deps_view(d: Seq<Dependency>) -> Seq<DependencyView> {
    d.map_values(|x: Dependency| x@)
}

/// A copy of a list of dependencies.
fn clone_dependencies(d: &Vec<Dependency>) -> (r: Vec<Dependency>)
    ensures
        deps_view(r@) == deps_view(d@),
{
    let mut r: Vec<Dependency> = Vec::new();
    let mut i: usize = 0;
    while i < d.len()
        invariant
            i <= d@.len(),
            deps_view(r@) == deps_view(d@.take(i as int)),
        decreases d@.len() - i,
    {
        let x = d[i].clone();
        let ghost before = r@;
        r.push(x);
        assert(d@.take(i + 1) =~= d@.take(i as int).push(d@[i as int]));
        assert(deps_view(r@) =~= deps_view(before).push(d@[i as int]@));
        assert(deps_view(d@.take(i + 1)) =~= deps_view(d@.take(i as int)).push(d@[i as int]@));
        i += 1;
    }
    assert(d@.take(d@.len() as int) =~= d@);
    r
}

/// Package version information
#[derive(Debug)]
pub struct Version {
    pub version: String,
    pub released: Timestamp,
    pub python_requires: Option<String>,
    pub dependencies: Vec<Dependency>,
}

/// The value of a version: its texts and dependencies.
pub struct VersionView {
    pub version: Seq<char>,
    pub released: Timestamp,
    pub python_requires: Option<Seq<char>>,
    pub dependencies: Seq<DependencyView>,
}

impl View for Version {
    type V = VersionView;

    open spec fn view(&self) -> VersionView {
        VersionView {
            version: self.version@,
            released: self.released,
            python_requires: opt_view(self.python_requires),
            dependencies: deps_view(self.dependencies@),
        }
    }
}

impl Clone for Version {
    fn clone(&self) -> (r: Self)
        ensures
            r@ == self@,
    {
        Version {
            version: self.version.clone(),
            released: self.released,
            python_requires: self.python_requires.clone(),
            dependencies: clone_dependencies(&self.dependencies),
        }
    }
}

/// Package information
#[derive(Debug)]
pub struct PackageInfo {
    pub version: Version,
    pub installed_at: Timestamp,
    pub updated_at: Timestamp,
    pub direct: bool,
    pub hash: Option<String>,
    pub size: u64,
    pub source: String,
}

/// The value of a package record.
pub struct PackageInfoView {
    pub version: VersionView,
    pub installed_at: Timestamp,
    pub updated_at: Timestamp,
    pub direct: bool,
    pub hash: Option<Seq<char>>,
    pub size: u64,
    pub source: Seq<char>,
}

impl View for PackageInfo {
    type V = PackageInfoView;

    open spec fn view(&self) -> PackageInfoView {
        PackageInfoView {
            version: self.version@,
            installed_at: self.installed_at,
            updated_at: self.updated_at,
            direct: self.direct,
            hash: opt_view(self.hash),
            size: self.size,
            source: self.source@,
        }
    }
}

impl Clone for PackageInfo {
    fn clone(&self) -> (r: Self)
        ensures
            r@ == self@,
    {
        PackageInfo {
            version: self.version.clone(),
            installed_at: self.installed_at,
            updated_at: self.updated_at,
            direct: self.direct,
            hash: self.hash.clone(),
            size: self.size,
            source: self.source.clone(),
        }
    }
}

/// Package operation types
#[derive(Debug)]
pub enum PackageOperation {
    Install { name: String, version: Option<Version>, dependencies: Vec<Dependency> },
    Uninstall { name: String },
    Update { name: String, from_version: Version, to_version: Version },
}

/// A dependency recorded by name alone: no constraint, not optional, no
/// markers.
pub open spec fn plain_dependency(name: Seq<char>) -> DependencyView {
    DependencyView { name, version_constraint: Seq::empty(), optional: false, markers: None }
}

/// The version a committed change records: released `now`, with no Python
/// requirement and the named dependencies.
pub open spec fn recorded_version(version: Seq<char>, deps: Seq<Seq<char>>, now: Timestamp) -> VersionView {
    VersionView {
        version,
        released: now,
        python_requires: None,
        dependencies: deps.map_values(|n: Seq<char>| plain_dependency(n)),
    }
}

/// What one committed change does to the packages, at time `now`: an added
/// package is recorded afresh (indirect, no hash, size 0, no source), a
/// removed one is dropped, and an updated one, if present, gets the new
/// version and update time.
pub open spec fn apply_change(
    m: Map<Seq<char>, PackageInfoView>,
    c: StateChange,
    now: Timestamp,
) -> Map<Seq<char>, PackageInfoView> {
    match c {
        StateChange::PackageAdded { name, version, dependencies } => m.insert(
            name@,
            PackageInfoView {
                version: recorded_version(version@, texts_of(dependencies@), now),
                installed_at: now,
                updated_at: now,
                direct: false,
                hash: None,
                size: 0,
                source: Seq::empty(),
            },
        ),
        StateChange::PackageRemoved { name } => m.remove(name@),
        StateChange::PackageUpdated { name, old_version: _, new_version, dependencies } => {
            if m.contains_key(name@) {
                let p = m[name@];
                m.insert(
                    name@,
                    PackageInfoView {
                        version: recorded_version(new_version@, texts_of(dependencies@), now),
                        installed_at: p.installed_at,
                        updated_at: now,
                        direct: p.direct,
                        hash: p.hash,
                        size: p.size,
                        source: p.source,
                    },
                )
            } else {
                m
            }
        },
    }
}

/// The changes applied in order.
pub open spec fn apply_changes(
    m: Map<Seq<char>, PackageInfoView>,
    cs: Seq<StateChange>,
    now: Timestamp,
) -> Map<Seq<char>, PackageInfoView>
    decreases cs.len(),
{
    if cs.len() == 0 {
        m
    } else {
        apply_change(apply_changes(m, cs.drop_last(), now), cs.last(), now)
    }
}

/// A state transaction: the changes it gathered and how it ended.
#[derive(Debug)]
pub struct StateTransaction {
    id: String,
    timestamp: Timestamp,
    changes: Vec<StateChange>,
    status: TransactionStatus,
}

impl StateTransaction {
    /// The transaction id.
    pub closed spec fn id_spec(&self) -> Seq<char> {
        self.id@
    }

    /// The changes, in the order they were added.
    pub closed spec fn changes_spec(&self) -> Seq<StateChange> {
        self.changes@
    }

    /// How the transaction stands.
    pub closed spec fn status_spec(&self) -> TransactionStatus {
        self.status
    }

    /// When the transaction began.
    pub closed spec fn timestamp_spec(&self) -> Timestamp {
        self.timestamp
    }
}

/// `u` is the transaction `t` finished with status `status`.
pub open spec fn finished_as(u: StateTransaction, t: StateTransaction, status: TransactionStatus) -> bool {
    &&& u.id_spec() == t.id_spec()
    &&& u.timestamp_spec() == t.timestamp_spec()
    &&& u.changes_spec() == t.changes_spec()
    &&& u.status_spec() == status
}

/// Package state
#[derive(Debug)]
pub struct PackageState {
    packages: StrMap<PackageInfo>,
    transactions: Vec<StateTransaction>,
    current_transaction: Option<StateTransaction>,
    version: u32,
    last_modified: Timestamp,
}

/// One of `deps` is named `name`.
pub open spec fn names_dependency(deps: Seq<DependencyView>, name: Seq<char>) -> bool {
    exists|i: int| 0 <= i < deps.len() && (#[trigger] deps[i]).name == name
}

/// `info` depends on `name` through one of its version's dependencies.
pub open spec fn depends_on(info: PackageInfoView, name: Seq<char>) -> bool {
    names_dependency(info.version.dependencies, name)
}

/// Position `j` holds the first of `deps` named `name`.
pub open spec fn first_named_at(deps: Seq<DependencyView>, name: Seq<char>, j: int) -> bool {
    &&& 0 <= j < deps.len()
    &&& deps[j].name == name
    &&& forall|i: int| 0 <= i < j ==> (#[trigger] deps[i]).name != name
}

/// A package named `name` may be removed when every installed package that
/// depends on it marks its first dependency of that name optional.
pub open spec fn removable(m: Map<Seq<char>, PackageInfoView>, name: Seq<char>) -> bool {
    forall|k: Seq<char>, j: int|
        m.contains_key(k) && #[trigger] first_named_at(m[k].version.dependencies, name, j)
            ==> m[k].version.dependencies[j].optional
}

/// The position of the first of `deps` named `name`, if any.
fn first_dependency_named(deps: &Vec<Dependency>, name: &str) -> (r: Option<usize>)
    ensures
        match r {
            Some(j) => first_named_at(deps_view(deps@), name@, j as int),
            None => !names_dependency(deps_view(deps@), name@),
        },
{
    let mut i: usize = 0;
    while i < deps.len()
        invariant
            i <= deps@.len(),
            forall|k: int| 0 <= k < i ==> (#[trigger] deps_view(deps@)[k]).name != name@,
        decreases deps@.len() - i,
    {
        if same_text(deps[i].name.as_str(), name) {
            return Some(i);
        }
        i += 1;
    }
    None
}

/// What a package operation does to the packages, at time `now`: an install
/// with a version records the package afresh as a direct one (no hash,
/// size 0, no source) and one without a version changes nothing; an
/// uninstall drops it; an update, if the package is present, gives it the
/// new version and update time.
pub open spec fn operation_effect(
    m: Map<Seq<char>, PackageInfoView>,
    op: PackageOperation,
    now: Timestamp,
) -> Map<Seq<char>, PackageInfoView> {
    match op {
        PackageOperation::Install { name, version, dependencies: _ } => match version {
            Some(v) => m.insert(
                name@,
                PackageInfoView {
                    version: v@,
                    installed_at: now,
                    updated_at: now,
                    direct: true,
                    hash: None,
                    size: 0,
                    source: Seq::empty(),
                },
            ),
            None => m,
        },
        PackageOperation::Uninstall { name } => m.remove(name@),
        PackageOperation::Update { name, from_version: _, to_version } => {
            if m.contains_key(name@) {
                let p = m[name@];
                m.insert(
                    name@,
                    PackageInfoView {
                        version: to_version@,
                        installed_at: p.installed_at,
                        updated_at: now,
                        direct: p.direct,
                        hash: p.hash,
                        size: p.size,
                        source: p.source,
                    },
                )
            } else {
                m
            }
        },
    }
}

/// A listing stands for a map: each listed pair is in the map, no name is
/// listed twice, and every name of the map is listed.
pub open spec fn stored_matches(
    stored: Seq<(Seq<char>, PackageInfoView)>,
    m: Map<Seq<char>, PackageInfoView>,
) -> bool {
    &&& forall|i: int|
        0 <= i < stored.len() ==> m.contains_key((#[trigger] stored[i]).0) && m[stored[i].0]
            == stored[i].1
    &&& forall|i: int, j: int|
        0 <= i < j < stored.len() ==> (#[trigger] stored[i]).0 != (#[trigger] stored[j]).0
    &&& forall|k: Seq<char>|
        #[trigger] m.contains_key(k) ==> exists|i: int| 0 <= i < stored.len() && (#[trigger] stored[i]).0 == k
}

impl PackageState {
    /// The installed packages by name.
    pub closed spec fn packages_view(&self) -> Map<Seq<char>, PackageInfoView> {
        self.packages@.map_values(|p: PackageInfo| p@)
    }

    /// The installed packages in the order the state keeps them; they stand
    /// for `packages_view`.
    pub closed spec fn stored(&self) -> Seq<(Seq<char>, PackageInfoView)> {
        self.packages.pairs_spec().map_values(|e: (String, PackageInfo)| (e.0@, e.1@))
    }

    /// The finished transactions, oldest first.
    pub closed spec fn history(&self) -> Seq<StateTransaction> {
        self.transactions@
    }

    /// The transaction in progress, if any.
    pub closed spec fn current(&self) -> Option<StateTransaction> {
        self.current_transaction
    }

    /// The state version, raised by each change of the packages.
    pub closed spec fn version_spec(&self) -> u32 {
        self.version
    }

    /// When the state last changed.
    pub closed spec fn last_modified_spec(&self) -> Timestamp {
        self.last_modified
    }

    /// A new package state: nothing installed, no transactions, version 0,
    /// modified now.
    pub fn new() -> (s: Self)
        ensures
            s.packages_view() == Map::<Seq<char>, PackageInfoView>::empty(),
            s.stored().len() == 0,
            s.history().len() == 0,
            s.current() is None,
            s.version_spec() == 0,
    {
        let s = PackageState {
            packages: StrMap::new(),
            transactions: Vec::new(),
            current_transaction: None,
            version: 0,
            last_modified: clock_now(),
        };
        assert(s.packages_view() =~= Map::<Seq<char>, PackageInfoView>::empty());
        s
    }

    /// The stored order stands for the installed packages: each stored pair
    /// is installed, names are not repeated, and every installed package is
    /// stored.
    proof fn lemma_stored(&self)
        requires
            self.packages.keys_distinct(),
        ensures
            stored_matches(self.stored(), self.packages_view()),
    {
        self.packages.lemma_stored();
        let st = self.stored();
        let ps = self.packages.pairs_spec();
        assert forall|i: int| 0 <= i < st.len() implies self.packages_view().contains_key(
            (#[trigger] st[i]).0,
        ) && self.packages_view()[st[i].0] == st[i].1 by {
            lemma_pairs_map_at(ps, i);
        }
        assert forall|k: Seq<char>| #[trigger] self.packages_view().contains_key(k) implies exists|i: int|
            0 <= i < st.len() && (#[trigger] st[i]).0 == k by {
            let i = choose|i: int| 0 <= i < ps.len() && #[trigger] ps[i].0@ == k;
            assert(st[i].0 == k);
        }
    }

    /// Whether a package is installed.
    pub fn is_installed(&self, name: &str) -> (b: bool)
        ensures
            b == self.packages_view().contains_key(name@),
    {
        self.packages.contains_key(name)
    }

    /// The installed version of a package.
    pub fn get_installed_version(&self, name: &str) -> (r: Option<&Version>)
        ensures
            match r {
                Some(v) => self.packages_view().contains_key(name@) && v@ == self.packages_view()[name@].version,
                None => !self.packages_view().contains_key(name@),
            },
    {
        match self.packages.get(name) {
            Some(m) => Some(&m.version),
            None => None,
        }
    }

    /// The record of a package.
    pub fn get_package(&self, name: &str) -> (r: Option<&PackageInfo>)
        ensures
            match r {
                Some(p) => self.packages_view().contains_key(name@) && p@ == self.packages_view()[name@],
                None => !self.packages_view().contains_key(name@),
            },
    {
        self.packages.get(name)
    }

    /// When the state last changed.
    pub fn last_modified(&self) -> (t: Timestamp)
        ensures
            t == self.last_modified_spec(),
    {
        self.last_modified
    }

    /// The records of all installed packages, in the state's order.
    pub fn get_all_packages(&self) -> (r: Vec<&PackageInfo>)
        ensures
            r@.map_values(|p: &PackageInfo| p@) == self.stored().map_values(
                |e: (Seq<char>, PackageInfoView)| e.1,
            ),
            stored_matches(self.stored(), self.packages_view()),
    {
        proof {
            use_type_invariant(&self.packages);
            self.lemma_stored();
        }
        let mut r: Vec<&PackageInfo> = Vec::new();
        let n = self.packages.len();
        let mut i: usize = 0;
        while i < n
            invariant
                n == self.stored().len(),
                i <= n,
                r@.map_values(|p: &PackageInfo| p@) == self.stored().take(i as int).map_values(
                    |e: (Seq<char>, PackageInfoView)| e.1,
                ),
            decreases n - i,
        {
            let (_, info) = self.packages.entry_at(i);
            let ghost before = r@;
            r.push(info);
            proof {
                assert(self.stored().take(i + 1) =~= self.stored().take(i as int).push(self.stored()[i as int]));
                assert(r@.map_values(|p: &PackageInfo| p@) =~= before.map_values(|p: &PackageInfo| p@).push(info@));
                assert(self.stored().take(i + 1).map_values(|e: (Seq<char>, PackageInfoView)| e.1)
                    =~= self.stored().take(i as int).map_values(|e: (Seq<char>, PackageInfoView)| e.1).push(info@));
            }
            i += 1;
        }
        assert(self.stored().take(n as int) =~= self.stored());
        r
    }

    /// The records of the packages installed directly, in the state's order.
    pub fn get_direct_dependencies(&self) -> (r: Vec<&PackageInfo>)
        ensures
            r@.map_values(|p: &PackageInfo| p@) == self.stored().filter(
                |e: (Seq<char>, PackageInfoView)| e.1.direct,
            ).map_values(|e: (Seq<char>, PackageInfoView)| e.1),
            stored_matches(self.stored(), self.packages_view()),
    {
        proof {
            use_type_invariant(&self.packages);
            self.lemma_stored();
        }
        let ghost keep = |e: (Seq<char>, PackageInfoView)| e.1.direct;
        let ghost val = |e: (Seq<char>, PackageInfoView)| e.1;
        let mut r: Vec<&PackageInfo> = Vec::new();
        let n = self.packages.len();
        let mut i: usize = 0;
        while i < n
            invariant
                n == self.stored().len(),
                i <= n,
                keep == (|e: (Seq<char>, PackageInfoView)| e.1.direct),
                val == (|e: (Seq<char>, PackageInfoView)| e.1),
                r@.map_values(|p: &PackageInfo| p@) == self.stored().take(i as int).filter(keep).map_values(val),
            decreases n - i,
        {
            let (_, info) = self.packages.entry_at(i);
            let ghost before = r@;
            proof {
                assert(self.stored().take(i + 1) =~= self.stored().take(i as int).push(self.stored()[i as int]));
                self.stored().take(i as int).lemma_filter_push(self.stored()[i as int], keep);
            }
            if info.direct {
                r.push(info);
                proof {
                    assert(r@.map_values(|p: &PackageInfo| p@) =~= before.map_values(|p: &PackageInfo| p@).push(info@));
                    assert(self.stored().take(i as int).filter(keep).push(self.stored()[i as int]).map_values(val)
                        =~= self.stored().take(i as int).filter(keep).map_values(val).push(info@));
                }
            }
            i += 1;
        }
        assert(self.stored().take(n as int) =~= self.stored());
        r
    }

    /// The names of the dependencies of an installed package's version, in
    /// order; none for a package that is not installed.
    pub fn get_dependencies(&self, name: &str) -> (r: Vec<String>)
        ensures
            texts_of(r@) == (if self.packages_view().contains_key(name@) {
                self.packages_view()[name@].version.dependencies.map_values(|d: DependencyView| d.name)
            } else {
                Seq::empty()
            }),
    {
        let mut r: Vec<String> = Vec::new();
        match self.packages.get(name) {
            Some(metadata) => {
                let deps = &metadata.version.dependencies;
                let ghost dv = deps_view(deps@);
                let mut i: usize = 0;
                while i < deps.len()
                    invariant
                        i <= deps@.len(),
                        dv == deps_view(deps@),
                        texts_of(r@) == dv.take(i as int).map_values(|d: DependencyView| d.name),
                    decreases deps@.len() - i,
                {
                    let ghost before = r@;
                    r.push(deps[i].name.clone());
                    proof {
                        assert(texts_of(r@) =~= texts_of(before).push(dv[i as int].name));
                        assert(dv.take(i + 1) =~= dv.take(i as int).push(dv[i as int]));
                        assert(dv.take(i + 1).map_values(|d: DependencyView| d.name) =~= dv.take(i as int).map_values(
                            |d: DependencyView| d.name,
                        ).push(dv[i as int].name));
                    }
                    i += 1;
                }
                assert(dv.take(deps@.len() as int) =~= dv);
            },
            None => {
                assert(texts_of(r@) =~= Seq::<Seq<char>>::empty());
            },
        }
        r
    }

    /// The names of the installed packages that depend on `name`, in the
    /// state's order.
    pub fn get_reverse_dependencies(&self, name: &str) -> (r: Vec<String>)
        ensures
            texts_of(r@) == self.stored().filter(|e: (Seq<char>, PackageInfoView)| depends_on(e.1, name@)).map_values(
                |e: (Seq<char>, PackageInfoView)| e.0,
            ),
            forall|k: Seq<char>|
                #[trigger] texts_of(r@).contains(k) <==> (self.packages_view().contains_key(k) && depends_on(
                    self.packages_view()[k],
                    name@,
                )),
            stored_matches(self.stored(), self.packages_view()),
    {
        proof {
            use_type_invariant(&self.packages);
            self.lemma_stored();
        }
        let ghost st = self.stored();
        let ghost keep = |e: (Seq<char>, PackageInfoView)| depends_on(e.1, name@);
        let ghost key = |e: (Seq<char>, PackageInfoView)| e.0;
        let mut r: Vec<String> = Vec::new();
        let n = self.packages.len();
        let mut i: usize = 0;
        while i < n
            invariant
                st == self.stored(),
                n == st.len(),
                i <= n,
                keep == (|e: (Seq<char>, PackageInfoView)| depends_on(e.1, name@)),
                key == (|e: (Seq<char>, PackageInfoView)| e.0),
                texts_of(r@) == st.take(i as int).filter(keep).map_values(key),
                forall|k: Seq<char>|
                    #[trigger] texts_of(r@).contains(k) <==> exists|j: int|
                        0 <= j < i && (#[trigger] st[j]).0 == k && depends_on(st[j].1, name@),
            decreases n - i,
        {
            let (k, info) = self.packages.entry_at(i);
            let ghost before = r@;
            proof {
                assert(st.take(i + 1) =~= st.take(i as int).push(st[i as int]));
                st.take(i as int).lemma_filter_push(st[i as int], keep);
            }
            let found = first_dependency_named(&info.version.dependencies, name);
            if found.is_some() {
                r.push(k.clone());
                proof {
                    assert(texts_of(r@) =~= texts_of(before).push(k@));
                    assert(st.take(i as int).filter(keep).push(st[i as int]).map_values(key)
                        =~= st.take(i as int).filter(keep).map_values(key).push(k@));
                    assert forall|x: Seq<char>|
                        #[trigger] texts_of(r@).contains(x) <==> exists|j: int|
                            0 <= j < i + 1 && (#[trigger] st[j]).0 == x && depends_on(st[j].1, name@) by {
                        if texts_of(r@).contains(x) {
                            let t = choose|t: int| 0 <= t < texts_of(r@).len() && texts_of(r@)[t] == x;
                            if t < texts_of(before).len() {
                                assert(texts_of(before)[t] == x);
                                assert(texts_of(before).contains(x));
                            }
                        }
                        if exists|j: int| 0 <= j < i + 1 && (#[trigger] st[j]).0 == x && depends_on(st[j].1, name@) {
                            let j = choose|j: int| 0 <= j < i + 1 && (#[trigger] st[j]).0 == x && depends_on(st[j].1, name@);
                            if j < i {
                                assert(texts_of(before).contains(x));
                                let t = choose|t: int| 0 <= t < texts_of(before).len() && texts_of(before)[t] == x;
                                assert(texts_of(r@)[t] == x);
                            } else {
                                assert(texts_of(r@)[texts_of(before).len() as int] == x);
                            }
                        }
                    }
                }
            } else {
                proof {
                    assert(!depends_on(st[i as int].1, name@));
                    assert forall|x: Seq<char>|
                        #[trigger] texts_of(r@).contains(x) <==> exists|j: int|
                            0 <= j < i + 1 && (#[trigger] st[j]).0 == x && depends_on(st[j].1, name@) by {
                        if exists|j: int| 0 <= j < i + 1 && (#[trigger] st[j]).0 == x && depends_on(st[j].1, name@) {
                            let j = choose|j: int| 0 <= j < i + 1 && (#[trigger] st[j]).0 == x && depends_on(st[j].1, name@);
                            assert(j < i);
                        }
                    }
                }
            }
            i += 1;
        }
        proof {
            assert(st.take(n as int) =~= st);
            assert forall|k: Seq<char>|
                #[trigger] texts_of(r@).contains(k) <==> (self.packages_view().contains_key(k) && depends_on(
                    self.packages_view()[k],
                    name@,
                )) by {
                if self.packages_view().contains_key(k) {
                    let j = choose|j: int| 0 <= j < st.len() && (#[trigger] st[j]).0 == k;
                    assert(self.packages_view()[k] == st[j].1);
                }
            }
        }
        r
    }

    /// Whether a package can be removed safely: no installed package depends
    /// on it, or each that does marks its first dependency of that name
    /// optional.
    pub fn can_remove(&self, name: &str) -> (b: bool)
        ensures
            b == removable(self.packages_view(), name@),
    {
        let rdeps = self.get_reverse_dependencies(name);
        let ghost m = self.packages_view();
        if rdeps.len() == 0 {
            proof {
                assert forall|k: Seq<char>, j: int|
                    m.contains_key(k) && #[trigger] first_named_at(m[k].version.dependencies, name@, j)
                        implies m[k].version.dependencies[j].optional by {
                    assert(depends_on(m[k], name@));
                    assert(texts_of(rdeps@).contains(k));
                }
            }
            return true;
        }
        let mut i: usize = 0;
        while i < rdeps.len()
            invariant
                m == self.packages_view(),
                i <= rdeps@.len(),
                forall|k: Seq<char>|
                    #[trigger] texts_of(rdeps@).contains(k) <==> (m.contains_key(k) && depends_on(m[k], name@)),
                forall|t: int, j: int|
                    0 <= t < i && #[trigger] first_named_at(m[texts_of(rdeps@)[t]].version.dependencies, name@, j)
                        ==> m[texts_of(rdeps@)[t]].version.dependencies[j].optional,
            decreases rdeps@.len() - i,
        {
            let ghost k = rdeps@[i as int]@;
            proof {
                assert(texts_of(rdeps@)[i as int] == k);
                assert(texts_of(rdeps@).contains(k));
            }
            match self.packages.get(rdeps[i].as_str()) {
                Some(info) => {
                    match first_dependency_named(&info.version.dependencies, name) {
                        Some(j) => {
                            if !info.version.dependencies[j].optional {
                                proof {
                                    assert(first_named_at(m[k].version.dependencies, name@, j as int));
                                }
                                return false;
                            }
                            proof {
                                assert forall|t: int, j2: int|
                                    0 <= t < i + 1 && #[trigger] first_named_at(
                                        m[texts_of(rdeps@)[t]].version.dependencies,
                                        name@,
                                        j2,
                                    ) implies m[texts_of(rdeps@)[t]].version.dependencies[j2].optional by {
                                    if t == i {
                                        let d = m[k].version.dependencies;
                                        if j2 < j {
                                            assert(d[j2].name != name@);
                                        } else if j2 > j {
                                            assert(d[j as int].name != name@);
                                        }
                                    }
                                }
                            }
                        },
                        None => {
                            proof {
                                assert(depends_on(m[k], name@));
                            }
                            return false;
                        },
                    }
                },
                None => {
                    return false;
                },
            }
            i += 1;
        }
        proof {
            assert forall|k: Seq<char>, j: int|
                m.contains_key(k) && #[trigger] first_named_at(m[k].version.dependencies, name@, j)
                    implies m[k].version.dependencies[j].optional by {
                assert(depends_on(m[k], name@));
                assert(texts_of(rdeps@).contains(k));
                let t = choose|t: int| 0 <= t < texts_of(rdeps@).len() && texts_of(rdeps@)[t] == k;
                assert(first_named_at(m[texts_of(rdeps@)[t]].version.dependencies, name@, j));
            }
        }
        true
    }

    /// Records `info` under `name`, replacing any record of that name.
    fn put(&mut self, name: String, info: PackageInfo)
        ensures
            final(self).packages_view() == old(self).packages_view().insert(name@, info@),
            final(self).history() == old(self).history(),
            final(self).current() == old(self).current(),
            final(self).version_spec() == old(self).version_spec(),
            final(self).last_modified_spec() == old(self).last_modified_spec(),
    {
        let ghost v = info@;
        let _ = self.packages.insert(name, info);
        assert(self.packages_view() =~= old(self).packages_view().insert(name@, v));
    }

    /// Drops the record of `name`, if any.
    fn drop_record(&mut self, name: &str)
        ensures
            final(self).packages_view() == old(self).packages_view().remove(name@),
            final(self).history() == old(self).history(),
            final(self).current() == old(self).current(),
            final(self).version_spec() == old(self).version_spec(),
            final(self).last_modified_spec() == old(self).last_modified_spec(),
    {
        let _ = self.packages.remove(name);
        assert(self.packages_view() =~= old(self).packages_view().remove(name@));
    }

    /// Applies one committed change at time `now`.
    fn apply(&mut self, change: &StateChange, now: Timestamp)
        ensures
            final(self).packages_view() == apply_change(old(self).packages_view(), *change, now),
            final(self).history() == old(self).history(),
            final(self).current() == old(self).current(),
            final(self).version_spec() == old(self).version_spec(),
            final(self).last_modified_spec() == old(self).last_modified_spec(),
    {
        match change {
            StateChange::PackageAdded { name, version, dependencies } => {
                let info = PackageInfo {
                    version: Version {
                        version: version.clone(),
                        released: now,
                        python_requires: None,
                        dependencies: plain_dependencies(dependencies),
                    },
                    installed_at: now,
                    updated_at: now,
                    direct: false,
                    hash: None,
                    size: 0,
                    source: String::new(),
                };
                self.put(name.clone(), info);
            },
            StateChange::PackageRemoved { name } => {
                self.drop_record(name.as_str());
            },
            StateChange::PackageUpdated { name, old_version: _, new_version, dependencies } => {
                match self.packages.get(name.as_str()) {
                    Some(pkg) => {
                        let mut updated = pkg.clone();
                        updated.version = Version {
                            version: new_version.clone(),
                            released: now,
                            python_requires: None,
                            dependencies: plain_dependencies(dependencies),
                        };
                        updated.updated_at = now;
                        self.put(name.clone(), updated);
                    },
                    None => {},
                }
            },
        }
    }

    /// Removes a package from the state, raising the version.
    pub fn remove_package(&mut self, name: &str) -> (r: BlastResult<()>)
        requires
            old(self).version_spec() < u32::MAX,
        ensures
            r is Ok,
            final(self).packages_view() == old(self).packages_view().remove(name@),
            final(self).version_spec() == old(self).version_spec() + 1,
            final(self).history() == old(self).history(),
            final(self).current() == old(self).current(),
    {
        self.drop_record(name);
        self.version = self.version + 1;
        self.last_modified = clock_now();
        Ok(())
    }

    /// Records a package under the text of its version (the state keys
    /// this record by `metadata.version.version`).
    pub fn update_package_metadata(&mut self, metadata: &PackageInfo) -> (r: BlastResult<()>)
        ensures
            r is Ok,
            final(self).packages_view() == old(self).packages_view().insert(
                metadata.version.version@,
                metadata@,
            ),
            final(self).version_spec() == old(self).version_spec(),
            final(self).history() == old(self).history(),
            final(self).current() == old(self).current(),
    {
        self.put(metadata.version.version.clone(), metadata.clone());
        self.last_modified = clock_now();
        Ok(())
    }

    /// Applies a package operation (see `operation_effect`), at the time it
    /// records as the last modification, and raises the version.
    pub fn update_from_operation(&mut self, operation: &PackageOperation) -> (r: BlastResult<()>)
        requires
            old(self).version_spec() < u32::MAX,
        ensures
            r is Ok,
            final(self).packages_view() == operation_effect(
                old(self).packages_view(),
                *operation,
                final(self).last_modified_spec(),
            ),
            final(self).version_spec() == old(self).version_spec() + 1,
            final(self).history() == old(self).history(),
            final(self).current() == old(self).current(),
    {
        let now = clock_now();
        match operation {
            PackageOperation::Install { name, version, dependencies: _ } => {
                if let Some(version_info) = version {
                    let pkg_info = PackageInfo {
                        version: version_info.clone(),
                        installed_at: now,
                        updated_at: now,
                        direct: true,
                        hash: None,
                        size: 0,
                        source: String::new(),
                    };
                    self.put(name.clone(), pkg_info);
                }
            },
            PackageOperation::Uninstall { name } => {
                self.drop_record(name.as_str());
            },
            PackageOperation::Update { name, from_version: _, to_version } => {
                match self.packages.get(name.as_str()) {
                    Some(pkg) => {
                        let mut updated = pkg.clone();
                        updated.version = to_version.clone();
                        updated.updated_at = now;
                        self.put(name.clone(), updated);
                    },
                    None => {},
                }
            },
        }
        self.version = self.version + 1;
        self.last_modified = now;
        Ok(())
    }
}

impl Default for PackageState {
    fn default() -> (s: Self)
        ensures
            s.packages_view() == Map::<Seq<char>, PackageInfoView>::empty(),
            s.stored().len() == 0,
            s.history().len() == 0,
            s.current() is None,
            s.version_spec() == 0,
    {
        PackageState::new()
    }
}

/// The dependencies a committed change records for the named packages.
fn plain_dependencies(names: &Vec<String>) -> (r: Vec<Dependency>)
    ensures
        deps_view(r@) == texts_of(names@).map_values(|n: Seq<char>| plain_dependency(n)),
{
    let ghost want = texts_of(names@).map_values(|n: Seq<char>| plain_dependency(n));
    let mut r: Vec<Dependency> = Vec::new();
    let mut i: usize = 0;
    while i < names.len()
        invariant
            i <= names@.len(),
            want == texts_of(names@).map_values(|n: Seq<char>| plain_dependency(n)),
            deps_view(r@) == want.take(i as int),
        decreases names@.len() - i,
    {
        let d = Dependency {
            name: names[i].clone(),
            version_constraint: String::new(),
            optional: false,
            markers: None,
        };
        let ghost before = r@;
        r.push(d);
        assert(deps_view(r@) =~= deps_view(before).push(want[i as int]));
        assert(want.take(i + 1) =~= want.take(i as int).push(want[i as int]));
        i += 1;
    }
    assert(want.take(names@.len() as int) =~= want);
    r
}

/// The history a commit keeps before it appends: the latest `max`
/// transactions when there are more than `max`, else all of them.
pub open spec fn kept_history(h: Seq<StateTransaction>, max: usize) -> Seq<StateTransaction> {
    if h.len() > max {
        h.skip(h.len() - max)
    } else {
        h
    }
}

/// Keeps the package state of an environment and runs transactions on it;
/// the state file and backup directory are where the state is written.
#[derive(Debug)]
pub struct StateManager {
    state: PackageState,
    state_path: String,
    backup_dir: String,
    max_history: usize,
}

/// `a` and `b` have the same files and history bound.
pub open spec fn same_settings(a: StateManager, b: StateManager) -> bool {
    &&& a.state_path_spec() == b.state_path_spec()
    &&& a.backup_dir_spec() == b.backup_dir_spec()
    &&& a.max_history_spec() == b.max_history_spec()
}

/// A transaction began: there was none, and now an empty pending one is in
/// progress; nothing else changed.
pub open spec fn began(a: StateManager, b: StateManager) -> bool {
    &&& a.state_spec().current() is None
    &&& b.state_spec().current() matches Some(t) && t.changes_spec().len() == 0 && t.status_spec()
        == TransactionStatus::Pending
    &&& b.state_spec().packages_view() == a.state_spec().packages_view()
    &&& b.state_spec().history() == a.state_spec().history()
    &&& b.state_spec().version_spec() == a.state_spec().version_spec()
    &&& same_settings(a, b)
}

/// A change was added to the transaction in progress; nothing else changed.
pub open spec fn change_added(a: StateManager, b: StateManager, c: StateChange) -> bool {
    &&& a.state_spec().current() matches Some(t) && b.state_spec().current() matches Some(u)
        && u.id_spec() == t.id_spec() && u.timestamp_spec() == t.timestamp_spec() && u.status_spec()
        == t.status_spec() && u.changes_spec() == t.changes_spec().push(c)
    &&& b.state_spec().packages_view() == a.state_spec().packages_view()
    &&& b.state_spec().history() == a.state_spec().history()
    &&& b.state_spec().version_spec() == a.state_spec().version_spec()
    &&& same_settings(a, b)
}

/// The transaction in progress was committed: its changes were applied in
/// order at the time recorded as the last modification, it joined the
/// (trimmed) history as committed, and the version rose by one.
pub open spec fn committed(a: StateManager, b: StateManager) -> bool {
    &&& a.state_spec().current() matches Some(t) && {
        let kept = kept_history(a.state_spec().history(), a.max_history_spec());
        &&& b.state_spec().packages_view() == apply_changes(
            a.state_spec().packages_view(),
            t.changes_spec(),
            b.state_spec().last_modified_spec(),
        )
        &&& b.state_spec().history().len() == kept.len() + 1
        &&& b.state_spec().history().take(kept.len() as int) == kept
        &&& finished_as(b.state_spec().history().last(), t, TransactionStatus::Committed)
    }
    &&& b.state_spec().current() is None
    &&& b.state_spec().version_spec() == a.state_spec().version_spec() + 1
    &&& same_settings(a, b)
}

/// The transaction in progress was rolled back: it joined the history as
/// rolled back; the packages and version are unchanged.
pub open spec fn rolled_back(a: StateManager, b: StateManager) -> bool {
    &&& a.state_spec().current() matches Some(t) && b.state_spec().history().len() == a.state_spec().history().len() + 1
        && b.state_spec().history().drop_last() == a.state_spec().history() && finished_as(
        b.state_spec().history().last(),
        t,
        TransactionStatus::RolledBack,
    )
    &&& b.state_spec().current() is None
    &&& b.state_spec().packages_view() == a.state_spec().packages_view()
    &&& b.state_spec().version_spec() == a.state_spec().version_spec()
    &&& same_settings(a, b)
}

/// `e` is a state error with the message `msg`.
pub open spec fn state_error(e: BlastError, msg: Seq<char>) -> bool {
    e matches BlastError::State(m) && m@ == msg
}

impl StateManager {
    /// The package state.
    pub closed spec fn state_spec(&self) -> PackageState {
        self.state
    }

    /// The state file.
    pub closed spec fn state_path_spec(&self) -> Seq<char> {
        self.state_path@
    }

    /// The backup directory.
    pub closed spec fn backup_dir_spec(&self) -> Seq<char> {
        self.backup_dir@
    }

    /// How many finished transactions a commit keeps before it appends.
    pub closed spec fn max_history_spec(&self) -> usize {
        self.max_history
    }

    /// A manager of a fresh state, written to `state_path` with backups in
    /// `backup_dir`, keeping up to 100 transactions of history.
    pub fn new(state_path: String, backup_dir: String) -> (m: Self)
        ensures
            m.state_spec().packages_view() == Map::<Seq<char>, PackageInfoView>::empty(),
            m.state_spec().history().len() == 0,
            m.state_spec().current() is None,
            m.state_spec().version_spec() == 0,
            m.state_path_spec() == state_path@,
            m.backup_dir_spec() == backup_dir@,
            m.max_history_spec() == 100,
    {
        StateManager { state: PackageState::new(), state_path, backup_dir, max_history: 100 }
    }

    /// Begins a transaction and returns its id; refused while another is in
    /// progress, and where the operating system's random source fails.
    pub fn begin_transaction(&mut self) -> (r: BlastResult<String>)
        ensures
            r is Ok ==> old(self).state_spec().current() is None,
            old(self).state_spec().current() is Some ==> (r matches Err(e) && state_error(
                e,
                "Transaction already in progress"@,
            )),
            r matches Ok(id) ==> began(*old(self), *final(self)) && final(self).state_spec().current()->0.id_spec()
                == id@ && id@.len() == 36,
            r matches Err(e) ==> *final(self) == *old(self) && (state_error(e, "Transaction already in progress"@)
                || no_randomness(e)),
    {
        if self.state.current_transaction.is_some() {
            return Err(BlastError::state("Transaction already in progress"));
        }
        let id = match random_id() {
            Some(id) => id,
            None => {
                return Err(random_source_error());
            },
        };
        let transaction = StateTransaction {
            id: id.clone(),
            timestamp: clock_now(),
            changes: Vec::new(),
            status: TransactionStatus::Pending,
        };
        self.state.current_transaction = Some(transaction);
        Ok(id)
    }

    /// Adds a change to the transaction in progress; refused when there is
    /// none.
    pub fn add_state_change(&mut self, change: StateChange) -> (r: BlastResult<()>)
        ensures
            r is Ok <==> old(self).state_spec().current() is Some,
            r is Ok ==> change_added(*old(self), *final(self), change),
            r matches Err(e) ==> state_error(e, "No transaction in progress"@) && *final(self) == *old(self),
    {
        match self.state.current_transaction.take() {
            Some(mut transaction) => {
                transaction.changes.push(change);
                self.state.current_transaction = Some(transaction);
                Ok(())
            },
            None => Err(BlastError::state("No transaction in progress")),
        }
    }

    /// Commits the transaction in progress: applies its changes in order,
    /// keeps at most the latest `max_history` earlier transactions and
    /// appends this one as committed, and raises the state version. Refused
    /// when no transaction is in progress. Writing the state to its files
    /// is left to the caller.
    pub fn commit_transaction(&mut self) -> (r: BlastResult<()>)
        requires
            old(self).state_spec().current() is Some ==> old(self).state_spec().version_spec() < u32::MAX,
        ensures
            r is Ok <==> old(self).state_spec().current() is Some,
            r is Ok ==> committed(*old(self), *final(self)),
            r is Ok ==> final(self).state_spec().history().len() <= final(self).max_history_spec() + 1,
            r matches Err(e) ==> state_error(e, "No transaction in progress"@) && *final(self) == *old(self),
    {
        let mut transaction = match self.state.current_transaction.take() {
            Some(t) => t,
            None => {
                return Err(BlastError::state("No transaction in progress"));
            },
        };
        let now = clock_now();
        let ghost before = self.state.packages_view();
        let ghost changes = transaction.changes@;
        let mut i: usize = 0;
        while i < transaction.changes.len()
            invariant
                changes == transaction.changes@,
                i <= changes.len(),
                self.state.packages_view() == apply_changes(before, changes.take(i as int), now),
                self.state.history() == old(self).state_spec().history(),
                self.state.current() is None,
                self.state.version_spec() == old(self).state_spec().version_spec(),
                self.state.version_spec() < u32::MAX,
                self.max_history == old(self).max_history,
                self.state_path == old(self).state_path,
                self.backup_dir == old(self).backup_dir,
            decreases changes.len() - i,
        {
            self.state.apply(&transaction.changes[i], now);
            assert(changes.take(i + 1).drop_last() =~= changes.take(i as int));
            i += 1;
        }
        assert(changes.take(changes.len() as int) =~= changes);
        transaction.status = TransactionStatus::Committed;
        let len = self.state.transactions.len();
        if len > self.max_history {
            let kept = self.state.transactions.split_off(len - self.max_history);
            self.state.transactions = kept;
        }
        let ghost kept_before = self.state.transactions@;
        self.state.transactions.push(transaction);
        assert(self.state.transactions@.take(kept_before.len() as int) =~= kept_before);
        self.state.version = self.state.version + 1;
        self.state.last_modified = now;
        Ok(())
    }

    /// Rolls back the transaction in progress; refused when there is none.
    pub fn rollback_transaction(&mut self) -> (r: BlastResult<()>)
        ensures
            r is Ok <==> old(self).state_spec().current() is Some,
            r is Ok ==> rolled_back(*old(self), *final(self)),
            r matches Err(e) ==> state_error(e, "No transaction in progress"@) && *final(self) == *old(self),
    {
        match self.state.current_transaction.take() {
            Some(mut transaction) => {
                transaction.status = TransactionStatus::RolledBack;
                self.state.transactions.push(transaction);
                assert(self.state.transactions@.drop_last() =~= old(self).state.transactions@);
                Ok(())
            },
            None => Err(BlastError::state("No transaction in progress")),
        }
    }

    /// The finished transactions, oldest first.
    pub fn get_transaction_history(&self) -> (r: &Vec<StateTransaction>)
        ensures
            r@ == self.state_spec().history(),
    {
        &self.state.transactions
    }

    /// The current package state.
    pub fn get_current_state(&self) -> (r: &PackageState)
        ensures
            *r == self.state_spec(),
    {
        &self.state
    }
}

/// After a transaction began and was given the first `k` of `changes`, the
/// packages and version are as before it began and the transaction holds
/// exactly those changes.
proof fn lemma_changes_added(steps: Seq<StateManager>, changes: Seq<StateChange>, k: int)
    requires
        steps.len() >= changes.len() + 2,
        0 <= k <= changes.len(),
        began(steps[0], steps[1]),
        forall|i: int|
            0 <= i < changes.len() ==> change_added(steps[i + 1], steps[i + 2], #[trigger] changes[i]),
    ensures
        steps[k + 1].state_spec().packages_view() == steps[0].state_spec().packages_view(),
        steps[k + 1].state_spec().version_spec() == steps[0].state_spec().version_spec(),
        steps[k + 1].state_spec().current() matches Some(t) && t.changes_spec() == changes.take(k),
    decreases k,
{
    if k == 0 {
        assert(changes.take(0) =~= Seq::<StateChange>::empty());
    } else {
        lemma_changes_added(steps, changes, k - 1);
        assert(change_added(steps[k], steps[k + 1], changes[k - 1]));
        assert(changes.take(k) =~= changes.take(k - 1).push(changes[k - 1]));
    }
}

/// A transaction that is begun, given changes and rolled back leaves the
/// packages and the state version as they were before it began.
pub proof fn law_rollback_restores(steps: Seq<StateManager>, changes: Seq<StateChange>)
    requires
        steps.len() == changes.len() + 3,
        began(steps[0], steps[1]),
        forall|i: int|
            0 <= i < changes.len() ==> change_added(steps[i + 1], steps[i + 2], #[trigger] changes[i]),
        rolled_back(steps[changes.len() + 1int], steps[changes.len() + 2int]),
    ensures
        steps.last().state_spec().packages_view() == steps[0].state_spec().packages_view(),
        steps.last().state_spec().version_spec() == steps[0].state_spec().version_spec(),
{
    lemma_changes_added(steps, changes, changes.len() as int);
}

/// Committing a transaction that was begun and given changes applies
/// exactly those changes, in the order they were added, to the packages as
/// they were when it began.
pub proof fn law_commit_applies_changes(steps: Seq<StateManager>, changes: Seq<StateChange>)
    requires
        steps.len() == changes.len() + 3,
        began(steps[0], steps[1]),
        forall|i: int|
            0 <= i < changes.len() ==> change_added(steps[i + 1], steps[i + 2], #[trigger] changes[i]),
        committed(steps[changes.len() + 1int], steps[changes.len() + 2int]),
    ensures
        steps.last().state_spec().packages_view() == apply_changes(
            steps[0].state_spec().packages_view(),
            changes,
            steps.last().state_spec().last_modified_spec(),
        ),
        steps.last().state_spec().version_spec() == steps[0].state_spec().version_spec() + 1,
{
    lemma_changes_added(steps, changes, changes.len() as int);
    assert(changes.take(changes.len() as int) =~= changes);
}


/// What the lines of a METADATA file give, line by line: the version
/// (`Version: `), the Python requirement (`Requires-Python: `) and the
/// dependencies (`Requires-Dist: ` with a name, a space and a constraint;
/// a value with no space is skipped), each value trimmed; a later line
/// replaces the version or Python requirement of an earlier one, and
/// `Name: ` lines and other lines are skipped.
pub open spec fn metadata_of(lines: Seq<Seq<char>>) -> (Seq<char>, Option<Seq<char>>, Seq<DependencyView>)
    decreases lines.len(),
{
    if lines.len() == 0 {
        (Seq::empty(), None, Seq::empty())
    } else {
        let (v, rp, d) = metadata_of(lines.drop_last());
        let l = lines.last();
        if has_prefix(l, "Name: "@) {
            (v, rp, d)
        } else if has_prefix(l, "Version: "@) {
            (trim(l.skip("Version: "@.len() as int)), rp, d)
        } else if has_prefix(l, "Requires-Python: "@) {
            (v, Some(trim(l.skip("Requires-Python: "@.len() as int))), d)
        } else if has_prefix(l, "Requires-Dist: "@) {
            let value = l.skip("Requires-Dist: "@.len() as int);
            match find_from(value, " "@, 0) {
                Some(i) => (
                    v,
                    rp,
                    d.push(
                        DependencyView {
                            name: trim(value.take(i)),
                            version_constraint: trim(value.skip(i + " "@.len())),
                            optional: false,
                            markers: None,
                        },
                    ),
                ),
                None => (v, rp, d),
            }
        } else {
            (v, rp, d)
        }
    }
}

/// The package record read from the text of a METADATA file at `now`: the
/// version, Python requirement and dependencies that `metadata_of` finds,
/// released, installed and updated at `now`, not direct, with no hash, size
/// or source.
pub fn parse_package_metadata(content: &str, now: Timestamp) -> (p: PackageInfo)
    ensures
        ({
            let (v, rp, d) = metadata_of(lines_of(content@));
            p@ == PackageInfoView {
                version: VersionView { version: v, released: now, python_requires: rp, dependencies: d },
                installed_at: now,
                updated_at: now,
                direct: false,
                hash: None,
                size: 0,
                source: Seq::empty(),
            }
        }),
{
    let v = chars_of(content);
    let bounds = line_bounds(&v);
    let ghost lines = lines_of(v@);
    let version_key = chars_of("Version: ");
    let python_key = chars_of("Requires-Python: ");
    let dist_key = chars_of("Requires-Dist: ");
    let mut version = String::new();
    let mut requires_python: Option<String> = None;
    let mut dependencies: Vec<Dependency> = Vec::new();
    let mut k: usize = 0;
    while k < bounds.len()
        invariant
            lines == lines_of(v@),
            v@ == content@,
            version_key@ == "Version: "@,
            python_key@ == "Requires-Python: "@,
            dist_key@ == "Requires-Dist: "@,
            bounds@.len() == lines.len(),
            forall|j: int|
                0 <= j < bounds@.len() ==> (#[trigger] bounds@[j]).0 <= bounds@[j].1 <= v@.len() && v@.subrange(
                    bounds@[j].0 as int,
                    bounds@[j].1 as int,
                ) == lines[j],
            k <= bounds@.len(),
            (version@, opt_view(requires_python), deps_view(dependencies@)) == metadata_of(lines.take(k as int)),
        decreases bounds@.len() - k,
    {
        let (a, b) = bounds[k];
        let line = string_of_range(&v, a, b);
        let lc = chars_of(line.as_str());
        proof {
            assert(lines.take(k + 1).drop_last() =~= lines.take(k as int));
            assert(lines.take(k + 1).last() == lines[k as int]);
        }
        if starts_with(&lc, "Name: ") {
        } else if starts_with(&lc, "Version: ") {
            let rest = string_of_range(&lc, version_key.len(), lc.len());
            version = trim_text(rest.as_str());
        } else if starts_with(&lc, "Requires-Python: ") {
            let rest = string_of_range(&lc, python_key.len(), lc.len());
            requires_python = Some(trim_text(rest.as_str()));
        } else if starts_with(&lc, "Requires-Dist: ") {
            let value = string_of_range(&lc, dist_key.len(), lc.len());
            let vc = chars_of(value.as_str());
            proof {
                assert(vc@ == lc@.skip("Requires-Dist: "@.len() as int));
            }
            match find_text(&vc, " ", 0) {
                Some(i) => {
                    let space = chars_of(" ");
                    let name = trim_text(string_of_range(&vc, 0, i).as_str());
                    let constraint = trim_text(string_of_range(&vc, i + space.len(), vc.len()).as_str());
                    let ghost before = dependencies@;
                    let dep = Dependency { name, version_constraint: constraint, optional: false, markers: None };
                    dependencies.push(dep);
                    proof {
                        assert(vc@.subrange(0, i as int) =~= vc@.take(i as int));
                        assert(vc@.subrange(i + space@.len(), vc@.len() as int) =~= vc@.skip(i + " "@.len()));
                        assert(deps_view(dependencies@) =~= deps_view(before).push(dep@));
                    }
                },
                None => {},
            }
        }
        k += 1;
    }
    assert(lines.take(bounds@.len() as int) =~= lines);
    let info = PackageInfo {
        version: Version { version, released: now, python_requires: requires_python, dependencies },
        installed_at: now,
        updated_at: now,
        direct: false,
        hash: None,
        size: 0,
        source: String::new(),
    };
    info
}

} // verus!
