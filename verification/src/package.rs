//! Packages of an environment: installer settings, scheduling settings, the
//! kinds of changes and steps, and the reading of pip command lines and
//! requirement specifications.

use vstd::prelude::*;
use crate::error::{BlastError, BlastResult};
use crate::strmap::StrMap;
use crate::text::{
    chars_of, find_from, find_text, line_bounds, lines_of, opt_text, push_text, same_text, string_of_range,
    strings_of, texts_of, trim, trim_text,
};
use vstd::string::StringExecFns;

verus! {

/// Package layer status
#[derive(Debug, Clone, Copy, PartialEq, Eq, Structural)]
pub enum PackageLayerStatus {
    /// Layer is idle
    Idle,
    /// Layer is processing operations
    Processing,
    /// Layer has pending operations
    Pending,
    /// Layer has conflicts
    Conflicted,
}

/// A change to the dependency graph
#[derive(Debug)]
pub enum GraphChange {
    NodeAdded { name: String, version: String },
    NodeRemoved { name: String },
    EdgeAdded { from: String, to: String },
    EdgeRemoved { from: String, to: String },
    NodeUpdated { name: String, old_version: String, new_version: String },
}

/// The value of a graph change: its texts.
pub enum GraphChangeView {
    NodeAdded { name: Seq<char>, version: Seq<char> },
    NodeRemoved { name: Seq<char> },
    EdgeAdded { from: Seq<char>, to: Seq<char> },
    EdgeRemoved { from: Seq<char>, to: Seq<char> },
    NodeUpdated { name: Seq<char>, old_version: Seq<char>, new_version: Seq<char> },
}

impl View for GraphChange {
    type V = GraphChangeView;

    open spec fn view(&self) -> GraphChangeView {
        match self {
            GraphChange::NodeAdded { name, version } => GraphChangeView::NodeAdded { name: name@, version: version@ },
            GraphChange::NodeRemoved { name } => GraphChangeView::NodeRemoved { name: name@ },
            GraphChange::EdgeAdded { from, to } => GraphChangeView::EdgeAdded { from: from@, to: to@ },
            GraphChange::EdgeRemoved { from, to } => GraphChangeView::EdgeRemoved { from: from@, to: to@ },
            GraphChange::NodeUpdated { name, old_version, new_version } => GraphChangeView::NodeUpdated {
                name: name@,
                old_version: old_version@,
                new_version: new_version@,
            },
        }
    }
}

impl Clone for GraphChange {
    fn clone(&self) -> (r: Self)
        ensures
            r@ == self@,
    {
        match self {
            GraphChange::NodeAdded { name, version } => GraphChange::NodeAdded { name: name.clone(), version: version.clone() },
            GraphChange::NodeRemoved { name } => GraphChange::NodeRemoved { name: name.clone() },
            GraphChange::EdgeAdded { from, to } => GraphChange::EdgeAdded { from: from.clone(), to: to.clone() },
            GraphChange::EdgeRemoved { from, to } => GraphChange::EdgeRemoved { from: from.clone(), to: to.clone() },
            GraphChange::NodeUpdated { name, old_version, new_version } => GraphChange::NodeUpdated {
                name: name.clone(),
                old_version: old_version.clone(),
                new_version: new_version.clone(),
            },
        }
    }
}

/// Steps of an installation
#[derive(Debug, Clone, Copy, PartialEq, Eq, Structural)]
pub enum InstallationStep {
    Downloading,
    ResolvingDependencies,
    ValidatingGraph,
    Installing,
    ConfiguringPackage,
    UpdatingState,
    Complete,
    Failed,
}

/// Priority of a scheduled operation; earlier variants run first.
#[derive(Debug, Clone, Copy, PartialEq, Eq, Structural, Hash)]
pub enum OperationPriority {
    Critical,
    Security,
    High,
    Normal,
    Low,
    Background,
}

impl Default for OperationPriority {
    fn default() -> (p: Self)
        ensures
            p == OperationPriority::Normal,
    {
        OperationPriority::Normal
    }
}

/// Kind of a scheduled operation
#[derive(Debug, Clone, Copy, PartialEq, Eq, Structural, Hash)]
pub enum OperationType {
    Install,
    Uninstall,
    Update,
    DependencyResolution,
    StateUpdate,
    GraphValidation,
}

/// Scheduler settings; the timeouts are in seconds.
#[derive(Debug)]
pub struct SchedulerConfig {
    pub max_concurrent_ops: usize,
    pub ops_per_minute: usize,
    pub max_queue_size: usize,
    pub operation_timeouts: Vec<(OperationType, u64)>,
    pub priority_overrides: StrMap<OperationPriority>,
    pub allow_reordering: bool,
}

impl Default for SchedulerConfig {
    fn default() -> (c: Self)
        ensures
            c.max_concurrent_ops == 3,
            c.ops_per_minute == 30,
            c.max_queue_size == 1000,
            c.operation_timeouts@ == seq![
                (OperationType::Install, 300u64),
                (OperationType::Uninstall, 180u64),
                (OperationType::Update, 300u64),
                (OperationType::DependencyResolution, 120u64),
                (OperationType::StateUpdate, 60u64),
                (OperationType::GraphValidation, 60u64),
            ],
            c.priority_overrides@ == Map::<Seq<char>, OperationPriority>::empty(),
            c.allow_reordering,
    {
        let mut t = Vec::new();
        t.push((OperationType::Install, 300u64));
        t.push((OperationType::Uninstall, 180u64));
        t.push((OperationType::Update, 300u64));
        t.push((OperationType::DependencyResolution, 120u64));
        t.push((OperationType::StateUpdate, 60u64));
        t.push((OperationType::GraphValidation, 60u64));
        let c = SchedulerConfig {
            max_concurrent_ops: 3,
            ops_per_minute: 30,
            max_queue_size: 1000,
            operation_timeouts: t,
            priority_overrides: StrMap::new(),
            allow_reordering: true,
        };
        assert(c.operation_timeouts@ =~= seq![
            (OperationType::Install, 300u64),
            (OperationType::Uninstall, 180u64),
            (OperationType::Update, 300u64),
            (OperationType::DependencyResolution, 120u64),
            (OperationType::StateUpdate, 60u64),
            (OperationType::GraphValidation, 60u64),
        ]);
        c
    }
}

/// Queue statistics
pub struct QueueStatistics {
    pub queued_operations: usize,
    pub active_operations: usize,
    pub operations_by_priority: Vec<(OperationPriority, usize)>,
    pub operations_by_type: Vec<(OperationType, usize)>,
}

/// Status of a state transaction
#[derive(Debug, Clone, PartialEq, Eq)]
pub enum TransactionStatus {
    Pending,
    Committed,
    RolledBack,
    Failed(String),
}

/// A change recorded by a state transaction
#[derive(Debug, Clone)]
pub enum StateChange {
    PackageAdded { name: String, version: String, dependencies: Vec<String> },
    PackageRemoved { name: String },
    PackageUpdated { name: String, old_version: String, new_version: String, dependencies: Vec<String> },
}

/// A dependency of a package
#[derive(Debug)]
pub struct Dependency {
    pub name: String,
    pub version_constraint: String,
    pub optional: bool,
    pub markers: Option<String>,
}

/// The value of a dependency: its texts.
pub struct DependencyView {
    pub name: Seq<char>,
    pub version_constraint: Seq<char>,
    pub optional: bool,
    pub markers: Option<Seq<char>>,
}

impl View for Dependency {
    type V = DependencyView;

    open spec fn view(&self) -> DependencyView {
        DependencyView {
            name: self.name@,
            version_constraint: self.version_constraint@,
            optional: self.optional,
            markers: opt_view(self.markers),
        }
    }
}

impl Clone for Dependency {
    fn clone(&self) -> (r: Self)
        ensures
            r@ == self@,
    {
        Dependency {
            name: self.name.clone(),
            version_constraint: self.version_constraint.clone(),
            optional: self.optional,
            markers: self.markers.clone(),
        }
    }
}

/// Installer settings; the cache lifetime is in seconds.
#[derive(Debug, Clone)]
pub struct PackageConfig {
    pub python_version: String,
    pub env_path: String,
    pub index_url: String,
    pub extra_index_urls: Vec<String>,
    pub trusted_hosts: Vec<String>,
    pub require_hashes: bool,
    pub allow_prereleases: bool,
    pub cache_dir: String,
    pub cache_ttl: u64,
}

impl Default for PackageConfig {
    fn default() -> (c: Self)
        ensures
            c.python_version@ == "3.9"@,
            c.env_path@ == "/var/lib/blast/environments"@,
            c.index_url@ == "https://pypi.org/simple"@,
            c.extra_index_urls@.len() == 0,
            texts_of(c.trusted_hosts@) == seq!["pypi.org"@],
            c.require_hashes,
            !c.allow_prereleases,
            c.cache_dir@ == "/var/lib/blast/cache"@,
            c.cache_ttl == 86400,
    {
        let c = PackageConfig {
            python_version: String::from_str("3.9"),
            env_path: String::from_str("/var/lib/blast/environments"),
            index_url: String::from_str("https://pypi.org/simple"),
            extra_index_urls: Vec::new(),
            trusted_hosts: strings_of(&["pypi.org"]),
            require_hashes: true,
            allow_prereleases: false,
            cache_dir: String::from_str("/var/lib/blast/cache"),
            cache_ttl: 86400,
        };
        assert(texts_of(c.trusted_hosts@) =~= seq!["pypi.org"@]);
        c
    }
}

/// Package installer
pub struct PackageInstaller {
    config: PackageConfig,
}

impl PackageInstaller {
    /// The settings of the installer.
    pub closed spec fn config(&self) -> PackageConfig {
        self.config
    }

    /// Create new package installer
    pub fn new(config: PackageConfig) -> (i: Self)
        ensures
            i.config() == config,
    {
        PackageInstaller { config }
    }
}

// ---------------------------------------------------------------------------
// pip command lines
// ---------------------------------------------------------------------------

/// A pip command
pub enum PipOperation {
    /// Install packages
    Install {
        packages: Vec<String>,
        upgrade: bool,
        editable: bool,
        requirements: Option<String>,
        constraints: Option<String>,
    },
    /// Uninstall packages
    Uninstall { packages: Vec<String> },
    /// List packages
    List { outdated: bool },
    /// Show package info
    Show { packages: Vec<String> },
    /// Download packages
    Download { packages: Vec<String>, dest: Option<String> },
    /// Config operations
    Config { action: String, options: StrMap<String> },
}

/// An option argument: it starts with `-`.
pub open spec fn is_option(a: Seq<char>) -> bool {
    a.len() > 0 && a[0] == '-'
}

/// An option with its value written into it (`--name=value`).
pub open spec fn option_with_value(a: Seq<char>) -> bool {
    is_option(a) && a.contains('=')
}

/// What an `install` command line says from position `i` on: the packages
/// named, whether `-U`/`--upgrade` and `-e`/`--editable` occur, and the
/// last requirements (`-r`/`--requirement`) and constraints
/// (`-c`/`--constraint`) files given. Other options are skipped.
pub open spec fn install_scan(args: Seq<Seq<char>>, i: int) -> (
    Seq<Seq<char>>,
    bool,
    bool,
    Option<Seq<char>>,
    Option<Seq<char>>,
)
    decreases args.len() + 1 - i,
{
    if i < 0 || i >= args.len() {
        (Seq::empty(), false, false, None, None)
    } else {
        let a = args[i];
        if a == "-U"@ || a == "--upgrade"@ {
            let r = install_scan(args, i + 1);
            (r.0, true, r.2, r.3, r.4)
        } else if a == "-e"@ || a == "--editable"@ {
            let r = install_scan(args, i + 1);
            (r.0, r.1, true, r.3, r.4)
        } else if a == "-r"@ || a == "--requirement"@ {
            let r = install_scan(args, i + 2);
            let req = if r.3 is Some || i + 1 >= args.len() {
                r.3
            } else {
                Some(args[i + 1])
            };
            (r.0, r.1, r.2, req, r.4)
        } else if a == "-c"@ || a == "--constraint"@ {
            let r = install_scan(args, i + 2);
            let con = if r.4 is Some || i + 1 >= args.len() {
                r.4
            } else {
                Some(args[i + 1])
            };
            (r.0, r.1, r.2, r.3, con)
        } else if is_option(a) {
            install_scan(args, i + 1)
        } else {
            let r = install_scan(args, i + 1);
            (seq![a] + r.0, r.1, r.2, r.3, r.4)
        }
    }
}

/// Whether the `install` scan from `i` meets an option with a value written
/// into it, on which the scan makes no progress.
pub open spec fn install_stalls(args: Seq<Seq<char>>, i: int) -> bool
    decreases args.len() + 1 - i,
{
    if i < 0 || i >= args.len() {
        false
    } else {
        let a = args[i];
        if a == "-U"@ || a == "--upgrade"@ || a == "-e"@ || a == "--editable"@ {
            install_stalls(args, i + 1)
        } else if a == "-r"@ || a == "--requirement"@ || a == "-c"@ || a == "--constraint"@ {
            install_stalls(args, i + 2)
        } else if option_with_value(a) {
            true
        } else {
            install_stalls(args, i + 1)
        }
    }
}

/// What a `download` command line says from position `i` on: the packages
/// named and the last destination (`-d`/`--dest`) given.
pub open spec fn download_scan(args: Seq<Seq<char>>, i: int) -> (Seq<Seq<char>>, Option<Seq<char>>)
    decreases args.len() + 1 - i,
{
    if i < 0 || i >= args.len() {
        (Seq::empty(), None)
    } else {
        let a = args[i];
        if a == "-d"@ || a == "--dest"@ {
            let r = download_scan(args, i + 2);
            let dest = if r.1 is Some || i + 1 >= args.len() {
                r.1
            } else {
                Some(args[i + 1])
            };
            (r.0, dest)
        } else if is_option(a) {
            download_scan(args, i + 1)
        } else {
            let r = download_scan(args, i + 1);
            (seq![a] + r.0, r.1)
        }
    }
}

/// Whether the `download` scan from `i` meets an option with a value
/// written into it.
pub open spec fn download_stalls(args: Seq<Seq<char>>, i: int) -> bool
    decreases args.len() + 1 - i,
{
    if i < 0 || i >= args.len() {
        false
    } else {
        let a = args[i];
        if a == "-d"@ || a == "--dest"@ {
            download_stalls(args, i + 2)
        } else if option_with_value(a) {
            true
        } else {
            download_stalls(args, i + 1)
        }
    }
}

/// The arguments from position `i` on that are not options.
pub open spec fn non_options(args: Seq<Seq<char>>, i: int) -> Seq<Seq<char>>
    decreases args.len() - i,
{
    if i < 0 || i >= args.len() {
        Seq::empty()
    } else if is_option(args[i]) {
        non_options(args, i + 1)
    } else {
        seq![args[i]] + non_options(args, i + 1)
    }
}

/// The `key=value` settings among the arguments from position `i` on, split
/// at the first `=`; a later key overrides an earlier one.
pub open spec fn config_options(args: Seq<Seq<char>>, i: int) -> Map<Seq<char>, Seq<char>>
    decreases args.len() - i,
{
    if i < 0 || i >= args.len() {
        Map::empty()
    } else {
        let rest = config_options(args, i + 1);
        let a = args[i];
        match find_from(a, "="@, 0) {
            Some(k) => if rest.contains_key(a.subrange(0, k)) {
                rest
            } else {
                rest.insert(a.subrange(0, k), a.subrange(k + 1, a.len() as int))
            },
            None => rest,
        }
    }
}

/// A pip command line the parser reads: not an `install` or `download`
/// line with an option that has a value written into it (the scan would not
/// advance past it), and not a bare `config` (it needs an action).
pub open spec fn pip_args_readable(args: Seq<Seq<char>>) -> bool {
    args.len() > 0 ==> {
        &&& args[0] == "install"@ ==> !install_stalls(args, 1)
        &&& args[0] == "download"@ ==> !download_stalls(args, 1)
        &&& args[0] == "config"@ ==> args.len() >= 2
    }
}

/// The option texts of a string option.
pub open spec fn opt_view(o: Option<String>) -> Option<Seq<char>> {
    match o {
        Some(s) => Some(s@),
        None => None,
    }
}

/// Whether `a` has the text `t`.
fn is_text(a: &String, t: &str) -> (b: bool)
    ensures
        b == (a@ == t@),
{
    same_text(a.as_str(), t)
}

/// Whether `a` starts with `-`.
fn is_option_arg(a: &String) -> (b: bool)
    ensures
        b == is_option(a@),
{
    let v = chars_of(a.as_str());
    v.len() > 0 && v[0] == '-'
}

/// The non-option arguments from position `i` on.
fn collect_non_options(args: &Vec<String>, i: usize) -> (r: Vec<String>)
    requires
        i <= args@.len(),
    ensures
        texts_of(r@) == non_options(texts_of(args@), i as int),
    decreases args@.len() - i,
{
    if i >= args.len() {
        return Vec::new();
    }
    let rest = collect_non_options(args, i + 1);
    proof {
        assert(texts_of(args@)[i as int] == args@[i as int]@);
    }
    if is_option_arg(&args[i]) {
        rest
    } else {
        let mut r = Vec::new();
        r.push(args[i].clone());
        let mut rest = rest;
        r.append(&mut rest);
        assert(texts_of(r@) =~= seq![args@[i as int]@] + non_options(texts_of(args@), i + 1));
        r
    }
}

impl PipOperation {
    /// Reads the install part of a command line from position `i` on.
    fn scan_install(args: &Vec<String>, i: usize) -> (r: (Vec<String>, bool, bool, Option<String>, Option<String>))
        requires
            i <= args@.len() + 1,
            !install_stalls(texts_of(args@), i as int),
        ensures
            (texts_of(r.0@), r.1, r.2, opt_view(r.3), opt_view(r.4)) == install_scan(texts_of(args@), i as int),
        decreases args@.len() + 1 - i,
    {
        if i >= args.len() {
            let e: Vec<String> = Vec::new();
            assert(texts_of(e@) =~= Seq::<Seq<char>>::empty());
            return (e, false, false, None, None);
        }
        let ghost t = texts_of(args@);
        assert(t[i as int] == args@[i as int]@);
        let a = &args[i];
        proof {
            assert(install_scan(t, args@.len() as int) == install_scan(t, args@.len() + 1 as int));
        }
        if is_text(a, "-U") || is_text(a, "--upgrade") {
            let r = Self::scan_install(args, i + 1);
            (r.0, true, r.2, r.3, r.4)
        } else if is_text(a, "-e") || is_text(a, "--editable") {
            let r = Self::scan_install(args, i + 1);
            (r.0, r.1, true, r.3, r.4)
        } else if is_text(a, "-r") || is_text(a, "--requirement") {
            let next = if i + 1 < args.len() {
                i + 2
            } else {
                args.len()
            };
            let r = Self::scan_install(args, next);
            let req = if r.3.is_some() || i + 1 >= args.len() {
                r.3
            } else {
                assert(t[i + 1] == args@[i + 1]@);
                Some(args[i + 1].clone())
            };
            (r.0, r.1, r.2, req, r.4)
        } else if is_text(a, "-c") || is_text(a, "--constraint") {
            let next = if i + 1 < args.len() {
                i + 2
            } else {
                args.len()
            };
            let r = Self::scan_install(args, next);
            let con = if r.4.is_some() || i + 1 >= args.len() {
                r.4
            } else {
                assert(t[i + 1] == args@[i + 1]@);
                Some(args[i + 1].clone())
            };
            (r.0, r.1, r.2, r.3, con)
        } else if is_option_arg(a) {
            Self::scan_install(args, i + 1)
        } else {
            let r = Self::scan_install(args, i + 1);
            let mut p = Vec::new();
            p.push(a.clone());
            let mut rest = r.0;
            p.append(&mut rest);
            assert(texts_of(p@) =~= seq![a@] + install_scan(t, i + 1).0);
            (p, r.1, r.2, r.3, r.4)
        }
    }

    /// Reads the download part of a command line from position `i` on.
    fn scan_download(args: &Vec<String>, i: usize) -> (r: (Vec<String>, Option<String>))
        requires
            i <= args@.len() + 1,
            !download_stalls(texts_of(args@), i as int),
        ensures
            (texts_of(r.0@), opt_view(r.1)) == download_scan(texts_of(args@), i as int),
        decreases args@.len() + 1 - i,
    {
        if i >= args.len() {
            let e: Vec<String> = Vec::new();
            assert(texts_of(e@) =~= Seq::<Seq<char>>::empty());
            return (e, None);
        }
        let ghost t = texts_of(args@);
        assert(t[i as int] == args@[i as int]@);
        let a = &args[i];
        proof {
            assert(download_scan(t, args@.len() as int) == download_scan(t, args@.len() + 1 as int));
        }
        if is_text(a, "-d") || is_text(a, "--dest") {
            let next = if i + 1 < args.len() {
                i + 2
            } else {
                args.len()
            };
            let r = Self::scan_download(args, next);
            let dest = if r.1.is_some() || i + 1 >= args.len() {
                r.1
            } else {
                assert(t[i + 1] == args@[i + 1]@);
                Some(args[i + 1].clone())
            };
            (r.0, dest)
        } else if is_option_arg(a) {
            Self::scan_download(args, i + 1)
        } else {
            let r = Self::scan_download(args, i + 1);
            let mut p = Vec::new();
            p.push(a.clone());
            let mut rest = r.0;
            p.append(&mut rest);
            assert(texts_of(p@) =~= seq![a@] + download_scan(t, i + 1).0);
            (p, r.1)
        }
    }

    /// Reads the `key=value` settings from position `i` on.
    fn scan_config(args: &Vec<String>, i: usize) -> (m: StrMap<String>)
        requires
            i <= args@.len(),
        ensures
            m@.dom() == config_options(texts_of(args@), i as int).dom(),
            forall|k: Seq<char>| #[trigger] m@.contains_key(k) ==> m@[k]@ == config_options(texts_of(args@), i as int)[k],
        decreases args@.len() - i,
    {
        if i >= args.len() {
            let m = StrMap::new();
            assert(m@.dom() =~= config_options(texts_of(args@), i as int).dom());
            return m;
        }
        let mut m = Self::scan_config(args, i + 1);
        let ghost t = texts_of(args@);
        let ghost rest = config_options(t, i + 1);
        assert(t[i as int] == args@[i as int]@);
        let v = chars_of(args[i].as_str());
        match find_text(&v, "=", 0) {
            Some(k) => {
                proof {
                    reveal_strlit("=");
                }
                assert("="@.len() == 1);
                let n = v.len();
                assert(k + 1 <= n);
                let key = string_of_range(&v, 0, k);
                let value = string_of_range(&v, k + 1, v.len());
                if !m.contains_key(key.as_str()) {
                    m.insert(key, value);
                }
                assert(m@.dom() =~= config_options(t, i as int).dom());
            },
            None => {},
        }
        m
    }

    /// Parse pip command arguments
    pub fn parse(args: &Vec<String>) -> (r: BlastResult<PipOperation>)
        requires
            pip_args_readable(texts_of(args@)),
        ensures
            args@.len() == 0 ==> (r matches Err(e) && e matches BlastError::Package(m) && m@ == "No pip arguments provided"@),
            args@.len() > 0 ==> ({
                let t = texts_of(args@);
                let cmd = t[0];
                if cmd == "install"@ {
                    r matches Ok(PipOperation::Install { packages, upgrade, editable, requirements, constraints })
                        && (texts_of(packages@), upgrade, editable, opt_view(requirements), opt_view(constraints))
                        == install_scan(t, 1)
                } else if cmd == "uninstall"@ {
                    r matches Ok(PipOperation::Uninstall { packages }) && texts_of(packages@) == non_options(t, 1)
                } else if cmd == "list"@ {
                    r matches Ok(PipOperation::List { outdated }) && outdated == t.contains("--outdated"@)
                } else if cmd == "show"@ {
                    r matches Ok(PipOperation::Show { packages }) && texts_of(packages@) == non_options(t, 1)
                } else if cmd == "download"@ {
                    r matches Ok(PipOperation::Download { packages, dest }) && (texts_of(packages@), opt_view(dest))
                        == download_scan(t, 1)
                } else if cmd == "config"@ {
                    r matches Ok(PipOperation::Config { action, options }) && action@ == t[1]
                        && options@.dom() == config_options(t, 2).dom()
                        && forall|k: Seq<char>| #[trigger] options@.contains_key(k) ==> options@[k]@ == config_options(t, 2)[k]
                } else {
                    r matches Err(e) && e matches BlastError::Package(m) && m@ == "Unsupported pip command: "@ + cmd
                }
            }),
    {
        if args.len() == 0 {
            return Err(BlastError::package("No pip arguments provided"));
        }
        let ghost t = texts_of(args@);
        assert(t[0] == args@[0]@);
        let cmd = &args[0];
        if is_text(cmd, "install") {
            let r = Self::scan_install(args, 1);
            Ok(PipOperation::Install { packages: r.0, upgrade: r.1, editable: r.2, requirements: r.3, constraints: r.4 })
        } else if is_text(cmd, "uninstall") {
            Ok(PipOperation::Uninstall { packages: collect_non_options(args, 1) })
        } else if is_text(cmd, "list") {
            let mut outdated = false;
            let mut i: usize = 0;
            while i < args.len()
                invariant
                    i <= args@.len(),
                    t == texts_of(args@),
                    outdated == (exists|j: int| 0 <= j < i && t[j] == "--outdated"@),
                decreases args@.len() - i,
            {
                assert(t[i as int] == args@[i as int]@);
                if is_text(&args[i], "--outdated") {
                    outdated = true;
                }
                i += 1;
            }
            Ok(PipOperation::List { outdated })
        } else if is_text(cmd, "show") {
            Ok(PipOperation::Show { packages: collect_non_options(args, 1) })
        } else if is_text(cmd, "download") {
            let r = Self::scan_download(args, 1);
            Ok(PipOperation::Download { packages: r.0, dest: r.1 })
        } else if is_text(cmd, "config") {
            assert(t[1] == args@[1]@);
            let action = args[1].clone();
            Ok(PipOperation::Config { action, options: Self::scan_config(args, 2) })
        } else {
            let mut m = String::from_str("Unsupported pip command: ");
            push_text(&mut m, cmd.as_str());
            Err(BlastError::Package(m))
        }
    }
}

// ---------------------------------------------------------------------------
// Requirement specifications
// ---------------------------------------------------------------------------

/// The version operators, in the order they are looked for.
pub open spec fn version_operators() -> Seq<Seq<char>> {
    seq!["=="@, ">="@, "<="@, "!="@, "~="@, ">"@, "<"@]
}

/// The first operator (in `version_operators` order) from position `k` on
/// that occurs in `spec`, with its first position.
pub open spec fn first_operator(spec: Seq<char>, k: int) -> Option<(int, int)>
    decreases 7 - k,
{
    if k < 0 || k >= 7 {
        None
    } else {
        match find_from(spec, version_operators()[k], 0) {
            Some(p) => Some((k, p)),
            None => first_operator(spec, k + 1),
        }
    }
}

/// What a requirement specification names: the package (trimmed text
/// before the first operator found) and its constraint (the operator
/// followed by the trimmed version); a package with no constraint when no
/// operator occurs and the text has no whitespace; nothing otherwise.
pub open spec fn package_spec(spec: Seq<char>) -> Option<(Seq<char>, Option<Seq<char>>)> {
    match first_operator(spec, 0) {
        Some((k, p)) => {
            let op = version_operators()[k];
            Some((trim(spec.subrange(0, p)), Some(op + trim(spec.subrange(p + op.len(), spec.len() as int)))))
        },
        None => if exists|i: int| 0 <= i < spec.len() && crate::text::char_is_whitespace(#[trigger] spec[i]) {
            None
        } else {
            Some((spec, None))
        },
    }
}

/// A character that can be part of a version operator.
pub open spec fn operator_char(c: char) -> bool {
    c == '=' || c == '<' || c == '>' || c == '!' || c == '~'
}

/// No character of `s` can be part of a version operator.
pub open spec fn free_of_operators(s: Seq<char>) -> bool {
    forall|i: int| 0 <= i < s.len() ==> !operator_char(#[trigger] s[i])
}

/// Where nothing in `s` from `from` on matches `p`, it is not found.
proof fn lemma_find_none(s: Seq<char>, p: Seq<char>, from: int)
    requires
        0 <= from,
        forall|q: int| from <= q && q + p.len() <= s.len() ==> #[trigger] s.subrange(q, q + p.len()) != p,
    ensures
        find_from(s, p, from) is None,
    decreases s.len() + 1 - from,
{
    if from + p.len() <= s.len() {
        lemma_find_none(s, p, from + 1);
    }
}

/// Where `p` first matches at `m` from `from` on, it is found there.
proof fn lemma_find_at(s: Seq<char>, p: Seq<char>, from: int, m: int)
    requires
        0 <= from <= m,
        m + p.len() <= s.len(),
        s.subrange(m, m + p.len()) == p,
        forall|q: int| from <= q < m ==> #[trigger] s.subrange(q, q + p.len()) != p,
    ensures
        find_from(s, p, from) == Some(m),
    decreases m - from,
{
    if from < m {
        lemma_find_at(s, p, from + 1, m);
    }
}

/// In `name + op + version`, where only `op` has operator characters, a
/// text of operator characters can only match inside `op`.
proof fn lemma_operator_inside(name: Seq<char>, op: Seq<char>, version: Seq<char>, o: Seq<char>, q: int)
    requires
        free_of_operators(name),
        free_of_operators(version),
        o.len() >= 1,
        forall|i: int| 0 <= i < o.len() ==> operator_char(#[trigger] o[i]),
        0 <= q,
        q + o.len() <= (name + op + version).len(),
        (name + op + version).subrange(q, q + o.len()) == o,
    ensures
        name.len() <= q,
        q + o.len() <= name.len() + op.len(),
        op.subrange(q - name.len(), q - name.len() + o.len()) == o,
{
    let s = name + op + version;
    let nl = name.len() as int;
    assert(s[q] == o[0]);
    assert(operator_char(o[0]));
    if q < nl {
        assert(s[q] == name[q]);
    }
    let last = q + o.len() - 1;
    assert(s[last] == o[o.len() - 1]);
    assert(operator_char(o[o.len() - 1]));
    if last >= nl + op.len() {
        assert(s[last] == version[last - nl - op.len()]);
    }
    assert forall|t: int| 0 <= t < o.len() implies op[q - nl + t] == o[t] by {
        assert(s[q + t] == o[t]);
    }
    assert(op.subrange(q - nl, q - nl + o.len()) =~= o);
}

/// From `k` down to `j`, the first operator found in `s` is the one at `k`,
/// found at `m`, where none before it is found.
proof fn lemma_first_operator_is(s: Seq<char>, j: int, k: int, m: int)
    requires
        0 <= j <= k < 7,
        forall|i: int| j <= i < k ==> (#[trigger] find_from(s, version_operators()[i], 0)) is None,
        find_from(s, version_operators()[k], 0) == Some(m),
    ensures
        first_operator(s, j) == Some((k, m)),
    decreases k - j,
{
    if j < k {
        lemma_first_operator_is(s, j + 1, k, m);
    }
}

/// A requirement made of a package name, a version operator and a version,
/// where neither the name nor the version holds an operator character, reads
/// as the trimmed name constrained by the operator and the trimmed version:
/// every operator is recognised, the compatible-release `~=` among them, and
/// the split falls where the operator stands.
pub proof fn law_spec_splits_at_its_operator(name: Seq<char>, op: Seq<char>, version: Seq<char>)
    requires
        op == "=="@ || op == ">="@ || op == "<="@ || op == "!="@ || op == "~="@ || op == ">"@ || op == "<"@,
        free_of_operators(name),
        free_of_operators(version),
    ensures
        package_spec(name + op + version) == Some((trim(name), Some(op + trim(version)))),
{
    reveal_strlit("==");
    reveal_strlit(">=");
    reveal_strlit("<=");
    reveal_strlit("!=");
    reveal_strlit("~=");
    reveal_strlit(">");
    reveal_strlit("<");
    let s = name + op + version;
    let nl = name.len() as int;
    let ops = version_operators();
    let k: int = if op == "=="@ {
        0
    } else if op == ">="@ {
        1
    } else if op == "<="@ {
        2
    } else if op == "!="@ {
        3
    } else if op == "~="@ {
        4
    } else if op == ">"@ {
        5
    } else {
        6
    };
    assert(ops[k] == op);
    assert forall|i: int| 0 <= i < 7 implies #[trigger] ops[i].len() >= 1 && forall|t: int|
        0 <= t < ops[i].len() ==> operator_char(#[trigger] ops[i][t]) by {}
    // The operator itself first matches where it stands.
    assert(s.subrange(nl, nl + op.len()) =~= op);
    assert forall|q: int| 0 <= q < nl implies #[trigger] s.subrange(q, q + op.len()) != op by {
        if s.subrange(q, q + op.len()) == op {
            lemma_operator_inside(name, op, version, op, q);
        }
    }
    lemma_find_at(s, op, 0, nl);
    // No operator listed before it matches anywhere.
    assert forall|i: int| 0 <= i < k implies (#[trigger] find_from(s, ops[i], 0)) is None by {
        let o = ops[i];
        assert(o.len() >= op.len());
        assert(o != op);
        assert forall|q: int| 0 <= q && q + o.len() <= s.len() implies #[trigger] s.subrange(q, q + o.len()) != o by {
            if s.subrange(q, q + o.len()) == o {
                lemma_operator_inside(name, op, version, o, q);
                assert(op.subrange(0, op.len() as int) =~= op);
            }
        }
        lemma_find_none(s, o, 0);
    }
    lemma_first_operator_is(s, 0, k, nl);
    assert(s.subrange(0, nl) =~= name);
    assert(s.subrange(nl + op.len(), s.len() as int) =~= version);
}

/// Reads a requirement specification such as `name==1.0` (see `package_spec`).
pub fn parse_package_spec(spec: &str) -> (r: Option<(String, Option<String>)>)
    ensures
        match package_spec(spec@) {
            Some((n, c)) => r matches Some(p) && p.0@ == n && opt_view(p.1) == c,
            None => r is None,
        },
{
    let v = chars_of(spec);
    let ops: [&str; 7] = ["==", ">=", "<=", "!=", "~=", ">", "<"];
    let mut k: usize = 0;
    while k < 7
        invariant
            k <= 7,
            v@ == spec@,
            ops@.len() == 7,
            forall|j: int| 0 <= j < 7 ==> (#[trigger] ops@[j])@ == version_operators()[j],
            first_operator(spec@, 0) == first_operator(spec@, k as int),
        decreases 7 - k,
    {
        let op = ops[k];
        match find_text(&v, op, 0) {
            Some(p) => {
                proof {
                    assert(op@ == version_operators()[k as int]);
                }
                let name = trim_text(string_of_range(&v, 0, p).as_str());
                let mut c = String::from_str(op);
                let ol = op.unicode_len();
                assert(p + ol <= v@.len());
                let after = trim_text(string_of_range(&v, p + ol, v.len()).as_str());
                push_text(&mut c, after.as_str());
                return Some((name, Some(c)));
            },
            None => {
                proof {
                    assert(op@ == version_operators()[k as int]);
                }
            },
        }
        k += 1;
    }
    proof {
        reveal_strlit("==");
        reveal_strlit(">=");
        reveal_strlit("<=");
        reveal_strlit("!=");
        reveal_strlit("~=");
        reveal_strlit(">");
        reveal_strlit("<");
    }
    assert(first_operator(spec@, 7) is None);
    let mut i: usize = 0;
    while i < v.len()
        invariant
            i <= v@.len(),
            v@ == spec@,
            first_operator(spec@, 0) is None,
            forall|j: int| 0 <= j < i ==> !crate::text::char_is_whitespace(#[trigger] v@[j]),
        decreases v@.len() - i,
    {
        if crate::text::is_whitespace(v[i]) {
            assert(crate::text::char_is_whitespace(spec@[i as int]));
            return None;
        }
        i += 1;
    }
    Some((String::from_str(spec), None))
}

/// The requirements of a requirements file: each line that is not blank or
/// a comment and names a package.
pub open spec fn requirements_of(lines: Seq<Seq<char>>) -> Seq<(Seq<char>, Option<Seq<char>>)>
    decreases lines.len(),
{
    if lines.len() == 0 {
        Seq::empty()
    } else {
        let r = requirements_of(lines.drop_last());
        let t = trim(lines.last());
        if t.len() == 0 || t[0] == '#' {
            r
        } else {
            match package_spec(t) {
                Some(p) => r.push(p),
                None => r,
            }
        }
    }
}

/// The requirements read from the text of a requirements file (see
/// `requirements_of`).
pub fn parse_requirements(content: &str) -> (r: Vec<(String, Option<String>)>)
    ensures
        r@.map_values(|p: (String, Option<String>)| (p.0@, opt_view(p.1))) == requirements_of(lines_of(content@)),
{
    let v = chars_of(content);
    let bounds = line_bounds(&v);
    let ghost lines = lines_of(v@);
    let mut r: Vec<(String, Option<String>)> = Vec::new();
    let mut k: usize = 0;
    while k < bounds.len()
        invariant
            lines == lines_of(v@),
            v@ == content@,
            bounds@.len() == lines.len(),
            forall|j: int|
                0 <= j < bounds@.len() ==> (#[trigger] bounds@[j]).0 <= bounds@[j].1 <= v@.len() && v@.subrange(
                    bounds@[j].0 as int,
                    bounds@[j].1 as int,
                ) == lines[j],
            k <= bounds@.len(),
            r@.map_values(|p: (String, Option<String>)| (p.0@, opt_view(p.1))) == requirements_of(lines.take(k as int)),
        decreases bounds@.len() - k,
    {
        let (a, b) = bounds[k];
        let t = trim_text(string_of_range(&v, a, b).as_str());
        let tv = chars_of(t.as_str());
        proof {
            assert(lines.take(k + 1).drop_last() =~= lines.take(k as int));
            assert(lines.take(k + 1).last() == lines[k as int]);
        }
        if tv.len() == 0 || tv[0] == '#' {
        } else {
            match parse_package_spec(t.as_str()) {
                Some(p) => {
                    let ghost before = r@;
                    r.push(p);
                    assert(r@.map_values(|p: (String, Option<String>)| (p.0@, opt_view(p.1))) =~= before.map_values(
                        |p: (String, Option<String>)| (p.0@, opt_view(p.1)),
                    ).push((r@.last().0@, opt_view(r@.last().1))));
                },
                None => {},
            }
        }
        k += 1;
    }
    assert(lines.take(bounds@.len() as int) =~= lines);
    r
}

// ---------------------------------------------------------------------------
// pip commands seen by a package layer
// ---------------------------------------------------------------------------

/// A package change requested by a pip command line.
#[derive(Debug, Clone)]
pub enum PipRequest {
    /// Install `name`, at `version` when given as `name==version`
    Install { name: String, version: Option<String> },
    /// Uninstall `name`
    Uninstall { name: String },
}

/// The first package named after `install`, from position `i` on: options
/// are skipped; `name==version` gives both parts.
pub open spec fn install_target(args: Seq<Seq<char>>, i: int) -> Option<(Seq<char>, Option<Seq<char>>)>
    decreases args.len() - i,
{
    if i < 0 || i >= args.len() {
        None
    } else if is_option(args[i]) {
        install_target(args, i + 1)
    } else {
        let a = args[i];
        match find_from(a, "=="@, 0) {
            Some(p) => Some((a.subrange(0, p), Some(a.subrange(p + 2, a.len() as int)))),
            None => Some((a, None)),
        }
    }
}

/// The change a pip command line asks a package layer for: the first
/// package of an `install`; the package right after `uninstall` or
/// `remove` unless it is an option; nothing for other commands.
pub open spec fn pip_request_spec(args: Seq<Seq<char>>) -> Option<(bool, Seq<char>, Option<Seq<char>>)> {
    if args.len() == 0 {
        None
    } else if args[0] == "install"@ {
        match install_target(args, 1) {
            Some((n, v)) => Some((true, n, v)),
            None => None,
        }
    } else if args[0] == "uninstall"@ || args[0] == "remove"@ {
        if args.len() > 1 && !is_option(args[1]) {
            Some((false, args[1], None))
        } else {
            None
        }
    } else {
        None
    }
}

/// The request as texts: whether it installs, the package, the version.
pub open spec fn request_view(r: PipRequest) -> (bool, Seq<char>, Option<Seq<char>>) {
    match r {
        PipRequest::Install { name, version } => (true, name@, opt_view(version)),
        PipRequest::Uninstall { name } => (false, name@, None),
    }
}

impl PipRequest {
    /// The change the pip command line `args` asks for (see
    /// `pip_request_spec`).
    pub fn from_args(args: &Vec<String>) -> (r: Option<PipRequest>)
        ensures
            match pip_request_spec(texts_of(args@)) {
                Some(q) => r matches Some(p) && request_view(p) == q,
                None => r is None,
            },
    {
        if args.len() == 0 {
            return None;
        }
        let ghost t = texts_of(args@);
        assert(t[0] == args@[0]@);
        if is_text(&args[0], "install") {
            let mut i: usize = 1;
            while i < args.len()
                invariant
                    1 <= i <= args@.len(),
                    t == texts_of(args@),
                    t[0] == "install"@,
                    install_target(t, 1) == install_target(t, i as int),
                decreases args@.len() - i,
            {
                assert(t[i as int] == args@[i as int]@);
                if !is_option_arg(&args[i]) {
                    let v = chars_of(args[i].as_str());
                    proof {
                        reveal_strlit("==");
                    }
                    return match find_text(&v, "==", 0) {
                        Some(p) => Some(
                            PipRequest::Install {
                                name: string_of_range(&v, 0, p),
                                version: Some(string_of_range(&v, p + 2, v.len())),
                            },
                        ),
                        None => Some(PipRequest::Install { name: args[i].clone(), version: None }),
                    };
                }
                i += 1;
            }
            None
        } else if is_text(&args[0], "uninstall") || is_text(&args[0], "remove") {
            if args.len() > 1 {
                assert(t[1] == args@[1]@);
                if !is_option_arg(&args[1]) {
                    return Some(PipRequest::Uninstall { name: args[1].clone() });
                }
            }
            None
        } else {
            None
        }
    }
}

/// The status of a package layer after an operation was processed: idle
/// when it succeeded, conflicted when it failed.
pub fn status_after_processing(succeeded: bool) -> (r: PackageLayerStatus)
    ensures
        r == (if succeeded {
            PackageLayerStatus::Idle
        } else {
            PackageLayerStatus::Conflicted
        }),
{
    if succeeded {
        PackageLayerStatus::Idle
    } else {
        PackageLayerStatus::Conflicted
    }
}

/// The packages read from an `install` line are never options.
pub proof fn law_install_packages_not_options(args: Seq<Seq<char>>, i: int)
    ensures
        forall|k: int| 0 <= k < install_scan(args, i).0.len() ==> !is_option(#[trigger] install_scan(args, i).0[k]),
    decreases args.len() + 1 - i,
{
    if 0 <= i < args.len() {
        law_install_packages_not_options(args, i + 1);
        law_install_packages_not_options(args, i + 2);
        let a = args[i];
        let r1 = install_scan(args, i + 1);
        let r2 = install_scan(args, i + 2);
        if a == "-U"@ || a == "--upgrade"@ || a == "-e"@ || a == "--editable"@ {
            assert(install_scan(args, i).0 == r1.0);
        } else if a == "-r"@ || a == "--requirement"@ || a == "-c"@ || a == "--constraint"@ {
            assert(install_scan(args, i).0 == r2.0);
        } else if is_option(a) {
            assert(install_scan(args, i).0 == r1.0);
        } else {
            assert(install_scan(args, i).0 == seq![a] + r1.0);
            assert forall|k: int| 0 <= k < (seq![a] + r1.0).len() implies !is_option(#[trigger] (seq![a] + r1.0)[k]) by {
                if k > 0 {
                    assert((seq![a] + r1.0)[k] == r1.0[k - 1]);
                }
            }
        }
    }
}

} // verus!
