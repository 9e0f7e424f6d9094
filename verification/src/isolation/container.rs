//! Containers: their configuration and setup state, the plans of the system
//! work that sets one up (namespaces to unshare, cgroup files to write,
//! network commands to run), and the reading of its resource counters.

use vstd::prelude::*;
use crate::error::{BlastError, BlastResult};
use crate::isolation::config::{CGroupConfig, IoLimits, NamespaceConfig};
use crate::isolation::filesystem::{FilesystemPolicy, FilesystemState};
use crate::isolation::network::NetworkPolicy;
use crate::paths::{join, join_path};
use crate::strmap::StrMap;
use crate::text::{
    chars_of, decimal, line_bounds, lines_of, parse_bounded_range, parse_u32, parse_u32_spec, parse_u64,
    parse_u64_spec, parse_unsigned, push_text, same_text, skip_space, skip_space_at, skip_word, skip_word_at,
    string_of_range, strings_of, texts_of, u64_to_decimal,
};
use crate::time::{no_randomness, random_id, random_source_error, system_now};
use vstd::string::StringExecFns;

verus! {

/// Directory under which the cgroups of containers live.
pub const CGROUP_ROOT: &'static str = "/sys/fs/cgroup/blast";

/// Memory limit applied when the configuration sets none: 512 MiB.
pub const DEFAULT_MEMORY_LIMIT: u64 = 536870912;

/// Container configuration
pub struct ContainerConfig {
    /// Root directory
    pub root_dir: String,
    /// Container name
    pub name: String,
    /// Container labels
    pub labels: StrMap<String>,
    /// Network policy
    pub network_policy: NetworkPolicy,
    /// Filesystem policy
    pub filesystem_policy: FilesystemPolicy,
}

impl Default for ContainerConfig {
    fn default() -> (c: Self)
        ensures
            c.root_dir@ == "/var/lib/blast/containers"@,
            c.name@.len() == 0,
            c.labels@ == Map::<Seq<char>, String>::empty(),
            !c.network_policy.allow_outbound,
            c.filesystem_policy.max_file_size == 104857600,
    {
        ContainerConfig {
            root_dir: String::from_str("/var/lib/blast/containers"),
            name: String::new(),
            labels: StrMap::new(),
            network_policy: NetworkPolicy::default(),
            filesystem_policy: FilesystemPolicy::default(),
        }
    }
}

/// Container state
#[derive(Debug, Clone, Copy, PartialEq, Eq, Structural)]
pub struct ContainerState {
    /// Process ID
    pub pid: Option<u32>,
    /// Namespaces created
    pub namespaces_created: bool,
    /// CGroups configured
    pub cgroups_configured: bool,
    /// Network configured
    pub network_configured: bool,
    /// Filesystem configured
    pub filesystem_configured: bool,
    /// Container initialized
    pub initialized: bool,
    /// Container cleaned up
    pub cleaned_up: bool,
}

impl Default for ContainerState {
    fn default() -> (s: Self)
        ensures
            s == (ContainerState {
                pid: None,
                namespaces_created: false,
                cgroups_configured: false,
                network_configured: false,
                filesystem_configured: false,
                initialized: false,
                cleaned_up: false,
            }),
    {
        ContainerState {
            pid: None,
            namespaces_created: false,
            cgroups_configured: false,
            network_configured: false,
            filesystem_configured: false,
            initialized: false,
            cleaned_up: false,
        }
    }
}

/// A step of setting up or tearing down a container.
#[derive(Debug, Clone, Copy, PartialEq, Eq, Structural)]
pub enum SetupStep {
    Namespaces,
    CGroups,
    Network,
    Filesystem,
    Initialize,
    Cleanup,
}

/// The state after `step` completed in state `s`: the step's flag is set,
/// everything else is kept.
pub open spec fn state_after(s: ContainerState, step: SetupStep) -> ContainerState {
    match step {
        SetupStep::Namespaces => ContainerState { namespaces_created: true, ..s },
        SetupStep::CGroups => ContainerState { cgroups_configured: true, ..s },
        SetupStep::Network => ContainerState { network_configured: true, ..s },
        SetupStep::Filesystem => ContainerState { filesystem_configured: true, ..s },
        SetupStep::Initialize => ContainerState { initialized: true, ..s },
        SetupStep::Cleanup => ContainerState { cleaned_up: true, ..s },
    }
}

impl ContainerState {
    /// Records that `step` completed.
    pub fn complete(&mut self, step: SetupStep)
        ensures
            *final(self) == state_after(*old(self), step),
    {
        match step {
            SetupStep::Namespaces => self.namespaces_created = true,
            SetupStep::CGroups => self.cgroups_configured = true,
            SetupStep::Network => self.network_configured = true,
            SetupStep::Filesystem => self.filesystem_configured = true,
            SetupStep::Initialize => self.initialized = true,
            SetupStep::Cleanup => self.cleaned_up = true,
        }
    }
}

/// Resource usage statistics
pub struct ResourceUsage {
    /// Current memory usage in bytes
    pub memory_current: u64,
    /// Peak memory usage in bytes
    pub memory_peak: u64,
    /// CPU usage statistics
    pub cpu_usage: StrMap<u64>,
    /// I/O usage statistics
    pub io_usage: StrMap<u64>,
    /// Current process count
    pub process_count: u32,
    /// Timestamp of the measurement
    pub timestamp: std::time::SystemTime,
}

impl Default for ResourceUsage {
    fn default() -> (u: Self)
        ensures
            u.memory_current == 0,
            u.memory_peak == 0,
            u.cpu_usage@ == Map::<Seq<char>, u64>::empty(),
            u.io_usage@ == Map::<Seq<char>, u64>::empty(),
            u.process_count == 0,
    {
        ResourceUsage {
            memory_current: 0,
            memory_peak: 0,
            cpu_usage: StrMap::new(),
            io_usage: StrMap::new(),
            process_count: 0,
            timestamp: system_now(),
        }
    }
}

/// The key and value of a statistics line: its first two whitespace-separated
/// words, the second read as a `u64`; `None` when either is missing or the
/// value does not parse.
pub open spec fn stat_entry(line: Seq<char>) -> Option<(Seq<char>, u64)> {
    let a1 = skip_space(line, 0);
    let b1 = skip_word(line, a1);
    let a2 = skip_space(line, b1);
    let b2 = skip_word(line, a2);
    if a1 >= line.len() || a2 >= line.len() {
        None
    } else {
        match parse_u64_spec(line.subrange(a2, b2)) {
            Some(v) => Some((line.subrange(a1, b1), v)),
            None => None,
        }
    }
}

/// The statistics read from `lines`: each line with an entry sets its key,
/// a later line overriding an earlier one.
pub open spec fn stat_map(lines: Seq<Seq<char>>) -> Map<Seq<char>, u64>
    decreases lines.len(),
{
    if lines.len() == 0 {
        Map::empty()
    } else {
        let m = stat_map(lines.drop_last());
        match stat_entry(lines.last()) {
            Some(e) => m.insert(e.0, e.1),
            None => m,
        }
    }
}

/// The entry of one statistics line.
fn stat_entry_of(line: &Vec<char>) -> (r: Option<(String, u64)>)
    ensures
        match stat_entry(line@) {
            Some(e) => r matches Some(p) && p.0@ == e.0 && p.1 == e.1,
            None => r is None,
        },
{
    let a1 = skip_space_at(line, 0);
    let b1 = skip_word_at(line, a1);
    let a2 = skip_space_at(line, b1);
    let b2 = skip_word_at(line, a2);
    if a1 >= line.len() || a2 >= line.len() {
        return None;
    }
    match parse_bounded_range(line, a2, b2, u64::MAX) {
        Some(v) => Some((string_of_range(line, a1, b1), v)),
        None => None,
    }
}

/// The statistics of a cgroup statistics file (see `stat_map`).
pub fn parse_stats(content: &str) -> (m: StrMap<u64>)
    ensures
        m@ == stat_map(lines_of(content@)),
{
    let v = chars_of(content);
    let bounds = line_bounds(&v);
    let ghost lines = lines_of(v@);
    let mut m: StrMap<u64> = StrMap::new();
    let mut k: usize = 0;
    while k < bounds.len()
        invariant
            lines == lines_of(v@),
            v@ == content@,
            bounds@.len() == lines.len(),
            forall|j: int|
                0 <= j < bounds@.len() ==> (#[trigger] bounds@[j]).0 <= bounds@[j].1 <= v@.len() && v@.subrange(
                    bounds@[j].0 as int,
                    bounds@[j].1 as int,
                ) == lines[j],
            k <= bounds@.len(),
            m@ == stat_map(lines.take(k as int)),
        decreases bounds@.len() - k,
    {
        let (a, b) = bounds[k];
        let line = chars_of(string_of_range(&v, a, b).as_str());
        proof {
            assert(lines.take(k + 1).drop_last() =~= lines.take(k as int));
            assert(lines.take(k + 1).last() == lines[k as int]);
        }
        match stat_entry_of(&line) {
            Some((key, value)) => {
                m.insert(key, value);
            },
            None => {},
        }
        k += 1;
    }
    assert(lines.take(bounds@.len() as int) =~= lines);
    m
}

impl ResourceUsage {
    /// The usage read from the contents of a container's counter files,
    /// stamped `timestamp`. The memory and process counters must each be a
    /// plain number; the statistics files give their entries by key.
    pub fn from_stats(
        memory_current: &str,
        memory_peak: &str,
        cpu_stat: &str,
        io_stat: &str,
        pids_current: &str,
        timestamp: std::time::SystemTime,
    ) -> (r: BlastResult<ResourceUsage>)
        ensures
            parse_u64_spec(memory_current@) is None ==> (r matches Err(e) && e matches BlastError::ParseError(m)
                && m@ == "invalid number in memory.current"@),
            parse_u64_spec(memory_current@) is Some && parse_u64_spec(memory_peak@) is None ==> (r matches Err(e)
                && e matches BlastError::ParseError(m) && m@ == "invalid number in memory.peak"@),
            parse_u64_spec(memory_current@) is Some && parse_u64_spec(memory_peak@) is Some && parse_u32_spec(
                pids_current@,
            ) is None ==> (r matches Err(e) && e matches BlastError::ParseError(m)
                && m@ == "invalid number in pids.current"@),
            r is Ok <==> parse_u64_spec(memory_current@) is Some && parse_u64_spec(memory_peak@) is Some
                && parse_u32_spec(pids_current@) is Some,
            r matches Ok(u) ==> Some(u.memory_current) == parse_u64_spec(memory_current@) && Some(u.memory_peak)
                == parse_u64_spec(memory_peak@) && Some(u.process_count) == parse_u32_spec(pids_current@)
                && u.cpu_usage@ == stat_map(lines_of(cpu_stat@)) && u.io_usage@ == stat_map(lines_of(io_stat@))
                && u.timestamp == timestamp,
    {
        let current = match parse_u64(memory_current) {
            Some(n) => n,
            None => return Err(BlastError::ParseError(String::from_str("invalid number in memory.current"))),
        };
        let peak = match parse_u64(memory_peak) {
            Some(n) => n,
            None => return Err(BlastError::ParseError(String::from_str("invalid number in memory.peak"))),
        };
        let cpu_usage = parse_stats(cpu_stat);
        let io_usage = parse_stats(io_stat);
        let pids = match parse_u32(pids_current) {
            Some(n) => n,
            None => return Err(BlastError::ParseError(String::from_str("invalid number in pids.current"))),
        };
        Ok(ResourceUsage {
            memory_current: current,
            memory_peak: peak,
            cpu_usage,
            io_usage,
            process_count: pids,
            timestamp,
        })
    }
}

// ---------------------------------------------------------------------------
// Namespaces
// ---------------------------------------------------------------------------

/// A Linux namespace that a container can get its own copy of.
#[derive(Debug, Clone, Copy, PartialEq, Eq, Structural)]
pub enum NamespaceKind {
    Mount,
    Pid,
    Net,
    Ipc,
    Uts,
    User,
    CGroup,
}

/// The namespaces the configuration asks for, in the order they are set.
pub open spec fn namespaces_of(c: NamespaceConfig) -> Seq<NamespaceKind> {
    let s0 = Seq::<NamespaceKind>::empty();
    let s1 = if c.mnt { s0.push(NamespaceKind::Mount) } else { s0 };
    let s2 = if c.pid { s1.push(NamespaceKind::Pid) } else { s1 };
    let s3 = if c.net { s2.push(NamespaceKind::Net) } else { s2 };
    let s4 = if c.ipc { s3.push(NamespaceKind::Ipc) } else { s3 };
    let s5 = if c.uts { s4.push(NamespaceKind::Uts) } else { s4 };
    let s6 = if c.user { s5.push(NamespaceKind::User) } else { s5 };
    if c.cgroup { s6.push(NamespaceKind::CGroup) } else { s6 }
}

/// Appending `x` to `s` adds `x` to what `s` holds and keeps it free of
/// repeats when `x` was not there.
proof fn lemma_push_holds<A>(s: Seq<A>, x: A)
    ensures
        forall|y: A| #[trigger] s.push(x).contains(y) <==> (s.contains(y) || y == x),
        s.no_duplicates() && !s.contains(x) ==> s.push(x).no_duplicates(),
{
    assert forall|y: A| #[trigger] s.push(x).contains(y) <==> (s.contains(y) || y == x) by {
        if s.contains(y) {
            let i = choose|i: int| 0 <= i < s.len() && s[i] == y;
            assert(s.push(x)[i] == y);
        }
        if y == x {
            assert(s.push(x)[s.len() as int] == y);
        }
        if s.push(x).contains(y) {
            let i = choose|i: int| 0 <= i < s.len() + 1 && s.push(x)[i] == y;
            if i < s.len() {
                assert(s[i] == y);
            }
        }
    }
    if s.no_duplicates() && !s.contains(x) {
        let t = s.push(x);
        assert forall|i: int, j: int| 0 <= i < t.len() && 0 <= j < t.len() && i != j implies t[i] != t[j] by {
            if i < s.len() && j < s.len() {
            } else if i < s.len() {
                assert(s.contains(t[i]));
            } else {
                assert(s.contains(t[j]));
            }
        }
    }
}

/// Each flag of a namespace configuration selects its own namespace: a
/// kind is created exactly when its flag is set, and none twice.
pub proof fn law_each_flag_selects_its_namespace(c: NamespaceConfig)
    ensures
        namespaces_of(c).contains(NamespaceKind::Mount) <==> c.mnt,
        namespaces_of(c).contains(NamespaceKind::Pid) <==> c.pid,
        namespaces_of(c).contains(NamespaceKind::Net) <==> c.net,
        namespaces_of(c).contains(NamespaceKind::Ipc) <==> c.ipc,
        namespaces_of(c).contains(NamespaceKind::Uts) <==> c.uts,
        namespaces_of(c).contains(NamespaceKind::User) <==> c.user,
        namespaces_of(c).contains(NamespaceKind::CGroup) <==> c.cgroup,
        namespaces_of(c).no_duplicates(),
{
    let s0 = Seq::<NamespaceKind>::empty();
    let s1 = if c.mnt { s0.push(NamespaceKind::Mount) } else { s0 };
    let s2 = if c.pid { s1.push(NamespaceKind::Pid) } else { s1 };
    let s3 = if c.net { s2.push(NamespaceKind::Net) } else { s2 };
    let s4 = if c.ipc { s3.push(NamespaceKind::Ipc) } else { s3 };
    let s5 = if c.uts { s4.push(NamespaceKind::Uts) } else { s4 };
    let s6 = if c.user { s5.push(NamespaceKind::User) } else { s5 };
    let s7 = if c.cgroup { s6.push(NamespaceKind::CGroup) } else { s6 };
    assert(s7 == namespaces_of(c));
    assert(!s0.contains(NamespaceKind::Mount));
    assert forall|y: NamespaceKind| !#[trigger] s0.contains(y) by {}
    assert(s0.no_duplicates());
    lemma_push_holds(s0, NamespaceKind::Mount);
    lemma_push_holds(s1, NamespaceKind::Pid);
    lemma_push_holds(s2, NamespaceKind::Net);
    lemma_push_holds(s3, NamespaceKind::Ipc);
    lemma_push_holds(s4, NamespaceKind::Uts);
    lemma_push_holds(s5, NamespaceKind::User);
    lemma_push_holds(s6, NamespaceKind::CGroup);
}

/// The namespaces to unshare for `config`.
pub fn namespaces_to_create(config: &NamespaceConfig) -> (r: Vec<NamespaceKind>)
    ensures
        r@ == namespaces_of(*config),
{
    let mut r: Vec<NamespaceKind> = Vec::new();
    if config.mnt {
        r.push(NamespaceKind::Mount);
    }
    if config.pid {
        r.push(NamespaceKind::Pid);
    }
    if config.net {
        r.push(NamespaceKind::Net);
    }
    if config.ipc {
        r.push(NamespaceKind::Ipc);
    }
    if config.uts {
        r.push(NamespaceKind::Uts);
    }
    if config.user {
        r.push(NamespaceKind::User);
    }
    if config.cgroup {
        r.push(NamespaceKind::CGroup);
    }
    assert(r@ =~= namespaces_of(*config));
    r
}

// ---------------------------------------------------------------------------
// Cgroups
// ---------------------------------------------------------------------------

/// A value to write into a file of a cgroup controller's directory.
#[derive(Debug, Clone)]
pub struct CgroupWrite {
    /// Controller directory
    pub controller: String,
    /// File inside the controller directory
    pub file: String,
    /// Text to write
    pub value: String,
}

/// The memory limit of `c`, 512 MiB when it sets none.
pub open spec fn memory_limit_spec(c: CGroupConfig) -> u64 {
    match c.memory_limit {
        Some(m) => m,
        None => DEFAULT_MEMORY_LIMIT,
    }
}

/// `o`'s value, or `d` when it has none.
pub open spec fn or_default(o: Option<u64>, d: u64) -> nat {
    match o {
        Some(v) => v as nat,
        None => d as nat,
    }
}

/// `o`'s value, or `d` when it has none.
pub open spec fn or_default32(o: Option<u32>, d: u32) -> nat {
    match o {
        Some(v) => v as nat,
        None => d as nat,
    }
}

/// The `io.max` writes for the configured I/O limits: a read limit, then a
/// write limit, each written only when set.
pub open spec fn io_max_writes(l: Option<IoLimits>) -> Seq<(Seq<char>, Seq<char>)> {
    match l {
        Some(limits) => {
            let r = match limits.read_bps_limit {
                Some(b) => seq![("io.max"@, "rbps="@ + decimal(b as nat))],
                None => Seq::empty(),
            };
            match limits.write_bps_limit {
                Some(b) => r.push(("io.max"@, "wbps="@ + decimal(b as nat))),
                None => r,
            }
        },
        None => Seq::empty(),
    }
}

/// The files written for one controller, as (file, value) pairs in order:
/// the process id into `tasks`, then the controller's limits with their
/// defaults (`soft` is the memory soft limit).
pub open spec fn controller_plan(controller: Seq<char>, c: CGroupConfig, pid: u32, soft: u64) -> Seq<
    (Seq<char>, Seq<char>),
> {
    let tasks = seq![("tasks"@, decimal(pid as nat))];
    if controller == "memory"@ {
        tasks + seq![
            ("memory.limit_in_bytes"@, decimal(memory_limit_spec(c) as nat)),
            ("memory.swappiness"@, "0"@),
            ("memory.soft_limit_in_bytes"@, decimal(soft as nat)),
        ]
    } else if controller == "cpu"@ {
        tasks + seq![
            ("cpu.cfs_quota_us"@, decimal(or_default(c.cpu_quota, 100000))),
            ("cpu.cfs_period_us"@, decimal(or_default(c.cpu_period, 100000))),
            ("cpu.shares"@, decimal(or_default(c.cpu_shares, 1024))),
        ]
    } else if controller == "io"@ {
        tasks + seq![("io.weight"@, decimal(or_default32(c.io_weight, 100)))] + io_max_writes(c.io_limits)
    } else if controller == "pids"@ {
        tasks + seq![("pids.max"@, decimal(or_default32(c.process_limit, 100)))]
    } else {
        tasks
    }
}

/// The whole cgroup plan for `controllers` in order, as (controller, file,
/// value) triples.
pub open spec fn cgroup_plan(controllers: Seq<Seq<char>>, c: CGroupConfig, pid: u32, soft: u64) -> Seq<
    (Seq<char>, Seq<char>, Seq<char>),
>
    decreases controllers.len(),
{
    if controllers.len() == 0 {
        Seq::empty()
    } else {
        let last = controllers.last();
        cgroup_plan(controllers.drop_last(), c, pid, soft) + controller_plan(last, c, pid, soft).map_values(
            |w: (Seq<char>, Seq<char>)| (last, w.0, w.1),
        )
    }
}

/// A write as the triple of its texts.
pub open spec fn write_view(w: CgroupWrite) -> (Seq<char>, Seq<char>, Seq<char>) {
    (w.controller@, w.file@, w.value@)
}

/// The memory limit of `config`, 512 MiB when it sets none.
pub fn memory_limit_of(config: &CGroupConfig) -> (m: u64)
    ensures
        m == memory_limit_spec(*config),
{
    match config.memory_limit {
        Some(m) => m,
        None => DEFAULT_MEMORY_LIMIT,
    }
}

/// A (file, value) pair.
fn file_value(file: &str, value: String) -> (r: (String, String))
    ensures
        r.0@ == file@,
        r.1@ == value@,
{
    (String::from_str(file), value)
}

/// The writes for one controller (see `controller_plan`).
fn controller_writes(controller: &str, c: &CGroupConfig, pid: u32, soft: u64) -> (r: Vec<(String, String)>)
    ensures
        r@.map_values(|w: (String, String)| (w.0@, w.1@)) == controller_plan(controller@, *c, pid, soft),
{
    let mut r: Vec<(String, String)> = Vec::new();
    r.push(file_value("tasks", u64_to_decimal(pid as u64)));
    if same_text(controller, "memory") {
        r.push(file_value("memory.limit_in_bytes", u64_to_decimal(memory_limit_of(c))));
        r.push(file_value("memory.swappiness", String::from_str("0")));
        r.push(file_value("memory.soft_limit_in_bytes", u64_to_decimal(soft)));
    } else if same_text(controller, "cpu") {
        let quota = match c.cpu_quota {
            Some(q) => q,
            None => 100000,
        };
        let period = match c.cpu_period {
            Some(p) => p,
            None => 100000,
        };
        let shares = match c.cpu_shares {
            Some(s) => s,
            None => 1024,
        };
        r.push(file_value("cpu.cfs_quota_us", u64_to_decimal(quota)));
        r.push(file_value("cpu.cfs_period_us", u64_to_decimal(period)));
        r.push(file_value("cpu.shares", u64_to_decimal(shares)));
    } else if same_text(controller, "io") {
        let weight: u32 = match c.io_weight {
            Some(w) => w,
            None => 100,
        };
        r.push(file_value("io.weight", u64_to_decimal(weight as u64)));
        match c.io_limits {
            Some(limits) => {
                match limits.read_bps_limit {
                    Some(b) => {
                        let mut v = String::from_str("rbps=");
                        push_text(&mut v, u64_to_decimal(b).as_str());
                        r.push(file_value("io.max", v));
                    },
                    None => {},
                }
                match limits.write_bps_limit {
                    Some(b) => {
                        let mut v = String::from_str("wbps=");
                        push_text(&mut v, u64_to_decimal(b).as_str());
                        r.push(file_value("io.max", v));
                    },
                    None => {},
                }
            },
            None => {},
        }
    } else if same_text(controller, "pids") {
        let limit: u32 = match c.process_limit {
            Some(p) => p,
            None => 100,
        };
        r.push(file_value("pids.max", u64_to_decimal(limit as u64)));
    }
    assert(r@.map_values(|w: (String, String)| (w.0@, w.1@)) =~= controller_plan(controller@, *c, pid, soft));
    r
}

/// The cgroup files to write for `config`, controller by controller:
/// `pid` goes into each controller's `tasks`, and `soft_limit` is the memory
/// soft limit.
pub fn cgroup_writes(config: &CGroupConfig, pid: u32, soft_limit: u64) -> (r: Vec<CgroupWrite>)
    ensures
        r@.map_values(|w: CgroupWrite| write_view(w)) == cgroup_plan(texts_of(config.controllers@), *config, pid, soft_limit),
{
    let mut r: Vec<CgroupWrite> = Vec::new();
    let mut i: usize = 0;
    while i < config.controllers.len()
        invariant
            i <= config.controllers@.len(),
            r@.map_values(|w: CgroupWrite| write_view(w)) == cgroup_plan(
                texts_of(config.controllers@.take(i as int)),
                *config,
                pid,
                soft_limit,
            ),
        decreases config.controllers@.len() - i,
    {
        let controller = config.controllers[i].as_str();
        let ws = controller_writes(controller, config, pid, soft_limit);
        let ghost base = r@.map_values(|w: CgroupWrite| write_view(w));
        let ghost cs = texts_of(config.controllers@.take(i + 1));
        proof {
            assert(cs.drop_last() =~= texts_of(config.controllers@.take(i as int)));
            assert(cs.last() == controller@);
        }
        let ghost add = controller_plan(controller@, *config, pid, soft_limit).map_values(
            |w: (Seq<char>, Seq<char>)| (controller@, w.0, w.1),
        );
        let mut j: usize = 0;
        while j < ws.len()
            invariant
                j <= ws@.len(),
                ws@.map_values(|w: (String, String)| (w.0@, w.1@)) == controller_plan(controller@, *config, pid, soft_limit),
                add == controller_plan(controller@, *config, pid, soft_limit).map_values(
                    |w: (Seq<char>, Seq<char>)| (controller@, w.0, w.1),
                ),
                r@.map_values(|w: CgroupWrite| write_view(w)) == base + add.take(j as int),
            decreases ws@.len() - j,
        {
            proof {
                let pv = controller_plan(controller@, *config, pid, soft_limit);
                assert(ws@.map_values(|w: (String, String)| (w.0@, w.1@))[j as int] == (ws@[j as int].0@, ws@[j as int].1@));
                assert(pv[j as int] == (ws@[j as int].0@, ws@[j as int].1@));
                assert(add[j as int] == (controller@, ws@[j as int].0@, ws@[j as int].1@));
            }
            let ghost before = r@;
            r.push(CgroupWrite {
                controller: String::from_str(controller),
                file: ws[j].0.clone(),
                value: ws[j].1.clone(),
            });
            proof {
                assert(r@ == before.push(r@.last()));
                assert(write_view(r@.last()) == add[j as int]);
                assert(add.take(j + 1) =~= add.take(j as int).push(add[j as int]));
                assert(r@.map_values(|w: CgroupWrite| write_view(w)) =~= before.map_values(|w: CgroupWrite| write_view(w)).push(add[j as int]));
                assert(r@.map_values(|w: CgroupWrite| write_view(w)) =~= base + add.take(j + 1));
            }
            j += 1;
        }
        proof {
            assert(add.take(ws@.len() as int) =~= add);
        }
        i += 1;
    }
    assert(config.controllers@.take(config.controllers@.len() as int) =~= config.controllers@);
    r
}

// ---------------------------------------------------------------------------
// Network setup
// ---------------------------------------------------------------------------

/// A command of the network setup: what to run, what to run to undo the
/// earlier steps when it fails, the message its failure is reported under,
/// and whether a failure stops the setup.
#[derive(Debug, Clone)]
pub struct NetworkStep {
    /// Program and arguments
    pub command: Vec<String>,
    /// Commands that undo earlier steps when this one fails
    pub on_failure: Vec<Vec<String>>,
    /// Message prefix of the failure
    pub failure_message: String,
    /// Whether a failure aborts the setup
    pub required: bool,
}

/// A step as the texts of its parts.
pub open spec fn step_view(s: NetworkStep) -> (Seq<Seq<char>>, Seq<Seq<Seq<char>>>, Seq<char>, bool) {
    (texts_of(s.command@), s.on_failure@.map_values(|c: Vec<String>| texts_of(c@)), s.failure_message@, s.required)
}

/// `ip netns add <id>`
pub open spec fn netns_add(id: Seq<char>) -> Seq<Seq<char>> {
    seq!["ip"@, "netns"@, "add"@, id]
}

/// `ip netns del <id>`
pub open spec fn netns_del(id: Seq<char>) -> Seq<Seq<char>> {
    seq!["ip"@, "netns"@, "del"@, id]
}

/// The commands that set up the network of container `id` under `policy`,
/// in order: a namespace, a veth pair for the configured interface, the
/// interface moved into the namespace, its address when one is set, the
/// interface brought up, and a bandwidth limit when one is set.
pub open spec fn network_plan(id: Seq<char>, policy: NetworkPolicy) -> Seq<
    (Seq<Seq<char>>, Seq<Seq<Seq<char>>>, Seq<char>, bool),
> {
    let name = policy.interface_config.name@;
    let s = seq![
        (netns_add(id), Seq::empty(), "Failed to create network namespace"@, true),
        (
            seq!["ip"@, "link"@, "add"@, name, "type"@, "veth"@, "peer"@, "name"@, name + "_h"@],
            seq![netns_del(id)],
            "Failed to create veth pair"@,
            true,
        ),
        (
            seq!["ip"@, "link"@, "set"@, name, "netns"@, id],
            seq![seq!["ip"@, "link"@, "del"@, name], netns_del(id)],
            "Failed to move interface to namespace"@,
            true,
        ),
    ];
    let s2 = match policy.interface_config.ip_address {
        Some(ip) => s.push(
            (
                seq!["ip"@, "netns"@, "exec"@, id, "ip"@, "addr"@, "add"@, ip@, "dev"@, name],
                seq![netns_del(id)],
                "Failed to configure IP address"@,
                true,
            ),
        ),
        None => s,
    };
    let s3 = s2.push(
        (
            seq!["ip"@, "netns"@, "exec"@, id, "ip"@, "link"@, "set"@, name, "up"@],
            seq![netns_del(id)],
            "Failed to bring up interface"@,
            true,
        ),
    );
    match policy.bandwidth_limit {
        Some(limit) => s3.push(
            (
                seq![
                    "tc"@,
                    "qdisc"@,
                    "add"@,
                    "dev"@,
                    name,
                    "root"@,
                    "tbf"@,
                    "rate"@,
                    decimal((limit * 8) as nat) + "bit"@,
                    "latency"@,
                    "50ms"@,
                    "burst"@,
                    "1540"@,
                ],
                Seq::empty(),
                "Failed to set bandwidth limit"@,
                false,
            ),
        ),
        None => s3,
    }
}

/// A step of the network plan.
fn network_step(command: Vec<String>, on_failure: Vec<Vec<String>>, message: &str, required: bool) -> (s: NetworkStep)
    ensures
        s.command == command,
        s.on_failure == on_failure,
        s.failure_message@ == message@,
        s.required == required,
{
    NetworkStep { command, on_failure, failure_message: String::from_str(message), required }
}

/// The command `ip netns del <id>`.
fn netns_del_command(id: &str) -> (c: Vec<String>)
    ensures
        texts_of(c@) == netns_del(id@),
{
    let c = strings_of(&["ip", "netns", "del", id]);
    assert(texts_of(c@) =~= netns_del(id@));
    c
}

/// The commands that set up the network of container `id` under `policy`
/// (see `network_plan`).
pub fn network_setup_plan(id: &str, policy: &NetworkPolicy) -> (r: Vec<NetworkStep>)
    requires
        policy.bandwidth_limit matches Some(l) ==> l * 8 <= u64::MAX,
    ensures
        r@.map_values(|s: NetworkStep| step_view(s)) == network_plan(id@, *policy),
{
    let name = policy.interface_config.name.as_str();
    let mut r: Vec<NetworkStep> = Vec::new();

    let add = strings_of(&["ip", "netns", "add", id]);
    r.push(network_step(add, Vec::new(), "Failed to create network namespace", true));

    let mut peer = String::from_str(name);
    push_text(&mut peer, "_h");
    let veth = strings_of(&["ip", "link", "add", name, "type", "veth", "peer", "name", peer.as_str()]);
    let mut undo1: Vec<Vec<String>> = Vec::new();
    undo1.push(netns_del_command(id));
    r.push(network_step(veth, undo1, "Failed to create veth pair", true));

    let set = strings_of(&["ip", "link", "set", name, "netns", id]);
    let mut undo2: Vec<Vec<String>> = Vec::new();
    let del = strings_of(&["ip", "link", "del", name]);
    assert(texts_of(del@) =~= seq!["ip"@, "link"@, "del"@, name@]);
    undo2.push(del);
    undo2.push(netns_del_command(id));
    r.push(network_step(set, undo2, "Failed to move interface to namespace", true));

    match &policy.interface_config.ip_address {
        Some(ip) => {
            let addr = strings_of(&["ip", "netns", "exec", id, "ip", "addr", "add", ip.as_str(), "dev", name]);
            let mut undo3: Vec<Vec<String>> = Vec::new();
            undo3.push(netns_del_command(id));
            r.push(network_step(addr, undo3, "Failed to configure IP address", true));
        },
        None => {},
    }

    let up = strings_of(&["ip", "netns", "exec", id, "ip", "link", "set", name, "up"]);
    let mut undo4: Vec<Vec<String>> = Vec::new();
    undo4.push(netns_del_command(id));
    r.push(network_step(up, undo4, "Failed to bring up interface", true));

    match policy.bandwidth_limit {
        Some(limit) => {
            let mut rate = u64_to_decimal(limit * 8);
            push_text(&mut rate, "bit");
            let tc = strings_of(
                &["tc", "qdisc", "add", "dev", name, "root", "tbf", "rate", rate.as_str(), "latency", "50ms", "burst", "1540"],
            );
            r.push(network_step(tc, Vec::new(), "Failed to set bandwidth limit", false));
        },
        None => {},
    }
    proof {
        let v = r@.map_values(|s: NetworkStep| step_view(s));
        let p = network_plan(id@, *policy);
        assert(v.len() == p.len());
        assert forall|k: int| 0 <= k < v.len() implies v[k] == p[k] by {
            let s = r@[k];
            assert(texts_of(s.command@) =~= p[k].0);
            assert(s.on_failure@.map_values(|c: Vec<String>| texts_of(c@)) =~= p[k].1);
        }
        assert(v =~= p);
    }
    r
}

// ---------------------------------------------------------------------------
// The container
// ---------------------------------------------------------------------------

/// Container implementation
pub struct Container {
    /// Container ID
    id: String,
    /// Root directory
    root_dir: String,
    /// Network policy
    network_policy: NetworkPolicy,
    /// Filesystem state
    filesystem: FilesystemState,
    /// Container state
    state: ContainerState,
}

impl Container {
    /// The container id.
    pub closed spec fn id_spec(&self) -> Seq<char> {
        self.id@
    }

    /// The container root directory.
    pub closed spec fn root_spec(&self) -> Seq<char> {
        self.root_dir@
    }

    /// The setup state.
    pub closed spec fn state_spec(&self) -> ContainerState {
        self.state
    }

    /// The filesystem state.
    pub closed spec fn filesystem_spec(&self) -> FilesystemState {
        self.filesystem
    }

    /// The network policy.
    pub closed spec fn network_spec(&self) -> NetworkPolicy {
        self.network_policy
    }

    /// Create new container: a fresh id, the configured root directory and
    /// policies, nothing set up yet; refused where the operating system's
    /// random source fails.
    pub fn new(config: ContainerConfig) -> (r: BlastResult<Self>)
        ensures
            r matches Err(e) ==> no_randomness(e),
            r matches Ok(c) ==> c.id_spec().len() == 36 && c.root_spec() == config.root_dir@
                && c.state_spec() == ContainerState::default_spec() && c.network_spec() == config.network_policy
                && c.filesystem_spec().policy_spec() == config.filesystem_policy
                && c.filesystem_spec().mounts().len() == 0,
    {
        let id = match random_id() {
            Some(id) => id,
            None => {
                return Err(random_source_error());
            },
        };
        Ok(Container {
            id,
            root_dir: config.root_dir,
            network_policy: config.network_policy,
            filesystem: FilesystemState::new(config.filesystem_policy),
            state: ContainerState::default(),
        })
    }

    /// Get container ID
    pub fn id(&self) -> (r: &str)
        ensures
            r@ == self.id_spec(),
    {
        self.id.as_str()
    }

    /// Get container root directory
    pub fn root_dir(&self) -> (r: &str)
        ensures
            r@ == self.root_spec(),
    {
        self.root_dir.as_str()
    }

    /// Get container runtime state
    pub fn runtime_state(&self) -> (s: ContainerState)
        ensures
            s == self.state_spec(),
    {
        self.state
    }

    /// The network policy of the container.
    pub fn network_policy(&self) -> (p: &NetworkPolicy)
        ensures
            *p == self.network_spec(),
    {
        &self.network_policy
    }

    /// The filesystem state of the container.
    pub fn filesystem(&mut self) -> (f: &mut FilesystemState)
        ensures
            *f == old(self).filesystem_spec(),
            final(self).filesystem_spec() == *final(f),
            final(self).id_spec() == old(self).id_spec(),
            final(self).state_spec() == old(self).state_spec(),
    {
        &mut self.filesystem
    }

    /// Records that `step` completed.
    pub fn complete(&mut self, step: SetupStep)
        ensures
            final(self).state_spec() == state_after(old(self).state_spec(), step),
            final(self).id_spec() == old(self).id_spec(),
            final(self).filesystem_spec() == old(self).filesystem_spec(),
    {
        self.state.complete(step);
    }

    /// The cgroup directory of the container.
    pub fn cgroup_dir(&self) -> (d: String)
        ensures
            d@ == join_path(CGROUP_ROOT@, self.id_spec()),
    {
        join(CGROUP_ROOT, self.id.as_str())
    }

    /// The network commands of the container under its policy.
    pub fn network_plan(&self) -> (r: Vec<NetworkStep>)
        requires
            self.network_spec().bandwidth_limit matches Some(l) ==> l * 8 <= u64::MAX,
        ensures
            r@.map_values(|s: NetworkStep| step_view(s)) == network_plan(self.id_spec(), self.network_spec()),
    {
        network_setup_plan(self.id.as_str(), &self.network_policy)
    }
}

impl ContainerState {
    /// The state of a container with nothing set up.
    pub open spec fn default_spec() -> ContainerState {
        ContainerState {
            pid: None,
            namespaces_created: false,
            cgroups_configured: false,
            network_configured: false,
            filesystem_configured: false,
            initialized: false,
            cleaned_up: false,
        }
    }
}

/// Whether `step` is recorded as done in `s`.
pub open spec fn step_done(s: ContainerState, step: SetupStep) -> bool {
    match step {
        SetupStep::Namespaces => s.namespaces_created,
        SetupStep::CGroups => s.cgroups_configured,
        SetupStep::Network => s.network_configured,
        SetupStep::Filesystem => s.filesystem_configured,
        SetupStep::Initialize => s.initialized,
        SetupStep::Cleanup => s.cleaned_up,
    }
}

/// Completing a step records it, keeps every step done before, changes no
/// other step and keeps the process id; completing it again changes nothing.
pub proof fn law_steps_accumulate(s: ContainerState, step: SetupStep, other: SetupStep)
    ensures
        step_done(state_after(s, step), step),
        other != step ==> step_done(state_after(s, step), other) == step_done(s, other),
        state_after(s, step).pid == s.pid,
        state_after(state_after(s, step), step) == state_after(s, step),
{
}

/// Every controller of the cgroup plan gets the process first.
pub proof fn law_tasks_first(controller: Seq<char>, c: CGroupConfig, pid: u32, soft: u64)
    ensures
        controller_plan(controller, c, pid, soft).len() >= 1,
        controller_plan(controller, c, pid, soft)[0] == ("tasks"@, decimal(pid as nat)),
{
}

/// Every required network step after the first undoes the namespace when
/// it fails, so a failed setup leaves no namespace behind; the first step
/// has nothing to undo.
pub proof fn law_failed_network_steps_remove_namespace(id: Seq<char>, policy: NetworkPolicy, k: int)
    requires
        0 <= k < network_plan(id, policy).len(),
    ensures
        k == 0 ==> network_plan(id, policy)[k].1.len() == 0,
        k > 0 && network_plan(id, policy)[k].3 ==> network_plan(id, policy)[k].1.contains(netns_del(id)),
{
    let p = network_plan(id, policy);
    if k > 0 && p[k].3 {
        let undo = p[k].1;
        assert(undo.last() == netns_del(id));
        assert(undo.contains(undo[undo.len() - 1]));
    }
}

} // verus!
