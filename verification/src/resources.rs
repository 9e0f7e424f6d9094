//! Resource limits of an environment and the system settings that apply
//! them: the cgroup files to write and the traffic-control commands to run,
//! and the reading of the kernel's usage counters.

use vstd::prelude::*;
use crate::error::{BlastError, BlastResult};
use crate::isolation::filesystem::{comma_join, comma_joined};
use crate::strmap::StrMap;
use crate::text::{
    chars_of, decimal, i64_to_decimal, line_bounds, lines_of, parse_u64, parse_u64_spec, push_text,
    same_text, signed_decimal, skip_space, skip_space_at, skip_word, skip_word_at, string_of_range, strings_of,
    texts_of, trim, trim_text, u64_to_decimal,
};
use vstd::string::StringExecFns;

verus! {

/// Resource limits
pub struct ResourceLimits {
    pub cpu: CpuLimits,
    pub memory: MemoryLimits,
    pub io: IoLimits,
    pub process: ProcessLimits,
    pub network: NetworkLimits,
}

/// CPU limits
#[derive(Debug, Clone)]
pub struct CpuLimits {
    pub shares: u64,
    pub quota_us: i64,
    pub period_us: u64,
    pub cpuset: Vec<u32>,
    pub weight: u16,
}

/// Memory limits; a negative value means no limit.
#[derive(Debug, Clone, Copy, PartialEq, Eq, Structural)]
pub struct MemoryLimits {
    pub limit_bytes: i64,
    pub soft_limit_bytes: i64,
    pub kernel_limit_bytes: i64,
    pub swap_limit_bytes: i64,
    pub swappiness: u8,
}

/// I/O limits
pub struct IoLimits {
    pub weight: u16,
    pub device_limits: StrMap<DeviceLimit>,
}

/// Limits of one block device
#[derive(Debug, Clone, Copy, PartialEq, Eq, Structural)]
pub struct DeviceLimit {
    pub read_bps: Option<u64>,
    pub write_bps: Option<u64>,
    pub read_iops: Option<u64>,
    pub write_iops: Option<u64>,
}

/// Process limits; a negative value means no limit.
#[derive(Debug, Clone, Copy, PartialEq, Eq, Structural)]
pub struct ProcessLimits {
    pub max_processes: i64,
    pub max_open_files: i64,
    pub max_threads: i64,
}

/// Network limits; a negative bandwidth means no limit.
pub struct NetworkLimits {
    pub bandwidth_bps: i64,
    pub interface_limits: StrMap<InterfaceLimit>,
}

/// Limits of one network interface
#[derive(Debug, Clone, Copy, PartialEq, Eq, Structural)]
pub struct InterfaceLimit {
    pub ingress_bps: Option<u64>,
    pub egress_bps: Option<u64>,
}

/// I/O usage
#[derive(Debug, Clone, Copy, PartialEq, Eq, Structural)]
pub struct IoUsage {
    pub read_bytes: u64,
    pub write_bytes: u64,
}

impl Default for CpuLimits {
    fn default() -> (c: Self)
        ensures
            c.shares == 1024,
            c.quota_us == -1,
            c.period_us == 100000,
            c.cpuset@.len() == 0,
            c.weight == 100,
    {
        CpuLimits { shares: 1024, quota_us: -1, period_us: 100000, cpuset: Vec::new(), weight: 100 }
    }
}

impl Default for MemoryLimits {
    fn default() -> (m: Self)
        ensures
            m == (MemoryLimits {
                limit_bytes: -1i64,
                soft_limit_bytes: -1i64,
                kernel_limit_bytes: -1i64,
                swap_limit_bytes: -1i64,
                swappiness: 60,
            }),
    {
        MemoryLimits {
            limit_bytes: -1,
            soft_limit_bytes: -1,
            kernel_limit_bytes: -1,
            swap_limit_bytes: -1,
            swappiness: 60,
        }
    }
}

impl Default for IoLimits {
    fn default() -> (l: Self)
        ensures
            l.weight == 100,
            l.device_limits@ == Map::<Seq<char>, DeviceLimit>::empty(),
    {
        IoLimits { weight: 100, device_limits: StrMap::new() }
    }
}

impl Default for ProcessLimits {
    fn default() -> (p: Self)
        ensures
            p == (ProcessLimits { max_processes: -1i64, max_open_files: -1i64, max_threads: -1i64 }),
    {
        ProcessLimits { max_processes: -1, max_open_files: -1, max_threads: -1 }
    }
}

impl Default for NetworkLimits {
    fn default() -> (n: Self)
        ensures
            n.bandwidth_bps == -1,
            n.interface_limits@ == Map::<Seq<char>, InterfaceLimit>::empty(),
    {
        NetworkLimits { bandwidth_bps: -1, interface_limits: StrMap::new() }
    }
}

impl Default for ResourceLimits {
    fn default() -> (l: Self)
        ensures
            l.cpu.shares == 1024,
            l.cpu.quota_us == -1,
            l.cpu.period_us == 100000,
            l.cpu.cpuset@.len() == 0,
            l.cpu.weight == 100,
            l.memory.limit_bytes == -1 && l.memory.soft_limit_bytes == -1,
            l.memory.kernel_limit_bytes == -1 && l.memory.swap_limit_bytes == -1,
            l.memory.swappiness == 60,
            l.io.weight == 100,
            l.io.device_limits@ == Map::<Seq<char>, DeviceLimit>::empty(),
            l.process == (ProcessLimits { max_processes: -1i64, max_open_files: -1i64, max_threads: -1i64 }),
            l.network.bandwidth_bps == -1,
            l.network.interface_limits@ == Map::<Seq<char>, InterfaceLimit>::empty(),
    {
        ResourceLimits {
            cpu: CpuLimits::default(),
            memory: MemoryLimits::default(),
            io: IoLimits::default(),
            process: ProcessLimits::default(),
            network: NetworkLimits::default(),
        }
    }
}

/// A value to write into a file.
#[derive(Debug, Clone)]
pub struct FileWrite {
    /// File path
    pub path: String,
    /// Text to write
    pub value: String,
}

/// The writes as (path, value) texts.
pub open spec fn writes_view(s: Seq<FileWrite>) -> Seq<(Seq<char>, Seq<char>)> {
    s.map_values(|w: FileWrite| (w.path@, w.value@))
}

/// Appends the write of `value` to `path`.
fn push_write(r: &mut Vec<FileWrite>, path: &str, value: String)
    ensures
        writes_view(final(r)@) == writes_view(old(r)@).push((path@, value@)),
{
    let ghost v = value@;
    r.push(FileWrite { path: String::from_str(path), value });
    assert(writes_view(r@) =~= writes_view(old(r)@).push((path@, v)));
}

/// `w` when `cond` holds, nothing otherwise.
pub open spec fn write_if(cond: bool, w: (Seq<char>, Seq<char>)) -> Seq<(Seq<char>, Seq<char>)> {
    if cond {
        seq![w]
    } else {
        Seq::empty()
    }
}

/// The CPU set as the kernel reads it: the CPU numbers joined with commas.
pub open spec fn cpuset_text(cpus: Seq<u32>) -> Seq<char> {
    comma_joined(cpus.map_values(|c: u32| decimal(c as nat)))
}

/// The CPU settings written: shares, quota and period, then the CPU set
/// when it names any CPU.
pub open spec fn cpu_writes(c: CpuLimits) -> Seq<(Seq<char>, Seq<char>)> {
    seq![
        ("/sys/fs/cgroup/cpu/cpu.shares"@, decimal(c.shares as nat)),
        ("/sys/fs/cgroup/cpu/cpu.cfs_quota_us"@, signed_decimal(c.quota_us as int)),
        ("/sys/fs/cgroup/cpu/cpu.cfs_period_us"@, decimal(c.period_us as nat)),
    ] + write_if(c.cpuset@.len() > 0, ("/sys/fs/cgroup/cpu/cpuset.cpus"@, cpuset_text(c.cpuset@)))
}

/// The memory settings written: each limit that is set (not negative), then
/// the swappiness.
pub open spec fn memory_writes(m: MemoryLimits) -> Seq<(Seq<char>, Seq<char>)> {
    write_if(m.limit_bytes >= 0, ("/sys/fs/cgroup/memory/memory.limit_in_bytes"@, signed_decimal(m.limit_bytes as int)))
        + write_if(
        m.soft_limit_bytes >= 0,
        ("/sys/fs/cgroup/memory/memory.soft_limit_in_bytes"@, signed_decimal(m.soft_limit_bytes as int)),
    ) + write_if(
        m.kernel_limit_bytes >= 0,
        ("/sys/fs/cgroup/memory/memory.kmem.limit_in_bytes"@, signed_decimal(m.kernel_limit_bytes as int)),
    ) + write_if(
        m.swap_limit_bytes >= 0,
        ("/sys/fs/cgroup/memory/memory.memsw.limit_in_bytes"@, signed_decimal(m.swap_limit_bytes as int)),
    ) + seq![("/sys/fs/cgroup/memory/memory.swappiness"@, decimal(m.swappiness as nat))]
}

/// The throttle line for a device: its name, a space and the value.
pub open spec fn device_line(device: Seq<char>, v: u64) -> Seq<char> {
    device + " "@ + decimal(v as nat)
}

/// The throttle write of `v` into `file` for `device`, when `v` is set.
pub open spec fn throttle_write(file: Seq<char>, device: Seq<char>, v: Option<u64>) -> Seq<(Seq<char>, Seq<char>)> {
    match v {
        Some(x) => seq![(file, device_line(device, x))],
        None => Seq::empty(),
    }
}

/// The throttle writes of one device: read and write bandwidth, then read
/// and write operation rates, each when set.
pub open spec fn device_writes(device: Seq<char>, l: DeviceLimit) -> Seq<(Seq<char>, Seq<char>)> {
    throttle_write("/sys/fs/cgroup/blkio/blkio.throttle.read_bps_device"@, device, l.read_bps)
        + throttle_write("/sys/fs/cgroup/blkio/blkio.throttle.write_bps_device"@, device, l.write_bps)
        + throttle_write("/sys/fs/cgroup/blkio/blkio.throttle.read_iops_device"@, device, l.read_iops)
        + throttle_write("/sys/fs/cgroup/blkio/blkio.throttle.write_iops_device"@, device, l.write_iops)
}

/// The throttle writes of the devices in `devices`, in order.
pub open spec fn devices_writes(devices: Seq<(String, DeviceLimit)>) -> Seq<(Seq<char>, Seq<char>)>
    decreases devices.len(),
{
    if devices.len() == 0 {
        Seq::empty()
    } else {
        devices_writes(devices.drop_last()) + device_writes(devices.last().0@, devices.last().1)
    }
}

/// The I/O settings written: the weight, then each device's throttles.
pub open spec fn io_writes(weight: u16, devices: Seq<(String, DeviceLimit)>) -> Seq<(Seq<char>, Seq<char>)> {
    seq![("/sys/fs/cgroup/blkio/blkio.weight"@, decimal(weight as nat))] + devices_writes(devices)
}

/// The process settings written: the process and thread limits when set.
pub open spec fn process_writes(p: ProcessLimits) -> Seq<(Seq<char>, Seq<char>)> {
    write_if(p.max_processes >= 0, ("/sys/fs/cgroup/pids/pids.max"@, signed_decimal(p.max_processes as int)))
        + write_if(
        p.max_threads >= 0,
        ("/sys/fs/cgroup/pids/pids.max_threads"@, signed_decimal(p.max_threads as int)),
    )
}

impl CpuLimits {
    /// The cgroup files written to apply these limits (see `cpu_writes`).
    pub fn writes(&self) -> (r: Vec<FileWrite>)
        ensures
            writes_view(r@) == cpu_writes(*self),
    {
        let mut r: Vec<FileWrite> = Vec::new();
        push_write(&mut r, "/sys/fs/cgroup/cpu/cpu.shares", u64_to_decimal(self.shares));
        push_write(&mut r, "/sys/fs/cgroup/cpu/cpu.cfs_quota_us", i64_to_decimal(self.quota_us));
        push_write(&mut r, "/sys/fs/cgroup/cpu/cpu.cfs_period_us", u64_to_decimal(self.period_us));
        if self.cpuset.len() > 0 {
            let mut parts: Vec<String> = Vec::new();
            let mut i: usize = 0;
            while i < self.cpuset.len()
                invariant
                    i <= self.cpuset@.len(),
                    texts_of(parts@) == self.cpuset@.take(i as int).map_values(|c: u32| decimal(c as nat)),
                decreases self.cpuset@.len() - i,
            {
                let d = u64_to_decimal(self.cpuset[i] as u64);
                assert(d@ == decimal(self.cpuset@[i as int] as nat));
                let ghost old_parts = parts@;
                parts.push(d);
                assert(texts_of(parts@) =~= texts_of(old_parts).push(d@));
                assert(self.cpuset@.take(i + 1).map_values(|c: u32| decimal(c as nat)) =~= self.cpuset@.take(
                    i as int,
                ).map_values(|c: u32| decimal(c as nat)).push(decimal(self.cpuset@[i as int] as nat)));
                i += 1;
            }
            assert(self.cpuset@.take(self.cpuset@.len() as int) =~= self.cpuset@);
            push_write(&mut r, "/sys/fs/cgroup/cpu/cpuset.cpus", comma_join(&parts));
        }
        assert(writes_view(r@) =~= cpu_writes(*self));
        r
    }
}

impl MemoryLimits {
    /// The cgroup files written to apply these limits (see `memory_writes`).
    pub fn writes(&self) -> (r: Vec<FileWrite>)
        ensures
            writes_view(r@) == memory_writes(*self),
    {
        let mut r: Vec<FileWrite> = Vec::new();
        if self.limit_bytes >= 0 {
            push_write(&mut r, "/sys/fs/cgroup/memory/memory.limit_in_bytes", i64_to_decimal(self.limit_bytes));
        }
        if self.soft_limit_bytes >= 0 {
            push_write(&mut r, "/sys/fs/cgroup/memory/memory.soft_limit_in_bytes", i64_to_decimal(self.soft_limit_bytes));
        }
        if self.kernel_limit_bytes >= 0 {
            push_write(&mut r, "/sys/fs/cgroup/memory/memory.kmem.limit_in_bytes", i64_to_decimal(self.kernel_limit_bytes));
        }
        if self.swap_limit_bytes >= 0 {
            push_write(&mut r, "/sys/fs/cgroup/memory/memory.memsw.limit_in_bytes", i64_to_decimal(self.swap_limit_bytes));
        }
        push_write(&mut r, "/sys/fs/cgroup/memory/memory.swappiness", u64_to_decimal(self.swappiness as u64));
        assert(writes_view(r@) =~= memory_writes(*self));
        r
    }
}

/// Appends the throttle write of `v` into `file` for `device`, when set.
fn push_throttle(r: &mut Vec<FileWrite>, file: &str, device: &str, v: Option<u64>)
    ensures
        writes_view(final(r)@) == writes_view(old(r)@) + throttle_write(file@, device@, v),
{
    match v {
        Some(x) => {
            let mut line = String::from_str(device);
            push_text(&mut line, " ");
            push_text(&mut line, u64_to_decimal(x).as_str());
            push_write(r, file, line);
        },
        None => {},
    }
    assert(writes_view(r@) =~= writes_view(old(r)@) + throttle_write(file@, device@, v));
}

impl IoLimits {
    /// The cgroup files written to apply these limits (see `io_writes`).
    pub fn writes(&self) -> (r: Vec<FileWrite>)
        ensures
            writes_view(r@) == io_writes(self.weight, self.device_limits.pairs_spec()),
    {
        let mut r: Vec<FileWrite> = Vec::new();
        push_write(&mut r, "/sys/fs/cgroup/blkio/blkio.weight", u64_to_decimal(self.weight as u64));
        let n = self.device_limits.len();
        let ghost head = writes_view(r@);
        let mut i: usize = 0;
        while i < n
            invariant
                n == self.device_limits.pairs_spec().len(),
                i <= n,
                head == seq![("/sys/fs/cgroup/blkio/blkio.weight"@, decimal(self.weight as nat))],
                writes_view(r@) == head + devices_writes(self.device_limits.pairs_spec().take(i as int)),
            decreases n - i,
        {
            let (device, limit) = self.device_limits.entry_at(i);
            let ghost before = writes_view(r@);
            push_throttle(&mut r, "/sys/fs/cgroup/blkio/blkio.throttle.read_bps_device", device.as_str(), limit.read_bps);
            push_throttle(&mut r, "/sys/fs/cgroup/blkio/blkio.throttle.write_bps_device", device.as_str(), limit.write_bps);
            push_throttle(&mut r, "/sys/fs/cgroup/blkio/blkio.throttle.read_iops_device", device.as_str(), limit.read_iops);
            push_throttle(&mut r, "/sys/fs/cgroup/blkio/blkio.throttle.write_iops_device", device.as_str(), limit.write_iops);
            proof {
                let ps = self.device_limits.pairs_spec();
                assert(ps.take(i + 1).drop_last() =~= ps.take(i as int));
                assert(ps.take(i + 1).last() == ps[i as int]);
                assert(writes_view(r@) =~= before + device_writes(device@, *limit));
                assert(writes_view(r@) =~= head + devices_writes(ps.take(i + 1)));
            }
            i += 1;
        }
        assert(self.device_limits.pairs_spec().take(n as int) =~= self.device_limits.pairs_spec());
        r
    }
}

impl ProcessLimits {
    /// The cgroup files written to apply these limits (see `process_writes`).
    pub fn writes(&self) -> (r: Vec<FileWrite>)
        ensures
            writes_view(r@) == process_writes(*self),
    {
        let mut r: Vec<FileWrite> = Vec::new();
        if self.max_processes >= 0 {
            push_write(&mut r, "/sys/fs/cgroup/pids/pids.max", i64_to_decimal(self.max_processes));
        }
        if self.max_threads >= 0 {
            push_write(&mut r, "/sys/fs/cgroup/pids/pids.max_threads", i64_to_decimal(self.max_threads));
        }
        assert(writes_view(r@) =~= process_writes(*self));
        r
    }

    /// The open-file limit to set (as both soft and hard limit), when one is
    /// set.
    pub fn open_files_limit(&self) -> (r: Option<u64>)
        ensures
            r == (if self.max_open_files >= 0 {
                Some(self.max_open_files as u64)
            } else {
                None
            }),
    {
        if self.max_open_files >= 0 {
            Some(self.max_open_files as u64)
        } else {
            None
        }
    }
}

/// `tc ... tbf rate <rate> latency 50ms burst 1540` on `device`.
pub open spec fn tbf_command(device: Seq<char>, rate: Seq<char>) -> Seq<Seq<char>> {
    seq!["tc"@, "qdisc"@, "add"@, "dev"@, device, "root"@, "tbf"@, "rate"@, rate, "latency"@, "50ms"@, "burst"@, "1540"@]
}

/// The commands limiting one interface: an ingress queue with a policing
/// filter when an ingress rate is set, then a token bucket when an egress
/// rate is set.
pub open spec fn interface_commands(name: Seq<char>, l: InterfaceLimit) -> Seq<Seq<Seq<char>>> {
    let a = match l.ingress_bps {
        Some(rate) => seq![
            seq!["tc"@, "qdisc"@, "add"@, "dev"@, name, "ingress"@],
            seq![
                "tc"@,
                "filter"@,
                "add"@,
                "dev"@,
                name,
                "parent"@,
                "ffff:"@,
                "protocol"@,
                "ip"@,
                "u32"@,
                "match"@,
                "ip"@,
                "src"@,
                "0.0.0.0/0"@,
                "police"@,
                "rate"@,
                decimal(rate as nat),
                "burst"@,
                "10k"@,
                "drop"@,
                "flowid"@,
                ":1"@,
            ],
        ],
        None => Seq::empty(),
    };
    match l.egress_bps {
        Some(rate) => a.push(tbf_command(name, decimal(rate as nat))),
        None => a,
    }
}

/// The commands of the interfaces in `ifs`, in order.
pub open spec fn interfaces_commands(ifs: Seq<(String, InterfaceLimit)>) -> Seq<Seq<Seq<char>>>
    decreases ifs.len(),
{
    if ifs.len() == 0 {
        Seq::empty()
    } else {
        interfaces_commands(ifs.drop_last()) + interface_commands(ifs.last().0@, ifs.last().1)
    }
}

/// The network commands: a token bucket on `eth0` when a global bandwidth
/// is set, then each interface's commands.
pub open spec fn network_commands(n: Seq<(String, InterfaceLimit)>, bandwidth: i64) -> Seq<Seq<Seq<char>>> {
    let g = if bandwidth >= 0 {
        seq![tbf_command("eth0"@, signed_decimal(bandwidth as int))]
    } else {
        Seq::empty()
    };
    g + interfaces_commands(n)
}

/// The commands as texts.
pub open spec fn commands_view(c: Seq<Vec<String>>) -> Seq<Seq<Seq<char>>> {
    c.map_values(|v: Vec<String>| texts_of(v@))
}

/// The token-bucket command for `device` at `rate`.
fn tbf(device: &str, rate: &str) -> (c: Vec<String>)
    ensures
        texts_of(c@) == tbf_command(device@, rate@),
{
    let c = strings_of(
        &["tc", "qdisc", "add", "dev", device, "root", "tbf", "rate", rate, "latency", "50ms", "burst", "1540"],
    );
    assert(texts_of(c@) =~= tbf_command(device@, rate@));
    c
}

impl NetworkLimits {
    /// The traffic-control commands that apply these limits (see
    /// `network_commands`).
    pub fn commands(&self) -> (r: Vec<Vec<String>>)
        ensures
            commands_view(r@) == network_commands(self.interface_limits.pairs_spec(), self.bandwidth_bps),
    {
        let mut r: Vec<Vec<String>> = Vec::new();
        if self.bandwidth_bps >= 0 {
            let rate = i64_to_decimal(self.bandwidth_bps);
            r.push(tbf("eth0", rate.as_str()));
        }
        let ghost head = commands_view(r@);
        proof {
            assert(head =~= (if self.bandwidth_bps >= 0 {
                seq![tbf_command("eth0"@, signed_decimal(self.bandwidth_bps as int))]
            } else {
                Seq::empty()
            }));
        }
        let n = self.interface_limits.len();
        let mut i: usize = 0;
        while i < n
            invariant
                n == self.interface_limits.pairs_spec().len(),
                i <= n,
                head == (if self.bandwidth_bps >= 0 {
                    seq![tbf_command("eth0"@, signed_decimal(self.bandwidth_bps as int))]
                } else {
                    Seq::empty()
                }),
                commands_view(r@) == head + interfaces_commands(self.interface_limits.pairs_spec().take(i as int)),
            decreases n - i,
        {
            let (name, limit) = self.interface_limits.entry_at(i);
            let ghost before = commands_view(r@);
            match limit.ingress_bps {
                Some(rate) => {
                    let q = strings_of(&["tc", "qdisc", "add", "dev", name.as_str(), "ingress"]);
                    assert(texts_of(q@) =~= seq!["tc"@, "qdisc"@, "add"@, "dev"@, name@, "ingress"@]);
                    r.push(q);
                    let rt = u64_to_decimal(rate);
                    let f = strings_of(
                        &[
                            "tc",
                            "filter",
                            "add",
                            "dev",
                            name.as_str(),
                            "parent",
                            "ffff:",
                            "protocol",
                            "ip",
                            "u32",
                            "match",
                            "ip",
                            "src",
                            "0.0.0.0/0",
                            "police",
                            "rate",
                            rt.as_str(),
                            "burst",
                            "10k",
                            "drop",
                            "flowid",
                            ":1",
                        ],
                    );
                    assert(texts_of(f@) =~= interface_commands(name@, *limit)[1]);
                    r.push(f);
                },
                None => {},
            }
            match limit.egress_bps {
                Some(rate) => {
                    let rt = u64_to_decimal(rate);
                    r.push(tbf(name.as_str(), rt.as_str()));
                },
                None => {},
            }
            proof {
                let ps = self.interface_limits.pairs_spec();
                assert(ps.take(i + 1).drop_last() =~= ps.take(i as int));
                assert(ps.take(i + 1).last() == ps[i as int]);
                assert(commands_view(r@) =~= before + interface_commands(name@, *limit));
                assert(commands_view(r@) =~= head + interfaces_commands(ps.take(i + 1)));
            }
            i += 1;
        }
        assert(self.interface_limits.pairs_spec().take(n as int) =~= self.interface_limits.pairs_spec());
        r
    }
}

/// The direction and byte count of an I/O accounting line: three words, the
/// second `Read` or `Write`, the third the count.
pub open spec fn io_line(line: Seq<char>) -> Option<(bool, Option<u64>)> {
    let a1 = skip_space(line, 0);
    let b1 = skip_word(line, a1);
    let a2 = skip_space(line, b1);
    let b2 = skip_word(line, a2);
    let a3 = skip_space(line, b2);
    let b3 = skip_word(line, a3);
    let a4 = skip_space(line, b3);
    if a3 >= line.len() || a4 < line.len() {
        None
    } else if line.subrange(a2, b2) == "Read"@ {
        Some((true, parse_u64_spec(line.subrange(a3, b3))))
    } else if line.subrange(a2, b2) == "Write"@ {
        Some((false, parse_u64_spec(line.subrange(a3, b3))))
    } else {
        None
    }
}

/// The I/O usage after reading `lines` into `u`: each `Read` line sets the
/// bytes read and each `Write` line the bytes written, the last one of each
/// winning; `None` when a counted line holds no number.
pub open spec fn io_usage_after(u: IoUsage, lines: Seq<Seq<char>>) -> Option<IoUsage>
    decreases lines.len(),
{
    if lines.len() == 0 {
        Some(u)
    } else {
        match io_usage_after(u, lines.drop_last()) {
            None => None,
            Some(v) => match io_line(lines.last()) {
                Some((true, Some(n))) => Some(IoUsage { read_bytes: n, ..v }),
                Some((false, Some(n))) => Some(IoUsage { write_bytes: n, ..v }),
                Some((_, None)) => None,
                None => Some(v),
            },
        }
    }
}

/// Reads one I/O accounting line (see `io_line`).
fn io_line_of(line: &Vec<char>) -> (r: Option<(bool, Option<u64>)>)
    ensures
        r == io_line(line@),
{
    let a1 = skip_space_at(line, 0);
    let b1 = skip_word_at(line, a1);
    let a2 = skip_space_at(line, b1);
    let b2 = skip_word_at(line, a2);
    let a3 = skip_space_at(line, b2);
    let b3 = skip_word_at(line, a3);
    let a4 = skip_space_at(line, b3);
    if a3 >= line.len() || a4 < line.len() {
        return None;
    }
    let dir = string_of_range(line, a2, b2);
    let count = string_of_range(line, a3, b3);
    if same_text(dir.as_str(), "Read") {
        Some((true, parse_u64(count.as_str())))
    } else if same_text(dir.as_str(), "Write") {
        Some((false, parse_u64(count.as_str())))
    } else {
        None
    }
}

impl IoUsage {
    /// The usage after reading the I/O accounting text `content` into `self`
    /// (see `io_usage_after`); a counted line without a number is an error.
    pub fn read_service_bytes(&self, content: &str) -> (r: BlastResult<IoUsage>)
        ensures
            match io_usage_after(*self, lines_of(content@)) {
                Some(u) => r == Ok::<IoUsage, BlastError>(u),
                None => r matches Err(e) && e matches BlastError::ParseError(m) && m@
                    == "invalid number in blkio.throttle.io_service_bytes"@,
            },
    {
        let v = chars_of(content);
        let bounds = line_bounds(&v);
        let ghost lines = lines_of(v@);
        let mut u = *self;
        let mut k: usize = 0;
        while k < bounds.len()
            invariant
                lines == lines_of(v@),
                v@ == content@,
                bounds@.len() == lines.len(),
                forall|j: int|
                    0 <= j < bounds@.len() ==> (#[trigger] bounds@[j]).0 <= bounds@[j].1 <= v@.len() && v@.subrange(
                        bounds@[j].0 as int,
                        bounds@[j].1 as int,
                    ) == lines[j],
                k <= bounds@.len(),
                io_usage_after(*self, lines.take(k as int)) == Some(u),
            decreases bounds@.len() - k,
        {
            let (a, b) = bounds[k];
            let line = chars_of(string_of_range(&v, a, b).as_str());
            proof {
                assert(lines.take(k + 1).drop_last() =~= lines.take(k as int));
                assert(lines.take(k + 1).last() == lines[k as int]);
            }
            match io_line_of(&line) {
                Some((true, Some(n))) => {
                    u.read_bytes = n;
                },
                Some((false, Some(n))) => {
                    u.write_bytes = n;
                },
                Some((_, None)) => {
                    proof {
                        assert(io_usage_after(*self, lines.take(k + 1)) is None);
                        lemma_io_usage_stays_none(*self, lines, k + 1);
                        assert(lines.take(lines.len() as int) =~= lines);
                    }
                    return Err(
                        BlastError::ParseError(String::from_str("invalid number in blkio.throttle.io_service_bytes")),
                    );
                },
                None => {},
            }
            k += 1;
        }
        assert(lines.take(bounds@.len() as int) =~= lines);
        Ok(u)
    }
}

/// Once a line fails, reading more lines keeps the failure.
proof fn lemma_io_usage_stays_none(u: IoUsage, lines: Seq<Seq<char>>, k: int)
    requires
        0 <= k <= lines.len(),
        io_usage_after(u, lines.take(k)) is None,
    ensures
        io_usage_after(u, lines.take(lines.len() as int)) is None,
    decreases lines.len() - k,
{
    if k < lines.len() {
        assert(lines.take(k + 1).drop_last() =~= lines.take(k));
        lemma_io_usage_stays_none(u, lines, k + 1);
    }
}

/// What a single-number counter file reads as: the number after trimming.
pub fn read_counter(content: &str) -> (r: Option<u64>)
    ensures
        r == parse_u64_spec(trim(content@)),
{
    let t = trim_text(content);
    parse_u64(t.as_str())
}

} // verus!
