//! Security settings of an environment: capabilities, seccomp filters,
//! AppArmor and SELinux labels, and the plan of the system changes that
//! apply them.

use vstd::prelude::*;
use crate::resources::{writes_view, FileWrite};
use crate::text::{push_text, strings_of, texts_of};
use vstd::string::StringExecFns;

verus! {

/// Linux capabilities
#[derive(Debug, Clone, Copy, Hash, PartialEq, Eq, Structural)]
pub enum Capability {
    AuditControl,
    AuditRead,
    AuditWrite,
    BlockSuspend,
    Bpf,
    CheckpointRestore,
    Chown,
    DacOverride,
    DacReadSearch,
    Fowner,
    Fsetid,
    IpcLock,
    IpcOwner,
    Kill,
    Lease,
    LinuxImmutable,
    MacAdmin,
    MacOverride,
    Mknod,
    NetAdmin,
    NetBindService,
    NetBroadcast,
    NetRaw,
    Perfmon,
    Setfcap,
    Setgid,
    Setpcap,
    Setuid,
    SysAdmin,
    SysBoot,
    SysChroot,
    SysModule,
    SysNice,
    SysPacct,
    SysPtrace,
    SysRawio,
    SysResource,
    SysTime,
    SysTtyConfig,
    Syslog,
    WakeAlarm,
}

/// A set of capabilities, kept in insertion order with nothing twice.
pub struct CapabilitySet {
    items: Vec<Capability>,
}

impl CapabilitySet {
    #[verifier::type_invariant]
    spec fn no_duplicates(self) -> bool {
        self.items@.no_duplicates()
    }

    /// The capabilities in the set, in the order they were inserted.
    pub closed spec fn seq(&self) -> Seq<Capability> {
        self.items@
    }

    /// The capabilities as a set.
    pub closed spec fn view(&self) -> Set<Capability> {
        self.items@.to_set()
    }

    /// An empty set.
    pub fn new() -> (s: Self)
        ensures
            s.seq().len() == 0,
            s@ == Set::<Capability>::empty(),
    {
        let s = CapabilitySet { items: Vec::new() };
        assert(s@ =~= Set::<Capability>::empty());
        s
    }

    /// Whether `c` is in the set.
    pub fn contains(&self, c: Capability) -> (b: bool)
        ensures
            b == self@.contains(c),
    {
        let mut i: usize = 0;
        while i < self.items.len()
            invariant
                i <= self.items@.len(),
                forall|j: int| 0 <= j < i ==> self.items@[j] != c,
            decreases self.items@.len() - i,
        {
            if self.items[i] == c {
                assert(self.items@.to_set().contains(self.items@[i as int]));
                return true;
            }
            i += 1;
        }
        assert(!self.items@.contains(c));
        false
    }

    /// Adds `c`; says whether it was not there before, as `HashSet::insert`.
    pub fn insert(&mut self, c: Capability) -> (added: bool)
        ensures
            final(self)@ == old(self)@.insert(c),
            added == !old(self)@.contains(c),
            added ==> final(self).seq() == old(self).seq().push(c),
            !added ==> final(self).seq() == old(self).seq(),
    {
        proof {
            use_type_invariant(&*self);
        }
        if self.contains(c) {
            assert(self@.insert(c) =~= self@);
            return false;
        }
        let ghost old_items = self.items@;
        let mut items = Vec::new();
        std::mem::swap(&mut items, &mut self.items);
        items.push(c);
        proof {
            assert(!old_items.contains(c));
            assert(items@.no_duplicates()) by {
                assert forall|a: int, b: int| 0 <= a < items@.len() && 0 <= b < items@.len() && a != b implies items@[a]
                    != items@[b] by {
                    if a == old_items.len() as int {
                        assert(old_items.contains(items@[b]));
                    } else if b == old_items.len() as int {
                        assert(old_items.contains(items@[a]));
                    }
                }
            }
            assert forall|a: Capability| #[trigger] items@.contains(a) <==> (old_items.contains(a) || a == c) by {
                if old_items.contains(a) {
                    let j = choose|j: int| 0 <= j < old_items.len() && old_items[j] == a;
                    assert(items@[j] == a);
                }
                if a == c {
                    assert(items@[old_items.len() as int] == c);
                }
                if items@.contains(a) {
                    let j = choose|j: int| 0 <= j < items@.len() && items@[j] == a;
                    if j < old_items.len() {
                        assert(old_items[j] == a);
                    }
                }
            }
            assert(items@.to_set() =~= old_items.to_set().insert(c));
        }
        self.items = items;
        true
    }

    /// Number of capabilities.
    pub fn len(&self) -> (n: usize)
        ensures
            n == self.seq().len(),
    {
        self.items.len()
    }

    /// The capability at position `i` in insertion order.
    pub fn at(&self, i: usize) -> (c: Capability)
        requires
            i < self.seq().len(),
        ensures
            c == self.seq()[i as int],
    {
        self.items[i]
    }
}

/// Capabilities configuration
pub struct CapabilitiesConfig {
    pub allowed: CapabilitySet,
    pub dropped: CapabilitySet,
    pub ambient: CapabilitySet,
}

impl Default for CapabilitiesConfig {
    fn default() -> (c: Self)
        ensures
            c.allowed.seq().len() == 0,
            c.dropped.seq() == seq![Capability::SysAdmin, Capability::NetAdmin, Capability::DacOverride],
            c.ambient.seq().len() == 0,
    {
        let mut dropped = CapabilitySet::new();
        dropped.insert(Capability::SysAdmin);
        dropped.insert(Capability::NetAdmin);
        dropped.insert(Capability::DacOverride);
        CapabilitiesConfig { allowed: CapabilitySet::new(), dropped, ambient: CapabilitySet::new() }
    }
}

/// Seccomp configuration
pub struct SeccompConfig {
    pub default_action: SeccompAction,
    pub syscalls: Vec<SyscallFilter>,
    pub architectures: Vec<SeccompArch>,
}

impl Default for SeccompConfig {
    fn default() -> (c: Self)
        ensures
            c.default_action == SeccompAction::Allow,
            c.syscalls@.len() == 0,
            c.architectures@ == seq![SeccompArch::X86_64],
    {
        let mut architectures = Vec::new();
        architectures.push(SeccompArch::X86_64);
        SeccompConfig { default_action: SeccompAction::Allow, syscalls: Vec::new(), architectures }
    }
}

/// Seccomp actions
#[derive(Debug, Clone, Copy, PartialEq, Eq, Structural)]
pub enum SeccompAction {
    Allow,
    Kill,
    Errno(i32),
    Trap,
    Log,
    Trace,
}

/// A syscall filter
pub struct SyscallFilter {
    pub names: Vec<String>,
    pub action: SeccompAction,
    pub args: Vec<SyscallArg>,
}

/// A condition on a syscall argument
#[derive(Debug, Clone, Copy, PartialEq, Eq, Structural)]
pub struct SyscallArg {
    pub index: usize,
    pub op: ArgOperation,
    pub value: u64,
    pub value_mask: u64,
}

/// Comparison applied to a syscall argument
#[derive(Debug, Clone, Copy, PartialEq, Eq, Structural)]
pub enum ArgOperation {
    NotEqual,
    LessThan,
    LessThanEqual,
    Equal,
    GreaterThanEqual,
    GreaterThan,
    MaskedEqual,
}

/// Seccomp architectures
#[derive(Debug, Clone, Copy, PartialEq, Eq, Structural)]
pub enum SeccompArch {
    X86,
    X86_64,
    X32,
    ARM,
    ARM64,
    MIPS,
    MIPS64,
    MIPSEL,
    MIPSEL64,
    PPC,
    PPC64,
    PPC64LE,
    S390X,
}

/// AppArmor configuration
#[derive(Debug, Clone)]
pub struct AppArmorConfig {
    pub profile_name: Option<String>,
    pub custom_profile: Option<String>,
}

impl Default for AppArmorConfig {
    fn default() -> (c: Self)
        ensures
            c.profile_name matches Some(p) && p@ == "blast-default"@,
            c.custom_profile is None,
    {
        AppArmorConfig { profile_name: Some(String::from_str("blast-default")), custom_profile: None }
    }
}

/// SELinux configuration
#[derive(Debug, Clone)]
pub struct SELinuxConfig {
    pub selinux_type: Option<String>,
    pub level: Option<String>,
    pub user: Option<String>,
    pub role: Option<String>,
}

impl Default for SELinuxConfig {
    fn default() -> (c: Self)
        ensures
            c.selinux_type matches Some(t) && t@ == "blast_t"@,
            c.level is None,
            c.user is None,
            c.role is None,
    {
        SELinuxConfig { selinux_type: Some(String::from_str("blast_t")), level: None, user: None, role: None }
    }
}

/// Security configuration
pub struct SecurityConfig {
    pub capabilities: CapabilitiesConfig,
    pub seccomp: SeccompConfig,
    pub apparmor: AppArmorConfig,
    pub selinux: SELinuxConfig,
    pub privileged: bool,
    pub no_new_privileges: bool,
}

impl Default for SecurityConfig {
    fn default() -> (c: Self)
        ensures
            c.capabilities.dropped@.contains(Capability::SysAdmin),
            c.capabilities.dropped.seq() == seq![Capability::SysAdmin, Capability::NetAdmin, Capability::DacOverride],
            c.capabilities.allowed.seq().len() == 0,
            c.capabilities.ambient.seq().len() == 0,
            c.seccomp.default_action == SeccompAction::Allow,
            c.apparmor.profile_name matches Some(p) && p@ == "blast-default"@,
            c.selinux.selinux_type matches Some(t) && t@ == "blast_t"@,
            !c.privileged,
            c.no_new_privileges,
    {
        let c = SecurityConfig {
            capabilities: CapabilitiesConfig::default(),
            seccomp: SeccompConfig::default(),
            apparmor: AppArmorConfig::default(),
            selinux: SELinuxConfig::default(),
            privileged: false,
            no_new_privileges: true,
        };
        assert(c.capabilities.dropped.seq()[0] == Capability::SysAdmin);
        c
    }
}

/// A capability set of a process.
#[derive(Debug, Clone, Copy, PartialEq, Eq, Structural)]
pub enum CapSet {
    Effective,
    Permitted,
    Inheritable,
    Ambient,
}

/// A change to one capability set: raise or drop `cap` in `set`.
#[derive(Debug, Clone, Copy, PartialEq, Eq, Structural)]
pub struct CapChange {
    pub raise: bool,
    pub set: CapSet,
    pub cap: Capability,
}

/// Dropping `c` from the effective, permitted and inheritable sets.
pub open spec fn drop_all_sets(c: Capability) -> Seq<CapChange> {
    seq![
        CapChange { raise: false, set: CapSet::Effective, cap: c },
        CapChange { raise: false, set: CapSet::Permitted, cap: c },
        CapChange { raise: false, set: CapSet::Inheritable, cap: c },
    ]
}

/// The changes for each capability of `caps`, in order.
pub open spec fn changes_for(caps: Seq<Capability>, f: spec_fn(Capability) -> Seq<CapChange>) -> Seq<CapChange>
    decreases caps.len(),
{
    if caps.len() == 0 {
        Seq::empty()
    } else {
        changes_for(caps.drop_last(), f) + f(caps.last())
    }
}

/// Raising `c` in the effective and permitted sets.
pub open spec fn raise_permitted(c: Capability) -> Seq<CapChange> {
    seq![
        CapChange { raise: true, set: CapSet::Effective, cap: c },
        CapChange { raise: true, set: CapSet::Permitted, cap: c },
    ]
}

/// Raising `c` in the ambient set.
pub open spec fn raise_ambient(c: Capability) -> Seq<CapChange> {
    seq![CapChange { raise: true, set: CapSet::Ambient, cap: c }]
}

/// The capability changes that apply `c`: the dropped ones leave the
/// effective, permitted and inheritable sets, the allowed ones are raised
/// in the effective and permitted sets, the ambient ones in the ambient set.
pub open spec fn capability_plan(c: CapabilitiesConfig) -> Seq<CapChange> {
    changes_for(c.dropped.seq(), |x: Capability| drop_all_sets(x)) + changes_for(
        c.allowed.seq(),
        |x: Capability| raise_permitted(x),
    ) + changes_for(c.ambient.seq(), |x: Capability| raise_ambient(x))
}

/// The files written to set the AppArmor profile: the profile name into the
/// process's security attribute, then a custom profile into its own file.
pub open spec fn apparmor_writes(c: AppArmorConfig) -> Seq<(Seq<char>, Seq<char>)> {
    let a = match c.profile_name {
        Some(p) => seq![("/proc/self/attr/current"@, p@)],
        None => Seq::empty(),
    };
    match c.custom_profile {
        Some(p) => a.push(("/etc/apparmor.d/blast."@ + p@, p@)),
        None => a,
    }
}

/// The files written to set the SELinux labels: the type, then the level.
pub open spec fn selinux_writes(c: SELinuxConfig) -> Seq<(Seq<char>, Seq<char>)> {
    let a = match c.selinux_type {
        Some(t) => seq![("/proc/self/attr/current"@, t@)],
        None => Seq::empty(),
    };
    match c.level {
        Some(l) => a.push(("/proc/self/attr/mls"@, l@)),
        None => a,
    }
}

/// Security manager
pub struct SecurityManager {
    config: SecurityConfig,
}

impl SecurityManager {
    /// The configuration applied.
    pub closed spec fn config(&self) -> SecurityConfig {
        self.config
    }

    /// A manager applying `config`.
    pub fn new(config: SecurityConfig) -> (m: Self)
        ensures
            m.config() == config,
    {
        SecurityManager { config }
    }

    /// Appends the changes for each capability of `caps`.
    fn push_changes(r: &mut Vec<CapChange>, caps: &CapabilitySet, kind: u8)
        requires
            kind < 3,
        ensures
            final(r)@ == old(r)@ + changes_for(
                caps.seq(),
                if kind == 0 {
                    |x: Capability| drop_all_sets(x)
                } else if kind == 1 {
                    |x: Capability| raise_permitted(x)
                } else {
                    |x: Capability| raise_ambient(x)
                },
            ),
    {
        let ghost f = if kind == 0 {
            |x: Capability| drop_all_sets(x)
        } else if kind == 1 {
            |x: Capability| raise_permitted(x)
        } else {
            |x: Capability| raise_ambient(x)
        };
        let ghost start = r@;
        let n = caps.len();
        let mut i: usize = 0;
        while i < n
            invariant
                n == caps.seq().len(),
                i <= n,
                kind < 3,
                f == (if kind == 0 {
                    |x: Capability| drop_all_sets(x)
                } else if kind == 1 {
                    |x: Capability| raise_permitted(x)
                } else {
                    |x: Capability| raise_ambient(x)
                }),
                r@ == start + changes_for(caps.seq().take(i as int), f),
            decreases n - i,
        {
            let c = caps.at(i);
            let ghost before = r@;
            if kind == 0 {
                r.push(CapChange { raise: false, set: CapSet::Effective, cap: c });
                r.push(CapChange { raise: false, set: CapSet::Permitted, cap: c });
                r.push(CapChange { raise: false, set: CapSet::Inheritable, cap: c });
            } else if kind == 1 {
                r.push(CapChange { raise: true, set: CapSet::Effective, cap: c });
                r.push(CapChange { raise: true, set: CapSet::Permitted, cap: c });
            } else {
                r.push(CapChange { raise: true, set: CapSet::Ambient, cap: c });
            }
            proof {
                let s = caps.seq();
                assert(s.take(i + 1).drop_last() =~= s.take(i as int));
                assert(s.take(i + 1).last() == c);
                assert(r@ =~= before + f(c));
                assert(r@ =~= start + changes_for(s.take(i + 1), f));
            }
            i += 1;
        }
        assert(caps.seq().take(n as int) =~= caps.seq());
    }

    /// The capability changes that apply the configuration (see
    /// `capability_plan`).
    pub fn capability_changes(&self) -> (r: Vec<CapChange>)
        ensures
            r@ == capability_plan(self.config().capabilities),
    {
        let mut r: Vec<CapChange> = Vec::new();
        Self::push_changes(&mut r, &self.config.capabilities.dropped, 0);
        Self::push_changes(&mut r, &self.config.capabilities.allowed, 1);
        Self::push_changes(&mut r, &self.config.capabilities.ambient, 2);
        assert(r@ =~= capability_plan(self.config().capabilities));
        r
    }

    /// The files written to set the AppArmor profile (see `apparmor_writes`);
    /// a custom profile is then loaded with `apparmor_parser -r <file>`.
    pub fn apparmor_files(&self) -> (r: Vec<FileWrite>)
        ensures
            writes_view(r@) == apparmor_writes(self.config().apparmor),
    {
        let mut r: Vec<FileWrite> = Vec::new();
        match &self.config.apparmor.profile_name {
            Some(p) => {
                r.push(FileWrite { path: String::from_str("/proc/self/attr/current"), value: p.clone() });
            },
            None => {},
        }
        match &self.config.apparmor.custom_profile {
            Some(p) => {
                let mut path = String::from_str("/etc/apparmor.d/blast.");
                push_text(&mut path, p.as_str());
                r.push(FileWrite { path, value: p.clone() });
            },
            None => {},
        }
        assert(writes_view(r@) =~= apparmor_writes(self.config().apparmor));
        r
    }

    /// The files written to set the SELinux labels (see `selinux_writes`).
    pub fn selinux_files(&self) -> (r: Vec<FileWrite>)
        ensures
            writes_view(r@) == selinux_writes(self.config().selinux),
    {
        let mut r: Vec<FileWrite> = Vec::new();
        match &self.config.selinux.selinux_type {
            Some(t) => {
                r.push(FileWrite { path: String::from_str("/proc/self/attr/current"), value: t.clone() });
            },
            None => {},
        }
        match &self.config.selinux.level {
            Some(l) => {
                r.push(FileWrite { path: String::from_str("/proc/self/attr/mls"), value: l.clone() });
            },
            None => {},
        }
        assert(writes_view(r@) =~= selinux_writes(self.config().selinux));
        r
    }

    /// Whether every capability is to be dropped: the environment is not
    /// privileged.
    pub fn drops_all_capabilities(&self) -> (b: bool)
        ensures
            b == !self.config().privileged,
    {
        !self.config.privileged
    }

    /// Whether the no-new-privileges flag is to be set.
    pub fn sets_no_new_privileges(&self) -> (b: bool)
        ensures
            b == self.config().no_new_privileges,
    {
        self.config.no_new_privileges
    }
}

} // verus!
