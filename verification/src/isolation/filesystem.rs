//! Filesystem isolation: the policy that decides which paths an environment
//! may reach, the checks a mount has to pass, and the record of mounts and
//! file accesses with the patterns and violations found in them.

use vstd::prelude::*;
use crate::error::{BlastError, BlastResult};
use crate::paths::{has_parent_component, has_parent_dir, path_starts_with, starts_with_path};
use crate::strmap::{has_text_key, StrMap};
use crate::text::{chars_of, contains_text, decimal, has_infix, push_decimal, push_text, strings_of, texts_of};
use crate::time::system_now;
use vstd::string::StringExecFns;

verus! {

/// Size in bytes above which an access counts as a large transfer.
pub const LARGE_TRANSFER_BYTES: u64 = 1048576;

/// Number of recorded patterns above which an access record is flagged.
pub const SUSPICIOUS_PATTERN_COUNT: usize = 10;

/// Filesystem policy configuration
pub struct FilesystemPolicy {
    /// Root directory
    pub root_dir: String,
    /// Read-only paths
    pub readonly_paths: Vec<String>,
    /// Hidden paths
    pub hidden_paths: Vec<String>,
    /// Allowed paths
    pub allowed_paths: Vec<String>,
    /// Denied paths
    pub denied_paths: Vec<String>,
    /// Mount points
    pub mount_points: StrMap<MountConfig>,
    /// Temporary directory
    pub tmp_dir: String,
    /// Maximum file size
    pub max_file_size: u64,
    /// Maximum total size
    pub max_total_size: u64,
}

/// Mount point configuration
#[derive(Debug, Clone)]
pub struct MountConfig {
    /// Source path
    pub source: String,
    /// Mount options
    pub options: Vec<String>,
    /// Mount type
    pub mount_type: MountType,
    /// Read-only mount
    pub readonly: bool,
}

/// Mount type
#[derive(Debug, Clone, Copy, PartialEq, Eq, Structural)]
pub enum MountType {
    /// Bind mount
    Bind,
    /// Tmpfs mount
    Tmpfs,
    /// Overlay mount
    Overlay,
}

/// The filesystem type named in the mount call for each mount type.
pub open spec fn fstype_name(t: MountType) -> Seq<char> {
    match t {
        MountType::Bind => "none"@,
        MountType::Tmpfs => "tmpfs"@,
        MountType::Overlay => "overlay"@,
    }
}

impl MountType {
    /// The filesystem type handed to the mount call.
    pub fn fstype(&self) -> (r: &'static str)
        ensures
            r@ == fstype_name(*self),
    {
        match self {
            MountType::Bind => "none",
            MountType::Tmpfs => "tmpfs",
            MountType::Overlay => "overlay",
        }
    }
}

/// Mount information
pub struct MountInfo {
    /// Mount point
    pub mount_point: String,
    /// Mount configuration
    pub config: MountConfig,
    /// Mount time
    pub mounted_at: std::time::SystemTime,
    /// Current size
    pub current_size: u64,
}

/// File access information
pub struct FileAccessInfo {
    /// Read count
    pub read_count: u64,
    /// Write count
    pub write_count: u64,
    /// Last access time
    pub last_access: std::time::SystemTime,
    /// Creation time
    pub created_at: std::time::SystemTime,
    /// Last modification time
    pub last_modified: std::time::SystemTime,
    /// File size
    pub size: u64,
    /// Is directory
    pub is_directory: bool,
    /// Access patterns detected
    pub access_patterns: Vec<AccessPattern>,
    /// Security violations
    pub security_violations: Vec<SecurityViolation>,
    /// Owner
    pub owner: String,
    /// Permissions
    pub permissions: u32,
}

/// Access pattern types; intervals and durations are in seconds.
#[derive(Debug, Clone, Copy, PartialEq, Eq, Structural)]
pub enum AccessPattern {
    /// Rapid repeated access
    RapidAccess { count: u32, interval: u64 },
    /// Large data transfer
    LargeTransfer { bytes: u64, duration: u64 },
    /// Sequential access
    Sequential { operations: u32 },
    /// Random access
    Random { operations: u32 },
}

/// Security violation types
#[derive(Debug)]
pub enum SecurityViolation {
    /// Unauthorized access attempt
    UnauthorizedAccess { timestamp: std::time::SystemTime, reason: String },
    /// Size limit exceeded
    SizeLimitExceeded { size: u64, limit: u64 },
    /// Invalid operation
    InvalidOperation { op: String, reason: String },
    /// Suspicious pattern
    SuspiciousPattern { pattern: String, details: String },
}

impl Clone for SecurityViolation {
    fn clone(&self) -> (r: Self)
        ensures
            r == *self,
    {
        match self {
            SecurityViolation::UnauthorizedAccess { timestamp, reason } => {
                SecurityViolation::UnauthorizedAccess { timestamp: timestamp.clone(), reason: reason.clone() }
            },
            SecurityViolation::SizeLimitExceeded { size, limit } => {
                SecurityViolation::SizeLimitExceeded { size: *size, limit: *limit }
            },
            SecurityViolation::InvalidOperation { op, reason } => {
                SecurityViolation::InvalidOperation { op: op.clone(), reason: reason.clone() }
            },
            SecurityViolation::SuspiciousPattern { pattern, details } => {
                SecurityViolation::SuspiciousPattern { pattern: pattern.clone(), details: details.clone() }
            },
        }
    }
}

/// `v` is the note left when an access record holds `count` patterns.
pub open spec fn is_high_frequency_note(v: SecurityViolation, count: nat) -> bool {
    &&& v matches SecurityViolation::SuspiciousPattern { pattern, details }
    &&& pattern@ == "High frequency access"@
    &&& details@ == "Access count: "@ + decimal(count)
}

/// The patterns of a record after an access of `size` bytes: a rapid-access
/// pattern when the access came within a second of the last one, then a
/// large-transfer pattern when more than a mebibyte moved.
pub open spec fn patterns_after(p: Seq<AccessPattern>, rapid: bool, size: u64) -> Seq<AccessPattern> {
    let a = if rapid {
        p.push(AccessPattern::RapidAccess { count: 1, interval: 1 })
    } else {
        p
    };
    if size > LARGE_TRANSFER_BYTES {
        a.push(AccessPattern::LargeTransfer { bytes: size, duration: 1 })
    } else {
        a
    }
}

/// `n` is the record of a file after one access, when the record before it
/// had the given counts, times, size, kind, patterns and violations; `ok`
/// says whether the access was accepted. A write counts and stamps the
/// modification time; a write above `limit` bytes is refused with a
/// size violation and leaves the rest as it was. Otherwise the access time,
/// size and kind are taken over, the patterns grow, and a record with more
/// than ten patterns gets a high-frequency note.
pub open spec fn access_recorded(
    reads: u64,
    writes: u64,
    last_access: std::time::SystemTime,
    last_modified: std::time::SystemTime,
    size0: u64,
    is_dir0: bool,
    patterns: Seq<AccessPattern>,
    violations: Seq<SecurityViolation>,
    n: FileAccessInfo,
    is_write: bool,
    size: u64,
    is_directory: bool,
    now: std::time::SystemTime,
    rapid: bool,
    limit: u64,
    ok: bool,
) -> bool {
    &&& n.read_count == (if is_write { reads as int } else { reads + 1 })
    &&& n.write_count == (if is_write { writes + 1 } else { writes as int })
    &&& n.last_modified == (if is_write { now } else { last_modified })
    &&& if is_write && size > limit {
        &&& !ok
        &&& n.security_violations@ == violations.push(SecurityViolation::SizeLimitExceeded { size, limit })
        &&& n.access_patterns@ == patterns
        &&& n.last_access == last_access
        &&& n.size == size0
        &&& n.is_directory == is_dir0
    } else {
        let p = patterns_after(patterns, rapid, size);
        &&& ok
        &&& n.last_access == now
        &&& n.size == size
        &&& n.is_directory == is_directory
        &&& n.access_patterns@ == p
        &&& if p.len() > SUSPICIOUS_PATTERN_COUNT {
            &&& n.security_violations@.len() == violations.len() + 1
            &&& n.security_violations@.take(violations.len() as int) == violations
            &&& is_high_frequency_note(n.security_violations@.last(), p.len())
        } else {
            n.security_violations@ == violations
        }
    }
}

impl FileAccessInfo {
    /// A record with no accesses yet, all of its times at `now`.
    fn fresh(now: std::time::SystemTime) -> (i: Self)
        ensures
            i.read_count == 0,
            i.write_count == 0,
            i.last_access == now,
            i.created_at == now,
            i.last_modified == now,
            i.size == 0,
            !i.is_directory,
            i.access_patterns@.len() == 0,
            i.security_violations@.len() == 0,
            i.owner@.len() == 0,
            i.permissions == 0o644,
    {
        FileAccessInfo {
            read_count: 0,
            write_count: 0,
            last_access: now.clone(),
            created_at: now.clone(),
            last_modified: now,
            size: 0,
            is_directory: false,
            access_patterns: Vec::new(),
            security_violations: Vec::new(),
            owner: String::new(),
            permissions: 0o644,
        }
    }

    /// Counts one access into this record (see `access_recorded`).
    fn note_access(
        &mut self,
        is_write: bool,
        size: u64,
        is_directory: bool,
        now: std::time::SystemTime,
        rapid: bool,
        limit: u64,
    ) -> (r: BlastResult<()>)
        requires
            is_write ==> old(self).write_count < u64::MAX,
            !is_write ==> old(self).read_count < u64::MAX,
        ensures
            access_recorded(
                old(self).read_count,
                old(self).write_count,
                old(self).last_access,
                old(self).last_modified,
                old(self).size,
                old(self).is_directory,
                old(self).access_patterns@,
                old(self).security_violations@,
                *final(self),
                is_write,
                size,
                is_directory,
                now,
                rapid,
                limit,
                r is Ok,
            ),
            final(self).created_at == old(self).created_at,
            final(self).owner == old(self).owner,
            final(self).permissions == old(self).permissions,
            r matches Err(e) ==> e matches BlastError::Security(m) && m@ == "File size limit exceeded"@,
    {
        let ghost p0 = self.access_patterns@;
        let ghost v0 = self.security_violations@;
        if is_write {
            self.write_count = self.write_count + 1;
            self.last_modified = now.clone();
            if size > limit {
                self.security_violations.push(SecurityViolation::SizeLimitExceeded { size, limit });
                return Err(BlastError::security("File size limit exceeded"));
            }
        } else {
            self.read_count = self.read_count + 1;
        }
        self.last_access = now;
        self.size = size;
        self.is_directory = is_directory;
        if rapid {
            self.access_patterns.push(AccessPattern::RapidAccess { count: 1, interval: 1 });
        }
        if size > LARGE_TRANSFER_BYTES {
            self.access_patterns.push(AccessPattern::LargeTransfer { bytes: size, duration: 1 });
        }
        assert(self.access_patterns@ == patterns_after(p0, rapid, size));
        let n = self.access_patterns.len();
        if n > SUSPICIOUS_PATTERN_COUNT {
            let mut details = String::from_str("Access count: ");
            push_decimal(&mut details, n as u64);
            let note = SecurityViolation::SuspiciousPattern {
                pattern: String::from_str("High frequency access"),
                details,
            };
            self.security_violations.push(note);
            assert(self.security_violations@.take(v0.len() as int) =~= v0);
        }
        Ok(())
    }
}

impl Default for FileAccessInfo {
    fn default() -> (i: Self)
        ensures
            i.read_count == 0,
            i.write_count == 0,
            i.last_access == i.created_at,
            i.last_modified == i.created_at,
            i.size == 0,
            !i.is_directory,
            i.access_patterns@.len() == 0,
            i.security_violations@.len() == 0,
            i.owner@.len() == 0,
            i.permissions == 0o644,
    {
        FileAccessInfo::fresh(system_now())
    }
}

/// Mount operation record for rollback
pub struct MountOperation {
    mount_point: String,
    config: MountConfig,
    timestamp: std::time::SystemTime,
    successful: bool,
}

impl MountOperation {
    /// A mount of `config` at `mount_point` begun at `timestamp`, not yet
    /// successful.
    pub fn begin(mount_point: &str, config: MountConfig, timestamp: std::time::SystemTime) -> (op: Self)
        ensures
            op.mount_point()@ == mount_point@,
            op.config() == config,
            op.timestamp() == timestamp,
            !op.successful(),
    {
        MountOperation { mount_point: String::from_str(mount_point), config, timestamp, successful: false }
    }

    /// The mount point.
    pub closed spec fn mount_point(&self) -> String {
        self.mount_point
    }

    /// The mount configuration.
    pub closed spec fn config(&self) -> MountConfig {
        self.config
    }

    /// When the operation began.
    pub closed spec fn timestamp(&self) -> std::time::SystemTime {
        self.timestamp
    }

    /// Whether the operation succeeded.
    pub closed spec fn successful(&self) -> bool {
        self.successful
    }

    /// The mount point of the operation.
    pub fn target(&self) -> (r: &str)
        ensures
            r@ == self.mount_point()@,
    {
        self.mount_point.as_str()
    }
}

/// Some path in `bases` is a component-wise prefix of `p`.
pub open spec fn under_any(p: Seq<char>, bases: Seq<String>) -> bool {
    exists|i: int| 0 <= i < bases.len() && path_starts_with(p, #[trigger] bases[i]@)
}

/// Whether some path of `bases` is a prefix of `path`.
fn starts_with_any(path: &str, bases: &Vec<String>) -> (r: bool)
    ensures
        r == under_any(path@, bases@),
{
    let mut i: usize = 0;
    while i < bases.len()
        invariant
            i <= bases@.len(),
            forall|j: int| 0 <= j < i ==> !path_starts_with(path@, #[trigger] bases@[j]@),
        decreases bases@.len() - i,
    {
        if starts_with_path(path, bases[i].as_str()) {
            assert(path_starts_with(path@, bases@[i as int]@));
            return true;
        }
        i += 1;
    }
    false
}

/// The policy lets `p` be reached: no denied path covers it, and an allowed
/// path or the root directory does.
pub open spec fn path_allowed(policy: FilesystemPolicy, p: Seq<char>) -> bool {
    !under_any(p, policy.denied_paths@) && (under_any(p, policy.allowed_paths@) || path_starts_with(
        p,
        policy.root_dir@,
    ))
}

/// The option text names a flag that mounts may not carry.
pub open spec fn forbidden_option(opt: Seq<char>) -> bool {
    has_infix(opt, "suid"@) || has_infix(opt, "dev"@) || has_infix(opt, "exec"@)
}

/// `i` is the first forbidden option.
pub open spec fn first_forbidden_at(options: Seq<String>, i: int) -> bool {
    &&& 0 <= i < options.len()
    &&& forbidden_option(options[i]@)
    &&& forall|j: int| 0 <= j < i ==> !forbidden_option(#[trigger] options[j]@)
}

/// The position of the first forbidden option.
pub open spec fn first_forbidden(options: Seq<String>) -> int {
    choose|i: int| first_forbidden_at(options, i)
}

/// Some option is forbidden.
pub open spec fn has_forbidden_option(options: Seq<String>) -> bool {
    exists|i: int| 0 <= i < options.len() && forbidden_option(#[trigger] options[i]@)
}

/// One of `mounted` lies on the same branch as `p`: one is a prefix of the other.
pub open spec fn overlaps_mount(p: Seq<char>, mounted: Set<Seq<char>>) -> bool {
    exists|k: Seq<char>| #[trigger] mounted.contains(k) && (path_starts_with(p, k) || path_starts_with(k, p))
}

/// The message of the first check that mounting `config` at `mount_point`
/// fails, in the order the checks run, or `None` when all pass: no `..` in
/// the mount point; for a bind mount, a source that exists and has no `..`;
/// no option naming `suid`, `dev` or `exec`; no overlap with a mount in place.
pub open spec fn mount_config_error(
    mount_point: Seq<char>,
    config: MountConfig,
    source_exists: bool,
    mounted: Set<Seq<char>>,
) -> Option<Seq<char>> {
    let bind = config.mount_type == MountType::Bind;
    if has_parent_component(mount_point) {
        Some("Path traversal detected in mount point"@)
    } else if bind && !source_exists {
        Some("Mount source does not exist"@)
    } else if bind && has_parent_component(config.source@) {
        Some("Path traversal detected in source"@)
    } else if has_forbidden_option(config.options@) {
        Some("Forbidden mount option detected: "@ + config.options@[first_forbidden(config.options@)]@)
    } else if overlaps_mount(mount_point, mounted) {
        Some("Recursive mount detected"@)
    } else {
        None
    }
}

/// Filesystem state tracking
pub struct FilesystemState {
    /// Active mounts
    mounts: StrMap<MountInfo>,
    /// File access tracking
    access_tracking: StrMap<FileAccessInfo>,
    /// Filesystem policy
    policy: FilesystemPolicy,
}

/// The record of `path` after one access was noted at `now` (`rapid` when
/// it came within a second of the one before), starting from `before`'s
/// record or, for a path seen first, a fresh one created at `now`; `ok`
/// says whether the access was within the size limit.
pub open spec fn access_noted(
    before: Map<Seq<char>, FileAccessInfo>,
    path: Seq<char>,
    n_info: FileAccessInfo,
    is_write: bool,
    size: u64,
    is_directory: bool,
    now: std::time::SystemTime,
    rapid: bool,
    limit_bytes: u64,
    ok: bool,
) -> bool {
    let n = n_info;
    let limit = limit_bytes;
    if before.contains_key(path) {
        let o = before[path];
        &&& access_recorded(
            o.read_count,
            o.write_count,
            o.last_access,
            o.last_modified,
            o.size,
            o.is_directory,
            o.access_patterns@,
            o.security_violations@,
            n,
            is_write,
            size,
            is_directory,
            now,
            rapid,
            limit,
            ok,
        )
        &&& n.created_at == o.created_at
        &&& n.owner == o.owner
        &&& n.permissions == o.permissions
    } else {
        &&& access_recorded(
            0,
            0,
            now,
            now,
            0,
            false,
            Seq::empty(),
            Seq::empty(),
            n,
            is_write,
            size,
            is_directory,
            now,
            rapid,
            limit,
            ok,
        )
        &&& n.created_at == now
        &&& n.owner@.len() == 0
        &&& n.permissions == 0o644
    }
}

impl FilesystemState {
    /// The active mounts by mount point.
    pub closed spec fn mounts(&self) -> Map<Seq<char>, MountInfo> {
        self.mounts@
    }

    /// The access records by path.
    pub closed spec fn accesses(&self) -> Map<Seq<char>, FileAccessInfo> {
        self.access_tracking@
    }

    /// The policy in force.
    pub closed spec fn policy_spec(&self) -> FilesystemPolicy {
        self.policy
    }

    /// Create new filesystem state
    pub fn new(policy: FilesystemPolicy) -> (s: Self)
        ensures
            s.mounts() == Map::<Seq<char>, MountInfo>::empty(),
            s.accesses() == Map::<Seq<char>, FileAccessInfo>::empty(),
            s.policy_spec() == policy,
    {
        FilesystemState { mounts: StrMap::new(), access_tracking: StrMap::new(), policy }
    }

    /// Check if path is allowed
    pub fn is_path_allowed(&self, path: &str) -> (r: bool)
        ensures
            r == path_allowed(self.policy_spec(), path@),
    {
        if starts_with_any(path, &self.policy.denied_paths) {
            return false;
        }
        if starts_with_any(path, &self.policy.allowed_paths) {
            return true;
        }
        starts_with_path(path, self.policy.root_dir.as_str())
    }

    /// Check if path is read-only
    pub fn is_path_readonly(&self, path: &str) -> (r: bool)
        ensures
            r == under_any(path@, self.policy_spec().readonly_paths@),
    {
        starts_with_any(path, &self.policy.readonly_paths)
    }

    /// Check if path should be hidden
    pub fn should_hide_path(&self, path: &str) -> (r: bool)
        ensures
            r == under_any(path@, self.policy_spec().hidden_paths@),
    {
        starts_with_any(path, &self.policy.hidden_paths)
    }

    /// Counts an access to `path` at `now` (see `access_recorded`); `rapid`
    /// says whether it came within a second of the one before. A path not yet
    /// tracked starts from an empty record stamped `now`.
    pub fn record_access(
        &mut self,
        path: &str,
        is_write: bool,
        size: u64,
        is_directory: bool,
        now: std::time::SystemTime,
        rapid: bool,
    ) -> (r: BlastResult<()>)
        requires
            old(self).accesses().contains_key(path@) ==> (if is_write {
    old(self).accesses()[path@].write_count < u64::MAX
            } else {
    old(self).accesses()[path@].read_count < u64::MAX
            }),
        ensures
            final(self).accesses() == old(self).accesses().insert(path@, final(self).accesses()[path@]),
            final(self).mounts() == old(self).mounts(),
            final(self).policy_spec() == old(self).policy_spec(),
            access_noted(
    old(self).accesses(),
    path@,
    final(self).accesses()[path@],
    is_write,
    size,
    is_directory,
    now,
    rapid,
    old(self).policy_spec().max_file_size,
    r is Ok,
            ),
            r matches Err(e) ==> e matches BlastError::Security(m) && m@ == "File size limit exceeded"@,
    {
        let ghost was = self.access_tracking@.contains_key(path@);
        let mut info = match self.access_tracking.remove(path) {
            Some(i) => i,
            None => FileAccessInfo::fresh(now.clone()),
        };
        proof {
            if !was {
    assert(info.access_patterns@ =~= Seq::<AccessPattern>::empty());
    assert(info.security_violations@ =~= Seq::<SecurityViolation>::empty());
            }
        }
        let r = info.note_access(is_write, size, is_directory, now, rapid, self.policy.max_file_size);
        self.access_tracking.insert(String::from_str(path), info);
        proof {
            assert(self.access_tracking@ =~= old(self).access_tracking@.insert(path@, self.access_tracking@[path@]));
        }
        r
    }

    /// Track file access: counts it at the current time, judging whether it
    /// came within a second of the one before by the system clock.
    pub fn track_access(&mut self, path: &str, is_write: bool, size: u64, is_directory: bool) -> (r: BlastResult<()>)
        requires
            old(self).accesses().contains_key(path@) ==> (if is_write {
    old(self).accesses()[path@].write_count < u64::MAX
            } else {
    old(self).accesses()[path@].read_count < u64::MAX
            }),
        ensures
            final(self).accesses() == old(self).accesses().insert(path@, final(self).accesses()[path@]),
            exists|now: std::time::SystemTime, rapid: bool|
    #[trigger] access_noted(
        old(self).accesses(),
        path@,
        final(self).accesses()[path@],
        is_write,
        size,
        is_directory,
        now,
        rapid,
        old(self).policy_spec().max_file_size,
        r is Ok,
    ),
            final(self).mounts() == old(self).mounts(),
            final(self).policy_spec() == old(self).policy_spec(),
            r is Err <==> is_write && size > old(self).policy_spec().max_file_size,
            r matches Err(e) ==> e matches BlastError::Security(m) && m@ == "File size limit exceeded"@,
    {
        let now = system_now();
        let rapid = match second_before(&now) {
            Some(t) => match elapsed_secs(&t) {
    Some(s) => s < 1,
    None => false,
            },
            None => false,
        };
        let ghost t = now;
        let r = self.record_access(path, is_write, size, is_directory, now, rapid);
        proof {
            assert(access_noted(
    old(self).accesses(),
    path@,
    self.accesses()[path@],
    is_write,
    size,
    is_directory,
    t,
    rapid,
    old(self).policy_spec().max_file_size,
    r is Ok,
            ));
        }
        r
    }

    /// Whether mounting `config` at `mount_point` passes the checks of
    /// `mount_config_error`; `source_exists` says whether the source path
    /// exists on disk.
    pub fn validate_mount_config(&self, mount_point: &str, config: &MountConfig, source_exists: bool) -> (r: BlastResult<()>)
        ensures
            match mount_config_error(mount_point@, *config, source_exists, self.mounts().dom()) {
    Some(msg) => r matches Err(e) && e matches BlastError::Security(m) && m@ == msg,
    None => r is Ok,
            },
    {
        if has_parent_dir(mount_point) {
            return Err(BlastError::security("Path traversal detected in mount point"));
        }
        if config.mount_type == MountType::Bind {
            if !source_exists {
    return Err(BlastError::security("Mount source does not exist"));
            }
            if has_parent_dir(config.source.as_str()) {
    return Err(BlastError::security("Path traversal detected in source"));
            }
        }
        let mut i: usize = 0;
        while i < config.options.len()
            invariant
    i <= config.options@.len(),
    forall|j: int| 0 <= j < i ==> !forbidden_option(#[trigger] config.options@[j]@),
    !has_parent_component(mount_point@),
    config.mount_type == MountType::Bind ==> source_exists && !has_parent_component(config.source@),
            decreases config.options@.len() - i,
        {
            let o = chars_of(config.options[i].as_str());
            if contains_text(&o, "suid") || contains_text(&o, "dev") || contains_text(&o, "exec") {
    proof {
        assert(forbidden_option(config.options@[i as int]@));
        assert(first_forbidden_at(config.options@, i as int));
        let c = first_forbidden(config.options@);
        if c < i {
            assert(!forbidden_option(config.options@[c]@));
        }
        if c > i {
            assert(!forbidden_option(config.options@[i as int]@));
        }
        assert(c == i);
    }
    let mut msg = String::from_str("Forbidden mount option detected: ");
    push_text(&mut msg, config.options[i].as_str());
    return Err(BlastError::Security(msg));
            }
            i += 1;
        }
        assert(!has_forbidden_option(config.options@));
        let n = self.mounts.len();
        let mut k: usize = 0;
        while k < n
            invariant
    n == self.mounts.pairs_spec().len(),
    k <= n,
    !has_parent_component(mount_point@),
    config.mount_type == MountType::Bind ==> source_exists && !has_parent_component(config.source@),
    !has_forbidden_option(config.options@),
    forall|j: int| 0 <= j < k ==> !(path_starts_with(mount_point@, #[trigger] self.mounts.pairs_spec()[j].0@)
        || path_starts_with(self.mounts.pairs_spec()[j].0@, mount_point@)),
            decreases n - k,
        {
            let (existing, _) = self.mounts.entry_at(k);
            if starts_with_path(mount_point, existing.as_str()) || starts_with_path(existing.as_str(), mount_point) {
    assert(self.mounts().dom().contains(existing@));
    assert(overlaps_mount(mount_point@, self.mounts().dom()));
    return Err(BlastError::security("Recursive mount detected"));
            }
            k += 1;
        }
        proof {
            self.mounts.lemma_keys();
            assert forall|key: Seq<char>| #[trigger] self.mounts().dom().contains(key) implies !(path_starts_with(
    mount_point@,
    key,
            ) || path_starts_with(key, mount_point@)) by {
    assert(has_text_key(self.mounts.pairs_spec(), key));
    let j = choose|j: int| 0 <= j < self.mounts.pairs_spec().len() && #[trigger] self.mounts.pairs_spec()[j].0@ == key;
    assert(self.mounts.pairs_spec()[j].0@ == key);
            }
        }
        Ok(())
    }

    /// The decision of a mount: the checks of `validate_mount_config`, then
    /// whether the policy allows the mount point.
    pub fn check_mount(&self, mount_point: &str, config: &MountConfig, source_exists: bool) -> (r: BlastResult<()>)
        ensures
            match mount_config_error(mount_point@, *config, source_exists, self.mounts().dom()) {
    Some(msg) => r matches Err(e) && e matches BlastError::Security(m) && m@ == msg,
    None => if path_allowed(self.policy_spec(), mount_point@) {
        r is Ok
    } else {
        r matches Err(e) && e matches BlastError::Security(m) && m@ == "Mount point not allowed: "@
            + mount_point@
    },
            },
    {
        self.validate_mount_config(mount_point, config, source_exists)?;
        if !self.is_path_allowed(mount_point) {
            let mut msg = String::from_str("Mount point not allowed: ");
            push_text(&mut msg, mount_point);
            return Err(BlastError::Security(msg));
        }
        Ok(())
    }

    /// Records that `config` was mounted at `mount_point` at `mounted_at`.
    pub fn record_mount(&mut self, mount_point: &str, config: MountConfig, mounted_at: std::time::SystemTime)
        ensures
            final(self).mounts() == old(self).mounts().insert(mount_point@, final(self).mounts()[mount_point@]),
            final(self).mounts()[mount_point@].mount_point@ == mount_point@,
            final(self).mounts()[mount_point@].config == config,
            final(self).mounts()[mount_point@].mounted_at == mounted_at,
            final(self).mounts()[mount_point@].current_size == 0,
            final(self).accesses() == old(self).accesses(),
            final(self).policy_spec() == old(self).policy_spec(),
    {
        let info = MountInfo { mount_point: String::from_str(mount_point), config, mounted_at, current_size: 0 };
        self.mounts.insert(String::from_str(mount_point), info);
    }

    /// Unmount filesystem: forgets the mount at `mount_point` and says
    /// whether there was one.
    pub fn unmount(&mut self, mount_point: &str) -> (was_mounted: bool)
        ensures
            final(self).mounts() == old(self).mounts().remove(mount_point@),
            was_mounted == old(self).mounts().contains_key(mount_point@),
            final(self).accesses() == old(self).accesses(),
            final(self).policy_spec() == old(self).policy_spec(),
    {
        self.mounts.remove(mount_point).is_some()
    }

    /// Get mount information
    pub fn get_mount_info(&self, mount_point: &str) -> (r: Option<&MountInfo>)
        ensures
            r matches Some(i) ==> self.mounts().contains_key(mount_point@) && *i == self.mounts()[mount_point@],
            r is None ==> !self.mounts().contains_key(mount_point@),
    {
        self.mounts.get(mount_point)
    }

    /// Get file access information
    pub fn get_access_info(&self, path: &str) -> (r: Option<&FileAccessInfo>)
        ensures
            r matches Some(i) ==> self.accesses().contains_key(path@) && *i == self.accesses()[path@],
            r is None ==> !self.accesses().contains_key(path@),
    {
        self.access_tracking.get(path)
    }

    /// Get mount points
    pub fn get_mount_points(&self) -> (r: Vec<String>)
        ensures
            r@.len() == self.mounts().len(),
            forall|i: int| 0 <= i < r@.len() ==> self.mounts().contains_key(#[trigger] r@[i]@),
            forall|k: Seq<char>| #[trigger] self.mounts().contains_key(k) ==> exists|i: int| 0 <= i < r@.len() && r@[i]@ == k,
    {
        let n = self.mounts.len();
        let mut r: Vec<String> = Vec::new();
        let mut i: usize = 0;
        while i < n
            invariant
    n == self.mounts.pairs_spec().len(),
    i <= n,
    r@.len() == i,
    forall|j: int| 0 <= j < i ==> (#[trigger] r@[j])@ == self.mounts.pairs_spec()[j].0@,
    forall|j: int| 0 <= j < i ==> self.mounts@.contains_key(#[trigger] r@[j]@),
            decreases n - i,
        {
            let (k, _) = self.mounts.entry_at(i);
            r.push(k.clone());
            i += 1;
        }
        proof {
            self.mounts.lemma_keys();
            assert forall|k: Seq<char>| #[trigger] self.mounts().contains_key(k) implies exists|i: int|
    0 <= i < r@.len() && r@[i]@ == k by {
    assert(has_text_key(self.mounts.pairs_spec(), k));
    let j = choose|j: int| 0 <= j < self.mounts.pairs_spec().len() && #[trigger] self.mounts.pairs_spec()[j].0@ == k;
    assert(r@[j]@ == k);
            }
        }
        r
    }

    /// Get security violations for path
    pub fn get_security_violations(&self, path: &str) -> (r: Vec<SecurityViolation>)
        ensures
            self.accesses().contains_key(path@) ==> r@ == self.accesses()[path@].security_violations@,
            !self.accesses().contains_key(path@) ==> r@.len() == 0,
    {
        match self.access_tracking.get(path) {
            Some(info) => {
    let v = info.security_violations.clone();
    proof {
        assert forall|i: int| 0 <= i < v@.len() implies v@[i] == info.security_violations@[i] by {
            assert(cloned::<SecurityViolation>(info.security_violations[i], v[i]));
        }
        assert(v@ =~= info.security_violations@);
    }
    v
            },
            None => Vec::new(),
        }
    }

    /// Get access patterns for path
    pub fn get_access_patterns(&self, path: &str) -> (r: Vec<AccessPattern>)
        ensures
            self.accesses().contains_key(path@) ==> r@ == self.accesses()[path@].access_patterns@,
            !self.accesses().contains_key(path@) ==> r@.len() == 0,
    {
        match self.access_tracking.get(path) {
            Some(info) => {
    let v = info.access_patterns.clone();
    proof {
        assert forall|i: int| 0 <= i < v@.len() implies v@[i] == info.access_patterns@[i] by {
            assert(cloned::<AccessPattern>(info.access_patterns[i], v[i]));
        }
        assert(v@ =~= info.access_patterns@);
    }
    v
            },
            None => Vec::new(),
        }
    }
}

/// `SystemTime::checked_sub` by one second: the time a second before `t`,
/// when the clock can represent it. What it returns depends on the
/// platform's time range, so nothing is stated of it.
#[verifier::external_body]
fn second_before(t: &std::time::SystemTime) -> (r: Option<std::time::SystemTime>) {
    t.checked_sub(std::time::Duration::from_secs(1))
}

/// `SystemTime::elapsed`, in whole seconds: how long ago `t` was by the
/// system clock, or `None` when `t` lies in the future. It reads the clock,
/// so nothing is stated of it.
#[verifier::external_body]
fn elapsed_secs(t: &std::time::SystemTime) -> (r: Option<u64>) {
    t.elapsed().ok().map(|d| d.as_secs())
}

/// The options joined with commas, as `[String]::join(",")` gives them.
pub open spec fn comma_joined(parts: Seq<Seq<char>>) -> Seq<char>
    decreases parts.len(),
{
    if parts.len() == 0 {
        Seq::empty()
    } else if parts.len() == 1 {
        parts[0]
    } else {
        comma_joined(parts.drop_last()) + seq![','] + parts.last()
    }
}

/// The texts of `parts` joined with commas.
pub fn comma_join(parts: &Vec<String>) -> (r: String)
    ensures
        r@ == comma_joined(texts_of(parts@)),
{
    let mut r = String::new();
    let mut i: usize = 0;
    while i < parts.len()
        invariant
            i <= parts@.len(),
            r@ == comma_joined(texts_of(parts@.take(i as int))),
        decreases parts@.len() - i,
    {
        proof {
            let t = texts_of(parts@.take(i + 1));
            assert(t.drop_last() =~= texts_of(parts@.take(i as int)));
            assert(t.last() == parts@[i as int]@);
        }
        if i > 0 {
            push_text(&mut r, ",");
            proof {
                reveal_strlit(",");
            }
        } else {
            assert(texts_of(parts@.take(1))[0] == parts@[0]@);
        }
        push_text(&mut r, parts[i].as_str());
        i += 1;
    }
    assert(parts@.take(parts@.len() as int) =~= parts@);
    r
}

impl MountConfig {
    /// The option string handed to the mount call: the options joined with
    /// commas.
    pub fn mount_data(&self) -> (r: String)
        ensures
            r@ == comma_joined(texts_of(self.options@)),
    {
        comma_join(&self.options)
    }
}

impl Default for FilesystemPolicy {
    fn default() -> (p: Self)
        ensures
            p.root_dir@ == "/var/lib/blast/environments"@,
            texts_of(p.readonly_paths@) == seq!["/usr"@, "/lib"@, "/bin"@],
            texts_of(p.hidden_paths@) == seq!["/proc"@, "/sys"@, "/dev"@],
            texts_of(p.allowed_paths@) == seq!["/tmp"@, "/var/tmp"@],
            texts_of(p.denied_paths@) == seq!["/etc/shadow"@, "/etc/passwd"@, "/root"@],
            p.mount_points@ == Map::<Seq<char>, MountConfig>::empty(),
            p.tmp_dir@ == "/tmp"@,
            p.max_file_size == 104857600,
            p.max_total_size == 1073741824,
    {
        let p = FilesystemPolicy {
            root_dir: String::from_str("/var/lib/blast/environments"),
            readonly_paths: strings_of(&["/usr", "/lib", "/bin"]),
            hidden_paths: strings_of(&["/proc", "/sys", "/dev"]),
            allowed_paths: strings_of(&["/tmp", "/var/tmp"]),
            denied_paths: strings_of(&["/etc/shadow", "/etc/passwd", "/root"]),
            mount_points: StrMap::new(),
            tmp_dir: String::from_str("/tmp"),
            max_file_size: 104857600,
            max_total_size: 1073741824,
        };
        assert(texts_of(p.readonly_paths@) =~= seq!["/usr"@, "/lib"@, "/bin"@]);
        assert(texts_of(p.hidden_paths@) =~= seq!["/proc"@, "/sys"@, "/dev"@]);
        assert(texts_of(p.allowed_paths@) =~= seq!["/tmp"@, "/var/tmp"@]);
        assert(texts_of(p.denied_paths@) =~= seq!["/etc/shadow"@, "/etc/passwd"@, "/root"@]);
        p
    }
}

/// A path under a denied path is never allowed, whatever the allowed paths
/// and the root directory say.
pub proof fn law_denied_path_never_allowed(policy: FilesystemPolicy, p: Seq<char>, i: int)
    requires
        0 <= i < policy.denied_paths@.len(),
        path_starts_with(p, policy.denied_paths@[i]@),
    ensures
        !path_allowed(policy, p),
{
}

/// A mount point with a `..` component is always refused, before any other
/// check, whatever the mount configuration and the mounts in place.
pub proof fn law_traversal_mount_refused(
    mount_point: Seq<char>,
    config: MountConfig,
    source_exists: bool,
    mounted: Set<Seq<char>>,
)
    requires
        has_parent_component(mount_point),
    ensures
        mount_config_error(mount_point, config, source_exists, mounted) == Some(
            "Path traversal detected in mount point"@,
        ),
{
}

/// A mount point on the same branch as a mount in place (one contains the
/// other) is never accepted.
pub proof fn law_nested_mount_refused(
    mount_point: Seq<char>,
    config: MountConfig,
    source_exists: bool,
    mounted: Set<Seq<char>>,
    existing: Seq<char>,
)
    requires
        mounted.contains(existing),
        path_starts_with(mount_point, existing) || path_starts_with(existing, mount_point),
    ensures
        mount_config_error(mount_point, config, source_exists, mounted) is Some,
{
}

/// A write larger than the limit is refused: it is counted and stamped, a
/// size violation is recorded, and the recorded size, kind, access time and
/// patterns stay as they were.
pub proof fn law_oversized_write_refused(
    reads: u64,
    writes: u64,
    last_access: std::time::SystemTime,
    last_modified: std::time::SystemTime,
    size0: u64,
    is_dir0: bool,
    patterns: Seq<AccessPattern>,
    violations: Seq<SecurityViolation>,
    n: FileAccessInfo,
    size: u64,
    is_directory: bool,
    now: std::time::SystemTime,
    rapid: bool,
    limit: u64,
    ok: bool,
)
    requires
        size > limit,
        access_recorded(reads, writes, last_access, last_modified, size0, is_dir0, patterns, violations, n, true, size, is_directory, now, rapid, limit, ok),
    ensures
        !ok,
        n.write_count == writes + 1,
        n.read_count == reads,
        n.size == size0,
        n.last_access == last_access,
        n.access_patterns@ == patterns,
        n.security_violations@.last() == (SecurityViolation::SizeLimitExceeded { size, limit }),
{
}

/// A read is always accepted: it counts one read, takes over the size and
/// kind, and changes neither the write count nor the modification time.
pub proof fn law_read_accepted(
    reads: u64,
    writes: u64,
    last_access: std::time::SystemTime,
    last_modified: std::time::SystemTime,
    size0: u64,
    is_dir0: bool,
    patterns: Seq<AccessPattern>,
    violations: Seq<SecurityViolation>,
    n: FileAccessInfo,
    size: u64,
    is_directory: bool,
    now: std::time::SystemTime,
    rapid: bool,
    limit: u64,
    ok: bool,
)
    requires
        access_recorded(reads, writes, last_access, last_modified, size0, is_dir0, patterns, violations, n, false, size, is_directory, now, rapid, limit, ok),
    ensures
        ok,
        n.read_count == reads + 1,
        n.write_count == writes,
        n.last_modified == last_modified,
        n.size == size,
        n.is_directory == is_directory,
        n.last_access == now,
{
}

} // verus!
