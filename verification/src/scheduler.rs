//! Scheduling of package operations: a bounded queue with priorities,
//! dependencies between operations, a rate limit per minute, statuses and
//! queue statistics. Waiting between rounds and handing operations to a
//! processor are the caller's part; each round's decisions are here.

use vstd::prelude::*;
use crate::error::{BlastError, BlastResult};
use crate::package::{opt_view, DependencyView, OperationPriority, OperationType, QueueStatistics, SchedulerConfig};
use crate::package_state::{deps_view, PackageOperation, Version, VersionView};
use crate::strmap::StrMap;
use crate::text::{same_text, texts_of};
use crate::time::{clock_now, no_randomness, random_id, random_source_error, Timestamp};
use vstd::string::StringExecFns;

verus! {

/// The value of a package operation.
pub enum PackageOperationView {
    Install { name: Seq<char>, version: Option<VersionView>, dependencies: Seq<DependencyView> },
    Uninstall { name: Seq<char> },
    Update { name: Seq<char>, from_version: VersionView, to_version: VersionView },
}

/// The value of a package operation.
pub open spec fn operation_view(op: PackageOperation) -> PackageOperationView {
    match op {
        PackageOperation::Install { name, version, dependencies } => PackageOperationView::Install {
            name: name@,
            version: match version {
                Some(v) => Some(v@),
                None => None,
            },
            dependencies: deps_view(dependencies@),
        },
        PackageOperation::Uninstall { name } => PackageOperationView::Uninstall { name: name@ },
        PackageOperation::Update { name, from_version, to_version } => PackageOperationView::Update {
            name: name@,
            from_version: from_version@,
            to_version: to_version@,
        },
    }
}

/// A copy of a package operation.
fn copy_operation(op: &PackageOperation) -> (r: PackageOperation)
    ensures
        operation_view(r) == operation_view(*op),
{
    match op {
        PackageOperation::Install { name, version, dependencies } => {
            let v: Option<Version> = match version {
                Some(v) => Some(v.clone()),
                None => None,
            };
            let mut deps = Vec::new();
            let mut i: usize = 0;
            while i < dependencies.len()
                invariant
                    i <= dependencies@.len(),
                    deps_view(deps@) == deps_view(dependencies@.take(i as int)),
                decreases dependencies@.len() - i,
            {
                let ghost before = deps@;
                deps.push(dependencies[i].clone());
                assert(deps_view(deps@) =~= deps_view(before).push(dependencies@[i as int]@));
                assert(deps_view(dependencies@.take(i + 1)) =~= deps_view(dependencies@.take(i as int)).push(
                    dependencies@[i as int]@,
                ));
                i += 1;
            }
            assert(dependencies@.take(dependencies@.len() as int) =~= dependencies@);
            PackageOperation::Install { name: name.clone(), version: v, dependencies: deps }
        },
        PackageOperation::Uninstall { name } => PackageOperation::Uninstall { name: name.clone() },
        PackageOperation::Update { name, from_version, to_version } => PackageOperation::Update {
            name: name.clone(),
            from_version: from_version.clone(),
            to_version: to_version.clone(),
        },
    }
}

/// The kind of a package operation.
pub open spec fn operation_type_of(op: PackageOperation) -> OperationType {
    match op {
        PackageOperation::Install { .. } => OperationType::Install,
        PackageOperation::Uninstall { .. } => OperationType::Uninstall,
        PackageOperation::Update { .. } => OperationType::Update,
    }
}

/// The package a package operation is about.
pub open spec fn package_name_of(op: PackageOperation) -> Seq<char> {
    match op {
        PackageOperation::Install { name, .. } => name@,
        PackageOperation::Uninstall { name } => name@,
        PackageOperation::Update { name, .. } => name@,
    }
}

/// The rank of a priority: 0 for `Critical` up to 5 for `Background`.
pub open spec fn priority_rank(p: OperationPriority) -> int {
    match p {
        OperationPriority::Critical => 0,
        OperationPriority::Security => 1,
        OperationPriority::High => 2,
        OperationPriority::Normal => 3,
        OperationPriority::Low => 4,
        OperationPriority::Background => 5,
    }
}

/// The timeout configured for a kind of operation: the first entry for it,
/// or 300 seconds when there is none.
pub open spec fn timeout_for(timeouts: Seq<(OperationType, u64)>, t: OperationType) -> u64
    decreases timeouts.len(),
{
    if timeouts.len() == 0 {
        300
    } else if timeouts[0].0 == t {
        timeouts[0].1
    } else {
        timeout_for(timeouts.drop_first(), t)
    }
}

/// The timeout configured for a kind of operation (see `timeout_for`).
fn configured_timeout(timeouts: &Vec<(OperationType, u64)>, t: OperationType) -> (r: u64)
    ensures
        r == timeout_for(timeouts@, t),
{
    let mut i: usize = 0;
    assert(timeouts@.skip(0) =~= timeouts@);
    while i < timeouts.len()
        invariant
            i <= timeouts@.len(),
            timeout_for(timeouts@, t) == timeout_for(timeouts@.skip(i as int), t),
        decreases timeouts@.len() - i,
    {
        assert(timeouts@.skip(i as int)[0] == timeouts@[i as int]);
        if timeouts[i].0 == t {
            return timeouts[i].1;
        }
        assert(timeouts@.skip(i as int).drop_first() =~= timeouts@.skip(i + 1));
        i += 1;
    }
    assert(timeouts@.skip(i as int) =~= Seq::<(OperationType, u64)>::empty());
    300
}

/// An operation in the queue with what orders it.
#[derive(Debug)]
pub struct PrioritizedOperation {
    id: String,
    priority: OperationPriority,
    op_type: OperationType,
    package_name: String,
    submitted_at: Timestamp,
    operation: PackageOperation,
    dependencies: Vec<String>,
    is_system_critical: bool,
    timeout: u64,
}

/// The value of a queued operation; the timeout is in seconds.
pub struct PrioritizedOperationView {
    pub id: Seq<char>,
    pub priority: OperationPriority,
    pub op_type: OperationType,
    pub package_name: Seq<char>,
    pub submitted_at: Timestamp,
    pub operation: PackageOperationView,
    pub dependencies: Seq<Seq<char>>,
    pub is_system_critical: bool,
    pub timeout: u64,
}

impl View for PrioritizedOperation {
    type V = PrioritizedOperationView;

    closed spec fn view(&self) -> PrioritizedOperationView {
        PrioritizedOperationView {
            id: self.id@,
            priority: self.priority,
            op_type: self.op_type,
            package_name: self.package_name@,
            submitted_at: self.submitted_at,
            operation: operation_view(self.operation),
            dependencies: texts_of(self.dependencies@),
            is_system_critical: self.is_system_critical,
            timeout: self.timeout,
        }
    }
}

impl Clone for PrioritizedOperation {
    fn clone(&self) -> (r: Self)
        ensures
            r@ == self@,
    {
        let mut deps: Vec<String> = Vec::new();
        let mut i: usize = 0;
        while i < self.dependencies.len()
            invariant
                i <= self.dependencies@.len(),
                texts_of(deps@) == texts_of(self.dependencies@.take(i as int)),
            decreases self.dependencies@.len() - i,
        {
            let ghost before = deps@;
            deps.push(self.dependencies[i].clone());
            assert(texts_of(deps@) =~= texts_of(before).push(self.dependencies@[i as int]@));
            assert(texts_of(self.dependencies@.take(i + 1)) =~= texts_of(self.dependencies@.take(i as int)).push(
                self.dependencies@[i as int]@,
            ));
            i += 1;
        }
        assert(self.dependencies@.take(self.dependencies@.len() as int) =~= self.dependencies@);
        PrioritizedOperation {
            id: self.id.clone(),
            priority: self.priority,
            op_type: self.op_type,
            package_name: self.package_name.clone(),
            submitted_at: self.submitted_at,
            operation: copy_operation(&self.operation),
            dependencies: deps,
            is_system_critical: self.is_system_critical,
            timeout: self.timeout,
        }
    }
}

/// The status of a scheduled operation. A running operation's progress is
/// not kept: the scheduler never sets it above zero.
#[derive(Debug)]
pub enum OperationStatus {
    Queued { position: usize, estimated_start: Timestamp },
    Running { started_at: Timestamp, estimated_completion: Timestamp },
    Completed { started_at: Timestamp, completed_at: Timestamp },
    Failed { started_at: Timestamp, failed_at: Timestamp, error: String },
    TimedOut { started_at: Timestamp, timeout_at: Timestamp },
}

/// `secs` seconds after `t`, held at the largest time the clock can hold.
pub open spec fn seconds_after(t: Timestamp, secs: int) -> Timestamp {
    Timestamp {
        secs: if t.secs + secs > i64::MAX {
            i64::MAX
        } else {
            (t.secs + secs) as i64
        },
        nanos: t.nanos,
    }
}

fn add_seconds(t: Timestamp, secs: u64) -> (r: Timestamp)
    requires
        secs <= i64::MAX,
    ensures
        r == seconds_after(t, secs as int),
{
    let d = secs as i64;
    let s = if t.secs > i64::MAX - d {
        i64::MAX
    } else {
        t.secs + d
    };
    Timestamp { secs: s, nanos: t.nanos }
}

/// `t` lies more than a minute before `now`.
pub open spec fn over_a_minute_before(t: Timestamp, now: Timestamp) -> bool {
    t.secs + 60 < now.secs || (t.secs + 60 == now.secs && t.nanos < now.nanos)
}

/// `after` is `before` without its leading times that lie more than a
/// minute before `now`.
pub open spec fn pruned(before: Seq<Timestamp>, after: Seq<Timestamp>, now: Timestamp) -> bool {
    &&& after.len() <= before.len()
    &&& after == before.skip(before.len() - after.len())
    &&& forall|i: int| 0 <= i < before.len() - after.len() ==> over_a_minute_before(#[trigger] before[i], now)
    &&& after.len() > 0 ==> !over_a_minute_before(after[0], now)
}

/// Whether `t` lies more than a minute before `now`.
fn is_over_a_minute_before(t: Timestamp, now: Timestamp) -> (b: bool)
    ensures
        b == over_a_minute_before(t, now),
{
    (t.secs as i128) + 60 < (now.secs as i128) || ((t.secs as i128) + 60 == (now.secs as i128) && t.nanos
        < now.nanos)
}

/// Start times of recent operations, oldest first, for a limit per minute.
#[derive(Debug)]
struct RateLimiter {
    ops_per_minute: usize,
    operation_timestamps: Vec<Timestamp>,
}

impl RateLimiter {
    /// Forgets the starts that lie more than a minute before `now`, then
    /// says whether another operation may start.
    fn can_proceed(&mut self, now: Timestamp) -> (b: bool)
        ensures
            pruned(old(self).operation_timestamps@, final(self).operation_timestamps@, now),
            final(self).ops_per_minute == old(self).ops_per_minute,
            b == (final(self).operation_timestamps@.len() < final(self).ops_per_minute),
    {
        let ghost before = self.operation_timestamps@;
        let mut k: usize = 0;
        while k < self.operation_timestamps.len() && is_over_a_minute_before(self.operation_timestamps[k], now)
            invariant
                self.operation_timestamps@ == before,
                k <= before.len(),
                forall|i: int| 0 <= i < k ==> over_a_minute_before(#[trigger] before[i], now),
            decreases before.len() - k,
        {
            k += 1;
        }
        if k > 0 {
            let kept = self.operation_timestamps.split_off(k);
            self.operation_timestamps = kept;
        }
        assert(self.operation_timestamps@ =~= before.skip(k as int));
        self.operation_timestamps.len() < self.ops_per_minute
    }

    /// Notes that an operation started at `now`.
    fn record_operation(&mut self, now: Timestamp)
        ensures
            final(self).operation_timestamps@ == old(self).operation_timestamps@.push(now),
            final(self).ops_per_minute == old(self).ops_per_minute,
    {
        self.operation_timestamps.push(now);
    }
}

/// The longest delay, in seconds, a start estimate may carry.
pub const MAX_ESTIMATE_DELAY: u64 = 100_000_000_000u64;

/// A configuration the scheduler can estimate with: at least one operation
/// runs at a time, and no start estimate lies further ahead than
/// `MAX_ESTIMATE_DELAY` seconds.
pub open spec fn schedulable(c: SchedulerConfig) -> bool {
    &&& c.max_concurrent_ops > 0
    &&& forall|t: OperationType|
        #[trigger] timeout_for(c.operation_timeouts@, t) * (c.max_queue_size / c.max_concurrent_ops)
            <= MAX_ESTIMATE_DELAY && timeout_for(c.operation_timeouts@, t) <= MAX_ESTIMATE_DELAY
}

/// The seconds until an operation of kind `t` at `position` in the queue is
/// expected to start: one timeout for each full round of concurrent
/// operations ahead of it.
pub open spec fn start_delay(c: SchedulerConfig, t: OperationType, position: int) -> int {
    timeout_for(c.operation_timeouts@, t) * ((if position > 0 { position - 1 } else { 0 }) / (
    c.max_concurrent_ops as int))
}

/// The priority an operation on `name` gets: the configured override for
/// that package, else the one asked for, else `Normal`.
pub open spec fn chosen_priority(
    overrides: Map<Seq<char>, OperationPriority>,
    name: Seq<char>,
    asked: Option<OperationPriority>,
) -> OperationPriority {
    if overrides.contains_key(name) {
        overrides[name]
    } else {
        match asked {
            Some(p) => p,
            None => OperationPriority::Normal,
        }
    }
}

/// `e` is a package error with the message `msg`.
pub open spec fn package_error(e: BlastError, msg: Seq<char>) -> bool {
    e matches BlastError::Package(m) && m@ == msg
}

/// Dependency `d` has completed and is not running.
pub open spec fn dep_completed(
    d: Seq<char>,
    active: Map<Seq<char>, PrioritizedOperationView>,
    statuses: Map<Seq<char>, OperationStatus>,
) -> bool {
    &&& !active.contains_key(d)
    &&& statuses.contains_key(d)
    &&& statuses[d] is Completed
}

/// Every dependency of `op` has completed and is not running.
pub open spec fn deps_completed(
    op: PrioritizedOperationView,
    active: Map<Seq<char>, PrioritizedOperationView>,
    statuses: Map<Seq<char>, OperationStatus>,
) -> bool {
    forall|i: int| 0 <= i < op.dependencies.len() ==> dep_completed(#[trigger] op.dependencies[i], active, statuses)
}

/// Position `j` holds the first queued operation that is ready to run.
pub open spec fn first_ready(
    q: Seq<PrioritizedOperationView>,
    active: Map<Seq<char>, PrioritizedOperationView>,
    statuses: Map<Seq<char>, OperationStatus>,
    j: int,
) -> bool {
    &&& 0 <= j < q.len()
    &&& deps_completed(q[j], active, statuses)
    &&& forall|i: int| 0 <= i < j ==> !deps_completed(#[trigger] q[i], active, statuses)
}

/// How many of `q` have priority `p`.
pub open spec fn count_priority(q: Seq<PrioritizedOperationView>, p: OperationPriority) -> nat {
    q.filter(|o: PrioritizedOperationView| o.priority == p).len()
}

/// How many of `q` are of kind `t`.
pub open spec fn count_type(q: Seq<PrioritizedOperationView>, t: OperationType) -> nat {
    q.filter(|o: PrioritizedOperationView| o.op_type == t).len()
}

/// The rank of a kind of operation, in the order the enum declares them.
pub open spec fn type_rank(t: OperationType) -> int {
    match t {
        OperationType::Install => 0,
        OperationType::Uninstall => 1,
        OperationType::Update => 2,
        OperationType::DependencyResolution => 3,
        OperationType::StateUpdate => 4,
        OperationType::GraphValidation => 5,
    }
}

/// `by` lists each priority present in `q` once, with its count, by rank.
pub open spec fn counts_by_priority(q: Seq<PrioritizedOperationView>, by: Seq<(OperationPriority, usize)>) -> bool {
    &&& forall|i: int| 0 <= i < by.len() ==> (#[trigger] by[i]).1 == count_priority(q, by[i].0) && by[i].1 > 0
    &&& forall|i: int, j: int|
        0 <= i < j < by.len() ==> priority_rank((#[trigger] by[i]).0) < priority_rank((#[trigger] by[j]).0)
    &&& forall|p: OperationPriority|
        #[trigger] count_priority(q, p) > 0 ==> exists|i: int| 0 <= i < by.len() && (#[trigger] by[i]).0 == p
}

/// `by` lists each kind present in `q` once, with its count, in declared
/// order.
pub open spec fn counts_by_type(q: Seq<PrioritizedOperationView>, by: Seq<(OperationType, usize)>) -> bool {
    &&& forall|i: int| 0 <= i < by.len() ==> (#[trigger] by[i]).1 == count_type(q, by[i].0) && by[i].1 > 0
    &&& forall|i: int, j: int| 0 <= i < j < by.len() ==> type_rank((#[trigger] by[i]).0) < type_rank((#[trigger] by[j]).0)
    &&& forall|t: OperationType|
        #[trigger] count_type(q, t) > 0 ==> exists|i: int| 0 <= i < by.len() && (#[trigger] by[i]).0 == t
}

/// Schedules package operations.
#[derive(Debug)]
pub struct OperationScheduler {
    config: SchedulerConfig,
    queue: Vec<PrioritizedOperation>,
    active_ops: StrMap<PrioritizedOperation>,
    operation_statuses: StrMap<OperationStatus>,
    rate_limiter: RateLimiter,
}

impl OperationScheduler {
    /// The configuration.
    pub closed spec fn config_spec(&self) -> SchedulerConfig {
        self.config
    }

    /// The queued operations, in the order they were queued.
    pub closed spec fn queue_spec(&self) -> Seq<PrioritizedOperationView> {
        self.queue@.map_values(|o: PrioritizedOperation| o@)
    }

    /// The operations handed out for processing, by id.
    pub closed spec fn active_spec(&self) -> Map<Seq<char>, PrioritizedOperationView> {
        self.active_ops@.map_values(|o: PrioritizedOperation| o@)
    }

    /// The status of each operation, by id.
    pub closed spec fn statuses(&self) -> Map<Seq<char>, OperationStatus> {
        self.operation_statuses@
    }

    /// The start times within the rate limit's window, oldest first.
    pub closed spec fn recent_starts(&self) -> Seq<Timestamp> {
        self.rate_limiter.operation_timestamps@
    }

    /// How many operations may start per minute.
    pub closed spec fn ops_per_minute_spec(&self) -> usize {
        self.rate_limiter.ops_per_minute
    }

    /// A scheduler with nothing queued, running or recorded.
    pub fn new(config: SchedulerConfig) -> (s: Self)
        ensures
            s.config_spec() == config,
            s.queue_spec().len() == 0,
            s.active_spec() == Map::<Seq<char>, PrioritizedOperationView>::empty(),
            s.statuses() == Map::<Seq<char>, OperationStatus>::empty(),
            s.recent_starts().len() == 0,
            s.ops_per_minute_spec() == config.ops_per_minute,
    {
        let per_minute = config.ops_per_minute;
        let s = OperationScheduler {
            config,
            queue: Vec::new(),
            active_ops: StrMap::new(),
            operation_statuses: StrMap::new(),
            rate_limiter: RateLimiter { ops_per_minute: per_minute, operation_timestamps: Vec::new() },
        };
        assert(s.active_spec() =~= Map::<Seq<char>, PrioritizedOperationView>::empty());
        s
    }

    /// Builds the queue entry for an operation: the given id, the chosen
    /// priority, the kind's timeout, submitted now.
    fn create_prioritized_operation(
        &self,
        id: String,
        operation: PackageOperation,
        priority: OperationPriority,
        dependencies: Vec<String>,
    ) -> (op: PrioritizedOperation)
        ensures
            op@.id == id@,
            op@.operation == operation_view(operation),
            op@.op_type == operation_type_of(operation),
            op@.package_name == package_name_of(operation),
            op@.priority == chosen_priority(self.config_spec().priority_overrides@, package_name_of(operation), Some(priority)),
            op@.is_system_critical == (op@.priority == OperationPriority::Critical),
            op@.timeout == timeout_for(self.config_spec().operation_timeouts@, op@.op_type),
            op@.dependencies == texts_of(dependencies@),
    {
        let op_type = match &operation {
            PackageOperation::Install { .. } => OperationType::Install,
            PackageOperation::Uninstall { .. } => OperationType::Uninstall,
            PackageOperation::Update { .. } => OperationType::Update,
        };
        let package_name = match &operation {
            PackageOperation::Install { name, .. } => name.clone(),
            PackageOperation::Uninstall { name } => name.clone(),
            PackageOperation::Update { name, .. } => name.clone(),
        };
        let final_priority = match self.config.priority_overrides.get(package_name.as_str()) {
            Some(p) => *p,
            None => priority,
        };
        let timeout = configured_timeout(&self.config.operation_timeouts, op_type);
        let is_critical = match final_priority {
            OperationPriority::Critical => true,
            _ => false,
        };
        PrioritizedOperation {
            id,
            priority: final_priority,
            op_type,
            package_name,
            submitted_at: clock_now(),
            operation,
            dependencies,
            is_system_critical: is_critical,
            timeout,
        }
    }

    /// When an operation at `position` in the queue is expected to start.
    fn estimate_start_time(&self, op: &PrioritizedOperation, position: usize) -> (t: Timestamp)
        requires
            schedulable(self.config_spec()),
            position <= self.config_spec().max_queue_size,
        ensures
            t == seconds_after(op@.submitted_at, start_delay(self.config_spec(), op@.op_type, position as int)),
    {
        let avg = configured_timeout(&self.config.operation_timeouts, op.op_type);
        let ahead = if position > 0 {
            position - 1
        } else {
            0
        };
        let batches = ahead / self.config.max_concurrent_ops;
        proof {
            let c = self.config_spec();
            assert(timeout_for(c.operation_timeouts@, op@.op_type) * (c.max_queue_size / c.max_concurrent_ops)
                <= MAX_ESTIMATE_DELAY);
            assert(batches <= c.max_queue_size / c.max_concurrent_ops) by (nonlinear_arith)
                requires
                    batches == ahead / c.max_concurrent_ops,
                    ahead <= c.max_queue_size,
                    c.max_concurrent_ops > 0,
            ;
            assert(avg * batches <= avg * (c.max_queue_size / c.max_concurrent_ops)) by (nonlinear_arith)
                requires
                    batches <= c.max_queue_size / c.max_concurrent_ops,
            ;
        }
        let delay = (avg as u64) * (batches as u64);
        add_seconds(op.submitted_at, delay)
    }

    /// Queues an operation and returns its id; refused when the queue is
    /// full, and where the operating system's random source fails. The operation gets the configured priority override for its
    /// package, else `priority`, else `Normal`; its status records its
    /// position and expected start.
    pub fn queue_operation(
        &mut self,
        operation: PackageOperation,
        priority: Option<OperationPriority>,
        dependencies: Vec<String>,
    ) -> (r: BlastResult<String>)
        requires
            schedulable(old(self).config_spec()),
        ensures
            r is Ok ==> old(self).queue_spec().len() < old(self).config_spec().max_queue_size,
            old(self).queue_spec().len() >= old(self).config_spec().max_queue_size ==> (r matches Err(e)
                && package_error(e, "Operation queue is full"@)),
            old(self).queue_spec().len() <= old(self).config_spec().max_queue_size ==> final(self).queue_spec().len()
                <= final(self).config_spec().max_queue_size,
            r matches Err(e) ==> *final(self) == *old(self) && (package_error(e, "Operation queue is full"@)
                || no_randomness(e)),
            r matches Ok(id) ==> {
                let op = final(self).queue_spec().last();
                &&& final(self).queue_spec() == old(self).queue_spec().push(op)
                &&& op.id == id@ && id@.len() == 36
                &&& op.operation == operation_view(operation)
                &&& op.op_type == operation_type_of(operation)
                &&& op.package_name == package_name_of(operation)
                &&& op.priority == chosen_priority(
                    old(self).config_spec().priority_overrides@,
                    package_name_of(operation),
                    priority,
                )
                &&& op.is_system_critical == (op.priority == OperationPriority::Critical)
                &&& op.timeout == timeout_for(old(self).config_spec().operation_timeouts@, op.op_type)
                &&& op.dependencies == texts_of(dependencies@)
                &&& final(self).statuses() == old(self).statuses().insert(
                    id@,
                    OperationStatus::Queued {
                        position: final(self).queue_spec().len() as usize,
                        estimated_start: seconds_after(
                            op.submitted_at,
                            start_delay(old(self).config_spec(), op.op_type, final(self).queue_spec().len() as int),
                        ),
                    },
                )
                &&& final(self).active_spec() == old(self).active_spec()
                &&& final(self).recent_starts() == old(self).recent_starts()
                &&& final(self).config_spec() == old(self).config_spec()
            },
    {
        if self.queue.len() >= self.config.max_queue_size {
            return Err(BlastError::package("Operation queue is full"));
        }
        let asked = match priority {
            Some(p) => p,
            None => OperationPriority::Normal,
        };
        let id = match random_id() {
            Some(id) => id,
            None => {
                return Err(random_source_error());
            },
        };
        let op = self.create_prioritized_operation(id, operation, asked, dependencies);
        let op_id = op.id.clone();
        let ghost v = op@;
        self.queue.push(op);
        let position = self.queue.len();
        let estimated_start = self.estimate_start_time(&self.queue[position - 1], position);
        let status = OperationStatus::Queued { position, estimated_start };
        let _ = self.operation_statuses.insert(op_id.clone(), status);
        assert(self.queue_spec() =~= old(self).queue_spec().push(v));
        Ok(op_id)
    }

    /// Whether every dependency of `op` has completed and is not running.
    fn dependencies_completed(&self, op: &PrioritizedOperation) -> (b: bool)
        ensures
            b == deps_completed(op@, self.active_spec(), self.statuses()),
    {
        let mut i: usize = 0;
        while i < op.dependencies.len()
            invariant
                i <= op.dependencies@.len(),
                forall|j: int|
                    0 <= j < i ==> dep_completed(
                        #[trigger] op@.dependencies[j],
                        self.active_spec(),
                        self.statuses(),
                    ),
            decreases op.dependencies@.len() - i,
        {
            let d = op.dependencies[i].as_str();
            assert(op@.dependencies[i as int] == d@);
            if self.active_ops.contains_key(d) {
                return false;
            }
            match self.operation_statuses.get(d) {
                Some(OperationStatus::Completed { .. }) => {},
                _ => {
                    return false;
                },
            }
            i += 1;
        }
        true
    }

    /// The position of the first queued operation whose dependencies have
    /// all completed and are not running, if any.
    fn next_processable_position(&self) -> (r: Option<usize>)
        ensures
            match r {
                Some(j) => first_ready(self.queue_spec(), self.active_spec(), self.statuses(), j as int),
                None => forall|j: int|
                    0 <= j < self.queue_spec().len() ==> !deps_completed(
                        #[trigger] self.queue_spec()[j],
                        self.active_spec(),
                        self.statuses(),
                    ),
            },
    {
        let mut i: usize = 0;
        while i < self.queue.len()
            invariant
                i <= self.queue@.len(),
                forall|j: int|
                    0 <= j < i ==> !deps_completed(
                        #[trigger] self.queue_spec()[j],
                        self.active_spec(),
                        self.statuses(),
                    ),
            decreases self.queue@.len() - i,
        {
            if self.dependencies_completed(&self.queue[i]) {
                assert(first_ready(self.queue_spec(), self.active_spec(), self.statuses(), i as int));
                return Some(i);
            }
            i += 1;
        }
        None
    }

    /// The first queued operation whose dependencies have all completed
    /// and are not running, if any.
    pub fn get_next_processable_operation(&self) -> (r: Option<&PrioritizedOperation>)
        ensures
            match r {
                Some(op) => exists|j: int|
                    first_ready(self.queue_spec(), self.active_spec(), self.statuses(), j) && op@ == #[trigger] self.queue_spec()[j],
                None => forall|j: int|
                    0 <= j < self.queue_spec().len() ==> !deps_completed(
                        #[trigger] self.queue_spec()[j],
                        self.active_spec(),
                        self.statuses(),
                    ),
            },
    {
        match self.next_processable_position() {
            Some(j) => Some(&self.queue[j]),
            None => None,
        }
    }

    /// One round of processing: picks the first ready operation (see
    /// `get_next_processable_operation`); when the rate limit lets another
    /// operation start now, records the start, takes that operation out of
    /// the queue and hands it to the processor. Otherwise nothing is handed
    /// out and the queue stays as it was.
    pub fn take_next_operation(&mut self) -> (r: Option<PrioritizedOperation>)
        ensures
            final(self).config_spec() == old(self).config_spec(),
            final(self).active_spec() == old(self).active_spec(),
            final(self).statuses() == old(self).statuses(),
            final(self).ops_per_minute_spec() == old(self).ops_per_minute_spec(),
            r matches Some(op) ==> {
                &&& exists|j: int|
                    #[trigger] first_ready(old(self).queue_spec(), old(self).active_spec(), old(self).statuses(), j)
                        && op@ == old(self).queue_spec()[j] && final(self).queue_spec() == old(self).queue_spec().remove(j)
                &&& final(self).recent_starts().len() > 0
                &&& exists|now: Timestamp|
                    #[trigger] pruned(old(self).recent_starts(), final(self).recent_starts().drop_last(), now)
                        && final(self).recent_starts().last() == now
                &&& final(self).recent_starts().drop_last().len() < final(self).ops_per_minute_spec()
            },
            r is None ==> final(self).queue_spec() == old(self).queue_spec(),
            r is None && (forall|j: int|
                0 <= j < old(self).queue_spec().len() ==> !deps_completed(
                    #[trigger] old(self).queue_spec()[j],
                    old(self).active_spec(),
                    old(self).statuses(),
                )) ==> final(self).recent_starts() == old(self).recent_starts(),
            r is None && (exists|j: int|
                0 <= j < old(self).queue_spec().len() && deps_completed(
                    #[trigger] old(self).queue_spec()[j],
                    old(self).active_spec(),
                    old(self).statuses(),
                )) ==> final(self).recent_starts().len() >= final(self).ops_per_minute_spec() && exists|now: Timestamp|
                #[trigger] pruned(old(self).recent_starts(), final(self).recent_starts(), now),
    {
        let j = match self.next_processable_position() {
            Some(j) => j,
            None => {
                return None;
            },
        };
        let now = clock_now();
        if !self.rate_limiter.can_proceed(now) {
            proof {
                assert(0 <= j < self.queue_spec().len() && deps_completed(
                    self.queue_spec()[j as int],
                    self.active_spec(),
                    self.statuses(),
                ));
                assert(pruned(old(self).recent_starts(), self.recent_starts(), now));
            }
            return None;
        }
        let ghost mid = self.rate_limiter.operation_timestamps@;
        self.rate_limiter.record_operation(now);
        let op = self.queue.remove(j);
        proof {
            assert(self.queue_spec() =~= old(self).queue_spec().remove(j as int));
            assert(op@ == old(self).queue_spec()[j as int]);
            assert(self.recent_starts().drop_last() =~= mid);
            assert(pruned(old(self).recent_starts(), self.recent_starts().drop_last(), now));
            assert(first_ready(old(self).queue_spec(), old(self).active_spec(), old(self).statuses(), j as int));
        }
        Some(op)
    }

    /// Records that `op` was handed to the processor: it runs from now and
    /// is expected to finish one timeout later.
    pub fn mark_running(&mut self, op: PrioritizedOperation)
        requires
            op@.timeout <= MAX_ESTIMATE_DELAY,
        ensures
            final(self).active_spec() == old(self).active_spec().insert(op@.id, op@),
            final(self).statuses().contains_key(op@.id),
            final(self).statuses() == old(self).statuses().insert(op@.id, final(self).statuses()[op@.id]),
            final(self).statuses()[op@.id] matches OperationStatus::Running { started_at, estimated_completion }
                && estimated_completion == seconds_after(started_at, op@.timeout as int),
            final(self).queue_spec() == old(self).queue_spec(),
            final(self).config_spec() == old(self).config_spec(),
            final(self).recent_starts() == old(self).recent_starts(),
            final(self).ops_per_minute_spec() == old(self).ops_per_minute_spec(),
    {
        let now = clock_now();
        let status = OperationStatus::Running {
            started_at: now,
            estimated_completion: add_seconds(now, op.timeout),
        };
        let _ = self.operation_statuses.insert(op.id.clone(), status);
        let ghost v = op@;
        let id = op.id.clone();
        let _ = self.active_ops.insert(id, op);
        assert(self.active_spec() =~= old(self).active_spec().insert(v.id, v));
    }

    /// The status of an operation.
    pub fn get_operation_status(&self, operation_id: &str) -> (r: Option<&OperationStatus>)
        ensures
            match r {
                Some(s) => self.statuses().contains_key(operation_id@) && *s == self.statuses()[operation_id@],
                None => !self.statuses().contains_key(operation_id@),
            },
    {
        self.operation_statuses.get(operation_id)
    }

    /// Cancels an operation: it leaves the queue and the running set, and
    /// its status becomes a failure with the error "Operation cancelled".
    pub fn cancel_operation(&mut self, operation_id: &str) -> (r: BlastResult<()>)
        ensures
            r is Ok,
            final(self).queue_spec() == old(self).queue_spec().filter(
                |o: PrioritizedOperationView| o.id != operation_id@,
            ),
            forall|i: int| 0 <= i < final(self).queue_spec().len() ==> (#[trigger] final(self).queue_spec()[i]).id != operation_id@,
            final(self).active_spec() == old(self).active_spec().remove(operation_id@),
            final(self).statuses().contains_key(operation_id@),
            final(self).statuses() == old(self).statuses().insert(
                operation_id@,
                final(self).statuses()[operation_id@],
            ),
            final(self).statuses()[operation_id@] matches OperationStatus::Failed { error, .. } && error@
                == "Operation cancelled"@,
            final(self).config_spec() == old(self).config_spec(),
            final(self).recent_starts() == old(self).recent_starts(),
            final(self).ops_per_minute_spec() == old(self).ops_per_minute_spec(),
    {
        let ghost keep = |o: PrioritizedOperationView| o.id != operation_id@;
        let ghost orig = old(self).queue_spec();
        let mut rest: Vec<PrioritizedOperation> = Vec::new();
        std::mem::swap(&mut rest, &mut self.queue);
        let total = rest.len();
        let ghost n: nat = total as nat;
        let mut consumed: usize = 0;
        while rest.len() > 0
            invariant
                keep == (|o: PrioritizedOperationView| o.id != operation_id@),
                n <= usize::MAX,
                orig.len() == n,
                consumed <= n,
                rest@.len() == n - consumed,
                rest@.map_values(|o: PrioritizedOperation| o@) == orig.skip(consumed as int),
                self.queue_spec() == orig.take(consumed as int).filter(keep),
                self.config == old(self).config,
                self.active_ops == old(self).active_ops,
                self.operation_statuses == old(self).operation_statuses,
                self.rate_limiter == old(self).rate_limiter,
            decreases rest@.len(),
        {
            let ghost rv = rest@;
            let op = rest.remove(0);
            proof {
                assert(op@ == orig[consumed as int]) by {
                    assert(rv.map_values(|o: PrioritizedOperation| o@)[0] == op@);
                }
                assert(rest@ =~= rv.drop_first());
                assert(rest@.map_values(|o: PrioritizedOperation| o@) =~= rv.map_values(
                    |o: PrioritizedOperation| o@,
                ).drop_first());
                assert(orig.skip(consumed as int).drop_first() =~= orig.skip(consumed + 1));
                assert(orig.take(consumed + 1) =~= orig.take(consumed as int).push(orig[consumed as int]));
                orig.take(consumed as int).lemma_filter_push(orig[consumed as int], keep);
            }
            let ghost before = self.queue@;
            if !same_text(op.id.as_str(), operation_id) {
                let ghost v = op@;
                self.queue.push(op);
                assert(self.queue_spec() =~= before.map_values(|o: PrioritizedOperation| o@).push(v));
            }
            consumed += 1;
        }
        assert(orig.take(n as int) =~= orig);
        proof {
            assert forall|i: int| 0 <= i < self.queue_spec().len() implies (#[trigger] self.queue_spec()[i]).id
                != operation_id@ by {
                orig.lemma_filter_pred(keep, i);
            }
        }
        let _ = self.active_ops.remove(operation_id);
        assert(self.active_spec() =~= old(self).active_spec().remove(operation_id@));
        let started_at = clock_now();
        let failed_at = clock_now();
        let status = OperationStatus::Failed {
            started_at,
            failed_at,
            error: String::from_str("Operation cancelled"),
        };
        let _ = self.operation_statuses.insert(String::from_str(operation_id), status);
        Ok(())
    }

    /// How many queued operations have priority `p`.
    fn count_with_priority(&self, p: OperationPriority) -> (n: usize)
        ensures
            n == count_priority(self.queue_spec(), p),
    {
        let ghost q = self.queue_spec();
        let ghost f = |o: PrioritizedOperationView| o.priority == p;
        let mut n: usize = 0;
        let mut i: usize = 0;
        while i < self.queue.len()
            invariant
                q == self.queue_spec(),
                f == (|o: PrioritizedOperationView| o.priority == p),
                i <= q.len(),
                n == q.take(i as int).filter(f).len(),
                n <= i,
            decreases q.len() - i,
        {
            proof {
                assert(q.take(i + 1) =~= q.take(i as int).push(q[i as int]));
                q.take(i as int).lemma_filter_push(q[i as int], f);
                assert(q[i as int] == self.queue@[i as int]@);
            }
            if self.queue[i].priority == p {
                n += 1;
            }
            i += 1;
        }
        assert(q.take(q.len() as int) =~= q);
        n
    }

    /// How many queued operations are of kind `t`.
    fn count_with_type(&self, t: OperationType) -> (n: usize)
        ensures
            n == count_type(self.queue_spec(), t),
    {
        let ghost q = self.queue_spec();
        let ghost f = |o: PrioritizedOperationView| o.op_type == t;
        let mut n: usize = 0;
        let mut i: usize = 0;
        while i < self.queue.len()
            invariant
                q == self.queue_spec(),
                f == (|o: PrioritizedOperationView| o.op_type == t),
                i <= q.len(),
                n == q.take(i as int).filter(f).len(),
                n <= i,
            decreases q.len() - i,
        {
            proof {
                assert(q.take(i + 1) =~= q.take(i as int).push(q[i as int]));
                q.take(i as int).lemma_filter_push(q[i as int], f);
                assert(q[i as int] == self.queue@[i as int]@);
            }
            if self.queue[i].op_type == t {
                n += 1;
            }
            i += 1;
        }
        assert(q.take(q.len() as int) =~= q);
        n
    }

    /// Queue statistics: how many operations are queued and running, and
    /// the queued ones counted by priority and by kind. Each priority and
    /// kind present is listed once, with its count, in the order the enums
    /// declare them.
    pub fn get_queue_stats(&self) -> (st: QueueStatistics)
        ensures
            st.queued_operations == self.queue_spec().len(),
            st.active_operations == self.active_spec().len(),
            counts_by_priority(self.queue_spec(), st.operations_by_priority@),
            counts_by_type(self.queue_spec(), st.operations_by_type@),
    {
        let all_p = vec![
            OperationPriority::Critical,
            OperationPriority::Security,
            OperationPriority::High,
            OperationPriority::Normal,
            OperationPriority::Low,
            OperationPriority::Background,
        ];
        let ghost q = self.queue_spec();
        let mut by_p: Vec<(OperationPriority, usize)> = Vec::new();
        let mut k: usize = 0;
        while k < all_p.len()
            invariant
                q == self.queue_spec(),
                all_p@.len() == 6,
                forall|i: int| 0 <= i < 6 ==> priority_rank(#[trigger] all_p@[i]) == i,
                k <= 6,
                forall|i: int|
                    0 <= i < by_p@.len() ==> (#[trigger] by_p@[i]).1 == count_priority(q, by_p@[i].0)
                        && by_p@[i].1 > 0 && priority_rank(by_p@[i].0) < k,
                forall|i: int, j: int|
                    0 <= i < j < by_p@.len() ==> priority_rank((#[trigger] by_p@[i]).0) < priority_rank(
                        (#[trigger] by_p@[j]).0,
                    ),
                forall|p: OperationPriority|
                    priority_rank(p) < k && #[trigger] count_priority(q, p) > 0 ==> exists|i: int|
                        0 <= i < by_p@.len() && (#[trigger] by_p@[i]).0 == p,
            decreases 6 - k,
        {
            let p = all_p[k];
            let n = self.count_with_priority(p);
            let ghost before = by_p@;
            if n > 0 {
                by_p.push((p, n));
                proof {
                    assert forall|x: OperationPriority|
                        priority_rank(x) < k + 1 && #[trigger] count_priority(q, x) > 0 implies exists|i: int|
                            0 <= i < by_p@.len() && (#[trigger] by_p@[i]).0 == x by {
                        if priority_rank(x) == k {
                            assert(x == p);
                            assert(by_p@[before.len() as int].0 == x);
                        } else {
                            let i = choose|i: int| 0 <= i < before.len() && (#[trigger] before[i]).0 == x;
                            assert(by_p@[i].0 == x);
                        }
                    }
                }
            } else {
                proof {
                    assert forall|x: OperationPriority|
                        priority_rank(x) < k + 1 && #[trigger] count_priority(q, x) > 0 implies exists|i: int|
                            0 <= i < by_p@.len() && (#[trigger] by_p@[i]).0 == x by {
                        if priority_rank(x) == k {
                            assert(x == p);
                        }
                    }
                }
            }
            k += 1;
        }
        let all_t = vec![
            OperationType::Install,
            OperationType::Uninstall,
            OperationType::Update,
            OperationType::DependencyResolution,
            OperationType::StateUpdate,
            OperationType::GraphValidation,
        ];
        let mut by_t: Vec<(OperationType, usize)> = Vec::new();
        let mut k: usize = 0;
        while k < all_t.len()
            invariant
                q == self.queue_spec(),
                all_t@.len() == 6,
                forall|i: int| 0 <= i < 6 ==> type_rank(#[trigger] all_t@[i]) == i,
                k <= 6,
                forall|i: int|
                    0 <= i < by_t@.len() ==> (#[trigger] by_t@[i]).1 == count_type(q, by_t@[i].0) && by_t@[i].1
                        > 0 && type_rank(by_t@[i].0) < k,
                forall|i: int, j: int|
                    0 <= i < j < by_t@.len() ==> type_rank((#[trigger] by_t@[i]).0) < type_rank(
                        (#[trigger] by_t@[j]).0,
                    ),
                forall|t: OperationType|
                    type_rank(t) < k && #[trigger] count_type(q, t) > 0 ==> exists|i: int|
                        0 <= i < by_t@.len() && (#[trigger] by_t@[i]).0 == t,
            decreases 6 - k,
        {
            let t = all_t[k];
            let n = self.count_with_type(t);
            let ghost before = by_t@;
            if n > 0 {
                by_t.push((t, n));
                proof {
                    assert forall|x: OperationType|
                        type_rank(x) < k + 1 && #[trigger] count_type(q, x) > 0 implies exists|i: int|
                            0 <= i < by_t@.len() && (#[trigger] by_t@[i]).0 == x by {
                        if type_rank(x) == k {
                            assert(x == t);
                            assert(by_t@[before.len() as int].0 == x);
                        } else {
                            let i = choose|i: int| 0 <= i < before.len() && (#[trigger] before[i]).0 == x;
                            assert(by_t@[i].0 == x);
                        }
                    }
                }
            } else {
                proof {
                    assert forall|x: OperationType|
                        type_rank(x) < k + 1 && #[trigger] count_type(q, x) > 0 implies exists|i: int|
                            0 <= i < by_t@.len() && (#[trigger] by_t@[i]).0 == x by {
                        if type_rank(x) == k {
                            assert(x == t);
                        }
                    }
                }
            }
            k += 1;
        }
        proof {
            assert forall|x: OperationPriority| #[trigger] count_priority(q, x) > 0 implies exists|i: int|
                0 <= i < by_p@.len() && (#[trigger] by_p@[i]).0 == x by {
                assert(priority_rank(x) < 6);
            }
            assert forall|x: OperationType| #[trigger] count_type(q, x) > 0 implies exists|i: int|
                0 <= i < by_t@.len() && (#[trigger] by_t@[i]).0 == x by {
                assert(type_rank(x) < 6);
            }
            assert(self.active_spec().dom() =~= self.active_ops@.dom());
        }
        QueueStatistics {
            queued_operations: self.queue.len(),
            active_operations: self.active_ops.len(),
            operations_by_priority: by_p,
            operations_by_type: by_t,
        }
    }
}

} // verus!
