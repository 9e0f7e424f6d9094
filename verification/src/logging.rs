//! Log levels and the timing of operations.

use vstd::prelude::*;

verus! {

/// Log level; earlier variants are more severe.
#[derive(Debug, Clone, Copy, PartialEq, Eq, Structural, PartialOrd, Ord)]
pub enum LogLevel {
    Error,
    Warn,
    Info,
    Debug,
    Trace,
}

/// The severity rank of a level: 0 for the most severe.
pub open spec fn level_rank(l: LogLevel) -> nat {
    match l {
        LogLevel::Error => 0,
        LogLevel::Warn => 1,
        LogLevel::Info => 2,
        LogLevel::Debug => 3,
        LogLevel::Trace => 4,
    }
}

impl LogLevel {
    /// The severity rank of the level: 0 for errors, 4 for traces.
    pub fn rank(&self) -> (r: u8)
        ensures
            r == level_rank(*self),
    {
        match self {
            LogLevel::Error => 0,
            LogLevel::Warn => 1,
            LogLevel::Info => 2,
            LogLevel::Debug => 3,
            LogLevel::Trace => 4,
        }
    }

    /// Whether a logger set to `self` records a message at `level`: the
    /// message is at least as severe as the logger's level.
    pub fn allows(&self, level: LogLevel) -> (b: bool)
        ensures
            b == (level_rank(level) <= level_rank(*self)),
    {
        level.rank() <= self.rank()
    }
}

/// Timing of an operation
#[derive(Debug, Clone, Copy)]
pub struct OperationTiming {
    pub duration: std::time::Duration,
    pub cpu_time: std::time::Duration,
    pub io_time: Option<std::time::Duration>,
    pub network_time: Option<std::time::Duration>,
}

impl OperationTiming {
    /// The timing of an operation that took `duration`, the CPU time taken
    /// to be the same and no I/O or network time known.
    pub fn from_duration(duration: std::time::Duration) -> (t: Self)
        ensures
            t.duration == duration,
            t.cpu_time == duration,
            t.io_time is None,
            t.network_time is None,
    {
        OperationTiming { duration, cpu_time: duration, io_time: None, network_time: None }
    }
}

/// A logger that records messages at some level records every more severe
/// message too, and every logger records errors.
pub proof fn law_more_severe_allowed(logger: LogLevel, level: LogLevel, more_severe: LogLevel)
    requires
        level_rank(level) <= level_rank(logger),
        level_rank(more_severe) <= level_rank(level),
    ensures
        level_rank(more_severe) <= level_rank(logger),
        level_rank(LogLevel::Error) <= level_rank(logger),
{
}

} // verus!
