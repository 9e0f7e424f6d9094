//! Settings and state of isolated processes, and the record of the
//! processes started for an environment.

use vstd::prelude::*;
use crate::error::BlastResult;
use crate::strmap::StrMap;
use std::collections::HashMap;
use vstd::string::StringExecFns;

verus! {

broadcast use vstd::std_specs::hash::group_hash_axioms;

/// Configuration for a process
#[derive(Debug)]
pub struct ProcessConfig {
    /// Command to run
    pub command: String,
    /// Command arguments
    pub args: Vec<String>,
    /// Working directory
    pub working_dir: String,
    /// Environment variables
    pub env: StrMap<String>,
}

impl Default for ProcessConfig {
    fn default() -> (c: Self)
        ensures
            c.command@ == Seq::<char>::empty(),
            c.args@.len() == 0,
            c.working_dir@ == "."@,
            c.env@ == Map::<Seq<char>, String>::empty(),
    {
        ProcessConfig {
            command: String::new(),
            args: Vec::new(),
            working_dir: String::from_str("."),
            env: StrMap::new(),
        }
    }
}

/// Process state
#[derive(Debug)]
pub struct ProcessState {
    /// Whether process is running
    pub running: bool,
    /// Exit code if process has terminated
    pub exit_code: Option<i32>,
    /// Process start time
    pub start_time: std::time::SystemTime,
}

impl ProcessState {
    /// The state of a process that is not running, started at `start_time`.
    pub fn idle(start_time: std::time::SystemTime) -> (s: Self)
        ensures
            !s.running,
            s.exit_code is None,
            s.start_time == start_time,
    {
        ProcessState { running: false, exit_code: None, start_time }
    }

    /// The state of a process that has just started.
    pub fn started(start_time: std::time::SystemTime) -> (s: Self)
        ensures
            s.running,
            s.exit_code is None,
            s.start_time == start_time,
    {
        ProcessState { running: true, exit_code: None, start_time }
    }

    /// Marks the process as killed: no longer running, exit code -1.
    pub fn mark_killed(&mut self)
        ensures
            !final(self).running,
            final(self).exit_code == Some(-1i32),
            final(self).start_time == old(self).start_time,
    {
        self.running = false;
        self.exit_code = Some(-1);
    }
}

impl Default for ProcessState {
    fn default() -> (s: Self)
        ensures
            !s.running,
            s.exit_code is None,
    {
        ProcessState::idle(crate::time::system_now())
    }
}

/// Handle to a started process: its process id.
#[derive(Debug, Clone, Copy)]
pub struct ProcessHandle {
    pid: u32,
}

impl ProcessHandle {
    /// The process id.
    pub closed spec fn pid_spec(&self) -> u32 {
        self.pid
    }

    /// Get process ID
    pub fn pid(&self) -> (p: u32)
        ensures
            p == self.pid_spec(),
    {
        self.pid
    }
}

/// The processes started for an environment, by process id.
#[derive(Debug)]
pub struct ProcessManager {
    processes: HashMap<u32, ProcessState>,
}

impl ProcessManager {
    /// The state of each tracked process.
    pub closed spec fn processes_spec(&self) -> Map<u32, ProcessState> {
        self.processes@
    }

    /// A manager tracking no process.
    pub fn new() -> (m: Self)
        ensures
            m.processes_spec() == Map::<u32, ProcessState>::empty(),
    {
        ProcessManager { processes: HashMap::new() }
    }

    /// Records a process the system started with id `pid` at
    /// `start_time`, as running, and returns its handle.
    pub fn track_spawned(&mut self, pid: u32, start_time: std::time::SystemTime) -> (h: ProcessHandle)
        ensures
            h.pid_spec() == pid,
            final(self).processes_spec() == old(self).processes_spec().insert(
                pid,
                ProcessState { running: true, exit_code: None, start_time },
            ),
    {
        let _ = self.processes.insert(pid, ProcessState::started(start_time));
        ProcessHandle { pid }
    }

    /// Marks a tracked process as killed: no longer running, exit code -1.
    /// An untracked handle changes nothing.
    pub fn kill(&mut self, handle: &ProcessHandle) -> (r: BlastResult<()>)
        ensures
            r is Ok,
            old(self).processes_spec().contains_key(handle.pid_spec()) ==> final(self).processes_spec()
                == old(self).processes_spec().insert(
                handle.pid_spec(),
                ProcessState {
                    running: false,
                    exit_code: Some(-1i32),
                    start_time: old(self).processes_spec()[handle.pid_spec()].start_time,
                },
            ),
            !old(self).processes_spec().contains_key(handle.pid_spec()) ==> final(self).processes_spec()
                == old(self).processes_spec(),
    {
        let start = match self.processes.get(&handle.pid) {
            Some(state) => state.start_time.clone(),
            None => {
                return Ok(());
            },
        };
        let mut killed = ProcessState::started(start);
        killed.mark_killed();
        let _ = self.processes.insert(handle.pid, killed);
        Ok(())
    }

    /// The state of a tracked process; for an untracked handle, the state
    /// of a process that is not running, started now.
    pub fn get_state(&self, handle: &ProcessHandle) -> (r: BlastResult<ProcessState>)
        ensures
            r is Ok,
            r matches Ok(s) && (if self.processes_spec().contains_key(handle.pid_spec()) {
                s == self.processes_spec()[handle.pid_spec()]
            } else {
                !s.running && s.exit_code is None
            }),
    {
        match self.processes.get(&handle.pid) {
            Some(state) => Ok(
                ProcessState {
                    running: state.running,
                    exit_code: state.exit_code,
                    start_time: state.start_time.clone(),
                },
            ),
            None => Ok(ProcessState::default()),
        }
    }
}

} // verus!
