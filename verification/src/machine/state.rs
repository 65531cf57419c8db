//! Job, timeout and result state records.

use vstd::prelude::*;

verus! {

#[derive(Debug, Clone, Copy, PartialEq, Eq, Structural)]
pub enum JobLifecycle {
    Submitted,
    Admitted,
    Running,
    Terminating,
    Killed,
    Finished,
}

/// Declaration position of a lifecycle state (its discriminant).
pub open spec fn lifecycle_code(l: JobLifecycle) -> u64 {
    match l {
        JobLifecycle::Submitted => 0,
        JobLifecycle::Admitted => 1,
        JobLifecycle::Running => 2,
        JobLifecycle::Terminating => 3,
        JobLifecycle::Killed => 4,
        JobLifecycle::Finished => 5,
    }
}

impl JobLifecycle {
    pub fn code(&self) -> (r: u64)
        ensures
            r == lifecycle_code(*self),
    {
        match self {
            JobLifecycle::Submitted => 0,
            JobLifecycle::Admitted => 1,
            JobLifecycle::Running => 2,
            JobLifecycle::Terminating => 3,
            JobLifecycle::Killed => 4,
            JobLifecycle::Finished => 5,
        }
    }
}

#[derive(Debug, Clone, Copy, PartialEq, Eq, Structural)]
pub enum JobIoState {
    Pending,
    Active,
    Closed,
}

/// Declaration position of an IO state (its discriminant).
pub open spec fn io_state_code(s: JobIoState) -> u64 {
    match s {
        JobIoState::Pending => 0,
        JobIoState::Active => 1,
        JobIoState::Closed => 2,
    }
}

impl JobIoState {
    pub fn code(&self) -> (r: u64)
        ensures
            r == io_state_code(*self),
    {
        match self {
            JobIoState::Pending => 0,
            JobIoState::Active => 1,
            JobIoState::Closed => 2,
        }
    }
}

#[derive(Debug, Clone, Copy, PartialEq, Eq, Structural)]
pub enum TimeoutState {
    WaitingForDeadline,
    WaitingForKillGrace(u64),
}

} // verus!

verus! {

pub struct JobState {
    pub id: u64,
    pub owner: u32,
    pub exec_spec: crate::machine::types::ExecSpec,
    pub policy: crate::machine::types::ExecPolicy,
    pub process: Option<crate::machine::types::ProcessHandle>,
    pub io: Option<crate::machine::types::IoHandle>,
    pub timed_out: bool,
    pub lifecycle: JobLifecycle,
    pub io_state: JobIoState,
}

#[derive(Clone, Copy)]
pub struct JobRuntime {
    pub process: Option<crate::machine::types::ProcessHandle>,
    pub io: Option<crate::machine::types::IoHandle>,
}

} // verus!

verus! {

/// A finished job's outcome, kept for later queries.
pub struct StoredResult {
    pub result: Result<crate::machine::types::ExecResult, crate::machine::types::ExecError>,
    pub owner: u32,
    pub created: u64,
}

/// A tracked job deadline: first the run deadline, then the kill grace.
#[derive(Clone, Copy, PartialEq, Eq, Structural)]
pub struct TimeoutEntry {
    pub id: u64,
    pub state: TimeoutState,
    pub deadline: u64,
    pub kill_grace_ms: u32,
}

/// Runtime counters published with the daemon status.
#[derive(Clone, Copy, Debug, PartialEq, Eq, Structural)]
pub struct Metrics {
    pub active_clients: u32,
    pub dropped_actions: u64,
    pub queue_depth: u32,
    pub avg_tick_duration_us: u32,
    pub peak_read_buf_kb: u32,
    pub peak_write_buf_kb: u32,
    pub restart_count: u32,
}

impl Metrics {
    pub open spec fn is_zero(self) -> bool {
        &&& self.active_clients == 0
        &&& self.dropped_actions == 0
        &&& self.queue_depth == 0
        &&& self.avg_tick_duration_us == 0
        &&& self.peak_read_buf_kb == 0
        &&& self.peak_write_buf_kb == 0
        &&& self.restart_count == 0
    }
}

impl Default for Metrics {
    fn default() -> (m: Self)
        ensures
            m.is_zero(),
    {
        Metrics {
            active_clients: 0,
            dropped_actions: 0,
            queue_depth: 0,
            avg_tick_duration_us: 0,
            peak_read_buf_kb: 0,
            peak_write_buf_kb: 0,
            restart_count: 0,
        }
    }
}

} // verus!
