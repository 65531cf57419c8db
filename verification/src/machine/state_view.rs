//! A read-only view of the execution state, as the modules see it.

use vstd::prelude::*;
use crate::machine::state::{JobIoState, JobLifecycle, TimeoutState};
use crate::machine::types::{same_result, ExecError, ExecResult, IoHandle, ProcessHandle};

verus! {

/// What a module may read of a job.
#[derive(Clone, Copy)]
pub struct JobView {
    pub id: u64,
    pub owner: u32,
    pub lifecycle: JobLifecycle,
    pub io_state: JobIoState,
    pub process: Option<ProcessHandle>,
    pub io: Option<IoHandle>,
    pub timed_out: bool,
}

/// What a module may read of a tracked deadline.
#[derive(Clone, Copy)]
pub struct TimeoutView {
    pub id: u64,
    pub state: TimeoutState,
    pub deadline: u64,
    pub kill_grace_ms: u32,
}

/// What a module may read of a stored result.
pub struct ResultView {
    pub result: Result<ExecResult, ExecError>,
    pub owner: u32,
}

/// Two optional result views carry the same outcome and owner.
pub open spec fn same_result_view(a: Option<ResultView>, b: Option<ResultView>) -> bool {
    match (a, b) {
        (Some(x), Some(y)) => same_result(x.result, y.result) && x.owner == y.owner,
        (None, None) => true,
        _ => false,
    }
}

/// Read access to jobs, results, deadlines and the clock.
pub trait StateView {
    spec fn job_view(&self, id: u64) -> Option<JobView>;

    spec fn process_job_view(&self, process: ProcessHandle) -> Option<JobView>;

    spec fn io_job_view(&self, io: IoHandle) -> Option<JobView>;

    spec fn result_view(&self, id: u64) -> Option<ResultView>;

    spec fn active_jobs_view(&self) -> usize;

    spec fn max_jobs_view(&self) -> usize;

    spec fn timeouts_view(&self) -> Seq<TimeoutView>;

    spec fn now_view(&self) -> u64;

    fn job(&self, id: u64) -> (r: Option<JobView>)
        ensures
            r == self.job_view(id),
    ;

    fn job_by_process(&self, process: ProcessHandle) -> (r: Option<JobView>)
        ensures
            r == self.process_job_view(process),
    ;

    fn job_by_io(&self, io: IoHandle) -> (r: Option<JobView>)
        ensures
            r == self.io_job_view(io),
    ;

    fn result(&self, id: u64) -> (r: Option<ResultView>)
        ensures
            same_result_view(r, self.result_view(id)),
    ;

    fn active_jobs(&self) -> (r: usize)
        ensures
            r == self.active_jobs_view(),
    ;

    fn max_jobs(&self) -> (r: usize)
        ensures
            r == self.max_jobs_view(),
    ;

    fn timeouts(&self) -> (r: Vec<TimeoutView>)
        ensures
            r@ == self.timeouts_view(),
    ;

    fn now(&self) -> (r: u64)
        ensures
            r == self.now_view(),
    ;
}

} // verus!
