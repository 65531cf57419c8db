//! Job lifecycle transitions driven by admissions, signals, IO and deadlines.

use vstd::prelude::*;
use crate::machine::state::{JobIoState, JobLifecycle};
use crate::machine::state_view::{JobView, StateView};
use crate::machine::types::{Action, ControlSignal, Event};

verus! {

pub struct LifecycleModule;

/// The owner recorded for a job, or the core owner when the job is unknown.
pub open spec fn owner_or_core(job: Option<JobView>) -> u32 {
    match job {
        Some(j) => j.owner,
        None => 0,
    }
}

/// Whether the job was still only submitted (unknown jobs count as not).
pub open spec fn still_submitted(job: Option<JobView>) -> bool {
    match job {
        Some(j) => j.lifecycle == JobLifecycle::Submitted,
        None => false,
    }
}

/// The signal action for the job's process, if it has one.
pub open spec fn signal_if_running(job: JobView, signal: ControlSignal) -> Seq<Action> {
    match job.process {
        Some(p) => seq![Action::SignalProcess { process: p, signal }],
        None => seq![],
    }
}

pub open spec fn lifecycle_actions<S: StateView>(state: &S, action: Action) -> Seq<Action> {
    match action {
        Action::Admitted { id } => seq![
            Action::SetLifecycle { id, state: JobLifecycle::Admitted },
            Action::StartProcess { id },
        ],
        Action::SignalProcess { process, signal } => match state.process_job_view(process) {
            Some(job) => if signal == ControlSignal::GracefulStop {
                seq![
                    Action::TimeoutReached { id: job.id },
                    Action::SetLifecycle { id: job.id, state: JobLifecycle::Terminating },
                ]
            } else {
                seq![Action::SetLifecycle { id: job.id, state: JobLifecycle::Killed }]
            },
            None => seq![],
        },
        Action::SetJobIoState { id, state: io_state } => if io_state == JobIoState::Closed {
            match state.job_view(id) {
                Some(job) => match job.process {
                    Some(p) => seq![Action::PollProcess { process: p }],
                    None => seq![],
                },
                None => seq![],
            }
        } else {
            seq![]
        },
        Action::TimeoutReached { id } => match state.job_view(id) {
            Some(job) => if job.lifecycle == JobLifecycle::Running {
                seq![Action::SetLifecycle { id, state: JobLifecycle::Terminating }]
                    + signal_if_running(job, ControlSignal::GracefulStop)
            } else {
                seq![]
            },
            None => seq![],
        },
        Action::KillDeadlineReached { id } => match state.job_view(id) {
            Some(job) => if job.lifecycle != JobLifecycle::Finished && job.lifecycle
                != JobLifecycle::Killed {
                seq![Action::SetLifecycle { id, state: JobLifecycle::Killed }]
                    + signal_if_running(job, ControlSignal::ForceKill)
            } else {
                seq![]
            },
            None => seq![],
        },
        _ => seq![],
    }
}

pub open spec fn lifecycle_event_actions<S: StateView>(state: &S, event: Event) -> Seq<Action> {
    match event {
        Event::ProcessStarted { id, process, io } => seq![
            Action::AssignProcess { id, process },
            Action::AssignIo { id, io },
            Action::SetLifecycle { id, state: JobLifecycle::Running },
            Action::Started { id },
        ],
        Event::ProcessSpawnFailed { id, .. } => seq![
            Action::SetLifecycle { id, state: JobLifecycle::Finished },
            Action::Rejected {
                id,
                owner: owner_or_core(state.job_view(id)),
                was_submitted: still_submitted(state.job_view(id)),
            },
        ],
        _ => seq![],
    }
}

fn push_signal(actions: &mut Vec<Action>, job: &JobView, signal: ControlSignal)
    ensures
        final(actions)@ == old(actions)@ + signal_if_running(*job, signal),
{
    if let Some(p) = job.process {
        actions.push(Action::SignalProcess { process: p, signal });
    }
    proof {
        assert(final(actions)@ =~= old(actions)@ + signal_if_running(*job, signal));
    }
}

impl LifecycleModule {
    pub fn handle<S: StateView>(&self, state: &S, action: &Action) -> (r: Vec<Action>)
        ensures
            r@ == lifecycle_actions(state, *action),
    {
        let mut actions: Vec<Action> = Vec::new();
        match action {
            Action::Admitted { id } => {
                actions.push(Action::SetLifecycle { id: *id, state: JobLifecycle::Admitted });
                actions.push(Action::StartProcess { id: *id });
            },
            Action::SignalProcess { process, signal } => {
                if let Some(job) = state.job_by_process(*process) {
                    if *signal == ControlSignal::GracefulStop {
                        actions.push(Action::TimeoutReached { id: job.id });
                        actions.push(
                            Action::SetLifecycle { id: job.id, state: JobLifecycle::Terminating },
                        );
                    } else {
                        actions.push(Action::SetLifecycle { id: job.id, state: JobLifecycle::Killed });
                    }
                }
            },
            Action::SetJobIoState { id, state: io_state } => {
                if *io_state == JobIoState::Closed {
                    if let Some(job) = state.job(*id) {
                        if let Some(process) = job.process {
                            actions.push(Action::PollProcess { process });
                        }
                    }
                }
            },
            Action::TimeoutReached { id } => {
                if let Some(job) = state.job(*id) {
                    if job.lifecycle == JobLifecycle::Running {
                        actions.push(Action::SetLifecycle { id: *id, state: JobLifecycle::Terminating });
                        push_signal(&mut actions, &job, ControlSignal::GracefulStop);
                    }
                }
            },
            Action::KillDeadlineReached { id } => {
                if let Some(job) = state.job(*id) {
                    if job.lifecycle != JobLifecycle::Finished && job.lifecycle != JobLifecycle::Killed {
                        actions.push(Action::SetLifecycle { id: *id, state: JobLifecycle::Killed });
                        push_signal(&mut actions, &job, ControlSignal::ForceKill);
                    }
                }
            },
            _ => {},
        }
        proof {
            assert(actions@ =~= lifecycle_actions(state, *action));
        }
        actions
    }

    pub fn handle_event<S: StateView>(&self, state: &S, event: &Event) -> (r: Vec<Action>)
        ensures
            r@ == lifecycle_event_actions(state, *event),
    {
        let mut actions: Vec<Action> = Vec::new();
        match event {
            Event::ProcessStarted { id, process, io } => {
                actions.push(Action::AssignProcess { id: *id, process: *process });
                actions.push(Action::AssignIo { id: *id, io: *io });
                actions.push(Action::SetLifecycle { id: *id, state: JobLifecycle::Running });
                actions.push(Action::Started { id: *id });
            },
            Event::ProcessSpawnFailed { id, .. } => {
                let job = state.job(*id);
                let (owner, was_submitted) = match job {
                    Some(j) => (j.owner, j.lifecycle == JobLifecycle::Submitted),
                    None => (0, false),
                };
                actions.push(Action::SetLifecycle { id: *id, state: JobLifecycle::Finished });
                actions.push(Action::Rejected { id: *id, owner, was_submitted });
            },
            _ => {},
        }
        proof {
            assert(actions@ =~= lifecycle_event_actions(state, *event));
        }
        actions
    }
}

} // verus!
