//! Process control: turns control requests and deadlines into signals, and
//! process events into results and cleanup.

use vstd::prelude::*;
use crate::machine::lifecycle::{owner_or_core, still_submitted};
use crate::machine::state::JobLifecycle;
use crate::machine::state_view::StateView;
use crate::machine::types::{Action, ControlSignal, Event, ExecError, LogEvent, LogLevel, CORE_OWNER};

verus! {

pub struct ProcessModule;

/// A signal for the process of job `id`, if the job is known and has one.
pub open spec fn signal_job<S: StateView>(state: &S, id: u64, signal: ControlSignal) -> Seq<Action> {
    match state.job_view(id) {
        Some(job) => match job.process {
            Some(p) => seq![Action::SignalProcess { process: p, signal }],
            None => seq![],
        },
        None => seq![],
    }
}

pub open spec fn process_actions<S: StateView>(state: &S, action: Action) -> Seq<Action> {
    match action {
        Action::Control { id, signal } => match state.job_view(id) {
            Some(job) => match job.process {
                Some(p) => seq![Action::SignalProcess { process: p, signal }, Action::Controlled { id }],
                None => seq![],
            },
            None => seq![],
        },
        Action::TimeoutReached { id } => signal_job(state, id, ControlSignal::GracefulStop),
        Action::KillDeadlineReached { id } => signal_job(state, id, ControlSignal::ForceKill),
        _ => seq![],
    }
}

pub open spec fn process_event_actions<S: StateView>(state: &S, event: Event) -> Seq<Action> {
    match event {
        Event::ProcessSpawnFailed { id, err } => seq![
            Action::Finished {
                id,
                owner: owner_or_core(state.job_view(id)),
                was_submitted: still_submitted(state.job_view(id)),
                result: Err(ExecError::SpawnFailed),
            },
            Action::EmitLog { owner: CORE_OWNER, level: LogLevel::Error, event: LogEvent::Error { id, err } },
        ],
        Event::KillProcessFailed { process, err } => seq![
            Action::HandleProcessFailure { process, err },
        ] + match state.process_job_view(process) {
            Some(job) => seq![Action::CleanupJob { id: job.id }],
            None => seq![],
        },
        Event::TimeAdvanced(delta) => seq![Action::AdvanceTime { delta }],
        Event::ReactorError { err } => seq![
            Action::EmitLog { owner: CORE_OWNER, level: LogLevel::Error, event: LogEvent::Error { id: 0, err } },
        ],
        _ => seq![],
    }
}

fn push_job_signal<S: StateView>(actions: &mut Vec<Action>, state: &S, id: u64, signal: ControlSignal)
    ensures
        final(actions)@ == old(actions)@ + signal_job(state, id, signal),
{
    if let Some(job) = state.job(id) {
        if let Some(process) = job.process {
            actions.push(Action::SignalProcess { process, signal });
        }
    }
    proof {
        assert(final(actions)@ =~= old(actions)@ + signal_job(state, id, signal));
    }
}

impl ProcessModule {
    pub fn handle<S: StateView>(&self, state: &S, action: &Action) -> (r: Vec<Action>)
        ensures
            r@ == process_actions(state, *action),
    {
        let mut actions: Vec<Action> = Vec::new();
        match action {
            Action::Control { id, signal } => {
                if let Some(job) = state.job(*id) {
                    if let Some(process) = job.process {
                        actions.push(Action::SignalProcess { process, signal: *signal });
                        actions.push(Action::Controlled { id: *id });
                    }
                }
            },
            Action::TimeoutReached { id } => {
                push_job_signal(&mut actions, state, *id, ControlSignal::GracefulStop);
            },
            Action::KillDeadlineReached { id } => {
                push_job_signal(&mut actions, state, *id, ControlSignal::ForceKill);
            },
            _ => {},
        }
        proof {
            assert(actions@ =~= process_actions(state, *action));
        }
        actions
    }

    pub fn handle_event<S: StateView>(&self, state: &S, event: &Event) -> (r: Vec<Action>)
        ensures
            r@ == process_event_actions(state, *event),
    {
        let mut actions: Vec<Action> = Vec::new();
        match event {
            Event::ProcessSpawnFailed { id, err } => {
                let job = state.job(*id);
                let (owner, was_submitted) = match job {
                    Some(j) => (j.owner, j.lifecycle == JobLifecycle::Submitted),
                    None => (0, false),
                };
                actions.push(
                    Action::Finished { id: *id, owner, was_submitted, result: Err(ExecError::SpawnFailed) },
                );
                actions.push(
                    Action::EmitLog {
                        owner: CORE_OWNER,
                        level: LogLevel::Error,
                        event: LogEvent::Error { id: *id, err: err.clone() },
                    },
                );
            },
            Event::KillProcessFailed { process, err } => {
                actions.push(Action::HandleProcessFailure { process: *process, err: err.clone() });
                if let Some(job) = state.job_by_process(*process) {
                    actions.push(Action::CleanupJob { id: job.id });
                }
            },
            Event::TimeAdvanced(delta) => {
                actions.push(Action::AdvanceTime { delta: *delta });
            },
            Event::ReactorError { err } => {
                actions.push(
                    Action::EmitLog {
                        owner: CORE_OWNER,
                        level: LogLevel::Error,
                        event: LogEvent::Error { id: 0, err: err.clone() },
                    },
                );
            },
            _ => {},
        }
        proof {
            assert(actions@ =~= process_event_actions(state, *event));
        }
        actions
    }
}

} // verus!
