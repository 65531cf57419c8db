//! IO bookkeeping: stream interest for new processes, and IO state changes
//! and failures of running jobs.

use vstd::prelude::*;
use crate::machine::state::JobIoState;
use crate::machine::state_view::StateView;
use crate::machine::types::{Action, Event, IoHandle, IoStream};

verus! {

pub struct IoModule;

/// A cleanup of the job that owns `io`, if one does.
pub open spec fn cleanup_io_job<S: StateView>(state: &S, io: IoHandle) -> Seq<Action> {
    match state.io_job_view(io) {
        Some(job) => seq![Action::CleanupJob { id: job.id }],
        None => seq![],
    }
}

pub open spec fn io_event_actions<S: StateView>(state: &S, event: Event) -> Seq<Action> {
    match event {
        Event::ProcessStarted { io, .. } => seq![
            Action::RegisterInterest { io, stream: IoStream::Stdout },
            Action::RegisterInterest { io, stream: IoStream::Stderr },
            Action::RegisterInterest { io, stream: IoStream::Stdin },
        ],
        Event::IoReady { io, .. } => match state.io_job_view(io) {
            Some(job) => seq![
                Action::SetJobIoState { id: job.id, state: JobIoState::Active },
                Action::PerformIo { io },
            ],
            None => seq![],
        },
        Event::IoClosed { io } => match state.io_job_view(io) {
            Some(job) => seq![Action::SetJobIoState { id: job.id, state: JobIoState::Closed }],
            None => seq![],
        },
        Event::WatchStreamFailed { io, err } => seq![Action::HandleIoFailure { io, reason: err }]
            + cleanup_io_job(state, io),
        Event::IoFailed { io, reason } => seq![Action::HandleIoFailure { io, reason }]
            + cleanup_io_job(state, io),
        _ => seq![],
    }
}

fn push_io_cleanup<S: StateView>(actions: &mut Vec<Action>, state: &S, io: IoHandle)
    ensures
        final(actions)@ == old(actions)@ + cleanup_io_job(state, io),
{
    if let Some(job) = state.job_by_io(io) {
        actions.push(Action::CleanupJob { id: job.id });
    }
    proof {
        assert(final(actions)@ =~= old(actions)@ + cleanup_io_job(state, io));
    }
}

impl IoModule {
    /// The IO module reacts to events only.
    pub fn handle<S: StateView>(&self, state: &S, action: &Action) -> (r: Vec<Action>)
        ensures
            r@ == Seq::<Action>::empty(),
    {
        Vec::new()
    }

    pub fn handle_event<S: StateView>(&self, state: &S, event: &Event) -> (r: Vec<Action>)
        ensures
            r@ == io_event_actions(state, *event),
    {
        let mut actions: Vec<Action> = Vec::new();
        match event {
            Event::ProcessStarted { io, .. } => {
                actions.push(Action::RegisterInterest { io: *io, stream: IoStream::Stdout });
                actions.push(Action::RegisterInterest { io: *io, stream: IoStream::Stderr });
                actions.push(Action::RegisterInterest { io: *io, stream: IoStream::Stdin });
            },
            Event::IoReady { io, .. } => {
                if let Some(job) = state.job_by_io(*io) {
                    actions.push(Action::SetJobIoState { id: job.id, state: JobIoState::Active });
                    actions.push(Action::PerformIo { io: *io });
                }
            },
            Event::IoClosed { io } => {
                if let Some(job) = state.job_by_io(*io) {
                    actions.push(Action::SetJobIoState { id: job.id, state: JobIoState::Closed });
                }
            },
            Event::WatchStreamFailed { io, err } => {
                actions.push(Action::HandleIoFailure { io: *io, reason: err.clone() });
                push_io_cleanup(&mut actions, state, *io);
            },
            Event::IoFailed { io, reason } => {
                actions.push(Action::HandleIoFailure { io: *io, reason: reason.clone() });
                push_io_cleanup(&mut actions, state, *io);
            },
            _ => {},
        }
        proof {
            assert(actions@ =~= io_event_actions(state, *event));
        }
        actions
    }
}

} // verus!
