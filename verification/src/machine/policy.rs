//! Deadline tracking: the timeout store and the modules that turn clock
//! ticks and submissions into timeout and admission actions.

use vstd::prelude::*;
use std::collections::BTreeMap;
use crate::machine::state::{TimeoutEntry, TimeoutState};
use crate::machine::state_view::{StateView, TimeoutView};
use crate::machine::types::{Action, Event};

verus! {

/// Tracked deadlines keyed by job id, with a running fingerprint.
pub struct TimeoutStateStore {
    pub timeouts: BTreeMap<u64, TimeoutEntry>,
    pub hash: u64,
}

impl TimeoutStateStore {
    pub fn new() -> (s: Self)
        ensures
            s.timeouts@ == Map::<u64, TimeoutEntry>::empty(),
            s.hash == 0,
    {
        TimeoutStateStore { timeouts: BTreeMap::new(), hash: 0 }
    }
}

/// Tracked deadlines never push the clock past what a `u64` holds when the
/// kill grace is added to the current time.
pub open spec fn clock_fits(now: u64) -> bool {
    now + u32::MAX <= u64::MAX
}

/// What one tracked deadline asks for at time `now`: a run deadline that has
/// passed starts the kill grace and reports the timeout; a kill grace that
/// has passed asks for the kill and stops tracking.
pub open spec fn timeout_entry_actions(now: u64, e: TimeoutView) -> Seq<Action> {
    match e.state {
        TimeoutState::WaitingForDeadline => if now >= e.deadline {
            seq![
                Action::UpdateTimeoutState {
                    id: e.id,
                    state: TimeoutState::WaitingForKillGrace((now + e.kill_grace_ms) as u64),
                },
                Action::TimeoutReached { id: e.id },
            ]
        } else {
            seq![]
        },
        TimeoutState::WaitingForKillGrace(grace) => if now >= grace {
            seq![Action::KillDeadlineReached { id: e.id }, Action::UntrackTimeout { id: e.id }]
        } else {
            seq![]
        },
    }
}

/// The actions of all tracked deadlines, in the order given.
pub open spec fn timeout_actions(now: u64, ts: Seq<TimeoutView>) -> Seq<Action>
    decreases ts.len(),
{
    if ts.len() == 0 {
        seq![]
    } else {
        timeout_actions(now, ts.drop_last()) + timeout_entry_actions(now, ts.last())
    }
}

pub open spec fn timeout_event_actions<S: StateView>(state: &S, event: Event) -> Seq<Action> {
    match event {
        Event::Tick => timeout_actions(state.now_view(), state.timeouts_view()),
        _ => seq![],
    }
}

/// Expires deadlines on each clock tick.
pub struct TimeoutPolicyModule;

impl TimeoutPolicyModule {
    pub fn new() -> (m: Self) {
        TimeoutPolicyModule
    }

    /// The timeout module reacts to events only.
    pub fn handle<S: StateView>(&self, state: &S, action: &Action) -> (r: Vec<Action>)
        ensures
            r@ == Seq::<Action>::empty(),
    {
        Vec::new()
    }

    pub fn handle_event<S: StateView>(&self, state: &S, event: &Event) -> (r: Vec<Action>)
        requires
            clock_fits(state.now_view()),
        ensures
            r@ == timeout_event_actions(state, *event),
    {
        let mut actions: Vec<Action> = Vec::new();
        if let Event::Tick = event {
            let now = state.now();
            let entries = state.timeouts();
            let mut i: usize = 0;
            while i < entries.len()
                invariant
                    i <= entries@.len(),
                    clock_fits(now),
                    actions@ == timeout_actions(now, entries@.take(i as int)),
                decreases entries@.len() - i,
            {
                let entry = entries[i];
                match entry.state {
                    TimeoutState::WaitingForDeadline => {
                        if now >= entry.deadline {
                            actions.push(
                                Action::UpdateTimeoutState {
                                    id: entry.id,
                                    state: TimeoutState::WaitingForKillGrace(now + entry.kill_grace_ms as u64),
                                },
                            );
                            actions.push(Action::TimeoutReached { id: entry.id });
                        }
                    },
                    TimeoutState::WaitingForKillGrace(grace) => {
                        if now >= grace {
                            actions.push(Action::KillDeadlineReached { id: entry.id });
                            actions.push(Action::UntrackTimeout { id: entry.id });
                        }
                    },
                }
                proof {
                    assert(entries@.take(i + 1).drop_last() =~= entries@.take(i as int));
                    assert(actions@ =~= timeout_actions(now, entries@.take(i + 1)));
                }
                i = i + 1;
            }
            proof {
                assert(entries@.take(i as int) =~= entries@);
            }
        }
        actions
    }
}

/// Admits a submitted job while fewer than the limit are active, and
/// rejects it otherwise.
pub struct AdmissionControlModule;

pub open spec fn admission_actions<S: StateView>(state: &S, action: Action) -> Seq<Action> {
    match action {
        Action::Submit { id, owner, .. } => if state.active_jobs_view() >= state.max_jobs_view() {
            seq![Action::Rejected { id, owner, was_submitted: false }]
        } else {
            seq![Action::Admitted { id }]
        },
        _ => seq![],
    }
}

impl AdmissionControlModule {
    pub fn handle<S: StateView>(&self, state: &S, action: &Action) -> (r: Vec<Action>)
        ensures
            r@ == admission_actions(state, *action),
    {
        let mut actions: Vec<Action> = Vec::new();
        if let Action::Submit { id, owner, .. } = action {
            if state.active_jobs() >= state.max_jobs() {
                actions.push(Action::Rejected { id: *id, owner: *owner, was_submitted: false });
            } else {
                actions.push(Action::Admitted { id: *id });
            }
        }
        proof {
            assert(actions@ =~= admission_actions(state, *action));
        }
        actions
    }

    /// Admission reacts to actions only.
    pub fn handle_event<S: StateView>(&self, state: &S, event: &Event) -> (r: Vec<Action>)
        ensures
            r@ == Seq::<Action>::empty(),
    {
        Vec::new()
    }
}

/// Admission never lets the active jobs exceed the limit: a submission that
/// arrives with the limit reached (or passed) is answered with a rejection
/// of that job by that owner, never an admission, and an admission is given
/// only while fewer jobs than the limit are active. Every submission gets
/// exactly one answer.
pub proof fn law_admission_respects_limit<S: StateView>(state: &S, action: Action)
    requires
        action is Submit,
    ensures
        admission_actions(state, action).len() == 1,
        state.active_jobs_view() >= state.max_jobs_view() ==> admission_actions(state, action)[0] == (Action::Rejected {
            id: action->Submit_id,
            owner: action->Submit_owner,
            was_submitted: false,
        }),
        admission_actions(state, action)[0] is Admitted ==> state.active_jobs_view() < state.max_jobs_view(),
        state.active_jobs_view() < state.max_jobs_view() ==> admission_actions(state, action)[0] == (Action::Admitted {
            id: action->Submit_id,
        }),
{
}

} // verus!
