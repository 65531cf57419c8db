//! Results of finished jobs and the count of admitted, unfinished jobs.

use vstd::prelude::*;
use std::collections::HashMap;
use std::collections::VecDeque;
use crate::machine::state::StoredResult;
use crate::machine::state_view::{ResultView, StateView};
use crate::machine::types::{Action, Event, ExecOutcome};

verus! {

/// How many jobs may be admitted and unfinished at once by default.
pub const DEFAULT_MAX_JOBS: usize = 32;

/// How many finished results are kept; the oldest is dropped first.
pub const MAX_STORED_RESULTS: usize = 100;

pub struct ResultState {
    pub results: HashMap<u64, StoredResult>,
    pub result_order: VecDeque<u64>,
    pub active_jobs: usize,
    pub max_jobs: usize,
    pub hash: u64,
}

impl ResultState {
    pub fn new() -> (s: Self)
        ensures
            s.results@ == Map::<u64, StoredResult>::empty(),
            s.result_order@ == Seq::<u64>::empty(),
            s.active_jobs == 0,
            s.max_jobs == DEFAULT_MAX_JOBS,
            s.hash == 0,
    {
        ResultState {
            results: HashMap::new(),
            result_order: VecDeque::new(),
            active_jobs: 0,
            max_jobs: DEFAULT_MAX_JOBS,
            hash: 0,
        }
    }
}

/// The outcome a query reports for job `id`.
pub open spec fn outcome_of(id: u64, view: Option<ResultView>) -> Option<ExecOutcome> {
    match view {
        Some(v) => Some(ExecOutcome { id, result: v.result }),
        None => None,
    }
}

/// Two optional outcomes carry the same id and result.
pub open spec fn same_outcome(a: Option<ExecOutcome>, b: Option<ExecOutcome>) -> bool {
    match (a, b) {
        (Some(x), Some(y)) => x.same_as(y),
        (None, None) => true,
        _ => false,
    }
}

/// Actions are alike when they are equal, except that query answers are
/// compared by their outcomes (the bytes they carry are copies).
pub open spec fn action_alike(a: Action, b: Action) -> bool {
    match (a, b) {
        (Action::QueryResult { id: i, result: r }, Action::QueryResult { id: j, result: q }) => i == j
            && same_outcome(r, q),
        _ => a == b,
    }
}

pub open spec fn actions_alike(a: Seq<Action>, b: Seq<Action>) -> bool {
    &&& a.len() == b.len()
    &&& forall|i: int| 0 <= i < a.len() ==> #[trigger] action_alike(a[i], b[i])
}

pub proof fn lemma_actions_alike_refl(a: Seq<Action>)
    ensures
        actions_alike(a, a),
{
    assert forall|i: int| 0 <= i < a.len() implies #[trigger] action_alike(a[i], a[i]) by {
        match a[i] {
            Action::QueryResult { id, result } => {
                match result {
                    Some(o) => {
                        assert(o.same_as(o));
                    },
                    None => {},
                }
            },
            _ => {},
        }
    }
}

pub proof fn lemma_actions_alike_concat(a: Seq<Action>, b: Seq<Action>, c: Seq<Action>, d: Seq<Action>)
    requires
        actions_alike(a, b),
        actions_alike(c, d),
    ensures
        actions_alike(a + c, b + d),
{
    assert forall|i: int| 0 <= i < (a + c).len() implies #[trigger] action_alike((a + c)[i], (b + d)[i]) by {
        if i < a.len() {
            assert(action_alike(a[i], b[i]));
        } else {
            assert(action_alike(c[i - a.len()], d[i - a.len()]));
        }
    }
}

/// Answers result queries from the stored results.
pub struct ResultModule;

pub open spec fn result_actions<S: StateView>(state: &S, action: Action) -> Seq<Action> {
    match action {
        Action::Query { id } => seq![Action::QueryResult { id, result: outcome_of(id, state.result_view(id)) }],
        _ => seq![],
    }
}

impl ResultModule {
    pub fn handle<S: StateView>(&self, state: &S, action: &Action) -> (r: Vec<Action>)
        ensures
            actions_alike(r@, result_actions(state, *action)),
    {
        let mut actions: Vec<Action> = Vec::new();
        if let Action::Query { id } = action {
            let result = match state.result(*id) {
                Some(v) => Some(ExecOutcome { id: *id, result: v.result }),
                None => None,
            };
            actions.push(Action::QueryResult { id: *id, result });
            proof {
                assert(action_alike(actions@[0], result_actions(state, *action)[0]));
            }
        }
        actions
    }

    /// Results are answered on request only.
    pub fn handle_event<S: StateView>(&self, state: &S, event: &Event) -> (r: Vec<Action>)
        ensures
            r@ == Seq::<Action>::empty(),
    {
        Vec::new()
    }
}

} // verus!
