//! Reducers for the deadline store, the result store and the clock.

use vstd::prelude::*;
use vstd::string::StringExecFns;
use crate::machine::core_state::lemma_id_map_model;
use crate::machine::execution::{lemma_u64_keys_ordered, ExecutionState};
use crate::machine::policy::TimeoutStateStore;
use crate::machine::result::{ResultState, MAX_STORED_RESULTS};
use crate::machine::state::{StoredResult, TimeoutEntry, TimeoutState};
use crate::machine::types::{clone_result, same_result, Action, ActionKind, Effect, ExecError, ExecResult};

verus! {

/// The id part of a deadline's fingerprint term.
pub open spec fn timeout_key_term(id: u64) -> u64 {
    vstd::wrapping::u64_specs::wrapping_mul(id, 0x5BD1E995)
}

/// 0 while waiting for the run deadline, 1 during the kill grace.
pub open spec fn timeout_state_code(s: TimeoutState) -> u64 {
    match s {
        TimeoutState::WaitingForDeadline => 0,
        TimeoutState::WaitingForKillGrace(_) => 1,
    }
}

/// A deadline's fingerprint term.
pub open spec fn timeout_term(id: u64, s: TimeoutState) -> u64 {
    vstd::wrapping::u64_specs::wrapping_add(timeout_key_term(id), timeout_state_code(s))
}

/// The deadline store after a timeout action.
pub open spec fn timeouts_after(ts: TimeoutStateStore, a: Action) -> (Map<u64, TimeoutEntry>, u64) {
    let m = ts.timeouts@;
    match a {
        Action::TrackTimeout { id, deadline, kill_grace_ms } => if m.contains_key(id) {
            (m, ts.hash)
        } else {
            (
                m.insert(id, TimeoutEntry { id, state: TimeoutState::WaitingForDeadline, deadline, kill_grace_ms }),
                (ts.hash ^ timeout_key_term(id)) ^ timeout_term(id, TimeoutState::WaitingForDeadline),
            )
        },
        Action::UntrackTimeout { id } => if m.contains_key(id) {
            (m.remove(id), (ts.hash ^ timeout_key_term(id)) ^ timeout_term(id, m[id].state))
        } else {
            (m, ts.hash)
        },
        Action::UpdateTimeoutState { id, state } => if m.contains_key(id) && m[id].state != state {
            (
                m.insert(id, TimeoutEntry { state, ..m[id] }),
                (ts.hash ^ timeout_term(id, m[id].state)) ^ timeout_term(id, state),
            )
        } else {
            (m, ts.hash)
        },
        _ => (m, ts.hash),
    }
}

fn state_code(s: &TimeoutState) -> (r: u64)
    ensures
        r == timeout_state_code(*s),
{
    match s {
        TimeoutState::WaitingForDeadline => 0,
        TimeoutState::WaitingForKillGrace(_) => 1,
    }
}

/// Tracks, expires and forgets job deadlines.
pub struct TimeoutReducer;

impl TimeoutReducer {
    pub fn handles(&self) -> (r: Vec<ActionKind>)
        ensures
            r@ == seq![ActionKind::TrackTimeout, ActionKind::UntrackTimeout, ActionKind::UpdateTimeoutState],
    {
        vec![ActionKind::TrackTimeout, ActionKind::UntrackTimeout, ActionKind::UpdateTimeoutState]
    }

    pub fn apply(&self, state: &mut ExecutionState, action: &Action, effects: &mut Vec<Effect>)
        ensures
            (final(state).timeout.timeouts@, final(state).timeout.hash) == timeouts_after(old(state).timeout, *action),
            final(state).core == old(state).core,
            final(state).result == old(state).result,
            final(state).metrics == old(state).metrics,
            final(state).clock == old(state).clock,
            final(state).hash == old(state).hash,
            final(effects)@ == old(effects)@,
    {
        broadcast use vstd::std_specs::btree::group_btree_axioms;

        proof {
            lemma_u64_keys_ordered();
        }
        let ts = &mut state.timeout;
        match action {
            Action::TrackTimeout { id, deadline, kill_grace_ms } => {
                if !ts.timeouts.contains_key(id) {
                    let entry = TimeoutEntry {
                        id: *id,
                        state: TimeoutState::WaitingForDeadline,
                        deadline: *deadline,
                        kill_grace_ms: *kill_grace_ms,
                    };
                    let st = state_code(&entry.state);
                    ts.timeouts.insert(*id, entry);
                    let k = id.wrapping_mul(0x5BD1E995);
                    ts.hash = ts.hash ^ k;
                    ts.hash = ts.hash ^ k.wrapping_add(st);
                }
            },
            Action::UntrackTimeout { id } => {
                if let Some(entry) = ts.timeouts.remove(id) {
                    let st = state_code(&entry.state);
                    let k = id.wrapping_mul(0x5BD1E995);
                    ts.hash = ts.hash ^ k;
                    ts.hash = ts.hash ^ k.wrapping_add(st);
                }
            },
            Action::UpdateTimeoutState { id, state: new_state } => {
                let found = match ts.timeouts.get(id) {
                    Some(e) => Some(*e),
                    None => None,
                };
                if let Some(entry) = found {
                    if entry.state != *new_state {
                        let k = id.wrapping_mul(0x5BD1E995);
                        let old_code = state_code(&entry.state);
                        let new_code = state_code(new_state);
                        ts.hash = ts.hash ^ k.wrapping_add(old_code);
                        ts.timeouts.insert(*id, TimeoutEntry { state: *new_state, ..entry });
                        ts.hash = ts.hash ^ k.wrapping_add(new_code);
                    }
                }
            },
            _ => {},
        }
    }
}

/// A stored result's fingerprint term.
pub open spec fn result_term(id: u64, owner: u32) -> u64 {
    vstd::wrapping::u64_specs::wrapping_add(vstd::wrapping::u64_specs::wrapping_mul(id, 0x1234567), owner as u64)
}

/// The stored record of a finished job.
pub open spec fn stored_finished(st: StoredResult, result: Result<ExecResult, ExecError>, owner: u32, clock: u64) -> bool {
    same_result(st.result, result) && st.owner == owner && st.created == clock
}

/// The stored record of a rejected job.
pub open spec fn stored_rejected(st: StoredResult, owner: u32, clock: u64) -> bool {
    &&& st.result matches Err(ExecError::Internal(m)) && m@ == "Rejected"@
    &&& st.owner == owner
    &&& st.created == clock
}

/// How the result store changes when the outcome of job `id` is recorded:
/// a job that was admitted (not merely submitted) releases its slot, the
/// outcome replaces any earlier one for `id`, and once more than
/// `MAX_STORED_RESULTS` are queued the oldest queued id is forgotten.
pub open spec fn record_ok(
    old_rs: ResultState,
    new_rs: ResultState,
    id: u64,
    owner: u32,
    was_submitted: bool,
    fresh: spec_fn(StoredResult) -> bool,
) -> bool {
    let a0 = old_rs.active_jobs;
    let release = !was_submitted && a0 > 0;
    let a1: usize = if release { (a0 - 1) as usize } else { a0 };
    let h1 = if release { (old_rs.hash ^ (a0 as u64)) ^ (a1 as u64) } else { old_rs.hash };
    let h2 = if old_rs.results@.contains_key(id) { h1 ^ result_term(id, old_rs.results@[id].owner) } else { h1 };
    let h3 = h2 ^ result_term(id, owner);
    let order = old_rs.result_order@.push(id);
    let evict = order.len() > MAX_STORED_RESULTS;
    let oid = order[0];
    let dom = old_rs.results@.dom().insert(id);
    let oid_owner = if oid == id { owner } else { old_rs.results@[oid].owner };
    &&& new_rs.active_jobs == a1
    &&& new_rs.max_jobs == old_rs.max_jobs
    &&& new_rs.result_order@ == if evict { order.drop_first() } else { order }
    &&& new_rs.results@.dom() == if evict { dom.remove(oid) } else { dom }
    &&& forall|k: u64| #[trigger] new_rs.results@.contains_key(k) ==> if k == id {
        fresh(new_rs.results@[k])
    } else {
        new_rs.results@[k] == old_rs.results@[k]
    }
    &&& new_rs.hash == if evict && dom.contains(oid) { h3 ^ result_term(oid, oid_owner) } else { h3 }
}

/// The result store after an admission: one more active job.
pub open spec fn admitted_ok(old_rs: ResultState, new_rs: ResultState) -> bool {
    &&& new_rs.active_jobs == old_rs.active_jobs + 1
    &&& new_rs.hash == (old_rs.hash ^ (old_rs.active_jobs as u64)) ^ (new_rs.active_jobs as u64)
    &&& new_rs.results == old_rs.results
    &&& new_rs.result_order == old_rs.result_order
    &&& new_rs.max_jobs == old_rs.max_jobs
}

fn record_result(rs: &mut ResultState, id: u64, owner: u32, was_submitted: bool, stored: StoredResult)
    requires
        stored.owner == owner,
    ensures
        record_ok(*old(rs), *final(rs), id, owner, was_submitted, |st: StoredResult| st == stored),
{
    proof {
        lemma_id_map_model();
    }
    let ghost pre = *rs;
    if !was_submitted && rs.active_jobs > 0 {
        rs.hash = rs.hash ^ (rs.active_jobs as u64);
        rs.active_jobs = rs.active_jobs - 1;
        rs.hash = rs.hash ^ (rs.active_jobs as u64);
    }
    let ghost stored_v = stored;
    if let Some(prev) = rs.results.insert(id, stored) {
        rs.hash = rs.hash ^ id.wrapping_mul(0x1234567).wrapping_add(prev.owner as u64);
    }
    rs.result_order.push_back(id);
    rs.hash = rs.hash ^ id.wrapping_mul(0x1234567).wrapping_add(owner as u64);
    let ghost mid = *rs;
    if rs.result_order.len() > MAX_STORED_RESULTS {
        if let Some(old_id) = rs.result_order.pop_front() {
            if let Some(removed) = rs.results.remove(&old_id) {
                rs.hash = rs.hash ^ old_id.wrapping_mul(0x1234567).wrapping_add(removed.owner as u64);
            }
        }
    }
    proof {
        let dom = pre.results@.dom().insert(id);
        assert(mid.results@ == pre.results@.insert(id, stored_v));
        if mid.result_order@.len() > MAX_STORED_RESULTS {
            assert(rs.results@.dom() =~= dom.remove(mid.result_order@[0]));
        } else {
            assert(rs.results@.dom() =~= dom);
        }
    }
}

/// Counts admitted jobs and keeps the outcomes of finished and rejected ones.
pub struct ResultReducer;

impl ResultReducer {
    pub fn handles(&self) -> (r: Vec<ActionKind>)
        ensures
            r@ == seq![ActionKind::Admitted, ActionKind::Finished, ActionKind::Rejected],
    {
        vec![ActionKind::Admitted, ActionKind::Finished, ActionKind::Rejected]
    }

    pub fn apply(&self, state: &mut ExecutionState, action: &Action, effects: &mut Vec<Effect>)
        requires
            action is Admitted ==> old(state).result.active_jobs < usize::MAX,
        ensures
            match *action {
                Action::Admitted { .. } => admitted_ok(old(state).result, final(state).result),
                Action::Finished { id, owner, was_submitted, result } => record_ok(
                    old(state).result,
                    final(state).result,
                    id,
                    owner,
                    was_submitted,
                    |st: StoredResult| stored_finished(st, result, owner, old(state).clock),
                ),
                Action::Rejected { id, owner, was_submitted } => record_ok(
                    old(state).result,
                    final(state).result,
                    id,
                    owner,
                    was_submitted,
                    |st: StoredResult| stored_rejected(st, owner, old(state).clock),
                ),
                _ => final(state).result == old(state).result,
            },
            final(state).core == old(state).core,
            final(state).timeout == old(state).timeout,
            final(state).metrics == old(state).metrics,
            final(state).clock == old(state).clock,
            final(state).hash == old(state).hash,
            final(effects)@ == old(effects)@,
    {
        let clock = state.clock;
        let rs = &mut state.result;
        match action {
            Action::Admitted { .. } => {
                rs.hash = rs.hash ^ (rs.active_jobs as u64);
                rs.active_jobs = rs.active_jobs + 1;
                rs.hash = rs.hash ^ (rs.active_jobs as u64);
            },
            Action::Finished { id, owner, was_submitted, result } => {
                let stored = StoredResult { result: clone_result(result), owner: *owner, created: clock };
                let ghost sv = stored;
                record_result(rs, *id, *owner, *was_submitted, stored);
                proof {
                    assert forall|st: StoredResult| st == sv implies stored_finished(st, *result, *owner, clock) by {}
                }
            },
            Action::Rejected { id, owner, was_submitted } => {
                let stored = StoredResult {
                    result: Err(ExecError::Internal(String::from_str("Rejected"))),
                    owner: *owner,
                    created: clock,
                };
                let ghost sv = stored;
                record_result(rs, *id, *owner, *was_submitted, stored);
                proof {
                    assert forall|st: StoredResult| st == sv implies stored_rejected(st, *owner, clock) by {}
                }
            },
            _ => {},
        }
    }
}

/// Advances the logical clock.
pub struct TimeReducer;

impl TimeReducer {
    pub fn handles(&self) -> (r: Vec<ActionKind>)
        ensures
            r@ == seq![ActionKind::AdvanceTime],
    {
        vec![ActionKind::AdvanceTime]
    }

    pub fn apply(&self, state: &mut ExecutionState, action: &Action, effects: &mut Vec<Effect>)
        requires
            action matches Action::AdvanceTime { delta } ==> old(state).clock + *delta <= u64::MAX,
        ensures
            final(state).clock == match *action {
                Action::AdvanceTime { delta } => (old(state).clock + delta) as u64,
                _ => old(state).clock,
            },
            final(state).core == old(state).core,
            final(state).timeout == old(state).timeout,
            final(state).result == old(state).result,
            final(state).metrics == old(state).metrics,
            final(state).hash == old(state).hash,
            final(effects)@ == old(effects)@,
    {
        if let Action::AdvanceTime { delta } = action {
            state.clock = state.clock + *delta;
        }
    }
}

} // verus!
