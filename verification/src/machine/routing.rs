//! The reducers as one closed family, with what each needs and what each
//! guarantees, and the table that routes each action kind to its reducers.

use vstd::prelude::*;
use crate::machine::effect_reducers::{
    addon_effect_count, addon_effect_ok, io_effect, log_effect, AddonReducer, IoReducer, LogReducer,
};
use crate::machine::core_state::{lemma_no_move, CoreState};
use crate::machine::execution::{id_handle, ExecutionState};
use crate::machine::job_table::{job_at, jobs_view};
use crate::machine::reducer::{
    core_wf, effects_alike, io_index_after, job_effects, jobs_after, only_core_changed, process_index_after,
    runtime_after, submit_result, JobReducer,
};
use crate::machine::store_reducers::{
    admitted_ok, record_ok, stored_finished, stored_rejected, timeouts_after, ResultReducer, TimeReducer,
    TimeoutReducer,
};
use crate::machine::state::StoredResult;
use crate::machine::types::{kind_index_spec, Action, ActionKind, Effect, IoHandle, ProcessHandle};

verus! {

broadcast use crate::machine::core_state::lemma_moved_is_same_drift;

/// One of the reducers the core runs.
pub enum ReducerKind {
    Time(TimeReducer),
    Result(ResultReducer),
    Io(IoReducer),
    Job(JobReducer),
    Timeout(TimeoutReducer),
    Log(LogReducer),
    Addon(AddonReducer),
}

/// The action kinds a reducer handles, in its own order.
pub open spec fn reducer_handles(r: ReducerKind) -> Seq<ActionKind> {
    match r {
        ReducerKind::Time(_) => seq![ActionKind::AdvanceTime],
        ReducerKind::Result(_) => seq![ActionKind::Admitted, ActionKind::Finished, ActionKind::Rejected],
        ReducerKind::Io(_) => seq![ActionKind::RegisterInterest, ActionKind::RemoveInterest, ActionKind::PerformIo],
        ReducerKind::Job(_) => seq![
            ActionKind::Submit,
            ActionKind::SetLifecycle,
            ActionKind::Finished,
            ActionKind::Rejected,
            ActionKind::CleanupJob,
            ActionKind::TimeoutReached,
            ActionKind::AssignProcess,
            ActionKind::StartProcess,
            ActionKind::PollProcess,
            ActionKind::SignalProcess,
            ActionKind::HandleProcessFailure,
            ActionKind::SetJobIoState,
            ActionKind::AssignIo,
            ActionKind::HandleIoFailure,
        ],
        ReducerKind::Timeout(_) => seq![ActionKind::TrackTimeout, ActionKind::UntrackTimeout, ActionKind::UpdateTimeoutState],
        ReducerKind::Log(_) => seq![ActionKind::EmitLog],
        ReducerKind::Addon(_) => seq![
            ActionKind::AddonTask,
            ActionKind::AddonEvent,
            ActionKind::SystemRequest,
            ActionKind::HandleAddonFailure,
            ActionKind::HandleSystemFailure,
        ],
    }
}

/// What a reducer needs of the state before it applies `a`.
pub open spec fn reducer_pre(r: ReducerKind, s: ExecutionState, a: Action) -> bool {
    match r {
        ReducerKind::Job(_) => core_wf(s.core) && (a is Submit ==> s.core.jobs.slots@.len() < u32::MAX),
        ReducerKind::Time(_) => a matches Action::AdvanceTime { delta } ==> s.clock + delta <= u64::MAX,
        ReducerKind::Result(_) => a is Admitted ==> s.result.active_jobs < usize::MAX,
        _ => true,
    }
}

/// What a reducer guarantees of the state and the effects after applying `a`.
pub open spec fn reducer_post(
    r: ReducerKind,
    s0: ExecutionState,
    s1: ExecutionState,
    e0: Seq<Effect>,
    e1: Seq<Effect>,
    a: Action,
) -> bool {
    match r {
        ReducerKind::Job(_) => {
            &&& core_wf(s1.core)
            &&& (s0.core.hash_consistent() ==> s1.core.hash_consistent())
            &&& s1.core.hash_moved_with(&s0.core)
            &&& only_core_changed(s0, s1)
            &&& effects_alike(e1, e0 + job_effects(s0.core, a))
            &&& match a {
                Action::Submit { id, owner, job } => submit_result(s0.core, s1.core, id, owner, job.command@),
                _ => {
                    &&& (!(a is CleanupJob) ==> s1.core.job_id_map == s0.core.job_id_map)
                    &&& jobs_view(s1.core) == jobs_after(s0.core, a)
                    &&& s1.core.process_index@ == process_index_after(s0.core, a)
                    &&& s1.core.io_index@ == io_index_after(s0.core, a)
                    &&& s1.core.runtime@ == runtime_after(s0.core, a)
                },
            }
        },
        ReducerKind::Time(_) => {
            &&& s1.clock == match a {
                Action::AdvanceTime { delta } => (s0.clock + delta) as u64,
                _ => s0.clock,
            }
            &&& s1.core == s0.core
            &&& s1.timeout == s0.timeout
            &&& s1.result == s0.result
            &&& s1.metrics == s0.metrics
            &&& s1.hash == s0.hash
            &&& e1 == e0
        },
        ReducerKind::Result(_) => {
            &&& match a {
                Action::Admitted { .. } => admitted_ok(s0.result, s1.result),
                Action::Finished { id, owner, was_submitted, result } => record_ok(
                    s0.result,
                    s1.result,
                    id,
                    owner,
                    was_submitted,
                    |st: StoredResult| stored_finished(st, result, owner, s0.clock),
                ),
                Action::Rejected { id, owner, was_submitted } => record_ok(
                    s0.result,
                    s1.result,
                    id,
                    owner,
                    was_submitted,
                    |st: StoredResult| stored_rejected(st, owner, s0.clock),
                ),
                _ => s1.result == s0.result,
            }
            &&& s1.core == s0.core
            &&& s1.timeout == s0.timeout
            &&& s1.metrics == s0.metrics
            &&& s1.clock == s0.clock
            &&& s1.hash == s0.hash
            &&& e1 == e0
        },
        ReducerKind::Timeout(_) => {
            &&& (s1.timeout.timeouts@, s1.timeout.hash) == timeouts_after(s0.timeout, a)
            &&& s1.core == s0.core
            &&& s1.result == s0.result
            &&& s1.metrics == s0.metrics
            &&& s1.clock == s0.clock
            &&& s1.hash == s0.hash
            &&& e1 == e0
        },
        ReducerKind::Io(_) => s1 == s0 && e1 == e0 + io_effect(a),
        ReducerKind::Log(_) => s1 == s0 && e1 == e0 + log_effect(a),
        ReducerKind::Addon(_) => {
            &&& s1 == s0
            &&& e1.len() == e0.len() + addon_effect_count(a)
            &&& e1.take(e0.len() as int) == e0
            &&& (addon_effect_count(a) == 1 ==> addon_effect_ok(e1.last(), a))
        },
    }
}

impl ReducerKind {
    pub fn handles(&self) -> (r: Vec<ActionKind>)
        ensures
            r@ == reducer_handles(*self),
    {
        match self {
            ReducerKind::Time(x) => x.handles(),
            ReducerKind::Result(x) => x.handles(),
            ReducerKind::Io(x) => x.handles(),
            ReducerKind::Job(x) => x.handles(),
            ReducerKind::Timeout(x) => x.handles(),
            ReducerKind::Log(x) => x.handles(),
            ReducerKind::Addon(x) => x.handles(),
        }
    }

    pub fn apply(&self, state: &mut ExecutionState, action: &Action, effects: &mut Vec<Effect>)
        requires
            reducer_pre(*self, *old(state), *action),
        ensures
            reducer_post(*self, *old(state), *final(state), old(effects)@, final(effects)@, *action),
    {
        match self {
            ReducerKind::Time(x) => x.apply(state, action, effects),
            ReducerKind::Result(x) => x.apply(state, action, effects),
            ReducerKind::Io(x) => x.apply(state, action, effects),
            ReducerKind::Job(x) => x.apply(state, action, effects),
            ReducerKind::Timeout(x) => x.apply(state, action, effects),
            ReducerKind::Log(x) => x.apply(state, action, effects),
            ReducerKind::Addon(x) => x.apply(state, action, effects),
        }
    }
}

/// The reducers in the order the core runs them.
pub open spec fn standard_reducers(rs: Seq<ReducerKind>) -> bool {
    &&& rs.len() == 7
    &&& rs[0] is Time
    &&& rs[1] is Result
    &&& rs[2] is Io
    &&& rs[3] is Job
    &&& rs[4] is Timeout
    &&& rs[5] is Log
    &&& rs[6] is Addon
}

/// How often kind index `k` occurs in `hs`.
pub open spec fn occurrences(hs: Seq<ActionKind>, k: nat) -> nat
    decreases hs.len(),
{
    if hs.len() == 0 {
        0
    } else {
        occurrences(hs.drop_last(), k) + if kind_index_spec(hs.last()) == k { 1nat } else { 0nat }
    }
}

/// The reducer positions that handle kind index `k`, in reducer order (a
/// position appears once per time its reducer lists the kind).
pub open spec fn routes(rs: Seq<ReducerKind>, k: nat) -> Seq<usize>
    decreases rs.len(),
{
    if rs.len() == 0 {
        seq![]
    } else {
        routes(rs.drop_last(), k) + Seq::new(
            occurrences(reducer_handles(rs.last()), k),
            |j: int| (rs.len() - 1) as usize,
        )
    }
}

} // verus!

verus! {

/// The reducers routed for kind index `k`, in order.
pub open spec fn route_reducers(rs: Seq<ReducerKind>, k: nat) -> Seq<ReducerKind> {
    routes(rs, k).map_values(|i: usize| rs[i as int])
}

/// `ss` and `es` are the states and effect lists before and after each of
/// `rs`, every reducer meeting its guarantee on its step.
pub open spec fn chain_trace(rs: Seq<ReducerKind>, ss: Seq<ExecutionState>, es: Seq<Seq<Effect>>, a: Action) -> bool {
    &&& ss.len() == rs.len() + 1
    &&& es.len() == rs.len() + 1
    &&& forall|i: int| 0 <= i < rs.len() ==> #[trigger] reducer_post(rs[i], ss[i], ss[i + 1], es[i], es[i + 1], a)
}

/// Running `rs` in order takes the state from `s0` to `s1` and the effects
/// from `e0` to `e1`, each reducer meeting its guarantee on the way.
pub open spec fn chain_ok(
    rs: Seq<ReducerKind>,
    s0: ExecutionState,
    s1: ExecutionState,
    e0: Seq<Effect>,
    e1: Seq<Effect>,
    a: Action,
) -> bool {
    exists|ss: Seq<ExecutionState>, es: Seq<Seq<Effect>>| #[trigger]
        chain_trace(rs, ss, es, a) && ss[0] == s0 && ss[rs.len() as int] == s1 && es[0] == e0 && es[rs.len() as int] == e1
}

proof fn lemma_trace_keeps_core(rs: Seq<ReducerKind>, ss: Seq<ExecutionState>, es: Seq<Seq<Effect>>, a: Action, i: int)
    requires
        chain_trace(rs, ss, es, a),
        0 <= i <= rs.len(),
        core_wf(ss[0].core),
    ensures
        ss[0].core.hash_consistent() ==> ss[i].core.hash_consistent(),
        core_wf(ss[i].core),
        ss[i].core.hash_moved_with(&ss[0].core),
    decreases i,
{
    if i > 0 {
        lemma_trace_keeps_core(rs, ss, es, a, i - 1);
        let j = i - 1;
        assert(reducer_post(rs[j], ss[j], ss[j + 1], es[j], es[j + 1], a));
        assert(j + 1 == i);
    } else {
        lemma_no_move(ss[0].core.hash, ss[0].core.full_hash());
    }
}

/// Whatever reducers run on an action, a well-formed core store stays
/// well-formed, and its kept hash moves exactly with the recomputed one.
pub proof fn lemma_chain_keeps_core(
    rs: Seq<ReducerKind>,
    s0: ExecutionState,
    s1: ExecutionState,
    e0: Seq<Effect>,
    e1: Seq<Effect>,
    a: Action,
)
    requires
        chain_ok(rs, s0, s1, e0, e1, a),
        core_wf(s0.core),
    ensures
        core_wf(s1.core),
        s1.core.hash_moved_with(&s0.core),
{
    let (ss, es) = choose|ss: Seq<ExecutionState>, es: Seq<Seq<Effect>>|
        #[trigger] chain_trace(rs, ss, es, a) && ss[0] == s0 && ss[rs.len() as int] == s1 && es[0] == e0
            && es[rs.len() as int] == e1;
    lemma_trace_keeps_core(rs, ss, es, a, rs.len() as int);
}

/// The reducers never let the core's incremental hash drift from a full
/// recomputation, nor break its indexes: whatever reducers run on an action,
/// a consistent, well-formed core store stays so.
pub proof fn law_reducers_keep_core_consistent(
    rs: Seq<ReducerKind>,
    s0: ExecutionState,
    s1: ExecutionState,
    e0: Seq<Effect>,
    e1: Seq<Effect>,
    a: Action,
)
    requires
        chain_ok(rs, s0, s1, e0, e1, a),
        s0.core.hash_consistent(),
        core_wf(s0.core),
    ensures
        s1.core.hash_consistent(),
        core_wf(s1.core),
{
    let (ss, es) = choose|ss: Seq<ExecutionState>, es: Seq<Seq<Effect>>|
        #[trigger] chain_trace(rs, ss, es, a) && ss[0] == s0 && ss[rs.len() as int] == s1 && es[0] == e0
            && es[rs.len() as int] == e1;
    lemma_trace_keeps_core(rs, ss, es, a, rs.len() as int);
}

/// A process given to a job can be found again: after `AssignProcess` on a
/// registered job that has its runtime record, the job keeps its handle and
/// holds the process, its runtime record holds it, and the process index
/// leads from the process back to the job.
pub proof fn law_assigned_process_leads_back(
    r: JobReducer,
    s0: ExecutionState,
    s1: ExecutionState,
    e0: Seq<Effect>,
    e1: Seq<Effect>,
    id: u64,
    p: ProcessHandle,
)
    requires
        core_wf(s0.core),
        reducer_post(ReducerKind::Job(r), s0, s1, e0, e1, Action::AssignProcess { id, process: p }),
        job_at(s0.core, id) is Some,
        s0.core.spec_runtime(s0.core.job_id_map@[id]) is Some,
    ensures
        id_handle(s1.core, id) == id_handle(s0.core, id),
        job_at(s1.core, id) matches Some(j) && j.process == Some(p),
        s1.core.spec_runtime(s1.core.job_id_map@[id]) matches Some(rt) && rt.process == Some(p),
        CoreState::index_lookup(s1.core.process_index@, p.index) == Some(s1.core.job_id_map@[id]),
{
    let a = Action::AssignProcess { id, process: p };
    assert(jobs_view(s1.core).contains_key(id));
    assert(job_at(s1.core, id) == Some(jobs_view(s1.core)[id]));
}

/// An IO handle given to a job can be found again, as a process can (see
/// `law_assigned_process_leads_back`).
pub proof fn law_assigned_io_leads_back(
    r: JobReducer,
    s0: ExecutionState,
    s1: ExecutionState,
    e0: Seq<Effect>,
    e1: Seq<Effect>,
    id: u64,
    io: IoHandle,
)
    requires
        core_wf(s0.core),
        reducer_post(ReducerKind::Job(r), s0, s1, e0, e1, Action::AssignIo { id, io }),
        job_at(s0.core, id) is Some,
        s0.core.spec_runtime(s0.core.job_id_map@[id]) is Some,
    ensures
        id_handle(s1.core, id) == id_handle(s0.core, id),
        job_at(s1.core, id) matches Some(j) && j.io == Some(io),
        s1.core.spec_runtime(s1.core.job_id_map@[id]) matches Some(rt) && rt.io == Some(io),
        CoreState::index_lookup(s1.core.io_index@, io.index) == Some(s1.core.job_id_map@[id]),
{
    assert(jobs_view(s1.core).contains_key(id));
    assert(job_at(s1.core, id) == Some(jobs_view(s1.core)[id]));
}

/// A cleaned-up job is gone: after `CleanupJob` the id no longer names a
/// job, and every other job is left as it was.
pub proof fn law_cleanup_forgets_job(
    r: JobReducer,
    s0: ExecutionState,
    s1: ExecutionState,
    e0: Seq<Effect>,
    e1: Seq<Effect>,
    id: u64,
)
    requires
        reducer_post(ReducerKind::Job(r), s0, s1, e0, e1, Action::CleanupJob { id }),
    ensures
        job_at(s1.core, id) is None,
        forall|k: u64| k != id ==> #[trigger] job_at(s1.core, k) == job_at(s0.core, k),
{
    assert(!jobs_view(s1.core).contains_key(id));
    assert forall|k: u64| k != id implies #[trigger] job_at(s1.core, k) == job_at(s0.core, k) by {
        if job_at(s0.core, k) is Some {
            assert(jobs_view(s0.core).contains_key(k));
            assert(jobs_view(s1.core).contains_key(k));
            assert(jobs_view(s1.core)[k] == jobs_view(s0.core)[k]);
            assert(job_at(s1.core, k) == Some(jobs_view(s1.core)[k]));
            assert(job_at(s0.core, k) == Some(jobs_view(s0.core)[k]));
        } else {
            assert(!jobs_view(s0.core).contains_key(k));
            assert(!jobs_view(s1.core).contains_key(k));
        }
    }
}

/// What every reducer needs before any of them runs on `a`.
pub open spec fn step_pre(s: ExecutionState, a: Action) -> bool {
    &&& core_wf(s.core)
    &&& a is Submit ==> s.core.jobs.slots@.len() < u32::MAX
    &&& a matches Action::AdvanceTime { delta } ==> s.clock + delta <= u64::MAX
    &&& a is Admitted ==> s.result.active_jobs < usize::MAX
}

pub proof fn lemma_step_pre(r: ReducerKind, s: ExecutionState, a: Action)
    requires
        step_pre(s, a),
    ensures
        reducer_pre(r, s, a),
{
}

/// One reducer's guarantee keeps what a reducer of another variant needs.
pub proof fn lemma_pre_kept(
    r1: ReducerKind,
    r2: ReducerKind,
    s0: ExecutionState,
    s1: ExecutionState,
    e0: Seq<Effect>,
    e1: Seq<Effect>,
    a: Action,
)
    requires
        reducer_post(r1, s0, s1, e0, e1, a),
        reducer_pre(r2, s0, a),
        reducer_pre(r1, s0, a),
        position_of(r1) != position_of(r2),
    ensures
        reducer_pre(r2, s1, a),
{
}

/// A reducer variant's place in the standard order.
pub open spec fn position_of(r: ReducerKind) -> int {
    match r {
        ReducerKind::Time(_) => 0,
        ReducerKind::Result(_) => 1,
        ReducerKind::Io(_) => 2,
        ReducerKind::Job(_) => 3,
        ReducerKind::Timeout(_) => 4,
        ReducerKind::Log(_) => 5,
        ReducerKind::Addon(_) => 6,
    }
}

/// No standard reducer lists a kind twice.
pub proof fn lemma_handles_distinct(r: ReducerKind, k: nat)
    ensures
        occurrences(reducer_handles(r), k) <= 1,
{
    reveal_with_fuel(occurrences, 15);
}

/// Routes list each reducer position at most once, in increasing order.
pub proof fn lemma_routes_increasing(rs: Seq<ReducerKind>, k: nat)
    requires
        rs.len() <= usize::MAX,
    ensures
        forall|i: int, j: int| 0 <= i < j < routes(rs, k).len() ==> routes(rs, k)[i] < routes(rs, k)[j],
        forall|i: int| 0 <= i < routes(rs, k).len() ==> routes(rs, k)[i] < rs.len(),
    decreases rs.len(),
{
    if rs.len() > 0 {
        lemma_routes_increasing(rs.drop_last(), k);
        lemma_handles_distinct(rs.last(), k);
        let r0 = routes(rs.drop_last(), k);
        let n = occurrences(reducer_handles(rs.last()), k);
        let tail = Seq::new(n, |j: int| (rs.len() - 1) as usize);
        let all = routes(rs, k);
        assert(all == r0 + tail);
        assert(all.len() == r0.len() + n);
        assert forall|i: int, j: int| 0 <= i < j < all.len() implies all[i] < all[j] by {
            if j < r0.len() {
                assert(all[i] == r0[i] && all[j] == r0[j]);
            } else {
                assert(i < r0.len());
                assert(all[i] == r0[i]);
                assert(all[j] == (rs.len() - 1) as usize);
            }
        }
        assert forall|i: int| 0 <= i < all.len() implies all[i] < rs.len() by {
            if i < r0.len() {
                assert(all[i] == r0[i]);
            }
        }
    }
}

} // verus!
