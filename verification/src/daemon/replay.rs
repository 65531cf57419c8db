//! Replaying a recorded run: the recorded time, events and intents are fed
//! through the same machinery as the live daemon, tick by tick, and each
//! recorded tick check is compared with what the replay computes.

use vstd::prelude::*;
use crate::daemon::tick::{
    clock_room, collected_answer_within, queue_answers_within, replies_within, sat_add, DaemonTick, SourceCounts, Tally,
    TickOutput,
};
use crate::high_level::capability::CapabilityRegistry;
use crate::high_level::identity::Principal;
use crate::machine::engine::Core;
use crate::machine::execution::ExecutionState;
use crate::machine::reducer::core_wf;
use crate::machine::scheduler::Scheduler;
use crate::machine::types::{expand_intent, expand_intent_spec, Action, ActionMeta, Event, Intent};
use crate::machine::policy::clock_fits;
use crate::TICK_MS;

verus! {

broadcast use crate::machine::core_state::lemma_moved_is_same_drift;

/// Actions a whole replay may resolve.
pub const REPLAY_BUDGET: usize = 10000;

/// What was recorded at the end of a tick.
#[derive(Debug, Clone, Copy, PartialEq, Eq, Structural)]
pub struct TickStats {
    pub hash: u64,
    pub actions_processed: u64,
    pub dropped_actions: u64,
}

/// One entry of a recording.
pub enum ReplayRecord {
    /// Milliseconds of time that passed.
    Time(u64),
    Event(Event),
    Intent(Principal, Intent),
    /// An intent recorded without its principal: the system's.
    LegacyIntent(Intent),
    /// End of a tick, with the state hash it left.
    TickHash(u64),
    /// End of a tick, with its hash and action counts.
    TickEnd(TickStats),
}

#[derive(Debug, Clone, Copy, PartialEq, Eq, Structural)]
pub enum DivergenceKind {
    Hash,
    Processed,
    Dropped,
}

/// A recorded tick check that the replay did not meet.
#[derive(Debug, Clone, Copy, PartialEq, Eq, Structural)]
pub struct ReplayDivergence {
    /// Which check, counted from 0.
    pub tick: u64,
    pub kind: DivergenceKind,
    pub expected: u64,
    pub actual: u64,
}

/// The tick checks in a recording, in order; a bare hash counts no actions.
pub open spec fn recorded_checks(rs: Seq<ReplayRecord>) -> Seq<TickStats>
    decreases rs.len(),
{
    if rs.len() == 0 {
        Seq::empty()
    } else {
        let rest = recorded_checks(rs.drop_last());
        match rs.last() {
            ReplayRecord::TickHash(h) => rest.push(TickStats { hash: h, actions_processed: 0, dropped_actions: 0 }),
            ReplayRecord::TickEnd(st) => rest.push(st),
            _ => rest,
        }
    }
}

/// `d` reports a real mismatch with check `d.tick` of `checks`: the hash, or
/// one of the action counts where the check recorded some.
pub open spec fn divergence_recorded(checks: Seq<TickStats>, d: ReplayDivergence) -> bool {
    &&& d.tick < checks.len()
    &&& d.expected != d.actual
    &&& match d.kind {
        DivergenceKind::Hash => d.expected == checks[d.tick as int].hash,
        DivergenceKind::Processed => d.expected == checks[d.tick as int].actions_processed && (
        checks[d.tick as int].actions_processed > 0 || checks[d.tick as int].dropped_actions > 0),
        DivergenceKind::Dropped => d.expected == checks[d.tick as int].dropped_actions && (
        checks[d.tick as int].actions_processed > 0 || checks[d.tick as int].dropped_actions > 0),
    }
}

/// The checks of a prefix of a recording are a prefix of its checks.
pub proof fn lemma_checks_prefix(rs: Seq<ReplayRecord>, j: int)
    requires
        0 <= j <= rs.len(),
    ensures
        recorded_checks(rs.take(j)).len() <= recorded_checks(rs).len(),
        forall|i: int|
            0 <= i < recorded_checks(rs.take(j)).len() ==> #[trigger] recorded_checks(rs.take(j))[i]
                == recorded_checks(rs)[i],
    decreases rs.len() - j,
{
    if j == rs.len() {
        assert(rs.take(j) =~= rs);
    } else {
        lemma_checks_prefix(rs, j + 1);
        assert(rs.take(j + 1).drop_last() =~= rs.take(j));
        let a = recorded_checks(rs.take(j));
        let b = recorded_checks(rs.take(j + 1));
        assert(a.len() <= b.len());
        assert forall|i: int| 0 <= i < a.len() implies #[trigger] a[i] == recorded_checks(rs)[i] by {
            assert(a[i] == b[i]);
        }
    }
}

/// A recording has no more checks than entries.
pub proof fn lemma_checks_len(rs: Seq<ReplayRecord>)
    ensures
        recorded_checks(rs).len() <= rs.len(),
    decreases rs.len(),
{
    if rs.len() > 0 {
        lemma_checks_len(rs.drop_last());
    }
}

/// The intent with a submitted job's id replaced by its cause.
fn filed_under(intent: Intent, cause: u64) -> (r: Intent)
    ensures
        r == match intent {
            Intent::Submit { owner, job, .. } => Intent::Submit { id: cause, owner, job },
            other => other,
        },
{
    match intent {
        Intent::Submit { owner, job, .. } => Intent::Submit { id: cause, owner, job },
        other => other,
    }
}

/// How many actions a recorded intent expands to: a submission two, any
/// other intent one.
pub open spec fn intent_actions(i: Intent) -> nat {
    if i is Submit {
        2
    } else {
        1
    }
}

/// How many actions the intents of a recording expand to.
pub open spec fn recorded_actions(rs: Seq<ReplayRecord>) -> nat
    decreases rs.len(),
{
    if rs.len() == 0 {
        0
    } else {
        recorded_actions(rs.drop_last()) + match rs.last() {
            ReplayRecord::Intent(_, i) => intent_actions(i),
            ReplayRecord::LegacyIntent(i) => intent_actions(i),
            _ => 0,
        }
    }
}

/// A recorded check is met by a tick's stats: the hash always, the counts
/// where the check recorded some.
pub open spec fn check_met(check: TickStats, actual: TickStats) -> bool {
    &&& check.hash == actual.hash
    &&& (check.actions_processed > 0 || check.dropped_actions > 0) ==> (check.actions_processed
        == actual.actions_processed && check.dropped_actions == actual.dropped_actions)
}

/// The state a replay runs on, carried from one part of a recording to the
/// next.
pub struct ReplayRun {
    pub state: ExecutionState,
    pub sched: Scheduler,
    pub ids: DaemonTick,
    /// Served and dropped actions, over the whole replay.
    pub acc: TickOutput,
    /// Actions handed to the scheduler.
    pub tally: Tally,
    /// Actions of intents recorded when the clock left no room for their
    /// deadlines, which were therefore not expanded.
    pub skipped: u64,
    /// The stats of each checked tick, in order.
    pub checked: Vec<TickStats>,
}

impl ReplayRun {
    /// The replay's invariants: a well-formed core, and a scheduler whose
    /// budget, shared by the whole replay, has served exactly the actions
    /// counted.
    pub open spec fn wf(&self) -> bool {
        &&& core_wf(self.state.core)
        &&& self.sched.wf()
        &&& self.sched.step_budget == REPLAY_BUDGET
        &&& self.sched.steps_executed <= self.sched.step_budget
        &&& self.acc.processed + self.acc.dropped == self.sched.steps_executed
        &&& queue_answers_within(self.sched, Set::empty())
        &&& replies_within(self.acc.replies@, Set::empty())
    }

    pub fn new() -> (r: Self)
        ensures
            r.wf(),
            r.state.hash == 0,
            r.state.clock == 0,
            r.tally.handled == 0,
            r.skipped == 0,
            r.checked@.len() == 0,
    {
        ReplayRun {
            state: ExecutionState::new(),
            sched: Scheduler::new(REPLAY_BUDGET),
            ids: DaemonTick::new(),
            acc: TickOutput {
                effects: Vec::new(),
                replies: Vec::new(),
                status_requests: Vec::new(),
                processed: 0,
                dropped: 0,
                handled: 0,
                unqueued: 0,
                left_queued: 0,
                rounds_exhausted: false,
                verification: None,
                carried_events: Vec::new(),
            },
            tally: Tally { handled: 0, unqueued: 0 },
            skipped: 0,
            checked: Vec::new(),
        }
    }

    /// Files a recorded intent under a fresh cause and collects its
    /// actions, or counts them as skipped when the clock leaves no room.
    fn file_intent(&mut self, p: Principal, intent: Intent, collected: &mut Vec<(Action, ActionMeta)>)
        ensures
            final(self).state == old(self).state,
            final(self).sched == old(self).sched,
            final(self).acc == old(self).acc,
            final(self).tally == old(self).tally,
            final(self).checked == old(self).checked,
            clock_fits(old(self).state.clock) ==> final(self).skipped == old(self).skipped
                && final(collected)@.len() == old(collected)@.len() + intent_actions(intent),
            !clock_fits(old(self).state.clock) ==> final(self).skipped == sat_add(old(self).skipped, intent_actions(intent))
                && final(collected)@ == old(collected)@,
            collected_answer_within(old(collected)@, Set::empty()) ==> collected_answer_within(
                final(collected)@,
                Set::empty(),
            ),
    {
        let cause = self.ids.fresh();
        self.ids.trace.insert(cause, None);
        let meta = ActionMeta { id: cause, parent: None, source: p, reply_to: None };
        let submit = match &intent {
            Intent::Submit { .. } => true,
            _ => false,
        };
        if clock_room(&self.state) {
            let mut acts = expand_intent(filed_under(intent, cause.0), self.state.clock);
            let ghost n0 = acts@.len();
            let ghost c0 = collected@.len();
            assert(n0 == intent_actions(intent));
            let ghost ok0 = collected_answer_within(collected@, Set::empty());
            while acts.len() > 0
                invariant
                    collected@.len() + acts@.len() == c0 + n0,
                    ok0 ==> collected_answer_within(collected@, Set::empty()),
                    meta.reply_to is None,
                decreases acts@.len(),
            {
                let a = acts.remove(0);
                let ghost cb = collected@;
                collected.push((a, meta));
                proof {
                    if ok0 {
                        assert forall|j: int| 0 <= j < collected@.len() implies crate::daemon::tick::answers_within(
                            Set::empty(),
                            #[trigger] collected@[j].1.reply_to,
                        ) by {
                            if j < cb.len() {
                                assert(collected@[j] == cb[j]);
                            }
                        }
                    }
                }
            }
        } else {
            let n: u64 = if submit {
                2
            } else {
                1
            };
            self.skipped = if self.skipped <= u64::MAX - n {
                self.skipped + n
            } else {
                u64::MAX
            };
        }
    }

    /// Replays a recording from the current state and returns the state
    /// hash it ends with, or the first recorded tick check that the replay
    /// does not meet. Each tick's records are read up to its check; its time
    /// becomes `TimeAdvanced` events, its intents are filed under fresh
    /// causes and queued, and the actions are resolved as the live daemon
    /// resolves them, within a budget shared by the whole replay and each
    /// principal's share of a tick. Once the clock leaves no room for a
    /// deadline, intents are no longer expanded and events no longer
    /// dispatched.
    pub fn replay(&mut self, core: &Core, records: Vec<ReplayRecord>) -> (r: Result<u64, ReplayDivergence>)
        requires
            core.wf(),
            old(self).wf(),
        ensures
            final(self).wf(),
            final(self).state.core.hash_moved_with(&old(self).state.core),
            r matches Ok(h) ==> h == final(self).state.hash,
            r matches Err(d) ==> divergence_recorded(recorded_checks(records@), d),
            recorded_checks(records@).len() == 0 ==> r is Ok,
            r is Ok ==> final(self).checked@.len() == old(self).checked@.len() + recorded_checks(records@).len(),
            r is Ok ==> forall|i: int|
                0 <= i < recorded_checks(records@).len() ==> check_met(
                    #[trigger] recorded_checks(records@)[i],
                    final(self).checked@[old(self).checked@.len() + i],
                ),
            r is Ok ==> (final(self).tally.handled == u64::MAX || final(self).skipped == u64::MAX
                || final(self).tally.handled + final(self).skipped >= old(self).tally.handled + old(self).skipped
                + recorded_actions(records@)),
    {
        let ghost rs = records@;
        let ghost pre = *self;
        let n = records.len();
        let mut rest = records;
        let mut k: usize = 0;
        let mut tick_idx: usize = 0;
        let caps = CapabilityRegistry::new();
        proof {
            crate::machine::core_state::lemma_no_move(self.state.core.hash, self.state.core.full_hash());
        }
        while rest.len() > 0
            invariant
                core.wf(),
                rs == records@,
                pre == *old(self),
                n == rs.len(),
                k <= n,
                rest@ == rs.subrange(k as int, n as int),
                tick_idx == recorded_checks(rs.take(k as int)).len(),
                self.wf(),
                self.state.core.hash_moved_with(&pre.state.core),
                self.checked@.len() == pre.checked@.len() + tick_idx,
                forall|i: int|
                    0 <= i < tick_idx ==> check_met(
                        #[trigger] recorded_checks(rs.take(k as int))[i],
                        self.checked@[pre.checked@.len() + i],
                    ),
                self.tally.handled == u64::MAX || self.skipped == u64::MAX || self.tally.handled + self.skipped
                    >= pre.tally.handled + pre.skipped + recorded_actions(rs.take(k as int)),
            decreases rest@.len(),
        {
            let mut events: Vec<Event> = Vec::new();
            let mut collected: Vec<(Action, ActionMeta)> = Vec::new();
            let mut expected: Option<TickStats> = None;
            let ghost k0 = k;
            let ghost t0 = self.tally.handled;
            let ghost sk0 = self.skipped;
            let ghost st0 = self.state;
            let ghost sc0 = self.sched;
            let ghost ch0 = self.checked;
            let ghost ta0 = self.tally;
            let ghost pre_p = self.acc.processed;
            let ghost ac0 = self.acc;
            let ghost pre_d = self.acc.dropped;
            let mut done = false;
            while rest.len() > 0 && !done
                invariant
                    done <==> expected is Some,
                    n == rs.len(),
                    k <= n,
                    k0 <= k,
                    k0 < n,
                    expected is Some ==> k0 < k,
                    rest@ == rs.subrange(k as int, n as int),
                    tick_idx == recorded_checks(rs.take(k0 as int)).len(),
                    expected is None ==> recorded_checks(rs.take(k as int)) == recorded_checks(rs.take(k0 as int)),
                    expected matches Some(st) ==> recorded_checks(rs.take(k as int)) == recorded_checks(
                        rs.take(k0 as int),
                    ).push(st),
                    self.state == st0,
                    self.sched == sc0,
                    self.acc.processed == pre_p,
                    self.acc.dropped == pre_d,
                    self.acc == ac0,
                    self.checked == ch0,
                    self.tally == ta0,
                    collected_answer_within(collected@, Set::empty()),
                    collected@.len() > 0 ==> clock_fits(self.state.clock),
                    self.skipped == u64::MAX || self.skipped + collected@.len() == sk0 + recorded_actions(rs.take(k as int))
                        - recorded_actions(rs.take(k0 as int)),
                    recorded_actions(rs.take(k0 as int)) <= recorded_actions(rs.take(k as int)),
                    self.skipped >= sk0,
                decreases rest@.len(),
            {
                let rec = rest.remove(0);
                proof {
                    assert(rs.take(k + 1).drop_last() =~= rs.take(k as int));
                    assert(rs.take(k + 1).last() == rec);
                }
                k = k + 1;
                proof {
                    assert(recorded_checks(rs.take(k as int)) == match rec {
                        ReplayRecord::TickHash(h) => recorded_checks(rs.take(k - 1)).push(
                            TickStats { hash: h, actions_processed: 0, dropped_actions: 0 },
                        ),
                        ReplayRecord::TickEnd(st) => recorded_checks(rs.take(k - 1)).push(st),
                        _ => recorded_checks(rs.take(k - 1)),
                    });
                    assert(recorded_actions(rs.take(k as int)) == recorded_actions(rs.take(k - 1)) + match rec {
                        ReplayRecord::Intent(_, i) => intent_actions(i),
                        ReplayRecord::LegacyIntent(i) => intent_actions(i),
                        _ => 0,
                    });
                }
                match rec {
                    ReplayRecord::Time(ms) => {
                        let ticks = ms / TICK_MS;
                        let mut i: u64 = 0;
                        while i < ticks
                            invariant
                                i <= ticks,
                            decreases ticks - i,
                        {
                            events.push(Event::TimeAdvanced(TICK_MS));
                            i = i + 1;
                        }
                    },
                    ReplayRecord::Event(e) => {
                        events.push(e);
                    },
                    ReplayRecord::LegacyIntent(intent) => {
                        self.file_intent(Principal::System, intent, &mut collected);
                    },
                    ReplayRecord::Intent(p, intent) => {
                        self.file_intent(p, intent, &mut collected);
                    },
                    ReplayRecord::TickHash(h) => {
                        expected = Some(TickStats { hash: h, actions_processed: 0, dropped_actions: 0 });
                        done = true;
                    },
                    ReplayRecord::TickEnd(st) => {
                        expected = Some(st);
                        done = true;
                    },
                }
            }
            let processed_before = self.acc.processed;
            let dropped_before = self.acc.dropped;
            let ghost c1 = collected@.len();
            if clock_room(&self.state) {
                self.ids.settle(
                    core,
                    &mut self.state,
                    &mut self.sched,
                    &caps,
                    false,
                    &mut events,
                    &mut collected,
                    &mut self.tally,
                    Ghost(Set::empty()),
                );
            }
            proof {
                assert(self.tally.handled == u64::MAX || self.tally.handled >= t0 + c1);
            }
            let ghost h1 = self.tally.handled;
            let ghost sk1 = self.skipped;
            let mut counts = SourceCounts::new();
            let mut rounds: u64 = 0;
            while rounds < crate::daemon::tick::SETTLE_ROUNDS
                invariant
                    core.wf(),
                    self.wf(),
                    self.tally.handled >= h1,
                    self.skipped == sk1,
                    self.checked == ch0,
                    collected_answer_within(collected@, Set::empty()),
                    self.acc.processed >= processed_before,
                    self.acc.dropped >= dropped_before,
                    self.state.core.hash_moved_with(&pre.state.core),
                    self.tally.handled >= t0,
                    rs == records@,
                    pre == *old(self),
                    n == rs.len(),
                    k <= n,
                    k0 < k || expected is None,
                    rest@ == rs.subrange(k as int, n as int),
                    tick_idx == recorded_checks(rs.take(k0 as int)).len(),
                    tick_idx == recorded_checks(rs.take(k0 as int)).len(),
                    expected is None ==> recorded_checks(rs.take(k as int)) == recorded_checks(rs.take(k0 as int)),
                    expected matches Some(st) ==> recorded_checks(rs.take(k as int)) == recorded_checks(
                        rs.take(k0 as int),
                    ).push(st),
                    forall|i: int|
                        0 <= i < tick_idx ==> check_met(
                            #[trigger] recorded_checks(rs.take(k0 as int))[i],
                            self.checked@[pre.checked@.len() + i],
                        ),
                    self.checked@.len() == pre.checked@.len() + tick_idx,
                    sk0 == u64::MAX || t0 == u64::MAX || t0 + sk0 >= pre.tally.handled + pre.skipped + recorded_actions(
                        rs.take(k0 as int),
                    ),
                    sk1 == u64::MAX || sk1 + c1 == sk0 + recorded_actions(rs.take(k as int)) - recorded_actions(
                        rs.take(k0 as int),
                    ),
                    sk1 >= sk0,
                    h1 == u64::MAX || h1 >= t0 + c1,
                    forall|q: Principal| #[trigger] crate::daemon::tick::source_count(counts.counts@, q)
                        <= crate::daemon::tick::MAX_PER_SOURCE,
                decreases crate::daemon::tick::SETTLE_ROUNDS - rounds,
            {
                self.ids.resolve_queued(
                    core,
                    &mut self.state,
                    &mut self.sched,
                    &mut counts,
                    &mut events,
                    &mut self.acc,
                    Ghost(Set::empty()),
                );
                if !clock_room(&self.state) {
                    break;
                }
                let progress = self.ids.settle(
                    core,
                    &mut self.state,
                    &mut self.sched,
                    &caps,
                    false,
                    &mut events,
                    &mut collected,
                    &mut self.tally,
                    Ghost(Set::empty()),
                );
                if !progress {
                    break;
                }
                rounds = rounds + 1;
            }
            if let Some(st) = expected {
                proof {
                    lemma_checks_prefix(rs, k as int);
                    lemma_checks_len(rs.take(k as int));
                    assert(recorded_checks(rs.take(k as int))[tick_idx as int] == st);
                    assert(recorded_checks(rs)[tick_idx as int] == st);
                }
                let processed = self.acc.processed - processed_before;
                let dropped = self.acc.dropped - dropped_before;
                let actual = TickStats { hash: self.state.hash, actions_processed: processed, dropped_actions: dropped };
                if self.state.hash != st.hash {
                    return Err(
                        ReplayDivergence { tick: tick_idx as u64, kind: DivergenceKind::Hash, expected: st.hash, actual: self.state.hash },
                    );
                }
                if st.actions_processed > 0 || st.dropped_actions > 0 {
                    if processed != st.actions_processed {
                        return Err(
                            ReplayDivergence {
                                tick: tick_idx as u64,
                                kind: DivergenceKind::Processed,
                                expected: st.actions_processed,
                                actual: processed,
                            },
                        );
                    }
                    if dropped != st.dropped_actions {
                        return Err(
                            ReplayDivergence {
                                tick: tick_idx as u64,
                                kind: DivergenceKind::Dropped,
                                expected: st.dropped_actions,
                                actual: dropped,
                            },
                        );
                    }
                }
                self.checked.push(actual);
                tick_idx = tick_idx + 1;
            }
        }
        proof {
            assert(rs.take(n as int) =~= rs);
        }
        Ok(self.state.hash)
    }
}

/// Replays a recording from a fresh state (see `ReplayRun::replay`).
pub fn replay(core: &Core, records: Vec<ReplayRecord>) -> (r: (Result<u64, ReplayDivergence>, ReplayRun))
    requires
        core.wf(),
    ensures
        r.1.wf(),
        r.0 matches Ok(h) ==> h == r.1.state.hash,
        r.0 matches Err(d) ==> divergence_recorded(recorded_checks(records@), d),
        recorded_checks(records@).len() == 0 ==> r.0 is Ok,
        r.0 is Ok ==> r.1.checked@.len() == recorded_checks(records@).len(),
        r.0 is Ok ==> forall|i: int|
            0 <= i < recorded_checks(records@).len() ==> check_met(#[trigger] recorded_checks(records@)[i], r.1.checked@[i]),
        r.0 is Ok ==> (r.1.tally.handled == u64::MAX || r.1.skipped == u64::MAX || r.1.tally.handled + r.1.skipped
            >= recorded_actions(records@)),
{
    let mut run = ReplayRun::new();
    let r = run.replay(core, records);
    (r, run)
}

} // verus!
