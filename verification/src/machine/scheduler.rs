//! The action scheduler: three priority lanes served round-robin with
//! quotas (critical 4, normal 2, background 1), a per-tick step budget,
//! a bound on queued actions per kind and overall, and eviction of the
//! oldest lower-priority action when the queue is full.

use vstd::prelude::*;
use crate::machine::execution::ExecutionState;
use crate::machine::types::{
    action_kind_spec, action_priority_spec, kind_index_spec, priority_rank, Event, Priority, RoutedAction,
};

verus! {

/// Actions served per tick by the daemon loop.
pub const MAX_ACTIONS_PER_TICK: usize = 2048;

/// Queued actions at most, over all lanes.
pub const MAX_QUEUE: usize = 4096;

/// Queued actions at most of any one kind.
pub const MAX_PER_ACTION_KIND: usize = 1000;

/// Slots in the per-kind count table.
pub const KIND_SLOTS: usize = 40;

pub struct Scheduler {
    pub critical_queue: std::collections::VecDeque<RoutedAction>,
    pub normal_queue: std::collections::VecDeque<RoutedAction>,
    pub background_queue: std::collections::VecDeque<RoutedAction>,
    pub total_len: usize,
    pub per_kind_counts: Vec<usize>,
    pub step_budget: usize,
    pub steps_executed: usize,
    pub rr_index: usize,
    pub rr_count: usize,
}

/// How many actions of kind index `k` a lane holds.
pub open spec fn kind_count(q: Seq<RoutedAction>, k: nat) -> nat
    decreases q.len(),
{
    if q.len() == 0 {
        0
    } else {
        kind_count(q.drop_last(), k) + if kind_index_spec(action_kind_spec(q.last().action)) == k { 1nat } else { 0nat }
    }
}

pub proof fn lemma_kind_count_push(q: Seq<RoutedAction>, x: RoutedAction, k: nat)
    ensures
        kind_count(q.push(x), k) == kind_count(q, k) + if kind_index_spec(action_kind_spec(x.action)) == k { 1nat } else { 0nat },
{
    assert(q.push(x).drop_last() =~= q);
}

pub proof fn lemma_kind_count_drop_first(q: Seq<RoutedAction>, k: nat)
    requires
        q.len() > 0,
    ensures
        kind_count(q, k) == kind_count(q.drop_first(), k) + if kind_index_spec(action_kind_spec(q[0].action)) == k { 1nat } else { 0nat },
    decreases q.len(),
{
    if q.len() > 1 {
        lemma_kind_count_drop_first(q.drop_last(), k);
        assert(q.drop_last().drop_first() =~= q.drop_first().drop_last());
        assert(q.drop_first().last() == q.last());
        assert(q.drop_last()[0] == q[0]);
        assert(kind_count(q, k) == kind_count(q.drop_last(), k) + if kind_index_spec(
            action_kind_spec(q.last().action),
        ) == k { 1nat } else { 0nat });
        assert(kind_count(q.drop_first(), k) == kind_count(q.drop_first().drop_last(), k) + if kind_index_spec(
            action_kind_spec(q.drop_first().last().action),
        ) == k { 1nat } else { 0nat });
    } else {
        assert(q.drop_last().len() == 0);
        assert(q.drop_first().len() == 0);
        assert(kind_count(q.drop_last(), k) == 0);
        assert(kind_count(q.drop_first(), k) == 0);
        assert(q.last() == q[0]);
    }
}

pub proof fn lemma_kind_count_le_len(q: Seq<RoutedAction>, k: nat)
    ensures
        kind_count(q, k) <= q.len(),
    decreases q.len(),
{
    if q.len() > 0 {
        lemma_kind_count_le_len(q.drop_last(), k);
    }
}

/// Each lane's quota of consecutive picks: critical 4, normal 2, background 1.
pub open spec fn lane_quota(i: int) -> int {
    if i == 0 { 4 } else if i == 1 { 2 } else { 1 }
}

/// The lane that serves a priority.
pub open spec fn lane_of(p: Priority) -> int {
    priority_rank(p) as int
}

impl Scheduler {
    /// The actions waiting in lane `i` (0 critical, 1 normal, 2 background), oldest first.
    pub open spec fn lane(&self, i: int) -> Seq<RoutedAction> {
        if i == 0 {
            self.critical_queue@
        } else if i == 1 {
            self.normal_queue@
        } else {
            self.background_queue@
        }
    }

    pub open spec fn budget(&self) -> usize {
        self.step_budget
    }

    pub open spec fn steps(&self) -> usize {
        self.steps_executed
    }

    /// The round-robin position: the lane being served and how many it has served in a row.
    pub open spec fn cursor(&self) -> (usize, usize) {
        (self.rr_index, self.rr_count)
    }

    /// The number of queued actions with kind index `k`.
    pub open spec fn count_of(&self, k: nat) -> nat {
        kind_count(self.lane(0), k) + kind_count(self.lane(1), k) + kind_count(self.lane(2), k)
    }

    /// Lanes hold actions of their own priority, the counts are exact, and
    /// the queue stays within its bound.
    pub open spec fn wf(&self) -> bool {
        &&& self.per_kind_counts@.len() == KIND_SLOTS
        &&& self.total_len == self.critical_queue@.len() + self.normal_queue@.len() + self.background_queue@.len()
        &&& self.total_len <= MAX_QUEUE
        &&& forall|k: int| 0 <= k < KIND_SLOTS ==> #[trigger] self.per_kind_counts@[k] == self.count_of(k as nat)
        &&& forall|k: int| 0 <= k < KIND_SLOTS ==> #[trigger] self.per_kind_counts@[k] <= MAX_PER_ACTION_KIND
        &&& forall|i: int| 0 <= i < self.critical_queue@.len() ==> action_priority_spec(#[trigger] self.critical_queue@[i].action) == Priority::Critical
        &&& forall|i: int| 0 <= i < self.normal_queue@.len() ==> action_priority_spec(#[trigger] self.normal_queue@[i].action) == Priority::Normal
        &&& forall|i: int| 0 <= i < self.background_queue@.len() ==> action_priority_spec(#[trigger] self.background_queue@[i].action) == Priority::Background
        &&& self.rr_index < 3
        &&& self.rr_count <= 4
    }

    pub fn new(step_budget: usize) -> (s: Self)
        ensures
            s.wf(),
            s.total_len == 0,
            forall|i: int| 0 <= i < 3 ==> s.lane(i).len() == 0,
            s.budget() == step_budget,
            s.steps() == 0,
            s.cursor() == (0usize, 0usize),
    {
        let mut counts: Vec<usize> = Vec::new();
        let mut i: usize = 0;
        while i < KIND_SLOTS
            invariant
                i <= KIND_SLOTS,
                counts@.len() == i,
                forall|k: int| 0 <= k < i ==> counts@[k] == 0,
            decreases KIND_SLOTS - i,
        {
            counts.push(0);
            i = i + 1;
        }
        Scheduler {
            critical_queue: std::collections::VecDeque::new(),
            normal_queue: std::collections::VecDeque::new(),
            background_queue: std::collections::VecDeque::new(),
            total_len: 0,
            per_kind_counts: counts,
            step_budget,
            steps_executed: 0,
            rr_index: 0,
            rr_count: 0,
        }
    }

    /// The lane an action of priority `p` evicts from when the queue is full:
    /// the oldest background action first, then normal, then critical, never
    /// one of higher priority than `p`.
    pub open spec fn evict_lane(&self, p: Priority) -> Option<int> {
        if self.total_len >= MAX_QUEUE {
            if self.background_queue@.len() > 0 && priority_rank(p) >= 2 {
                Some(2)
            } else if self.normal_queue@.len() > 0 && priority_rank(p) >= 1 {
                Some(1)
            } else if self.critical_queue@.len() > 0 {
                Some(0)
            } else {
                None
            }
        } else {
            None
        }
    }

    /// Whether an enqueue of `a` is refused: its kind is at its bound, or
    /// the queue is full and nothing may be evicted for it.
    pub open spec fn refuses(&self, a: RoutedAction) -> bool {
        ||| self.per_kind_counts@[kind_index_spec(action_kind_spec(a.action)) as int] >= MAX_PER_ACTION_KIND
        ||| (self.total_len >= MAX_QUEUE && self.evict_lane(action_priority_spec(a.action)) is None)
    }

    /// Lane `i` after `a` is accepted: its evicted head gone, `a` appended
    /// to the lane of its priority.
    pub open spec fn lane_after(&self, a: RoutedAction, i: int) -> Seq<RoutedAction> {
        let p = action_priority_spec(a.action);
        let l = if self.evict_lane(p) == Some(i) { self.lane(i).drop_first() } else { self.lane(i) };
        if i == lane_of(p) { l.push(a) } else { l }
    }

    fn pop_lane(&mut self, i: usize) -> (r: Option<RoutedAction>)
        requires
            i < 3,
        ensures
            match r {
                Some(x) => old(self).lane(i as int).len() > 0 && x == old(self).lane(i as int)[0]
                    && final(self).lane(i as int) == old(self).lane(i as int).drop_first(),
                None => old(self).lane(i as int).len() == 0 && final(self).lane(i as int) == old(self).lane(i as int),
            },
            forall|j: int| 0 <= j < 3 && j != i ==> #[trigger] final(self).lane(j) == old(self).lane(j),
            final(self).total_len == old(self).total_len,
            final(self).per_kind_counts == old(self).per_kind_counts,
            final(self).step_budget == old(self).step_budget,
            final(self).steps_executed == old(self).steps_executed,
            final(self).rr_index == old(self).rr_index,
            final(self).rr_count == old(self).rr_count,
    {
        let r = if i == 0 {
            self.critical_queue.pop_front()
        } else if i == 1 {
            self.normal_queue.pop_front()
        } else {
            self.background_queue.pop_front()
        };
        proof {
            if r is Some {
                assert(final(self).lane(i as int) =~= old(self).lane(i as int).drop_first());
            }
        }
        r
    }

    /// Takes the oldest action out of lane `i`, keeping the counts exact.
    fn take_front(&mut self, i: usize) -> (ev: RoutedAction)
        requires
            old(self).wf(),
            i < 3,
            old(self).lane(i as int).len() > 0,
        ensures
            ev == old(self).lane(i as int)[0],
            final(self).lane(i as int) == old(self).lane(i as int).drop_first(),
            forall|j: int| 0 <= j < 3 && j != i ==> #[trigger] final(self).lane(j) == old(self).lane(j),
            final(self).total_len == old(self).total_len - 1,
            final(self).wf(),
            forall|k: int| 0 <= k < KIND_SLOTS ==> #[trigger] final(self).per_kind_counts@[k] <= old(self).per_kind_counts@[k],
            final(self).step_budget == old(self).step_budget,
            final(self).steps_executed == old(self).steps_executed,
            final(self).rr_index == old(self).rr_index,
            final(self).rr_count == old(self).rr_count,
    {
        let ghost pre = *self;
        let ev = self.pop_lane(i).unwrap();
        let ghost after_pop = *self;
        let ev_kind = ev.action.kind();
        let ev_idx = ev_kind.index();
        proof {
            lemma_kind_count_drop_first(pre.lane(i as int), ev_idx as nat);
            assert(pre.per_kind_counts@[ev_idx as int] == pre.count_of(ev_idx as nat));
        }
        let c = self.per_kind_counts[ev_idx];
        self.per_kind_counts.set(ev_idx, c - 1);
        self.total_len = self.total_len - 1;
        proof {
            assert(self.critical_queue == after_pop.critical_queue);
            assert(self.normal_queue == after_pop.normal_queue);
            assert(self.background_queue == after_pop.background_queue);
            assert forall|j: int| 0 <= j < 3 && j != i implies #[trigger] self.lane(j) == pre.lane(j) by {
                assert(after_pop.lane(j) == pre.lane(j));
            }
            assert(self.lane(i as int) == pre.lane(i as int).drop_first());
            assert forall|k: int| 0 <= k < KIND_SLOTS implies #[trigger] self.per_kind_counts@[k] == self.count_of(k as nat) by {
                lemma_kind_count_drop_first(pre.lane(i as int), k as nat);
                assert(pre.per_kind_counts@[k] == pre.count_of(k as nat));
                if i == 0 {
                    assert(self.lane(1) == pre.lane(1) && self.lane(2) == pre.lane(2));
                } else if i == 1 {
                    assert(self.lane(0) == pre.lane(0) && self.lane(2) == pre.lane(2));
                } else {
                    assert(self.lane(0) == pre.lane(0) && self.lane(1) == pre.lane(1));
                }
            }
            assert forall|k: int| 0 <= k < KIND_SLOTS implies #[trigger] self.per_kind_counts@[k] <= MAX_PER_ACTION_KIND by {
                assert(pre.per_kind_counts@[k] <= MAX_PER_ACTION_KIND);
            }
            assert forall|j: int| 0 <= j < self.lane(i as int).len() implies #[trigger] self.lane(i as int)[j] == pre.lane(i as int)[j + 1] by {}
        }
        ev
    }

    /// Appends `action` to the lane of its priority, keeping the counts exact.
    fn accept(&mut self, action: RoutedAction)
        requires
            old(self).wf(),
            old(self).total_len < MAX_QUEUE,
            old(self).per_kind_counts@[kind_index_spec(action_kind_spec(action.action)) as int] < MAX_PER_ACTION_KIND,
        ensures
            forall|i: int| 0 <= i < 3 ==> #[trigger] final(self).lane(i) == if i == lane_of(action_priority_spec(action.action)) {
                old(self).lane(i).push(action)
            } else {
                old(self).lane(i)
            },
            final(self).total_len == old(self).total_len + 1,
            final(self).wf(),
            final(self).step_budget == old(self).step_budget,
            final(self).steps_executed == old(self).steps_executed,
            final(self).rr_index == old(self).rr_index,
            final(self).rr_count == old(self).rr_count,
    {
        let ghost pre = *self;
        let ghost a = action;
        let kind_idx = action.action.kind().index();
        let c = self.per_kind_counts[kind_idx];
        self.per_kind_counts.set(kind_idx, c + 1);
        match action.action.priority() {
            Priority::Critical => self.critical_queue.push_back(action),
            Priority::Normal => self.normal_queue.push_back(action),
            Priority::Background => self.background_queue.push_back(action),
        }
        self.total_len = self.total_len + 1;
        proof {
            let li = lane_of(action_priority_spec(a.action));
            assert forall|k: int| 0 <= k < KIND_SLOTS implies #[trigger] self.per_kind_counts@[k] == self.count_of(k as nat) by {
                lemma_kind_count_push(pre.lane(li), a, k as nat);
                assert(pre.per_kind_counts@[k] == pre.count_of(k as nat));
                if li == 0 {
                    assert(self.lane(0) == pre.lane(0).push(a) && self.lane(1) == pre.lane(1) && self.lane(2) == pre.lane(2));
                } else if li == 1 {
                    assert(self.lane(1) == pre.lane(1).push(a) && self.lane(0) == pre.lane(0) && self.lane(2) == pre.lane(2));
                } else {
                    assert(self.lane(2) == pre.lane(2).push(a) && self.lane(0) == pre.lane(0) && self.lane(1) == pre.lane(1));
                }
            }
            assert forall|k: int| 0 <= k < KIND_SLOTS implies #[trigger] self.per_kind_counts@[k] <= MAX_PER_ACTION_KIND by {
                assert(pre.per_kind_counts@[k] <= MAX_PER_ACTION_KIND);
            }
        }
    }

    /// Queues `action` in the lane of its priority. When its kind is at
    /// its bound, or the queue is full and nothing may be evicted for it,
    /// it is dropped instead; either way each drop is counted and reported.
    pub fn enqueue(&mut self, action: RoutedAction, state: &mut ExecutionState) -> (r: Option<Event>)
        requires
            old(self).wf(),
            old(state).metrics.dropped_actions < u64::MAX,
        ensures
            final(self).wf(),
            final(self).step_budget == old(self).step_budget,
            final(self).steps_executed == old(self).steps_executed,
            final(self).rr_index == old(self).rr_index,
            final(self).rr_count == old(self).rr_count,
            final(state).core == old(state).core,
            final(state).timeout == old(state).timeout,
            final(state).result == old(state).result,
            final(state).clock == old(state).clock,
            final(state).hash == old(state).hash,
            final(state).metrics == (crate::machine::state::Metrics {
                dropped_actions: final(state).metrics.dropped_actions,
                ..old(state).metrics
            }),
            old(self).refuses(action) ==> {
                &&& r == Some(Event::DroppedAction { kind: action_kind_spec(action.action) })
                &&& forall|i: int| 0 <= i < 3 ==> #[trigger] final(self).lane(i) == old(self).lane(i)
                &&& final(self).total_len == old(self).total_len
                &&& final(state).metrics.dropped_actions == old(state).metrics.dropped_actions + 1
            },
            !old(self).refuses(action) ==> {
                let ev = old(self).evict_lane(action_priority_spec(action.action));
                &&& forall|i: int| 0 <= i < 3 ==> #[trigger] final(self).lane(i) == old(self).lane_after(action, i)
                &&& r == match ev {
                    Some(i) => Some(Event::DroppedAction { kind: action_kind_spec(old(self).lane(i)[0].action) }),
                    None => None,
                }
                &&& final(state).metrics.dropped_actions == old(state).metrics.dropped_actions + if ev is Some { 1int } else { 0 }
                &&& final(self).total_len == old(self).total_len + if ev is Some { 0int } else { 1 }
            },
    {
        let kind = action.action.kind();
        let kind_idx = kind.index();
        if kind_idx >= self.per_kind_counts.len() {
            state.metrics.dropped_actions = state.metrics.dropped_actions + 1;
            return Some(Event::DroppedAction { kind });
        }
        let count = self.per_kind_counts[kind_idx];
        if count >= MAX_PER_ACTION_KIND {
            state.metrics.dropped_actions = state.metrics.dropped_actions + 1;
            return Some(Event::DroppedAction { kind });
        }
        let ghost pre = *self;
        let rank = action.action.priority().rank();
        let mut dropped_event: Option<Event> = None;
        if self.total_len >= MAX_QUEUE {
            let lane: usize = if self.background_queue.len() > 0 && rank >= 2 {
                2
            } else if self.normal_queue.len() > 0 && rank >= 1 {
                1
            } else if self.critical_queue.len() > 0 {
                0
            } else {
                3
            };
            if lane == 3 {
                state.metrics.dropped_actions = state.metrics.dropped_actions + 1;
                return Some(Event::DroppedAction { kind });
            }
            let ev_kind = self.take_front(lane).action.kind();
            state.metrics.dropped_actions = state.metrics.dropped_actions + 1;
            dropped_event = Some(Event::DroppedAction { kind: ev_kind });
        }
        let ghost mid = *self;
        self.accept(action);
        proof {
            assert forall|i: int| 0 <= i < 3 implies #[trigger] self.lane(i) == pre.lane_after(action, i) by {
                assert(mid.lane(i) == if pre.evict_lane(action_priority_spec(action.action)) == Some(i) {
                    pre.lane(i).drop_first()
                } else {
                    pre.lane(i)
                });
            }
        }
        dropped_event
    }

    /// The lane the next pick comes from and the run length it leaves:
    /// the current lane while under its quota, else the next non-empty lane
    /// in turn (the current one last, with a fresh run).
    pub open spec fn pick(&self) -> Option<(int, int)> {
        let i = self.rr_index as int;
        let c = self.rr_count as int;
        if c < lane_quota(i) && self.lane(i).len() > 0 {
            Some((i, c + 1))
        } else if self.lane((i + 1) % 3).len() > 0 {
            Some(((i + 1) % 3, 1))
        } else if self.lane((i + 2) % 3).len() > 0 {
            Some(((i + 2) % 3, 1))
        } else if self.lane(i).len() > 0 {
            Some((i, 1))
        } else {
            None
        }
    }

    /// Serves the next action under the round-robin quotas, within the step
    /// budget; `None` when the budget is spent or every lane is empty.
    pub fn pop_next(&mut self) -> (r: Option<RoutedAction>)
        requires
            old(self).wf(),
        ensures
            final(self).wf(),
            final(self).step_budget == old(self).step_budget,
            old(self).steps_executed >= old(self).step_budget ==> r is None && *final(self) == *old(self),
            old(self).steps_executed < old(self).step_budget ==> match old(self).pick() {
                Some((l, c)) => {
                    &&& r == Some(old(self).lane(l)[0])
                    &&& final(self).lane(l) == old(self).lane(l).drop_first()
                    &&& forall|j: int| 0 <= j < 3 && j != l ==> #[trigger] final(self).lane(j) == old(self).lane(j)
                    &&& final(self).rr_index == l
                    &&& final(self).rr_count == c
                    &&& final(self).steps_executed == old(self).steps_executed + 1
                    &&& final(self).total_len == old(self).total_len - 1
                },
                None => {
                    &&& r is None
                    &&& forall|j: int| 0 <= j < 3 ==> #[trigger] final(self).lane(j) == old(self).lane(j)
                    &&& final(self).rr_index == old(self).rr_index
                    &&& final(self).rr_count == 0
                    &&& final(self).steps_executed == old(self).steps_executed
                    &&& final(self).total_len == old(self).total_len
                },
            },
    {
        if self.steps_executed >= self.step_budget {
            return None;
        }
        let ghost pre = *self;
        let start_index = self.rr_index;
        let mut checked_all = false;
        let ghost mut t: int = 0;
        loop
            invariant
                pre == *old(self),
                pre.wf(),
                pre.steps_executed < pre.step_budget,
                start_index == pre.rr_index,
                0 <= t < 6,
                self.rr_index as int == (start_index + t) % 3,
                self.rr_count as int == if t == 0 { pre.rr_count as int } else { 0 },
                checked_all == (t >= 3),
                t > 0 ==> !(pre.rr_count < lane_quota(pre.rr_index as int) && pre.lane(pre.rr_index as int).len() > 0),
                forall|u: int| 1 <= u < t ==> #[trigger] pre.lane((start_index + u) % 3).len() == 0,
                self.critical_queue == pre.critical_queue,
                self.normal_queue == pre.normal_queue,
                self.background_queue == pre.background_queue,
                self.total_len == pre.total_len,
                self.per_kind_counts == pre.per_kind_counts,
                self.step_budget == pre.step_budget,
                self.steps_executed == pre.steps_executed,
            decreases 6 - t,
        {
            let i = self.rr_index;
            let quota: usize = if i == 0 { 4 } else if i == 1 { 2 } else { 1 };
            let nonempty = if i == 0 {
                self.critical_queue.len() > 0
            } else if i == 1 {
                self.normal_queue.len() > 0
            } else {
                self.background_queue.len() > 0
            };
            assert(nonempty == (self.lane(i as int).len() > 0));
            proof {
                let s0 = start_index as int;
                assert(s0 < 3);
                assert((s0 + 3) % 3 == s0);
                assert((s0 + 4) % 3 == (s0 + 1) % 3);
                assert((s0 + 5) % 3 == (s0 + 2) % 3);
                assert(self.lane(i as int) == pre.lane(i as int));
                if t >= 4 {
                    assert(pre.lane((s0 + 1) % 3).len() == 0);
                }
                if t == 5 {
                    assert(pre.lane((s0 + 2) % 3).len() == 0);
                }
                if t >= 2 {
                    assert(pre.lane((s0 + 1) % 3).len() == 0);
                }
                if t >= 3 {
                    assert(pre.lane((s0 + 2) % 3).len() == 0);
                }
            }
            if self.rr_count < quota && nonempty {
                proof {
                    assert(t <= 3);
                    assert(pre.pick() == Some((i as int, self.rr_count + 1)));
                }
                let routed = self.take_front(i);
                let ghost taken = *self;
                self.rr_count = self.rr_count + 1;
                self.steps_executed = self.steps_executed + 1;
                proof {
                    assert forall|j: int| 0 <= j < 3 && j != i implies #[trigger] self.lane(j) == pre.lane(j) by {
                        assert(taken.lane(j) == pre.lane(j));
                    }
                }
                return Some(routed);
            }
            self.rr_index = (self.rr_index + 1) % 3;
            self.rr_count = 0;
            proof {
                t = t + 1;
            }
            if self.rr_index == start_index {
                if checked_all {
                    proof {
                        let s0 = start_index as int;
                        assert(t == 6);
                        assert((s0 + 3) % 3 == s0);
                        assert(pre.lane((s0 + 1) % 3).len() == 0);
                        assert(pre.lane((s0 + 2) % 3).len() == 0);
                        assert(pre.lane((s0 + 3) % 3).len() == 0);
                        assert(pre.pick() is None);
                    }
                    return None;
                }
                checked_all = true;
            }
        }
    }

    /// Whether this tick's budget is spent or nothing is queued.
    pub fn is_exhausted(&self) -> (r: bool)
        ensures
            r == (self.steps() >= self.budget() || self.total_len == 0),
    {
        self.steps_executed >= self.step_budget || self.total_len == 0
    }
}

/// A lane is served in runs of its quota: while the lane being served has
/// actions and fewer than 4 critical, 2 normal or 1 background action have
/// been served in the current run, the next pick is that lane's head; a
/// critical run of 4, a normal run of 2 and a background run of 1 pass the
/// turn to the next non-empty lane.
pub proof fn law_lane_runs(s: Scheduler)
    requires
        s.wf(),
    ensures
        s.rr_index == 0 && s.rr_count < 4 && s.lane(0).len() > 0 ==> s.pick() == Some((0int, s.rr_count + 1)),
        s.rr_index == 1 && s.rr_count < 2 && s.lane(1).len() > 0 ==> s.pick() == Some((1int, s.rr_count + 1)),
        s.rr_index == 2 && s.rr_count < 1 && s.lane(2).len() > 0 ==> s.pick() == Some((2int, s.rr_count + 1)),
        s.rr_index == 0 && s.rr_count >= 4 && s.lane(1).len() > 0 ==> s.pick() == Some((1int, 1int)),
        s.rr_index == 1 && s.rr_count >= 2 && s.lane(2).len() > 0 ==> s.pick() == Some((2int, 1int)),
        s.rr_index == 2 && s.rr_count >= 1 && s.lane(0).len() > 0 ==> s.pick() == Some((0int, 1int)),
{
}

/// A fresh scheduler serves a waiting critical action before any other,
/// and keeps serving critical actions while fewer than four have run.
pub proof fn law_critical_first(s: Scheduler, served: int)
    requires
        s.wf(),
        s.rr_index == 0,
        s.rr_count == served,
        0 <= served < 4,
        s.lane(0).len() > 0,
    ensures
        s.pick() matches Some((l, c)) && l == 0 && c == served + 1,
{
}

} // verus!
