//! The dispatcher: every module sees every action and event, in a fixed order,
//! and the actions they ask for are collected in that order.

use vstd::prelude::*;
use crate::machine::io::{io_event_actions, IoModule};
use crate::machine::lifecycle::{lifecycle_actions, lifecycle_event_actions, LifecycleModule};
use crate::machine::policy::{
    admission_actions, clock_fits, timeout_event_actions, AdmissionControlModule, TimeoutPolicyModule,
};
use crate::machine::process::{process_actions, process_event_actions, ProcessModule};
use crate::machine::result::{
    actions_alike, lemma_actions_alike_concat, lemma_actions_alike_refl, result_actions, ResultModule,
};
use crate::machine::state::TimeoutState;
use crate::machine::state_view::{StateView, TimeoutView};
use crate::machine::types::{action_kind_spec, kind_index_spec, Action, Effect, Event, ACTION_KIND_COUNT};
use crate::machine::execution::ExecutionState;
use crate::machine::effect_reducers::{AddonReducer, IoReducer, LogReducer};
use crate::machine::reducer::JobReducer;
use crate::machine::routing::{
    chain_ok, chain_trace, lemma_pre_kept, lemma_routes_increasing, lemma_step_pre, occurrences, position_of, reducer_handles,
    reducer_post, reducer_pre, route_reducers, routes, standard_reducers, step_pre, ReducerKind,
};
use crate::machine::store_reducers::{ResultReducer, TimeReducer, TimeoutReducer};

verus! {

/// One of the modules the dispatcher consults.
pub enum ModuleKind {
    Admission(AdmissionControlModule),
    Lifecycle(LifecycleModule),
    Process(ProcessModule),
    Io(IoModule),
    Result(ResultModule),
    Timeout(TimeoutPolicyModule),
}

pub open spec fn module_actions<S: StateView>(m: ModuleKind, state: &S, action: Action) -> Seq<Action> {
    match m {
        ModuleKind::Admission(_) => admission_actions(state, action),
        ModuleKind::Lifecycle(_) => lifecycle_actions(state, action),
        ModuleKind::Process(_) => process_actions(state, action),
        ModuleKind::Io(_) => seq![],
        ModuleKind::Result(_) => result_actions(state, action),
        ModuleKind::Timeout(_) => seq![],
    }
}

pub open spec fn module_event_actions<S: StateView>(m: ModuleKind, state: &S, event: Event) -> Seq<Action> {
    match m {
        ModuleKind::Admission(_) => seq![],
        ModuleKind::Lifecycle(_) => lifecycle_event_actions(state, event),
        ModuleKind::Process(_) => process_event_actions(state, event),
        ModuleKind::Io(_) => io_event_actions(state, event),
        ModuleKind::Result(_) => seq![],
        ModuleKind::Timeout(_) => timeout_event_actions(state, event),
    }
}

/// The actions of the modules `ms` for `action`, module by module.
pub open spec fn dispatch_actions<S: StateView>(ms: Seq<ModuleKind>, state: &S, action: Action) -> Seq<Action>
    decreases ms.len(),
{
    if ms.len() == 0 {
        seq![]
    } else {
        dispatch_actions(ms.drop_last(), state, action) + module_actions(ms.last(), state, action)
    }
}

/// The actions of the modules `ms` for `event`, module by module.
pub open spec fn dispatch_event_actions<S: StateView>(ms: Seq<ModuleKind>, state: &S, event: Event) -> Seq<Action>
    decreases ms.len(),
{
    if ms.len() == 0 {
        seq![]
    } else {
        dispatch_event_actions(ms.drop_last(), state, event) + module_event_actions(ms.last(), state, event)
    }
}

/// How many milliseconds one deadline is away (zero once it has passed);
/// the difference is narrowed to `i32` bits.
pub open spec fn deadline_ms(now: u64, e: TimeoutView) -> i32 {
    let deadline = match e.state {
        TimeoutState::WaitingForDeadline => e.deadline,
        TimeoutState::WaitingForKillGrace(d) => d,
    };
    if deadline > now {
        (deadline - now) as i32
    } else {
        0
    }
}

/// The smallest wait over the deadlines, or -1 when there is none.
pub open spec fn min_deadline_ms(now: u64, ts: Seq<TimeoutView>) -> i32
    decreases ts.len(),
{
    if ts.len() == 0 {
        -1i32
    } else {
        let prev = min_deadline_ms(now, ts.drop_last());
        let ms = deadline_ms(now, ts.last());
        if prev == -1 || ms < prev {
            ms
        } else {
            prev
        }
    }
}

pub struct Dispatcher {
    pub modules: Vec<ModuleKind>,
}

/// The modules in the order the dispatcher consults them.
pub open spec fn standard_modules(ms: Seq<ModuleKind>) -> bool {
    &&& ms.len() == 6
    &&& ms[0] is Admission
    &&& ms[1] is Lifecycle
    &&& ms[2] is Process
    &&& ms[3] is Io
    &&& ms[4] is Result
    &&& ms[5] is Timeout
}

fn module_handle<S: StateView>(m: &ModuleKind, state: &S, action: &Action) -> (r: Vec<Action>)
    ensures
        actions_alike(r@, module_actions(*m, state, *action)),
{
    let r = match m {
        ModuleKind::Admission(x) => x.handle(state, action),
        ModuleKind::Lifecycle(x) => x.handle(state, action),
        ModuleKind::Process(x) => x.handle(state, action),
        ModuleKind::Io(x) => x.handle(state, action),
        ModuleKind::Result(x) => {
            return x.handle(state, action);
        },
        ModuleKind::Timeout(x) => x.handle(state, action),
    };
    proof {
        lemma_actions_alike_refl(r@);
    }
    r
}

fn module_handle_event<S: StateView>(m: &ModuleKind, state: &S, event: &Event) -> (r: Vec<Action>)
    requires
        clock_fits(state.now_view()),
    ensures
        r@ == module_event_actions(*m, state, *event),
{
    match m {
        ModuleKind::Admission(x) => x.handle_event(state, event),
        ModuleKind::Lifecycle(x) => x.handle_event(state, event),
        ModuleKind::Process(x) => x.handle_event(state, event),
        ModuleKind::Io(x) => x.handle_event(state, event),
        ModuleKind::Result(x) => x.handle_event(state, event),
        ModuleKind::Timeout(x) => x.handle_event(state, event),
    }
}

impl Dispatcher {
    pub fn new() -> (d: Self)
        ensures
            standard_modules(d.modules@),
    {
        let mut modules: Vec<ModuleKind> = Vec::new();
        modules.push(ModuleKind::Admission(AdmissionControlModule));
        modules.push(ModuleKind::Lifecycle(LifecycleModule));
        modules.push(ModuleKind::Process(ProcessModule));
        modules.push(ModuleKind::Io(IoModule));
        modules.push(ModuleKind::Result(ResultModule));
        modules.push(ModuleKind::Timeout(TimeoutPolicyModule::new()));
        Dispatcher { modules }
    }

    /// Every module's answer to `action`, in module order.
    pub fn dispatch<S: StateView>(&self, state: &S, action: &Action) -> (r: Vec<Action>)
        ensures
            actions_alike(r@, dispatch_actions(self.modules@, state, *action)),
    {
        let mut actions: Vec<Action> = Vec::new();
        let mut i: usize = 0;
        while i < self.modules.len()
            invariant
                i <= self.modules@.len(),
                actions_alike(actions@, dispatch_actions(self.modules@.take(i as int), state, *action)),
            decreases self.modules@.len() - i,
        {
            let mut part = module_handle(&self.modules[i], state, action);
            let ghost before = actions@;
            let ghost got = part@;
            actions.append(&mut part);
            proof {
                assert(self.modules@.take(i + 1).drop_last() =~= self.modules@.take(i as int));
                lemma_actions_alike_concat(
                    before,
                    dispatch_actions(self.modules@.take(i as int), state, *action),
                    got,
                    module_actions(self.modules@[i as int], state, *action),
                );
            }
            i = i + 1;
        }
        proof {
            assert(self.modules@.take(i as int) =~= self.modules@);
        }
        actions
    }

    /// Every module's answer to `event`, in module order.
    pub fn dispatch_event<S: StateView>(&self, state: &S, event: &Event) -> (r: Vec<Action>)
        requires
            clock_fits(state.now_view()),
        ensures
            r@ == dispatch_event_actions(self.modules@, state, *event),
    {
        let mut actions: Vec<Action> = Vec::new();
        let mut i: usize = 0;
        while i < self.modules.len()
            invariant
                i <= self.modules@.len(),
                clock_fits(state.now_view()),
                actions@ == dispatch_event_actions(self.modules@.take(i as int), state, *event),
            decreases self.modules@.len() - i,
        {
            let mut part = module_handle_event(&self.modules[i], state, event);
            actions.append(&mut part);
            proof {
                assert(self.modules@.take(i + 1).drop_last() =~= self.modules@.take(i as int));
            }
            i = i + 1;
        }
        proof {
            assert(self.modules@.take(i as int) =~= self.modules@);
        }
        actions
    }

    /// How long the reactor may wait before the nearest deadline, in
    /// milliseconds; -1 when nothing is tracked.
    pub fn compute_timeout_ms<S: StateView>(&self, state: &S) -> (r: i32)
        ensures
            r == min_deadline_ms(state.now_view(), state.timeouts_view()),
    {
        let mut min_ms: i32 = -1;
        let now = state.now();
        let entries = state.timeouts();
        let mut i: usize = 0;
        while i < entries.len()
            invariant
                i <= entries@.len(),
                min_ms == min_deadline_ms(now, entries@.take(i as int)),
            decreases entries@.len() - i,
        {
            let entry = entries[i];
            let deadline = match entry.state {
                TimeoutState::WaitingForDeadline => entry.deadline,
                TimeoutState::WaitingForKillGrace(d) => d,
            };
            let ms: i32 = if deadline > now {
                (deadline - now) as i32
            } else {
                0
            };
            if min_ms == -1 || ms < min_ms {
                min_ms = ms;
            }
            proof {
                assert(entries@.take(i + 1).drop_last() =~= entries@.take(i as int));
            }
            i = i + 1;
        }
        proof {
            assert(entries@.take(i as int) =~= entries@);
        }
        min_ms
    }
}

/// The dispatcher, the reducers, and the table routing each action kind
/// (by index) to the positions of the reducers that handle it.
pub struct Core {
    pub dispatcher: Dispatcher,
    pub reducers: Vec<ReducerKind>,
    pub routing: Vec<Vec<usize>>,
}

pub open spec fn repeat_push(v: Seq<usize>, x: usize, n: nat) -> Seq<usize> {
    v + Seq::new(n, |j: int| x)
}

impl Core {
    /// The standard modules and reducers, and a routing table that sends
    /// each kind to exactly the reducers that list it.
    pub open spec fn wf(&self) -> bool {
        &&& standard_modules(self.dispatcher.modules@)
        &&& standard_reducers(self.reducers@)
        &&& self.routing@.len() == ACTION_KIND_COUNT
        &&& forall|k: int| 0 <= k < ACTION_KIND_COUNT ==> #[trigger] self.routing@[k]@ == routes(self.reducers@, k as nat)
    }

    pub fn new() -> (c: Self)
        ensures
            c.wf(),
    {
        let reducers: Vec<ReducerKind> = vec![
            ReducerKind::Time(TimeReducer),
            ReducerKind::Result(ResultReducer),
            ReducerKind::Io(IoReducer),
            ReducerKind::Job(JobReducer),
            ReducerKind::Timeout(TimeoutReducer),
            ReducerKind::Log(LogReducer),
            ReducerKind::Addon(AddonReducer),
        ];
        let mut routing: Vec<Vec<usize>> = Vec::new();
        let mut k: usize = 0;
        while k < ACTION_KIND_COUNT
            invariant
                k <= ACTION_KIND_COUNT,
                routing@.len() == k,
                forall|i: int| 0 <= i < k ==> #[trigger] routing@[i]@ == Seq::<usize>::empty(),
            decreases ACTION_KIND_COUNT - k,
        {
            routing.push(Vec::new());
            k = k + 1;
        }
        proof {
            assert forall|i: int| 0 <= i < ACTION_KIND_COUNT implies #[trigger] routing@[i]@ == routes(
                reducers@.take(0),
                i as nat,
            ) by {
                assert(reducers@.take(0).len() == 0);
            }
        }
        let mut idx: usize = 0;
        while idx < reducers.len()
            invariant
                idx <= reducers@.len(),
                reducers@.len() == 7,
                routing@.len() == ACTION_KIND_COUNT,
                forall|i: int| 0 <= i < ACTION_KIND_COUNT ==> #[trigger] routing@[i]@ == routes(reducers@.take(idx as int), i as nat),
            decreases reducers@.len() - idx,
        {
            let hs = reducers[idx].handles();
            let mut j: usize = 0;
            while j < hs.len()
                invariant
                    idx < reducers@.len(),
                    reducers@.len() == 7,
                    hs@ == reducer_handles(reducers@[idx as int]),
                    j <= hs@.len(),
                    routing@.len() == ACTION_KIND_COUNT,
                    forall|i: int| 0 <= i < ACTION_KIND_COUNT ==> #[trigger] routing@[i]@ == repeat_push(
                        routes(reducers@.take(idx as int), i as nat),
                        idx,
                        occurrences(hs@.take(j as int), i as nat),
                    ),
                decreases hs@.len() - j,
            {
                let ki = hs[j].index();
                let mut row = routing[ki].clone();
                row.push(idx);
                let ghost prev = routing@;
                routing.set(ki, row);
                proof {
                    assert(hs@.take(j + 1).drop_last() =~= hs@.take(j as int));
                    assert forall|i: int| 0 <= i < ACTION_KIND_COUNT implies #[trigger] routing@[i]@ == repeat_push(
                        routes(reducers@.take(idx as int), i as nat),
                        idx,
                        occurrences(hs@.take(j + 1), i as nat),
                    ) by {
                        let base = routes(reducers@.take(idx as int), i as nat);
                        if i == ki {
                            assert(routing@[i]@ =~= repeat_push(base, idx, occurrences(hs@.take(j + 1), i as nat)));
                        } else {
                            assert(routing@[i] == prev[i]);
                            assert(repeat_push(base, idx, occurrences(hs@.take(j + 1), i as nat)) =~= repeat_push(
                                base,
                                idx,
                                occurrences(hs@.take(j as int), i as nat),
                            ));
                        }
                    }
                }
                j = j + 1;
            }
            proof {
                assert(hs@.take(j as int) =~= hs@);
                assert(reducers@.take(idx + 1).drop_last() =~= reducers@.take(idx as int));
                assert forall|i: int| 0 <= i < ACTION_KIND_COUNT implies #[trigger] routing@[i]@ == routes(
                    reducers@.take(idx + 1),
                    i as nat,
                ) by {
                    assert(routes(reducers@.take(idx + 1), i as nat) =~= repeat_push(
                        routes(reducers@.take(idx as int), i as nat),
                        idx,
                        occurrences(hs@, i as nat),
                    ));
                }
            }
            idx = idx + 1;
        }
        proof {
            assert(reducers@.take(7) =~= reducers@);
        }
        Core { dispatcher: Dispatcher::new(), reducers, routing }
    }

    /// Runs the reducers routed for the action's kind, in routing order.
    pub fn apply_reducers(&self, state: &mut ExecutionState, action: &Action, effects: &mut Vec<Effect>)
        requires
            self.wf(),
            step_pre(*old(state), *action),
        ensures
            chain_ok(
                route_reducers(self.reducers@, kind_index_spec(action_kind_spec(*action))),
                *old(state),
                *final(state),
                old(effects)@,
                final(effects)@,
                *action,
            ),
    {
        let k = action.kind().index();
        let ghost kn = k as nat;
        let ghost rs = route_reducers(self.reducers@, kn);
        let ghost s0 = *state;
        let ghost e0 = effects@;
        let row = &self.routing[k];
        proof {
            lemma_routes_increasing(self.reducers@, kn);
            assert(row@ == routes(self.reducers@, kn));
            assert forall|j: int| 0 <= j < rs.len() implies reducer_pre(#[trigger] rs[j], *state, *action) by {
                lemma_step_pre(rs[j], *state, *action);
            }
            assert(rs.take(0).len() == 0);
        }
        let ghost mut ss: Seq<ExecutionState> = seq![*state];
        let ghost mut es: Seq<Seq<Effect>> = seq![effects@];
        let mut i: usize = 0;
        while i < row.len()
            invariant
                self.wf(),
                row@ == routes(self.reducers@, kn),
                rs == route_reducers(self.reducers@, kn),
                rs.len() == row@.len(),
                forall|a: int, b: int| 0 <= a < b < row@.len() ==> row@[a] < row@[b],
                forall|a: int| 0 <= a < row@.len() ==> row@[a] < 7,
                i <= row@.len(),
                chain_trace(rs.take(i as int), ss, es, *action),
                ss[0] == s0,
                es[0] == e0,
                ss[i as int] == *state,
                es[i as int] == effects@,
                forall|j: int| i <= j < rs.len() ==> reducer_pre(#[trigger] rs[j], *state, *action),
            decreases row@.len() - i,
        {
            let idx = row[i];
            let ghost sm = *state;
            let ghost em = effects@;
            proof {
                assert(rs[i as int] == self.reducers@[idx as int]);
            }
            self.reducers[idx].apply(state, action, effects);
            proof {
                let t = rs.take(i + 1);
                let ss1 = ss.push(*state);
                let es1 = es.push(effects@);
                assert forall|x: int| 0 <= x < t.len() implies #[trigger] reducer_post(t[x], ss1[x], ss1[x + 1], es1[x], es1[x + 1], *action) by {
                    if x < i {
                        assert(rs.take(i as int)[x] == t[x]);
                        assert(reducer_post(rs.take(i as int)[x], ss[x], ss[x + 1], es[x], es[x + 1], *action));
                    }
                }
                ss = ss1;
                es = es1;
                assert forall|j: int| i + 1 <= j < rs.len() implies reducer_pre(#[trigger] rs[j], *state, *action) by {
                    assert(row@[i as int] < row@[j]);
                    assert(position_of(self.reducers@[row@[i as int] as int]) == row@[i as int]);
                    assert(position_of(self.reducers@[row@[j] as int]) == row@[j]);
                    lemma_pre_kept(rs[i as int], rs[j], sm, *state, em, effects@, *action);
                }
            }
            i = i + 1;
        }
        proof {
            assert(rs.take(i as int) =~= rs);
            assert(chain_trace(rs, ss, es, *action));
        }
    }

    /// Resolves one scheduled action: runs its reducers, refreshes the
    /// state fingerprint, and asks every module what should follow.
    pub fn step(&self, state: &mut ExecutionState, action: &Action, effects: &mut Vec<Effect>) -> (r: Vec<Action>)
        requires
            self.wf(),
            step_pre(*old(state), *action),
        ensures
            exists|s: ExecutionState| {
                &&& #[trigger] chain_ok(
                    route_reducers(self.reducers@, kind_index_spec(action_kind_spec(*action))),
                    *old(state),
                    s,
                    old(effects)@,
                    final(effects)@,
                    *action,
                )
                &&& *final(state) == (ExecutionState { hash: s.combined_hash(), ..s })
            },
            actions_alike(r@, dispatch_actions(self.dispatcher.modules@, final(state), *action)),
    {
        self.apply_reducers(state, action, effects);
        let ghost s = *state;
        state.update_hash();
        proof {
            assert(*state == (ExecutionState { hash: s.combined_hash(), ..s }));
        }
        self.dispatcher.dispatch(state, action)
    }
}

} // verus!
