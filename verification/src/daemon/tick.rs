//! One tick of the job daemon, as a step from state and inputs to state and
//! outputs. The caller owns the sockets, the reactor and the processes: it
//! hands in the decoded client commands and the events its effects produced,
//! performs the effects handed back, answers the replies and waits for the
//! timeout before the next tick.

use vstd::prelude::*;
use crate::high_level::api::{exec_of_command, service_argv, Command};
use crate::high_level::capability::{principal_uid, token_allows, CapabilityRegistry};
use crate::high_level::identity::{Principal, Request};
use crate::machine::engine::Core;
use crate::machine::core_state::CoreState;
use crate::machine::execution::ExecutionState;
use crate::machine::policy::clock_fits;
use crate::machine::reducer::core_wf;
use crate::machine::state_view::StateView;
use crate::machine::routing::{lemma_chain_keeps_core, step_pre};
use crate::machine::scheduler::{lane_of, Scheduler};
use crate::machine::types::{
    action_kind_spec, expand_intent, expand_intent_spec, Action, ActionMeta, CauseId, ControlSignal, Effect, Event,
    Intent, JobRequest, RoutedAction, ActionKind, action_priority_spec,
};
use crate::machine::validation::{request_valid, validate_request};
use crate::machine::verify::{globally_consistent, verify_global};
use crate::{TraceStore, TICK_MS};

verus! {

broadcast use crate::machine::core_state::lemma_moved_is_same_drift;

/// Actions the scheduler serves in one tick at most.
pub const MAX_ACTIONS_PER_TICK: usize = 10000;

/// Actions one principal may have resolved in one tick.
pub const MAX_PER_SOURCE: u32 = 256;

/// Failures after which an addon is no longer fed.
pub const ADDON_ERROR_LIMIT: u32 = 10;

/// Every how many ticks the global state check runs.
pub const VERIFY_EVERY: u64 = 64;

/// Rounds of event dispatch and queueing a tick runs at most before it hands
/// what is left over to the next tick.
pub const SETTLE_ROUNDS: u64 = 10000;

/// A decoded client command, with the client it came from and its uid.
pub struct ClientCommand {
    pub client_id: u32,
    pub uid: u32,
    pub command: Command,
}

/// What the caller hands one tick: how many whole ticks of time passed, the
/// commands its clients sent, and the events its effects produced.
pub struct TickInput {
    pub ticks: u64,
    pub commands: Vec<ClientCommand>,
    pub events: Vec<Event>,
}

/// A resolved action that answers a client.
pub struct Reply {
    pub client_id: u32,
    pub action: Action,
}

/// What one tick hands back to the caller.
pub struct TickOutput {
    /// Effects for the caller to perform, in order.
    pub effects: Vec<Effect>,
    /// Resolved actions that answer a client, in order.
    pub replies: Vec<Reply>,
    /// Clients that asked for the preload status, in order.
    pub status_requests: Vec<u32>,
    /// Actions resolved in this tick.
    pub processed: u64,
    /// Actions dropped in this tick: over a principal's share, or not
    /// resolvable in the current state.
    pub dropped: u64,
    /// Collected actions dealt with: queued, refused for want of a
    /// capability, or left unqueued.
    pub handled: u64,
    /// Collected actions that could not be queued: the drop counter was
    /// full, or the tick ran out of rounds.
    pub unqueued: u64,
    /// Actions still queued when the tick ended.
    pub left_queued: usize,
    /// Whether the tick stopped because it ran out of rounds.
    pub rounds_exhausted: bool,
    /// The global state check, on the ticks it runs.
    pub verification: Option<Result<(), String>>,
    /// Events left for the next tick.
    pub carried_events: Vec<Event>,
}

/// How many collected actions a tick dealt with: each was queued, refused
/// for want of a capability, or left unqueued; counts stop at their largest
/// value.
pub struct Tally {
    pub handled: u64,
    pub unqueued: u64,
}

/// `a + b`, stopping at the largest `u64`.
pub open spec fn sat_add(a: u64, b: nat) -> u64 {
    if a + b > u64::MAX {
        u64::MAX
    } else {
        (a + b) as u64
    }
}

/// The principal a client of uid `uid` acts as (see `Principal::new_user`).
pub open spec fn user_of(uid: u32) -> Principal {
    if uid == 0 {
        Principal::System
    } else {
        Principal::User(uid)
    }
}

/// Whether the registry lets `p` ask for actions of kind `k`.
pub open spec fn kind_ok(caps: CapabilityRegistry, p: Principal, k: ActionKind) -> bool {
    caps.map@.contains_key(principal_uid(p)) && token_allows(caps.map@[principal_uid(p)].restricted_actions, k)
}

/// How many actions a client command is let in with: a service call two
/// (its submission and its timeout), a query or cancellation of a known job
/// one, when the client's principal may ask for them; a status request none.
pub open spec fn command_admits(caps: CapabilityRegistry, state: ExecutionState, c: ClientCommand) -> nat {
    let p = user_of(c.uid);
    match c.command {
        Command::Cmd { .. } | Command::Dumpsys { .. } => if kind_ok(caps, p, ActionKind::Submit) && kind_ok(
            caps,
            p,
            ActionKind::TrackTimeout,
        ) {
            2
        } else {
            0
        },
        Command::GetResult { id } => if state.job_view(id) is Some && kind_ok(caps, p, ActionKind::Query) {
            1
        } else {
            0
        },
        Command::Cancel { id } => if state.job_view(id) is Some && kind_ok(caps, p, ActionKind::Control) {
            1
        } else {
            0
        },
        Command::PreloadStatus => 0,
    }
}

/// How many actions a list of client commands is let in with.
pub open spec fn commands_admit(caps: CapabilityRegistry, state: ExecutionState, cmds: Seq<ClientCommand>) -> nat
    decreases cmds.len(),
{
    if cmds.len() == 0 {
        0
    } else {
        commands_admit(caps, state, cmds.drop_last()) + command_admits(caps, state, cmds.last())
    }
}

/// A command's request is let in with as many actions as `command_admits` says.
pub proof fn lemma_admitted_count(caps: CapabilityRegistry, state: ExecutionState, c: ClientCommand, cause: u64, req: Request)
    requires
        command_intent(c.command, cause, Some(req.intent)),
        req.principal == user_of(c.uid),
    ensures
        admitted(caps, state, req).len() == command_admits(caps, state, c),
{
    let acts = expand_intent_spec(req.intent, state.clock);
    match c.command {
        Command::Cmd { .. } | Command::Dumpsys { .. } => {
            assert(acts.len() == 2);
            assert(action_kind_spec(acts[0]) == ActionKind::Submit);
            assert(action_kind_spec(acts[1]) == ActionKind::TrackTimeout);
            if kind_ok(caps, req.principal, ActionKind::Submit) && kind_ok(caps, req.principal, ActionKind::TrackTimeout) {
                assert(forall|i: int| 0 <= i < acts.len() ==> #[trigger] caps_allow(caps, req.principal, acts[i]));
            } else {
                assert(!caps_allow(caps, req.principal, acts[0]) || !caps_allow(caps, req.principal, acts[1]));
            }
        },
        Command::GetResult { .. } | Command::Cancel { .. } => {
            assert(acts.len() == 1);
            if !caps_allow(caps, req.principal, acts[0]) {
                assert(!(forall|i: int| 0 <= i < acts.len() ==> #[trigger] caps_allow(caps, req.principal, acts[i])));
            }
        },
        Command::PreloadStatus => {},
    }
}

/// The clients a tick's commands came from.
pub open spec fn command_clients(cmds: Seq<ClientCommand>) -> Set<u32> {
    Set::new(|c: u32| exists|i: int| 0 <= i < cmds.len() && #[trigger] cmds[i].client_id == c)
}

/// An action answers no client, or one of `clients`.
pub open spec fn answers_within(clients: Set<u32>, reply_to: Option<u32>) -> bool {
    reply_to matches Some(c) ==> clients.contains(c)
}

/// Every queued action answers no client or one of `clients`.
pub open spec fn queue_answers_within(s: Scheduler, clients: Set<u32>) -> bool {
    forall|l: int, j: int|
        #![trigger s.lane(l)[j]]
        0 <= l < 3 && 0 <= j < s.lane(l).len() ==> answers_within(clients, s.lane(l)[j].meta.reply_to)
}

/// Every collected action answers no client or one of `clients`.
pub open spec fn collected_answer_within(c: Seq<(Action, ActionMeta)>, clients: Set<u32>) -> bool {
    forall|j: int| 0 <= j < c.len() ==> answers_within(clients, #[trigger] c[j].1.reply_to)
}

/// Every reply goes to one of `clients`.
pub open spec fn replies_within(r: Seq<Reply>, clients: Set<u32>) -> bool {
    forall|j: int| 0 <= j < r.len() ==> clients.contains(#[trigger] r[j].client_id)
}

/// Queueing an action that answers within `clients` keeps the queue so.
pub proof fn lemma_lane_after_within(s: Scheduler, a: RoutedAction, clients: Set<u32>)
    requires
        queue_answers_within(s, clients),
        answers_within(clients, a.meta.reply_to),
    ensures
        forall|l: int, j: int|
            #![trigger s.lane_after(a, l)[j]]
            0 <= l < 3 && 0 <= j < s.lane_after(a, l).len() ==> answers_within(clients, s.lane_after(a, l)[j].meta.reply_to),
{
    assert forall|l: int, j: int|
        #![trigger s.lane_after(a, l)[j]]
        0 <= l < 3 && 0 <= j < s.lane_after(a, l).len() implies answers_within(clients, s.lane_after(a, l)[j].meta.reply_to) by {
        let p = action_priority_spec(a.action);
        let lane = if s.evict_lane(p) == Some(l) { s.lane(l).drop_first() } else { s.lane(l) };
        if l == lane_of(p) && j == lane.len() {
        } else if s.evict_lane(p) == Some(l) {
            assert(s.lane_after(a, l)[j] == s.lane(l)[j + 1]);
        } else {
            assert(s.lane_after(a, l)[j] == s.lane(l)[j]);
        }
    }
}

/// What the daemon carries from tick to tick besides the execution state.
pub struct DaemonTick {
    pub next_action_id: u64,
    pub tick_counter: u64,
    pub trace: TraceStore,
    pub addon_errors: Vec<(u32, u32)>,
}

/// How many failures are on record for `addon_id`.
pub open spec fn addon_error_count(errors: Seq<(u32, u32)>, addon_id: u32) -> nat
    decreases errors.len(),
{
    if errors.len() == 0 {
        0
    } else if errors.last().0 == addon_id {
        errors.last().1 as nat
    } else {
        addon_error_count(errors.drop_last(), addon_id)
    }
}

/// The cause id after `n`: the next one, wrapping round at the end.
pub open spec fn next_cause(n: u64) -> u64 {
    if n == u64::MAX {
        0
    } else {
        (n + 1) as u64
    }
}

/// Whether the registry lets `p` ask for actions of kind `k`.
pub open spec fn caps_allow(caps: CapabilityRegistry, p: Principal, a: Action) -> bool {
    caps.map@.contains_key(principal_uid(p)) && token_allows(
        caps.map@[principal_uid(p)].restricted_actions,
        action_kind_spec(a),
    )
}

/// The intent a client command stands for, made under cause `cause`: a
/// service call is submitted as a job of owner 0 whose id is the cause, a
/// result query and a cancellation address their job, and a status request
/// is no intent.
pub open spec fn command_intent(cmd: Command, cause: u64, r: Option<Intent>) -> bool {
    match cmd {
        Command::Cmd { service, args } => r matches Some(Intent::Submit { id, owner, job }) && id == cause
            && owner == 0 && job.command@.map_values(|a: String| a@) == service_argv("cmd"@, service, args@),
        Command::Dumpsys { service, args } => r matches Some(Intent::Submit { id, owner, job }) && id == cause
            && owner == 0 && job.command@.map_values(|a: String| a@) == service_argv("dumpsys"@, service, args@),
        Command::GetResult { id } => r == Some(Intent::Query { id }),
        Command::Cancel { id } => r == Some(Intent::Control { id, signal: ControlSignal::GracefulStop }),
        Command::PreloadStatus => r is None,
    }
}

/// The actions a request is let in with: all of its intent's actions, each
/// carrying the request's cause, principal and client, when the request is
/// valid and the principal may ask for every one of them; none otherwise.
pub open spec fn admitted(caps: CapabilityRegistry, state: ExecutionState, req: Request) -> Seq<(Action, ActionMeta)> {
    let acts = expand_intent_spec(req.intent, state.clock);
    if request_valid(req, &state) && forall|i: int| 0 <= i < acts.len() ==> #[trigger] caps_allow(caps, req.principal, acts[i]) {
        acts.map_values(
            |a: Action|
                (a, ActionMeta { id: req.cause, parent: Some(req.cause), source: req.principal, reply_to: req.client_id }),
        )
    } else {
        Seq::empty()
    }
}

/// The events a tick starts from: one `TimeAdvanced` per elapsed tick, then
/// the caller's events.
pub open spec fn tick_events(ticks: nat, events: Seq<Event>) -> Seq<Event> {
    Seq::new(ticks, |i: int| Event::TimeAdvanced(TICK_MS)) + events
}

/// How many actions each principal had resolved in this tick.
pub struct SourceCounts {
    pub counts: Vec<(Principal, u32)>,
}

/// The count recorded for `p`: its last entry, or none.
pub open spec fn source_count(counts: Seq<(Principal, u32)>, p: Principal) -> nat
    decreases counts.len(),
{
    if counts.len() == 0 {
        0
    } else if counts.last().0 == p {
        counts.last().1 as nat
    } else {
        source_count(counts.drop_last(), p)
    }
}

impl SourceCounts {
    pub fn new() -> (s: Self)
        ensures
            forall|p: Principal| #[trigger] source_count(s.counts@, p) == 0,
    {
        SourceCounts { counts: Vec::new() }
    }

    /// Takes one of `p`'s slots for this tick, when it has one left.
    pub fn take(&mut self, p: Principal) -> (r: bool)
        requires
            forall|q: Principal| #[trigger] source_count(old(self).counts@, q) <= MAX_PER_SOURCE,
        ensures
            r == (source_count(old(self).counts@, p) < MAX_PER_SOURCE),
            source_count(final(self).counts@, p) == source_count(old(self).counts@, p) + if r { 1nat } else { 0nat },
            forall|q: Principal| q != p ==> #[trigger] source_count(final(self).counts@, q) == source_count(old(self).counts@, q),
            forall|q: Principal| #[trigger] source_count(final(self).counts@, q) <= MAX_PER_SOURCE,
    {
        let n = source_count_of(&self.counts, p);
        if n >= MAX_PER_SOURCE {
            return false;
        }
        let ghost pre = self.counts@;
        self.counts.push((p, n + 1));
        proof {
            assert(self.counts@.drop_last() =~= pre);
            assert forall|q: Principal| #[trigger] source_count(self.counts@, q) <= MAX_PER_SOURCE by {
                if q != p {
                    assert(source_count(self.counts@, q) == source_count(pre, q));
                }
            }
        }
        true
    }
}

fn source_count_of(counts: &Vec<(Principal, u32)>, p: Principal) -> (n: u32)
    requires
        source_count(counts@, p) <= MAX_PER_SOURCE,
    ensures
        n == source_count(counts@, p),
{
    let mut i = counts.len();
    proof {
        assert(counts@.take(i as int) =~= counts@);
    }
    while i > 0
        invariant
            i <= counts@.len(),
            source_count(counts@, p) == source_count(counts@.take(i as int), p),
        decreases i,
    {
        proof {
            assert(counts@.take(i as int).drop_last() =~= counts@.take(i - 1));
        }
        if counts[i - 1].0 == p {
            return counts[i - 1].1;
        }
        i = i - 1;
    }
    0
}

/// The intent of a client command, made under `cause`.
pub fn intent_of_command(cmd: &Command, cause: u64) -> (r: Option<Intent>)
    ensures
        command_intent(*cmd, cause, r),
{
    match cmd {
        Command::Cmd { .. } | Command::Dumpsys { .. } => {
            let (exec, _policy) = cmd.map_to_exec();
            Some(Intent::Submit { id: cause, owner: 0, job: JobRequest { command: exec.argv } })
        },
        Command::GetResult { id } => Some(Intent::Query { id: *id }),
        Command::Cancel { id } => Some(Intent::Control { id: *id, signal: ControlSignal::GracefulStop }),
        Command::PreloadStatus => None,
    }
}

/// The actions `req` is let in with (see `admitted`).
pub fn admit_request(caps: &CapabilityRegistry, state: &ExecutionState, req: Request) -> (r: Vec<(Action, ActionMeta)>)
    requires
        clock_fits(state.clock),
    ensures
        r@ == admitted(*caps, *state, req),
{
    if validate_request(&req, state).is_err() {
        proof {
            assert(admitted(*caps, *state, req) =~= Seq::<(Action, ActionMeta)>::empty());
        }
        return Vec::new();
    }
    let meta = ActionMeta { id: req.cause, parent: Some(req.cause), source: req.principal, reply_to: req.client_id };
    let actions = expand_intent(req.intent, state.clock);
    let ghost acts = actions@;
    let mut i: usize = 0;
    while i < actions.len()
        invariant
            actions@ == acts,
            acts == expand_intent_spec(req.intent, state.clock),
            i <= acts.len(),
            forall|j: int| 0 <= j < i ==> #[trigger] caps_allow(*caps, req.principal, acts[j]),
        decreases acts.len() - i,
    {
        if !caps.allows(&req.principal, actions[i].kind()) {
            proof {
                assert(!caps_allow(*caps, req.principal, acts[i as int]));
                assert(admitted(*caps, *state, req) =~= Seq::<(Action, ActionMeta)>::empty());
            }
            return Vec::new();
        }
        i = i + 1;
    }
    let mut out: Vec<(Action, ActionMeta)> = Vec::new();
    let mut rest = actions;
    let mut k: usize = 0;
    let n = rest.len();
    while rest.len() > 0
        invariant
            n == acts.len(),
            rest@ == acts.subrange(k as int, n as int),
            k <= n,
            out@ == acts.take(k as int).map_values(|a: Action| (a, meta)),
        decreases rest@.len(),
    {
        let a = rest.remove(0);
        out.push((a, meta));
        proof {
            assert(acts.take(k + 1).drop_last() =~= acts.take(k as int));
            assert(out@ =~= acts.take(k + 1).map_values(|a: Action| (a, meta)));
        }
        k = k + 1;
    }
    proof {
        assert(acts.take(n as int) =~= acts);
        assert(acts == expand_intent_spec(req.intent, state.clock));
        assert(forall|j: int| 0 <= j < acts.len() ==> #[trigger] caps_allow(*caps, req.principal, acts[j]));
        assert(out@ =~= admitted(*caps, *state, req));
    }
    out
}

/// Whether `action` may be resolved in `state` as it stands (see `step_pre`).
pub fn step_ready(state: &ExecutionState, action: &Action) -> (r: bool)
    requires
        core_wf(state.core),
    ensures
        r == step_pre(*state, *action),
{
    match action {
        Action::Submit { .. } => state.core.jobs.slots.len() < 4294967295usize,
        Action::AdvanceTime { delta } => state.clock <= u64::MAX - *delta,
        Action::Admitted { .. } => state.result.active_jobs < usize::MAX,
        _ => true,
    }
}

/// Whether the clock leaves room for every tracked deadline (see `clock_fits`).
pub fn clock_room(state: &ExecutionState) -> (r: bool)
    ensures
        r == clock_fits(state.clock),
{
    state.clock <= u64::MAX - 4294967295u64
}

impl DaemonTick {
    pub fn new() -> (t: Self)
        ensures
            t.next_action_id == 1,
            t.tick_counter == 0,
            t.trace.parents@ == Map::<u64, Option<CauseId>>::empty(),
            t.addon_errors@.len() == 0,
    {
        DaemonTick { next_action_id: 1, tick_counter: 0, trace: TraceStore::new(), addon_errors: Vec::new() }
    }

    /// The next cause id.
    pub fn fresh(&mut self) -> (c: CauseId)
        ensures
            c.0 == old(self).next_action_id,
            final(self).next_action_id == next_cause(old(self).next_action_id),
            final(self).tick_counter == old(self).tick_counter,
            final(self).trace == old(self).trace,
            final(self).addon_errors == old(self).addon_errors,
    {
        let c = CauseId(self.next_action_id);
        self.next_action_id = if self.next_action_id == u64::MAX {
            0
        } else {
            self.next_action_id + 1
        };
        c
    }

    /// Counts one more failure of `addon_id`.
    pub fn note_addon_failure(&mut self, addon_id: u32)
        ensures
            addon_error_count(final(self).addon_errors@, addon_id) == if addon_error_count(
                old(self).addon_errors@,
                addon_id,
            ) < u32::MAX {
                addon_error_count(old(self).addon_errors@, addon_id) + 1
            } else {
                addon_error_count(old(self).addon_errors@, addon_id)
            },
            forall|a: u32| a != addon_id ==> #[trigger] addon_error_count(final(self).addon_errors@, a)
                == addon_error_count(old(self).addon_errors@, a),
            final(self).next_action_id == old(self).next_action_id,
            final(self).tick_counter == old(self).tick_counter,
            final(self).trace == old(self).trace,
    {
        let n = self.addon_errors_of(addon_id);
        let m = if n < u32::MAX {
            n + 1
        } else {
            n
        };
        let ghost pre = self.addon_errors@;
        self.addon_errors.push((addon_id, m));
        proof {
            assert(self.addon_errors@.drop_last() =~= pre);
        }
    }

    /// How many failures are on record for `addon_id`.
    pub fn addon_errors_of(&self, addon_id: u32) -> (n: u32)
        ensures
            n == addon_error_count(self.addon_errors@, addon_id),
    {
        let mut i = self.addon_errors.len();
        proof {
            assert(self.addon_errors@.take(i as int) =~= self.addon_errors@);
        }
        while i > 0
            invariant
                i <= self.addon_errors@.len(),
                addon_error_count(self.addon_errors@, addon_id) == addon_error_count(
                    self.addon_errors@.take(i as int),
                    addon_id,
                ),
            decreases i,
        {
            proof {
                assert(self.addon_errors@.take(i as int).drop_last() =~= self.addon_errors@.take(i - 1));
            }
            if self.addon_errors[i - 1].0 == addon_id {
                return self.addon_errors[i - 1].1;
            }
            i = i - 1;
        }
        0
    }

    /// Whether an addon is still fed: it has failed fewer than the limit.
    pub fn addon_enabled(&self, addon_id: u32) -> (r: bool)
        ensures
            r == (addon_error_count(self.addon_errors@, addon_id) < ADDON_ERROR_LIMIT),
    {
        self.addon_errors_of(addon_id) < ADDON_ERROR_LIMIT
    }
}

/// The client ids of the status requests among `cmds`, in order.
pub open spec fn status_clients(cmds: Seq<ClientCommand>) -> Seq<u32>
    decreases cmds.len(),
{
    if cmds.len() == 0 {
        Seq::empty()
    } else {
        let rest = status_clients(cmds.drop_last());
        if cmds.last().command is PreloadStatus {
            rest.push(cmds.last().client_id)
        } else {
            rest
        }
    }
}

/// The tick number after `n`, wrapping round at the end.
pub open spec fn next_tick(n: u64) -> u64 {
    if n == u64::MAX {
        0
    } else {
        (n + 1) as u64
    }
}

/// The events a tick starts from (see `tick_events`).
pub fn start_events(ticks: u64, events: Vec<Event>) -> (r: Vec<Event>)
    ensures
        r@ == tick_events(ticks as nat, events@),
{
    let mut out: Vec<Event> = Vec::new();
    let mut i: u64 = 0;
    while i < ticks
        invariant
            i <= ticks,
            out@ == Seq::new(i as nat, |k: int| Event::TimeAdvanced(TICK_MS)),
        decreases ticks - i,
    {
        out.push(Event::TimeAdvanced(TICK_MS));
        i = i + 1;
        proof {
            assert(out@ =~= Seq::new(i as nat, |k: int| Event::TimeAdvanced(TICK_MS)));
        }
    }
    let mut rest = events;
    let ghost e = rest@;
    out.append(&mut rest);
    proof {
        assert(out@ =~= tick_events(ticks as nat, e));
    }
    out
}

/// Adds one to a counter, stopping at its largest value.
fn bump(n: u64) -> (r: u64)
    ensures
        r == if n < u64::MAX { (n + 1) as u64 } else { n },
{
    if n < u64::MAX {
        n + 1
    } else {
        n
    }
}

/// Queues `routed`; a refusal or an eviction comes back as an event.
fn queue_routed(
    sched: &mut Scheduler,
    state: &mut ExecutionState,
    routed: RoutedAction,
    events: &mut Vec<Event>,
    Ghost(clients): Ghost<Set<u32>>,
)
    requires
        old(sched).wf(),
        old(state).metrics.dropped_actions < u64::MAX,
        queue_answers_within(*old(sched), clients),
        answers_within(clients, routed.meta.reply_to),
    ensures
        final(sched).wf(),
        final(sched).step_budget == old(sched).step_budget,
        final(sched).steps_executed == old(sched).steps_executed,
        final(state).core == old(state).core,
        final(state).clock == old(state).clock,
        final(state).timeout == old(state).timeout,
        final(state).result == old(state).result,
        final(state).hash == old(state).hash,
        queue_answers_within(*final(sched), clients),
{
    proof {
        lemma_lane_after_within(*sched, routed, clients);
    }
    let ghost s_pre = *sched;
    let ghost r = routed;
    if let Some(ev) = sched.enqueue(routed, state) {
        events.push(ev);
    }
    proof {
        assert forall|l: int, j: int|
            #![trigger sched.lane(l)[j]]
            0 <= l < 3 && 0 <= j < sched.lane(l).len() implies answers_within(clients, sched.lane(l)[j].meta.reply_to) by {
            if s_pre.refuses(r) {
                assert(sched.lane(l) == s_pre.lane(l));
            } else {
                assert(sched.lane(l) == s_pre.lane_after(r, l));
            }
        }
    }
}

impl DaemonTick {
    /// Queues one collected action under a fresh cause. With `lineage`, the
    /// principal must be allowed the action and the new cause descends from
    /// the action's own; without, the action is queued as it comes, with no
    /// parent. An action the scheduler refuses or evicts comes back as a
    /// `DroppedAction` event.
    fn queue_collected(
        &mut self,
        state: &mut ExecutionState,
        sched: &mut Scheduler,
        caps: &CapabilityRegistry,
        lineage: bool,
        action: Action,
        meta: ActionMeta,
        events: &mut Vec<Event>,
        tally: &mut Tally,
        Ghost(clients): Ghost<Set<u32>>,
    )
        requires
            old(sched).wf(),
            queue_answers_within(*old(sched), clients),
            answers_within(clients, meta.reply_to),
        ensures
            queue_answers_within(*final(sched), clients),
            final(tally).handled == (if old(tally).handled < u64::MAX { (old(tally).handled + 1) as u64 } else { old(tally).handled }),
            final(sched).wf(),
            final(sched).step_budget == old(sched).step_budget,
            final(sched).steps_executed == old(sched).steps_executed,
            final(state).core == old(state).core,
            final(state).clock == old(state).clock,
            final(state).timeout == old(state).timeout,
            final(state).result == old(state).result,
            final(self).tick_counter == old(self).tick_counter,
    {
        tally.handled = bump(tally.handled);
        if lineage && !caps.allows(&meta.source, action.kind()) {
            return;
        }
        if state.metrics.dropped_actions == u64::MAX {
            tally.unqueued = bump(tally.unqueued);
            return;
        }
        let next = self.fresh();
        let parent = if lineage {
            Some(meta.id)
        } else {
            None
        };
        self.trace.insert(next, parent);
        let routed = RoutedAction {
            action,
            meta: ActionMeta { id: next, parent, source: meta.source, reply_to: meta.reply_to },
        };
        queue_routed(sched, state, routed, events, Ghost(clients));
    }

    /// Dispatches the pending events to the modules and queues what they and
    /// the pending collected actions ask for, round after round, until both
    /// are spent or `SETTLE_ROUNDS` rounds have run. Returns whether there
    /// was anything to do.
    pub(crate) fn settle(
        &mut self,
        core: &Core,
        state: &mut ExecutionState,
        sched: &mut Scheduler,
        caps: &CapabilityRegistry,
        lineage: bool,
        events: &mut Vec<Event>,
        collected: &mut Vec<(Action, ActionMeta)>,
        tally: &mut Tally,
        Ghost(clients): Ghost<Set<u32>>,
    ) -> (progress: bool)
        requires
            old(sched).wf(),
            queue_answers_within(*old(sched), clients),
            collected_answer_within(old(collected)@, clients),
            clock_fits(old(state).clock),
        ensures
            queue_answers_within(*final(sched), clients),
            progress == (old(events)@.len() > 0 || old(collected)@.len() > 0),
            final(tally).handled >= sat_add(old(tally).handled, old(collected)@.len()),
            !progress ==> *final(sched) == *old(sched),
            final(sched).wf(),
            final(sched).step_budget == old(sched).step_budget,
            final(sched).steps_executed == old(sched).steps_executed,
            final(state).core == old(state).core,
            final(state).clock == old(state).clock,
            final(state).timeout == old(state).timeout,
            final(state).result == old(state).result,
            final(collected)@.len() == 0,
            final(self).tick_counter == old(self).tick_counter,
    {
        let progress = events.len() > 0 || collected.len() > 0;
        let ghost h0 = tally.handled;
        let ghost c0 = collected@.len();
        let ghost e0 = events@.len();
        let mut rounds: u64 = 0;
        while (events.len() > 0 || collected.len() > 0) && rounds < SETTLE_ROUNDS
            invariant
                progress == (e0 > 0 || c0 > 0),
                !progress ==> rounds == 0,
                rounds == 0 ==> events@.len() == e0,
                rounds == 0 ==> collected@.len() == c0 && tally.handled == h0,
                rounds > 0 ==> tally.handled >= sat_add(h0, c0),
                rounds == 0 ==> *sched == *old(sched),
                h0 == old(tally).handled,
                c0 == old(collected)@.len(),
                queue_answers_within(*sched, clients),
                collected_answer_within(collected@, clients),
                sched.wf(),
                sched.step_budget == old(sched).step_budget,
                sched.steps_executed == old(sched).steps_executed,
                state.core == old(state).core,
                state.clock == old(state).clock,
                state.timeout == old(state).timeout,
                state.result == old(state).result,
                clock_fits(state.clock),
                self.tick_counter == old(self).tick_counter,
                rounds <= SETTLE_ROUNDS,
            decreases SETTLE_ROUNDS - rounds,
        {
            let mut current: Vec<Event> = Vec::new();
            std::mem::swap(&mut current, events);
            let mut i: usize = 0;
            let ghost cl0 = collected@.len();
            while i < current.len()
                invariant
                    collected_answer_within(collected@, clients),
                    collected@.len() >= cl0,
                    state.core == old(state).core,
                    state.clock == old(state).clock,
                    state.timeout == old(state).timeout,
                    state.result == old(state).result,
                    clock_fits(state.clock),
                    self.tick_counter == old(self).tick_counter,
                decreases current@.len() - i,
            {
                let acts = core.dispatcher.dispatch_event(state, &current[i]);
                let mut rest = acts;
                let ghost cl1 = collected@.len();
                while rest.len() > 0
                    invariant
                        self.tick_counter == old(self).tick_counter,
                        collected@.len() >= cl1,
                        collected_answer_within(collected@, clients),
                    decreases rest@.len(),
                {
                    let a = rest.remove(0);
                    let cause = self.fresh();
                    self.trace.insert(cause, None);
                    let ghost before = collected@;
                    collected.push((a, ActionMeta { id: cause, parent: None, source: Principal::System, reply_to: None }));
                    proof {
                        assert forall|j: int| 0 <= j < collected@.len() implies answers_within(clients, #[trigger] collected@[j].1.reply_to) by {
                            if j < before.len() {
                                assert(collected@[j] == before[j]);
                            }
                        }
                    }
                }
                i = i + 1;
            }
            let mut batch: Vec<(Action, ActionMeta)> = Vec::new();
            std::mem::swap(&mut batch, collected);
            let ghost b0 = batch@.len();
            let ghost hr = tally.handled;
            while batch.len() > 0
                invariant
                    queue_answers_within(*sched, clients),
                    collected_answer_within(batch@, clients),
                    tally.handled >= sat_add(hr, (b0 - batch@.len()) as nat),
                    batch@.len() <= b0,
                    sched.wf(),
                    sched.step_budget == old(sched).step_budget,
                    sched.steps_executed == old(sched).steps_executed,
                    state.core == old(state).core,
                    state.clock == old(state).clock,
                    state.timeout == old(state).timeout,
                    state.result == old(state).result,
                    self.tick_counter == old(self).tick_counter,
                decreases batch@.len(),
            {
                let ghost bt = batch@;
                let (a, meta) = batch.remove(0);
                proof {
                    assert(bt[0].1 == meta);
                    assert forall|j: int| 0 <= j < batch@.len() implies answers_within(clients, #[trigger] batch@[j].1.reply_to) by {
                        assert(batch@[j] == bt[j + 1]);
                    }
                }
                self.queue_collected(state, sched, caps, lineage, a, meta, events, tally, Ghost(clients));
            }
            proof {
                if rounds == 0 {
                    assert(hr == h0 && b0 >= c0);
                }
            }
            rounds = rounds + 1;
        }
        if collected.len() > 0 {
            tally.unqueued = bump(tally.unqueued);
            collected.clear();
        }
        progress
    }

    /// Serves queued actions until the scheduler has none left or its
    /// budget is spent: each within its principal's share and resolvable in
    /// the current state is run through the reducers, its answers from the
    /// modules are queued, and it is handed back as a reply when a client
    /// waits for it. Failures of an addon are counted.
    pub(crate) fn resolve_queued(
        &mut self,
        core: &Core,
        state: &mut ExecutionState,
        sched: &mut Scheduler,
        counts: &mut SourceCounts,
        events: &mut Vec<Event>,
        out: &mut TickOutput,
        Ghost(clients): Ghost<Set<u32>>,
    )
        requires
            queue_answers_within(*old(sched), clients),
            replies_within(old(out).replies@, clients),
            core.wf(),
            core_wf(old(state).core),
            old(sched).wf(),
            old(sched).steps_executed <= old(sched).step_budget,
            old(out).processed + old(out).dropped + (old(sched).step_budget - old(sched).steps_executed)
                <= MAX_ACTIONS_PER_TICK,
            old(out).processed + old(out).dropped == old(sched).steps_executed,
            forall|q: Principal| #[trigger] source_count(old(counts).counts@, q) <= MAX_PER_SOURCE,
        ensures
            queue_answers_within(*final(sched), clients),
            replies_within(final(out).replies@, clients),
            core_wf(final(state).core),
            final(state).core.hash_moved_with(&old(state).core),
            final(sched).wf(),
            final(sched).step_budget == old(sched).step_budget,
            final(sched).steps_executed <= final(sched).step_budget,
            final(sched).total_len == 0 || final(sched).steps_executed >= final(sched).step_budget,
            final(out).processed + final(out).dropped == final(sched).steps_executed,
            final(out).processed >= old(out).processed,
            final(out).dropped >= old(out).dropped,
            final(out).verification == old(out).verification,
            final(out).status_requests == old(out).status_requests,
            forall|q: Principal| #[trigger] source_count(final(counts).counts@, q) <= MAX_PER_SOURCE,
            final(self).tick_counter == old(self).tick_counter,
    {
        proof {
            crate::machine::core_state::lemma_no_move(state.core.hash, state.core.full_hash());
        }
        loop
            invariant
                queue_answers_within(*sched, clients),
                replies_within(out.replies@, clients),
                core.wf(),
                core_wf(state.core),
                state.core.hash_moved_with(&old(state).core),
                sched.wf(),
                sched.step_budget == old(sched).step_budget,
                sched.steps_executed <= sched.step_budget,
                out.processed + out.dropped == sched.steps_executed,
                out.processed >= old(out).processed,
                out.dropped >= old(out).dropped,
                sched.step_budget <= MAX_ACTIONS_PER_TICK,
                out.verification == old(out).verification,
                out.status_requests == old(out).status_requests,
                forall|q: Principal| #[trigger] source_count(counts.counts@, q) <= MAX_PER_SOURCE,
                self.tick_counter == old(self).tick_counter,
            ensures
                sched.total_len == 0 || sched.steps_executed >= sched.step_budget,
            decreases sched.step_budget - sched.steps_executed,
        {
            let ghost s_before = *sched;
            let routed = match sched.pop_next() {
                Some(r) => {
                    proof {
                        let (l, c) = s_before.pick()->0;
                        assert(r == s_before.lane(l)[0]);
                        assert(answers_within(clients, s_before.lane(l)[0].meta.reply_to));
                        assert forall|ll: int, j: int|
                            #![trigger sched.lane(ll)[j]]
                            0 <= ll < 3 && 0 <= j < sched.lane(ll).len() implies answers_within(clients, sched.lane(ll)[j].meta.reply_to) by {
                            if ll == l {
                                assert(sched.lane(ll)[j] == s_before.lane(ll)[j + 1]);
                            } else {
                                assert(sched.lane(ll) == s_before.lane(ll));
                            }
                        }
                    }
                    r
                },
                None => {
                    proof {
                        if s_before.steps_executed < s_before.step_budget {
                            assert(s_before.pick() is None);
                            assert(s_before.lane(0).len() == 0 && s_before.lane(1).len() == 0 && s_before.lane(2).len() == 0);
                        }
                    }
                    break;
                },
            };
            if !counts.take(routed.meta.source) {
                out.dropped = out.dropped + 1;
                continue;
            }
            if let Action::HandleAddonFailure { addon_id, .. } = &routed.action {
                self.note_addon_failure(*addon_id);
            }
            if !step_ready(state, &routed.action) {
                out.dropped = out.dropped + 1;
                continue;
            }
            let ghost before = *state;
            let ghost eff0 = out.effects@;
            let new_actions = core.step(state, &routed.action, &mut out.effects);
            proof {
                let s = choose|s: ExecutionState| {
                    &&& #[trigger] crate::machine::routing::chain_ok(
                        crate::machine::routing::route_reducers(
                            core.reducers@,
                            crate::machine::types::kind_index_spec(action_kind_spec(routed.action)),
                        ),
                        before,
                        s,
                        eff0,
                        out.effects@,
                        routed.action,
                    )
                    &&& *state == (ExecutionState { hash: s.combined_hash(), ..s })
                };
                lemma_chain_keeps_core(
                    crate::machine::routing::route_reducers(
                        core.reducers@,
                        crate::machine::types::kind_index_spec(action_kind_spec(routed.action)),
                    ),
                    before,
                    s,
                    eff0,
                    out.effects@,
                    routed.action,
                );
            }
            out.processed = out.processed + 1;
            let mut rest = new_actions;
            while rest.len() > 0
                invariant
                    sched.wf(),
                    sched.step_budget == old(sched).step_budget,
                    sched.steps_executed <= sched.step_budget,
                    out.processed + out.dropped == sched.steps_executed,
                    out.processed >= old(out).processed,
                    out.dropped >= old(out).dropped,
                    core_wf(state.core),
                    state.core.hash_moved_with(&old(state).core),
                    self.tick_counter == old(self).tick_counter,
                    queue_answers_within(*sched, clients),
                    answers_within(clients, routed.meta.reply_to),
                decreases rest@.len(),
            {
                let a = rest.remove(0);
                if state.metrics.dropped_actions < u64::MAX {
                    let next = self.fresh();
                    self.trace.insert(next, Some(routed.meta.id));
                    let child = RoutedAction {
                        action: a,
                        meta: ActionMeta {
                            id: next,
                            parent: Some(routed.meta.id),
                            source: routed.meta.source,
                            reply_to: routed.meta.reply_to,
                        },
                    };
                    queue_routed(sched, state, child, events, Ghost(clients));
                }
            }
            if let Some(c) = routed.meta.reply_to {
                let ghost r0 = out.replies@;
                out.replies.push(Reply { client_id: c, action: routed.action });
                proof {
                    assert forall|j: int| 0 <= j < out.replies@.len() implies clients.contains(#[trigger] out.replies@[j].client_id) by {
                        if j < r0.len() {
                            assert(out.replies@[j] == r0[j]);
                        }
                    }
                }
            }
        }
    }
}

impl DaemonTick {
    /// Runs one tick. Time advances by `input.ticks` ticks; each client
    /// command becomes a request of the client's uid under a fresh cause
    /// (a status request is handed back instead); requests that are valid
    /// and allowed are queued with the actions the modules derive from the
    /// pending events; every `VERIFY_EVERY` ticks the global state check runs
    /// on the state as the tick found it; then the scheduler serves actions
    /// within its budget and each principal's share until nothing is left.
    pub fn daemon_tick(
        &mut self,
        core: &Core,
        state: &mut ExecutionState,
        caps: &CapabilityRegistry,
        input: TickInput,
    ) -> (out: TickOutput)
        requires
            core.wf(),
            core_wf(old(state).core),
            clock_fits(old(state).clock),
        ensures
            final(self).tick_counter == next_tick(old(self).tick_counter),
            core_wf(final(state).core),
            final(state).core.hash_moved_with(&old(state).core),
            out.status_requests@ == status_clients(input.commands@),
            out.processed + out.dropped <= MAX_ACTIONS_PER_TICK,
            (final(self).tick_counter % VERIFY_EVERY == 0) == (out.verification is Some),
            out.verification matches Some(r) ==> (r is Ok <==> globally_consistent(old(state).core)),
            out.handled >= sat_add(0, commands_admit(*caps, *old(state), input.commands@)),
            out.left_queued == 0 || out.processed + out.dropped == MAX_ACTIONS_PER_TICK || out.rounds_exhausted,
            replies_within(out.replies@, command_clients(input.commands@)),
    {
        self.tick_counter = if self.tick_counter == u64::MAX {
            0
        } else {
            self.tick_counter + 1
        };
        let mut events = start_events(input.ticks, input.events);
        let mut sched = Scheduler::new(MAX_ACTIONS_PER_TICK);
        let mut out = TickOutput {
            effects: Vec::new(),
            replies: Vec::new(),
            status_requests: Vec::new(),
            processed: 0,
            dropped: 0,
            handled: 0,
            unqueued: 0,
            left_queued: 0,
            rounds_exhausted: false,
            verification: None,
            carried_events: Vec::new(),
        };
        let mut collected: Vec<(Action, ActionMeta)> = Vec::new();
        let mut tally = Tally { handled: 0, unqueued: 0 };
        let ghost s0 = *state;
        let ghost cmds = input.commands@;
        let ghost clients = command_clients(cmds);
        let mut commands = input.commands;
        let n = commands.len();
        let mut k: usize = 0;
        while commands.len() > 0
            invariant
                commands@ == cmds.subrange(k as int, cmds.len() as int),
                n == cmds.len(),
                k <= cmds.len(),
                out.status_requests@ == status_clients(cmds.take(k as int)),
                out.processed == 0,
                out.dropped == 0,
                out.verification is None,
                *state == s0,
                s0 == *old(state),
                collected@.len() == commands_admit(*caps, s0, cmds.take(k as int)),
                collected_answer_within(collected@, clients),
                clients == command_clients(cmds),
                out.replies@.len() == 0,
                state.core == old(state).core,
                state.clock == old(state).clock,
                clock_fits(state.clock),
                self.tick_counter == next_tick(old(self).tick_counter),
            decreases commands@.len(),
        {
            let c = commands.remove(0);
            proof {
                assert(cmds.take(k + 1).drop_last() =~= cmds.take(k as int));
                assert(cmds.take(k + 1).last() == c);
            }
            match &c.command {
                Command::PreloadStatus => {
                    out.status_requests.push(c.client_id);
                },
                _ => {
                    match &c.command {
                        Command::Cmd { .. } | Command::Dumpsys { .. } => {
                            // A service call takes a job id first; the job is
                            // then filed under its request's cause instead.
                            let _job_id = self.fresh();
                        },
                        _ => {},
                    }
                    let cause = self.fresh();
                    self.trace.insert(cause, None);
                    match intent_of_command(&c.command, cause.0) {
                        Some(intent) => {
                            let req = Request {
                                client_id: Some(c.client_id),
                                principal: Principal::new_user(c.uid),
                                intent,
                                cause,
                            };
                            let ghost rq = req;
                            let mut acts = admit_request(caps, state, req);
                            proof {
                                lemma_admitted_count(*caps, s0, c, cause.0, rq);
                            }
                            let ghost cb = collected@;
                            let ghost av = acts@;
                            collected.append(&mut acts);
                            proof {
                                assert(cmds[k as int] == c);
                                assert(clients.contains(c.client_id));
                                assert forall|j: int| 0 <= j < collected@.len() implies answers_within(clients, #[trigger] collected@[j].1.reply_to) by {
                                    if j < cb.len() {
                                        assert(collected@[j] == cb[j]);
                                    } else {
                                        assert(collected@[j] == av[j - cb.len()]);
                                    }
                                }
                            }
                        },
                        None => {},
                    }
                },
            }
            k = k + 1;
        }
        proof {
            assert(cmds.take(cmds.len() as int) =~= cmds);
        }
        events.push(Event::Tick);
        self.settle(core, state, &mut sched, caps, true, &mut events, &mut collected, &mut tally, Ghost(clients));
        if self.tick_counter % VERIFY_EVERY == 0 {
            out.verification = Some(verify_global(state));
        }
        let mut counts = SourceCounts::new();
        let mut rounds: u64 = 0;
        proof {
            crate::machine::core_state::lemma_no_move(state.core.hash, state.core.full_hash());
        }
        while rounds < SETTLE_ROUNDS
            invariant
                core.wf(),
                core_wf(state.core),
                state.core.hash_moved_with(&old(state).core),
                sched.wf(),
                sched.step_budget == MAX_ACTIONS_PER_TICK,
                sched.steps_executed <= sched.step_budget,
                out.processed + out.dropped == sched.steps_executed,
                out.status_requests@ == status_clients(cmds),
                (self.tick_counter % VERIFY_EVERY == 0) == (out.verification is Some),
                out.verification matches Some(r) ==> (r is Ok <==> globally_consistent(old(state).core)),
                forall|q: Principal| #[trigger] source_count(counts.counts@, q) <= MAX_PER_SOURCE,
                self.tick_counter == next_tick(old(self).tick_counter),
                tally.handled >= sat_add(0, commands_admit(*caps, s0, cmds)),
                s0 == *old(state),
                queue_answers_within(sched, clients),
                replies_within(out.replies@, clients),
                collected_answer_within(collected@, clients),
                clients == command_clients(cmds),
            ensures
                replies_within(out.replies@, clients),
                sched.wf(),
                out.processed + out.dropped == sched.steps_executed,
                sched.step_budget == MAX_ACTIONS_PER_TICK,
                sched.total_len == 0 || sched.steps_executed >= sched.step_budget || rounds >= SETTLE_ROUNDS,
                tally.handled >= sat_add(0, commands_admit(*caps, s0, cmds)),
                core_wf(state.core),
                state.core.hash_moved_with(&old(state).core),
                out.status_requests@ == status_clients(cmds),
                (self.tick_counter % VERIFY_EVERY == 0) == (out.verification is Some),
                out.verification matches Some(r) ==> (r is Ok <==> globally_consistent(old(state).core)),
                self.tick_counter == next_tick(old(self).tick_counter),
            decreases SETTLE_ROUNDS - rounds,
        {
            self.resolve_queued(core, state, &mut sched, &mut counts, &mut events, &mut out, Ghost(clients));
            if !clock_room(state) {
                break;
            }
            let progress = self.settle(core, state, &mut sched, caps, true, &mut events, &mut collected, &mut tally, Ghost(clients));
            if !progress {
                break;
            }
            rounds = rounds + 1;
        }
        out.rounds_exhausted = rounds >= SETTLE_ROUNDS;
        out.left_queued = sched.total_len;
        out.carried_events = events;
        out.handled = tally.handled;
        out.unqueued = tally.unqueued;
        out
    }
}

} // verus!
