//! Events, intents, actions and effects of the state machine.

use vstd::prelude::*;
use crate::high_level::identity::Principal;
use crate::machine::state::{JobIoState, JobLifecycle, TimeoutState};

verus! {

#[derive(Debug, Clone, Copy, PartialEq, Eq, Structural)]
pub enum CancelPolicy {
    Ignore,
    Graceful,
    Kill,
}

/// Marker for process handles.
#[derive(Debug)]
pub struct ProcessTag;

/// Marker for IO handles.
#[derive(Debug)]
pub struct IoTag;

/// Marker for job handles.
#[derive(Debug)]
pub struct JobTag;

/// A generational index into an arena; the tag only separates handle kinds.
#[derive(Debug)]
pub struct Handle<T> {
    pub index: u32,
    pub generation: u32,
    pub _marker: core::marker::PhantomData<T>,
}

impl<T> Clone for Handle<T> {
    fn clone(&self) -> (r: Self)
        ensures
            r == *self,
    {
        Handle { index: self.index, generation: self.generation, _marker: core::marker::PhantomData }
    }
}

impl<T> Copy for Handle<T> {
}

impl<T> Handle<T> {
    pub fn new(index: u32, generation: u32) -> (r: Self)
        ensures
            r.index == index,
            r.generation == generation,
    {
        Handle { index, generation, _marker: core::marker::PhantomData }
    }

    /// Two handles name the same slot when index and generation agree.
    pub fn same(&self, other: &Self) -> (r: bool)
        ensures
            r == (self.index == other.index && self.generation == other.generation),
    {
        self.index == other.index && self.generation == other.generation
    }
}

/// Handles compare by index and generation alone.
pub open spec fn handle_eq<T>(a: Handle<T>, b: Handle<T>) -> bool {
    a.index == b.index && a.generation == b.generation
}

pub type JobHandle = Handle<JobTag>;

pub type ProcessHandle = Handle<ProcessTag>;

pub type IoHandle = Handle<IoTag>;

#[derive(Debug)]
pub struct ExecSpec {
    pub argv: Vec<String>,
    pub stdin: Option<Vec<u8>>,
    pub capture_stdout: bool,
    pub capture_stderr: bool,
    pub max_output: usize,
}

#[derive(Debug, Clone, Copy, PartialEq, Eq, Structural)]
pub struct ExecPolicy {
    pub timeout_ms: Option<u32>,
    pub kill_grace_ms: u32,
    pub cancel: CancelPolicy,
}

#[derive(Debug)]
pub struct ExecResult {
    pub status: Option<i32>,
    pub stdout: Vec<u8>,
    pub stderr: Vec<u8>,
    pub timed_out: bool,
}

#[derive(Debug)]
pub enum ExecError {
    SpawnFailed,
    RuntimeError,
    Internal(String),
}

#[derive(Debug)]
pub struct ExecOutcome {
    pub id: u64,
    pub result: Result<ExecResult, ExecError>,
}

#[derive(Debug, Clone, Copy, PartialEq, Eq, Structural)]
pub enum LogLevel {
    Trace,
    Debug,
    Info,
    Warn,
    Error,
}

pub enum LogEvent {
    TickSummary {
        processed: usize,
        dropped: usize,
        queue_before: usize,
        queue_after: usize,
        elapsed_us: u64,
    },
    ActionDispatch {
        kind: ActionKind,
        id: Option<u64>,
        addon_id: Option<u32>,
        key: Option<String>,
        service: Option<SystemService>,
        payload_len: usize,
    },
    PreloadForeground { pid: i32, package: String },
    PreloadSkip { package: String, reason: String, remaining_ms: Option<u64> },
    PreloadStart { package: String, paths: usize },
    PreloadDone { package: String, paths: usize, bytes: u64, duration_ms: u64 },
    PreloadFail { package: String, reason: String, backoff_ms: u64 },
    Generic(String),
    Error { id: u64, err: String },
}

#[derive(Debug, Clone, Copy, PartialEq, Eq, Structural)]
pub enum ControlSignal {
    GracefulStop,
    ForceKill,
}

#[derive(Debug, Clone, Copy, PartialEq, Eq, Structural)]
pub enum SystemService {
    ResolveIdentity,
    ResolveDirectory,
    DiscoverPaths,
}

#[derive(Debug, Clone, Copy, PartialEq, Eq, Structural)]
pub enum IoStream {
    Stdout,
    Stderr,
    Stdin,
}

pub enum Event {
    Tick,
    ProcessStarted { id: u64, process: ProcessHandle, io: IoHandle },
    ProcessSpawnFailed { id: u64, err: String },
    ProcessExited { process: ProcessHandle, status: Option<i32> },
    IoReady { io: IoHandle, stream: IoStream, readable: bool, writable: bool, error: bool },
    IoClosed { io: IoHandle },
    ForegroundChanged { pid: i32 },
    PackagesChanged,
    AddonCompleted { addon_id: u32, key: String, payload: Vec<u8> },
    SystemResponse { request_id: u64, kind: SystemService, payload: Vec<u8> },
    SystemFailure { request_id: u64, kind: SystemService, err: String },
    TimeAdvanced(u64),
    AddonFailed { addon_id: u32, key: String, err: String },
    WatchStreamFailed { io: IoHandle, err: String },
    DroppedAction { kind: ActionKind },
    KillProcessFailed { process: ProcessHandle, err: String },
    ReactorError { err: String },
    IoFailed { io: IoHandle, reason: String },
}

#[derive(Debug, Clone, Copy, PartialEq, Eq, Structural)]
pub enum ActionKind {
    Submit,
    Admitted,
    Rejected,
    Started,
    Controlled,
    Finished,
    QueryResult,
    SetJobIoState,
    AssignProcess,
    AssignIo,
    SetLifecycle,
    StartProcess,
    SignalProcess,
    PollProcess,
    PerformIo,
    RegisterInterest,
    RemoveInterest,
    EmitLog,
    Control,
    Query,
    TimeoutReached,
    KillDeadlineReached,
    ForegroundChanged,
    PackagesChanged,
    SystemRequest,
    AddonTask,
    AddonLog,
    AddonEvent,
    CleanupJob,
    TrackTimeout,
    UntrackTimeout,
    UpdateTimeoutState,
    AdvanceTime,
    HandleAddonFailure,
    HandleSystemFailure,
    HandleProcessFailure,
    HandleIoFailure,
}

/// Number of action kinds; kind indexes are below it.
pub const ACTION_KIND_COUNT: usize = 37;

} // verus!

verus! {

/// Position of a kind in the declaration order of `ActionKind`.
pub open spec fn kind_index_spec(k: ActionKind) -> nat {
    match k {
        ActionKind::Submit => 0,
        ActionKind::Admitted => 1,
        ActionKind::Rejected => 2,
        ActionKind::Started => 3,
        ActionKind::Controlled => 4,
        ActionKind::Finished => 5,
        ActionKind::QueryResult => 6,
        ActionKind::SetJobIoState => 7,
        ActionKind::AssignProcess => 8,
        ActionKind::AssignIo => 9,
        ActionKind::SetLifecycle => 10,
        ActionKind::StartProcess => 11,
        ActionKind::SignalProcess => 12,
        ActionKind::PollProcess => 13,
        ActionKind::PerformIo => 14,
        ActionKind::RegisterInterest => 15,
        ActionKind::RemoveInterest => 16,
        ActionKind::EmitLog => 17,
        ActionKind::Control => 18,
        ActionKind::Query => 19,
        ActionKind::TimeoutReached => 20,
        ActionKind::KillDeadlineReached => 21,
        ActionKind::ForegroundChanged => 22,
        ActionKind::PackagesChanged => 23,
        ActionKind::SystemRequest => 24,
        ActionKind::AddonTask => 25,
        ActionKind::AddonLog => 26,
        ActionKind::AddonEvent => 27,
        ActionKind::CleanupJob => 28,
        ActionKind::TrackTimeout => 29,
        ActionKind::UntrackTimeout => 30,
        ActionKind::UpdateTimeoutState => 31,
        ActionKind::AdvanceTime => 32,
        ActionKind::HandleAddonFailure => 33,
        ActionKind::HandleSystemFailure => 34,
        ActionKind::HandleProcessFailure => 35,
        ActionKind::HandleIoFailure => 36,
    }
}

impl ActionKind {
    /// The kind's position in declaration order, used as a table index.
    pub fn index(&self) -> (r: usize)
        ensures
            r == kind_index_spec(*self),
            r < ACTION_KIND_COUNT,
    {
        match self {
            ActionKind::Submit => 0,
            ActionKind::Admitted => 1,
            ActionKind::Rejected => 2,
            ActionKind::Started => 3,
            ActionKind::Controlled => 4,
            ActionKind::Finished => 5,
            ActionKind::QueryResult => 6,
            ActionKind::SetJobIoState => 7,
            ActionKind::AssignProcess => 8,
            ActionKind::AssignIo => 9,
            ActionKind::SetLifecycle => 10,
            ActionKind::StartProcess => 11,
            ActionKind::SignalProcess => 12,
            ActionKind::PollProcess => 13,
            ActionKind::PerformIo => 14,
            ActionKind::RegisterInterest => 15,
            ActionKind::RemoveInterest => 16,
            ActionKind::EmitLog => 17,
            ActionKind::Control => 18,
            ActionKind::Query => 19,
            ActionKind::TimeoutReached => 20,
            ActionKind::KillDeadlineReached => 21,
            ActionKind::ForegroundChanged => 22,
            ActionKind::PackagesChanged => 23,
            ActionKind::SystemRequest => 24,
            ActionKind::AddonTask => 25,
            ActionKind::AddonLog => 26,
            ActionKind::AddonEvent => 27,
            ActionKind::CleanupJob => 28,
            ActionKind::TrackTimeout => 29,
            ActionKind::UntrackTimeout => 30,
            ActionKind::UpdateTimeoutState => 31,
            ActionKind::AdvanceTime => 32,
            ActionKind::HandleAddonFailure => 33,
            ActionKind::HandleSystemFailure => 34,
            ActionKind::HandleProcessFailure => 35,
            ActionKind::HandleIoFailure => 36,
        }
    }
}

} // verus!

verus! {

pub struct JobRequest {
    pub command: Vec<String>,
}

pub enum Intent {
    Submit { id: u64, owner: u32, job: JobRequest },
    Control { id: u64, signal: ControlSignal },
    Query { id: u64 },
    ForegroundChanged { pid: i32 },
    PackagesChanged,
    SystemRequest { request_id: u64, kind: SystemService, payload: Vec<u8> },
    AddonTask { addon_id: u32, key: String, payload: Vec<u8> },
    AddonLog { addon_id: u32, level: LogLevel, msg: String },
}

pub enum Action {
    AdvanceTime { delta: u64 },
    Submit { id: u64, owner: u32, job: JobRequest },
    Admitted { id: u64 },
    Rejected { id: u64, owner: u32, was_submitted: bool },
    Started { id: u64 },
    Controlled { id: u64 },
    Finished { id: u64, owner: u32, was_submitted: bool, result: Result<ExecResult, ExecError> },
    QueryResult { id: u64, result: Option<ExecOutcome> },
    SetJobIoState { id: u64, state: JobIoState },
    AssignProcess { id: u64, process: ProcessHandle },
    AssignIo { id: u64, io: IoHandle },
    SetLifecycle { id: u64, state: JobLifecycle },
    StartProcess { id: u64 },
    SignalProcess { process: ProcessHandle, signal: ControlSignal },
    PollProcess { process: ProcessHandle },
    PerformIo { io: IoHandle },
    RegisterInterest { io: IoHandle, stream: IoStream },
    RemoveInterest { io: IoHandle, stream: IoStream },
    EmitLog { owner: u32, level: LogLevel, event: LogEvent },
    Control { id: u64, signal: ControlSignal },
    Query { id: u64 },
    TimeoutReached { id: u64 },
    KillDeadlineReached { id: u64 },
    ForegroundChanged { pid: i32 },
    PackagesChanged,
    SystemRequest { request_id: u64, kind: SystemService, payload: Vec<u8> },
    AddonTask { addon_id: u32, key: String, payload: Vec<u8> },
    AddonLog { addon_id: u32, level: LogLevel, msg: String },
    AddonEvent { addon_id: u32, key: String },
    CleanupJob { id: u64 },
    TrackTimeout { id: u64, deadline: u64, kill_grace_ms: u32 },
    UntrackTimeout { id: u64 },
    UpdateTimeoutState { id: u64, state: TimeoutState },
    HandleSystemFailure { request_id: u64, kind: SystemService, err: String },
    HandleAddonFailure { addon_id: u32, key: String, err: String },
    HandleProcessFailure { process: ProcessHandle, err: String },
    HandleIoFailure { io: IoHandle, reason: String },
}

/// Scheduling class of an action; `Critical` is served first.
#[derive(Debug, Clone, Copy, PartialEq, Eq, Structural)]
pub enum Priority {
    Critical,
    Normal,
    Background,
}

/// Rank in the derived order `Critical < Normal < Background`.
pub open spec fn priority_rank(p: Priority) -> nat {
    match p {
        Priority::Critical => 0,
        Priority::Normal => 1,
        Priority::Background => 2,
    }
}

impl Priority {
    pub fn rank(&self) -> (r: u8)
        ensures
            r == priority_rank(*self),
    {
        match self {
            Priority::Critical => 0,
            Priority::Normal => 1,
            Priority::Background => 2,
        }
    }
}

#[derive(Clone, Copy, Debug, PartialEq, Eq, Structural)]
pub struct CauseId(pub u64);

#[derive(Clone, Copy)]
pub struct ActionMeta {
    pub id: CauseId,
    pub parent: Option<CauseId>,
    pub source: Principal,
    pub reply_to: Option<u32>,
}

pub struct RoutedAction {
    pub action: Action,
    pub meta: ActionMeta,
}

pub enum Effect {
    Log { owner: u32, level: LogLevel, event: LogEvent },
    WatchStream { io: IoHandle, stream: IoStream },
    UnwatchStream { io: IoHandle, stream: IoStream },
    StartProcess { id: u64, exec_spec: ExecSpec, policy: ExecPolicy },
    KillProcess { process: ProcessHandle, signal: ControlSignal },
    PollProcess { process: ProcessHandle },
    PerformIo { io: IoHandle },
    AddonTask { addon_id: u32, key: String, payload: Vec<u8> },
    AddonLog { addon_id: u32, level: LogLevel, msg: String },
    SystemRequest { request_id: u64, kind: SystemService, payload: Vec<u8> },
}

pub const CORE_OWNER: u32 = 0;

pub const WARMUP_OWNER: u32 = 1;

} // verus!

verus! {

/// The kind tag of an action.
pub open spec fn action_kind_spec(a: Action) -> ActionKind {
    match a {
        Action::AdvanceTime { .. } => ActionKind::AdvanceTime,
        Action::Submit { .. } => ActionKind::Submit,
        Action::Admitted { .. } => ActionKind::Admitted,
        Action::Rejected { .. } => ActionKind::Rejected,
        Action::Started { .. } => ActionKind::Started,
        Action::Controlled { .. } => ActionKind::Controlled,
        Action::Finished { .. } => ActionKind::Finished,
        Action::QueryResult { .. } => ActionKind::QueryResult,
        Action::SetJobIoState { .. } => ActionKind::SetJobIoState,
        Action::AssignProcess { .. } => ActionKind::AssignProcess,
        Action::AssignIo { .. } => ActionKind::AssignIo,
        Action::SetLifecycle { .. } => ActionKind::SetLifecycle,
        Action::StartProcess { .. } => ActionKind::StartProcess,
        Action::SignalProcess { .. } => ActionKind::SignalProcess,
        Action::PollProcess { .. } => ActionKind::PollProcess,
        Action::PerformIo { .. } => ActionKind::PerformIo,
        Action::RegisterInterest { .. } => ActionKind::RegisterInterest,
        Action::RemoveInterest { .. } => ActionKind::RemoveInterest,
        Action::EmitLog { .. } => ActionKind::EmitLog,
        Action::Control { .. } => ActionKind::Control,
        Action::Query { .. } => ActionKind::Query,
        Action::TimeoutReached { .. } => ActionKind::TimeoutReached,
        Action::KillDeadlineReached { .. } => ActionKind::KillDeadlineReached,
        Action::ForegroundChanged { .. } => ActionKind::ForegroundChanged,
        Action::PackagesChanged => ActionKind::PackagesChanged,
        Action::SystemRequest { .. } => ActionKind::SystemRequest,
        Action::AddonTask { .. } => ActionKind::AddonTask,
        Action::AddonLog { .. } => ActionKind::AddonLog,
        Action::AddonEvent { .. } => ActionKind::AddonEvent,
        Action::CleanupJob { .. } => ActionKind::CleanupJob,
        Action::TrackTimeout { .. } => ActionKind::TrackTimeout,
        Action::UntrackTimeout { .. } => ActionKind::UntrackTimeout,
        Action::UpdateTimeoutState { .. } => ActionKind::UpdateTimeoutState,
        Action::HandleSystemFailure { .. } => ActionKind::HandleSystemFailure,
        Action::HandleAddonFailure { .. } => ActionKind::HandleAddonFailure,
        Action::HandleProcessFailure { .. } => ActionKind::HandleProcessFailure,
        Action::HandleIoFailure { .. } => ActionKind::HandleIoFailure,
    }
}

/// The scheduling class of an action.
pub open spec fn action_priority_spec(a: Action) -> Priority {
    match a {
        Action::AdvanceTime { .. } => Priority::Critical,
        Action::Submit { .. } => Priority::Normal,
        Action::Admitted { .. } => Priority::Critical,
        Action::Rejected { .. } => Priority::Critical,
        Action::Started { .. } => Priority::Critical,
        Action::Controlled { .. } => Priority::Critical,
        Action::Finished { .. } => Priority::Critical,
        Action::QueryResult { .. } => Priority::Normal,
        Action::SetJobIoState { .. } => Priority::Critical,
        Action::AssignProcess { .. } => Priority::Critical,
        Action::AssignIo { .. } => Priority::Critical,
        Action::SetLifecycle { .. } => Priority::Critical,
        Action::StartProcess { .. } => Priority::Normal,
        Action::SignalProcess { .. } => Priority::Critical,
        Action::PollProcess { .. } => Priority::Normal,
        Action::PerformIo { .. } => Priority::Normal,
        Action::RegisterInterest { .. } => Priority::Normal,
        Action::RemoveInterest { .. } => Priority::Normal,
        Action::EmitLog { .. } => Priority::Background,
        Action::Control { .. } => Priority::Critical,
        Action::Query { .. } => Priority::Normal,
        Action::TimeoutReached { .. } => Priority::Critical,
        Action::KillDeadlineReached { .. } => Priority::Critical,
        Action::ForegroundChanged { .. } => Priority::Background,
        Action::PackagesChanged => Priority::Background,
        Action::SystemRequest { .. } => Priority::Background,
        Action::AddonTask { .. } => Priority::Background,
        Action::AddonLog { .. } => Priority::Background,
        Action::AddonEvent { .. } => Priority::Background,
        Action::CleanupJob { .. } => Priority::Normal,
        Action::TrackTimeout { .. } => Priority::Critical,
        Action::UntrackTimeout { .. } => Priority::Critical,
        Action::UpdateTimeoutState { .. } => Priority::Critical,
        Action::HandleSystemFailure { .. } => Priority::Critical,
        Action::HandleAddonFailure { .. } => Priority::Critical,
        Action::HandleProcessFailure { .. } => Priority::Critical,
        Action::HandleIoFailure { .. } => Priority::Critical,
    }
}

impl Action {
    pub fn kind(&self) -> (r: ActionKind)
        ensures
            r == action_kind_spec(*self),
    {
        match self {
            Action::AdvanceTime { .. } => ActionKind::AdvanceTime,
            Action::Submit { .. } => ActionKind::Submit,
            Action::Admitted { .. } => ActionKind::Admitted,
            Action::Rejected { .. } => ActionKind::Rejected,
            Action::Started { .. } => ActionKind::Started,
            Action::Controlled { .. } => ActionKind::Controlled,
            Action::Finished { .. } => ActionKind::Finished,
            Action::QueryResult { .. } => ActionKind::QueryResult,
            Action::SetJobIoState { .. } => ActionKind::SetJobIoState,
            Action::AssignProcess { .. } => ActionKind::AssignProcess,
            Action::AssignIo { .. } => ActionKind::AssignIo,
            Action::SetLifecycle { .. } => ActionKind::SetLifecycle,
            Action::StartProcess { .. } => ActionKind::StartProcess,
            Action::SignalProcess { .. } => ActionKind::SignalProcess,
            Action::PollProcess { .. } => ActionKind::PollProcess,
            Action::PerformIo { .. } => ActionKind::PerformIo,
            Action::RegisterInterest { .. } => ActionKind::RegisterInterest,
            Action::RemoveInterest { .. } => ActionKind::RemoveInterest,
            Action::EmitLog { .. } => ActionKind::EmitLog,
            Action::Control { .. } => ActionKind::Control,
            Action::Query { .. } => ActionKind::Query,
            Action::TimeoutReached { .. } => ActionKind::TimeoutReached,
            Action::KillDeadlineReached { .. } => ActionKind::KillDeadlineReached,
            Action::ForegroundChanged { .. } => ActionKind::ForegroundChanged,
            Action::PackagesChanged => ActionKind::PackagesChanged,
            Action::SystemRequest { .. } => ActionKind::SystemRequest,
            Action::AddonTask { .. } => ActionKind::AddonTask,
            Action::AddonLog { .. } => ActionKind::AddonLog,
            Action::AddonEvent { .. } => ActionKind::AddonEvent,
            Action::CleanupJob { .. } => ActionKind::CleanupJob,
            Action::TrackTimeout { .. } => ActionKind::TrackTimeout,
            Action::UntrackTimeout { .. } => ActionKind::UntrackTimeout,
            Action::UpdateTimeoutState { .. } => ActionKind::UpdateTimeoutState,
            Action::HandleSystemFailure { .. } => ActionKind::HandleSystemFailure,
            Action::HandleAddonFailure { .. } => ActionKind::HandleAddonFailure,
            Action::HandleProcessFailure { .. } => ActionKind::HandleProcessFailure,
            Action::HandleIoFailure { .. } => ActionKind::HandleIoFailure,
        }
    }

    pub fn priority(&self) -> (r: Priority)
        ensures
            r == action_priority_spec(*self),
    {
        match self {
            Action::AdvanceTime { .. } => Priority::Critical,
            Action::Submit { .. } => Priority::Normal,
            Action::Admitted { .. } => Priority::Critical,
            Action::Rejected { .. } => Priority::Critical,
            Action::Started { .. } => Priority::Critical,
            Action::Controlled { .. } => Priority::Critical,
            Action::Finished { .. } => Priority::Critical,
            Action::QueryResult { .. } => Priority::Normal,
            Action::SetJobIoState { .. } => Priority::Critical,
            Action::AssignProcess { .. } => Priority::Critical,
            Action::AssignIo { .. } => Priority::Critical,
            Action::SetLifecycle { .. } => Priority::Critical,
            Action::StartProcess { .. } => Priority::Normal,
            Action::SignalProcess { .. } => Priority::Critical,
            Action::PollProcess { .. } => Priority::Normal,
            Action::PerformIo { .. } => Priority::Normal,
            Action::RegisterInterest { .. } => Priority::Normal,
            Action::RemoveInterest { .. } => Priority::Normal,
            Action::EmitLog { .. } => Priority::Background,
            Action::Control { .. } => Priority::Critical,
            Action::Query { .. } => Priority::Normal,
            Action::TimeoutReached { .. } => Priority::Critical,
            Action::KillDeadlineReached { .. } => Priority::Critical,
            Action::ForegroundChanged { .. } => Priority::Background,
            Action::PackagesChanged => Priority::Background,
            Action::SystemRequest { .. } => Priority::Background,
            Action::AddonTask { .. } => Priority::Background,
            Action::AddonLog { .. } => Priority::Background,
            Action::AddonEvent { .. } => Priority::Background,
            Action::CleanupJob { .. } => Priority::Normal,
            Action::TrackTimeout { .. } => Priority::Critical,
            Action::UntrackTimeout { .. } => Priority::Critical,
            Action::UpdateTimeoutState { .. } => Priority::Critical,
            Action::HandleSystemFailure { .. } => Priority::Critical,
            Action::HandleAddonFailure { .. } => Priority::Critical,
            Action::HandleProcessFailure { .. } => Priority::Critical,
            Action::HandleIoFailure { .. } => Priority::Critical,
        }
    }
}

} // verus!

verus! {

impl ExecSpec {
    /// Same command line, stdin bytes, capture flags and output limit.
    pub open spec fn same_as(self, other: ExecSpec) -> bool {
        &&& self.argv@ == other.argv@
        &&& match (self.stdin, other.stdin) {
            (Some(a), Some(b)) => a@ == b@,
            (Option::None, Option::None) => true,
            _ => false,
        }
        &&& self.capture_stdout == other.capture_stdout
        &&& self.capture_stderr == other.capture_stderr
        &&& self.max_output == other.max_output
    }
}

impl Clone for ExecSpec {
    fn clone(&self) -> (r: Self)
        ensures
            r.same_as(*self),
    {
        let stdin = match &self.stdin {
            Some(b) => Some(b.clone()),
            Option::None => Option::None,
        };
        proof {
            if self.stdin.is_some() {
                assert(stdin.unwrap()@ =~= self.stdin.unwrap()@);
            }
        }
        let argv = self.argv.clone();
        assert(argv@ =~= self.argv@);
        ExecSpec {
            argv,
            stdin,
            capture_stdout: self.capture_stdout,
            capture_stderr: self.capture_stderr,
            max_output: self.max_output,
        }
    }
}

impl ExecResult {
    /// Same exit status, output bytes and timeout flag.
    pub open spec fn same_as(self, other: ExecResult) -> bool {
        &&& self.status == other.status
        &&& self.stdout@ == other.stdout@
        &&& self.stderr@ == other.stderr@
        &&& self.timed_out == other.timed_out
    }
}

impl Clone for ExecResult {
    fn clone(&self) -> (r: Self)
        ensures
            r.same_as(*self),
    {
        let stdout = self.stdout.clone();
        let stderr = self.stderr.clone();
        assert(stdout@ =~= self.stdout@);
        assert(stderr@ =~= self.stderr@);
        ExecResult { status: self.status, stdout, stderr, timed_out: self.timed_out }
    }
}

impl Clone for ExecError {
    fn clone(&self) -> (r: Self)
        ensures
            r == *self,
    {
        match self {
            ExecError::SpawnFailed => ExecError::SpawnFailed,
            ExecError::RuntimeError => ExecError::RuntimeError,
            ExecError::Internal(s) => ExecError::Internal(s.clone()),
        }
    }
}

/// Two job results carry the same outcome.
pub open spec fn same_result(a: Result<ExecResult, ExecError>, b: Result<ExecResult, ExecError>) -> bool {
    match (a, b) {
        (Ok(x), Ok(y)) => x.same_as(y),
        (Err(x), Err(y)) => x == y,
        _ => false,
    }
}

pub fn clone_result(r: &Result<ExecResult, ExecError>) -> (c: Result<ExecResult, ExecError>)
    ensures
        same_result(c, *r),
{
    match r {
        Ok(x) => Ok(x.clone()),
        Err(e) => Err(e.clone()),
    }
}

impl ExecOutcome {
    pub open spec fn same_as(self, other: ExecOutcome) -> bool {
        self.id == other.id && same_result(self.result, other.result)
    }
}

impl Clone for ExecOutcome {
    fn clone(&self) -> (r: Self)
        ensures
            r.same_as(*self),
    {
        ExecOutcome { id: self.id, result: clone_result(&self.result) }
    }
}

fn clone_opt_string(s: &Option<String>) -> (r: Option<String>)
    ensures
        r == *s,
{
    match s {
        Some(x) => Some(x.clone()),
        Option::None => Option::None,
    }
}

impl Clone for LogEvent {
    fn clone(&self) -> (r: Self)
        ensures
            r == *self,
    {
        match self {
            LogEvent::TickSummary { processed, dropped, queue_before, queue_after, elapsed_us } => LogEvent::TickSummary {
                processed: *processed,
                dropped: *dropped,
                queue_before: *queue_before,
                queue_after: *queue_after,
                elapsed_us: *elapsed_us,
            },
            LogEvent::ActionDispatch { kind, id, addon_id, key, service, payload_len } => LogEvent::ActionDispatch {
                kind: *kind,
                id: *id,
                addon_id: *addon_id,
                key: clone_opt_string(key),
                service: *service,
                payload_len: *payload_len,
            },
            LogEvent::PreloadForeground { pid, package } => LogEvent::PreloadForeground {
                pid: *pid,
                package: package.clone(),
            },
            LogEvent::PreloadSkip { package, reason, remaining_ms } => LogEvent::PreloadSkip {
                package: package.clone(),
                reason: reason.clone(),
                remaining_ms: *remaining_ms,
            },
            LogEvent::PreloadStart { package, paths } => LogEvent::PreloadStart { package: package.clone(), paths: *paths },
            LogEvent::PreloadDone { package, paths, bytes, duration_ms } => LogEvent::PreloadDone {
                package: package.clone(),
                paths: *paths,
                bytes: *bytes,
                duration_ms: *duration_ms,
            },
            LogEvent::PreloadFail { package, reason, backoff_ms } => LogEvent::PreloadFail {
                package: package.clone(),
                reason: reason.clone(),
                backoff_ms: *backoff_ms,
            },
            LogEvent::Generic(m) => LogEvent::Generic(m.clone()),
            LogEvent::Error { id, err } => LogEvent::Error { id: *id, err: err.clone() },
        }
    }
}

impl SystemService {
    /// The variant's name, as debug output spells it.
    pub fn name(&self) -> (r: &'static str)
        ensures
            r@ == system_service_name(*self),
    {
        match self {
            SystemService::ResolveIdentity => "ResolveIdentity",
            SystemService::ResolveDirectory => "ResolveDirectory",
            SystemService::DiscoverPaths => "DiscoverPaths",
        }
    }
}

pub open spec fn system_service_name(s: SystemService) -> Seq<char> {
    match s {
        SystemService::ResolveIdentity => "ResolveIdentity"@,
        SystemService::ResolveDirectory => "ResolveDirectory"@,
        SystemService::DiscoverPaths => "DiscoverPaths"@,
    }
}

impl Clone for JobRequest {
    fn clone(&self) -> (r: Self)
        ensures
            r.command@ == self.command@,
    {
        let command = self.command.clone();
        assert(command@ =~= self.command@);
        JobRequest { command }
    }
}

} // verus!

verus! {

/// An intent is admissible when a submitted command has between one and 63
/// words and a foreground pid is positive.
pub open spec fn intent_is_valid(intent: Intent) -> bool {
    match intent {
        Intent::Submit { job, .. } => 0 < job.command@.len() < 64,
        Intent::ForegroundChanged { pid } => pid > 0,
        _ => true,
    }
}

pub fn validate_intent(intent: &Intent) -> (r: bool)
    ensures
        r == intent_is_valid(*intent),
{
    match intent {
        Intent::Submit { job, .. } => job.command.len() > 0 && job.command.len() < 64,
        Intent::ForegroundChanged { pid } => *pid > 0,
        _ => true,
    }
}

/// A command whose first word is `dumpsys`.
pub open spec fn is_dumpsys(cmd: Seq<String>) -> bool {
    cmd.len() > 0 && cmd[0]@ == "dumpsys"@
}

/// `dumpsys` gets three seconds and half a second of kill grace; everything
/// else one second and 300 ms. Both are killed on timeout.
pub open spec fn default_policy_spec(cmd: Seq<String>) -> ExecPolicy {
    if is_dumpsys(cmd) {
        ExecPolicy { timeout_ms: Some(3000), kill_grace_ms: 500, cancel: CancelPolicy::Kill }
    } else {
        ExecPolicy { timeout_ms: Some(1000), kill_grace_ms: 300, cancel: CancelPolicy::Kill }
    }
}

pub fn default_policy(cmd: &[String]) -> (p: ExecPolicy)
    ensures
        p == default_policy_spec(cmd@),
{
    if cmd.len() > 0 && crate::text::str_eq(cmd[0].as_str(), "dumpsys") {
        ExecPolicy { timeout_ms: Some(3000), kill_grace_ms: 500, cancel: CancelPolicy::Kill }
    } else {
        ExecPolicy { timeout_ms: Some(1000), kill_grace_ms: 300, cancel: CancelPolicy::Kill }
    }
}

/// The timeout deadline of a submitted intent fits in the clock's range.
pub open spec fn intent_deadline_fits(intent: Intent, now: u64) -> bool {
    match intent {
        Intent::Submit { job, .. } => now + default_policy_spec(job.command@).timeout_ms.unwrap()
            <= u64::MAX,
        _ => true,
    }
}

/// The actions an intent stands for. A submission also starts tracking its
/// timeout, due `timeout_ms` after `now`.
pub open spec fn expand_intent_spec(intent: Intent, now: u64) -> Seq<Action> {
    match intent {
        Intent::Submit { id, owner, job } => {
            let p = default_policy_spec(job.command@);
            seq![
                Action::Submit { id, owner, job },
                Action::TrackTimeout {
                    id,
                    deadline: (now + p.timeout_ms.unwrap()) as u64,
                    kill_grace_ms: p.kill_grace_ms,
                },
            ]
        },
        Intent::Control { id, signal } => seq![Action::Control { id, signal }],
        Intent::Query { id } => seq![Action::Query { id }],
        Intent::ForegroundChanged { pid } => seq![Action::ForegroundChanged { pid }],
        Intent::PackagesChanged => seq![Action::PackagesChanged],
        Intent::SystemRequest { request_id, kind, payload } => seq![
            Action::SystemRequest { request_id, kind, payload },
        ],
        Intent::AddonTask { addon_id, key, payload } => seq![
            Action::AddonTask { addon_id, key, payload },
        ],
        Intent::AddonLog { addon_id, level, msg } => seq![Action::AddonLog { addon_id, level, msg }],
    }
}

pub fn expand_intent(intent: Intent, now: u64) -> (actions: Vec<Action>)
    requires
        intent_deadline_fits(intent, now),
    ensures
        actions@ == expand_intent_spec(intent, now),
{
    let ghost orig = intent;
    let mut actions: Vec<Action> = Vec::new();
    match intent {
        Intent::Submit { id, owner, job } => {
            let policy = default_policy(job.command.as_slice());
            let timeout_ms = policy.timeout_ms.unwrap();
            actions.push(Action::Submit { id, owner, job });
            actions.push(
                Action::TrackTimeout {
                    id,
                    deadline: now + timeout_ms as u64,
                    kill_grace_ms: policy.kill_grace_ms,
                },
            );
        },
        Intent::Control { id, signal } => actions.push(Action::Control { id, signal }),
        Intent::Query { id } => actions.push(Action::Query { id }),
        Intent::ForegroundChanged { pid } => actions.push(Action::ForegroundChanged { pid }),
        Intent::PackagesChanged => actions.push(Action::PackagesChanged),
        Intent::SystemRequest { request_id, kind, payload } => actions.push(
            Action::SystemRequest { request_id, kind, payload },
        ),
        Intent::AddonTask { addon_id, key, payload } => actions.push(
            Action::AddonTask { addon_id, key, payload },
        ),
        Intent::AddonLog { addon_id, level, msg } => actions.push(
            Action::AddonLog { addon_id, level, msg },
        ),
    }
    assert(actions@ =~= expand_intent_spec(orig, now));
    actions
}

} // verus!
