//! Reducers: the only code that changes the execution state. Each applies
//! the actions it handles and records the effects the outside world must
//! carry out.

use vstd::prelude::*;
use crate::machine::core_state::{fields_of, index_cleared, index_set, new_job_spec, with_fields, CoreState, JobFields};
use crate::machine::execution::{id_handle, ExecutionState};
use crate::machine::job_table::{
    job_at, jobs_view, lemma_view_insert, lemma_view_remove, lemma_view_set_fields,
};
use crate::machine::state::{JobIoState, JobLifecycle, JobRuntime, JobState};
use crate::machine::types::{
    default_policy, default_policy_spec, Action, ActionKind, Effect, ExecSpec, IoHandle, JobHandle,
    LogEvent, LogLevel, ProcessHandle,
};

verus! {

broadcast use crate::machine::core_state::lemma_moved_is_same_drift;

/// Output cap given to every submitted job, in bytes.
pub const SUBMIT_MAX_OUTPUT: usize = 1048576;

/// Effects are alike when they are equal, except that process starts are
/// compared by their command description (its vectors are copies).
pub open spec fn effect_alike(a: Effect, b: Effect) -> bool {
    match (a, b) {
        (
            Effect::StartProcess { id: i, exec_spec: e, policy: p },
            Effect::StartProcess { id: j, exec_spec: f, policy: q },
        ) => i == j && e.same_as(f) && p == q,
        _ => a == b,
    }
}

pub open spec fn effects_alike(a: Seq<Effect>, b: Seq<Effect>) -> bool {
    &&& a.len() == b.len()
    &&& forall|i: int| 0 <= i < a.len() ==> #[trigger] effect_alike(a[i], b[i])
}

/// The job record a submission registers for `cmd`.
pub open spec fn submitted_job(j: JobState, id: u64, owner: u32, cmd: Seq<String>) -> bool {
    &&& j == new_job_spec(id, owner, j.exec_spec, default_policy_spec(cmd))
    &&& j.exec_spec.argv@ == cmd
    &&& j.exec_spec.stdin is None
    &&& j.exec_spec.capture_stdout
    &&& j.exec_spec.capture_stderr
    &&& j.exec_spec.max_output == SUBMIT_MAX_OUTPUT
}

/// The handle of the job a field-changing action is about: by id, or by the
/// process or IO index.
pub open spec fn target_handle(core: CoreState, a: Action) -> Option<JobHandle> {
    match a {
        Action::SetLifecycle { id, .. } => id_handle(core, id),
        Action::Finished { id, .. } => id_handle(core, id),
        Action::Rejected { id, .. } => id_handle(core, id),
        Action::AssignProcess { id, .. } => id_handle(core, id),
        Action::AssignIo { id, .. } => id_handle(core, id),
        Action::SetJobIoState { id, .. } => id_handle(core, id),
        Action::TimeoutReached { id } => id_handle(core, id),
        Action::HandleProcessFailure { process, .. } => CoreState::index_lookup(core.process_index@, process.index),
        Action::HandleIoFailure { io, .. } => CoreState::index_lookup(core.io_index@, io.index),
        _ => None,
    }
}

/// The live job the action is about, if any.
pub open spec fn target_job(core: CoreState, a: Action) -> Option<JobState> {
    match target_handle(core, a) {
        Some(h) => core.jobs.spec_get(h.index, h.generation),
        None => None,
    }
}

/// The changeable fields of `j` after the action.
pub open spec fn job_field_update(j: JobState, a: Action) -> JobFields {
    let f = fields_of(j);
    match a {
        Action::SetLifecycle { state, .. } => JobFields { lifecycle: state, ..f },
        Action::Finished { .. } => JobFields { lifecycle: JobLifecycle::Finished, ..f },
        Action::Rejected { .. } => JobFields { lifecycle: JobLifecycle::Finished, ..f },
        Action::AssignProcess { process, .. } => JobFields { process: Some(process), ..f },
        Action::AssignIo { io, .. } => JobFields { io: Some(io), ..f },
        Action::SetJobIoState { state, .. } => JobFields { io_state: state, ..f },
        Action::TimeoutReached { .. } => JobFields { timed_out: true, ..f },
        Action::HandleProcessFailure { .. } => JobFields { process: None, ..f },
        Action::HandleIoFailure { .. } => JobFields { io: None, io_state: JobIoState::Closed, ..f },
        _ => f,
    }
}

/// The jobs by id after a job action other than a submission.
pub open spec fn jobs_after(core: CoreState, a: Action) -> Map<u64, JobState> {
    match a {
        Action::CleanupJob { id } => jobs_view(core).remove(id),
        _ => match target_job(core, a) {
            Some(j) => if id_handle(core, j.id) == target_handle(core, a) {
                jobs_view(core).insert(j.id, with_fields(j, job_field_update(j, a)))
            } else {
                jobs_view(core)
            },
            None => jobs_view(core),
        },
    }
}

/// The effects a job action asks for.
pub open spec fn job_effects(core: CoreState, a: Action) -> Seq<Effect> {
    match a {
        Action::PollProcess { process } => seq![Effect::PollProcess { process }],
        Action::StartProcess { id } => match job_at(core, id) {
            Some(j) => seq![Effect::StartProcess { id, exec_spec: j.exec_spec, policy: j.policy }],
            None => seq![],
        },
        Action::SignalProcess { process, signal } => seq![Effect::KillProcess { process, signal }],
        Action::HandleProcessFailure { err, .. } => match target_job(core, a) {
            Some(j) => seq![
                Effect::Log { owner: j.owner, level: LogLevel::Error, event: LogEvent::Error { id: j.id, err } },
            ],
            None => seq![],
        },
        Action::HandleIoFailure { reason, .. } => match target_job(core, a) {
            Some(j) => seq![
                Effect::Log {
                    owner: j.owner,
                    level: LogLevel::Error,
                    event: LogEvent::Error { id: j.id, err: reason },
                },
            ],
            None => seq![],
        },
        _ => seq![],
    }
}

/// The process index after an action: an assignment moves the job's entry
/// from its previous process to the new one.
pub open spec fn process_index_after(core: CoreState, a: Action) -> Seq<Option<JobHandle>> {
    match a {
        Action::AssignProcess { id, process } => match job_at(core, id) {
            Some(_) => {
                let h = core.job_id_map@[id];
                let cleared = match core.spec_runtime(h) {
                    Some(rt) => match rt.process {
                        Some(o) => index_cleared(core.process_index@, o.index as int),
                        None => core.process_index@,
                    },
                    None => core.process_index@,
                };
                index_set(cleared, process.index as int, h)
            },
            None => core.process_index@,
        },
        Action::CleanupJob { id } => match job_at(core, id) {
            Some(j) => match j.process {
                Some(p) => index_cleared(core.process_index@, p.index as int),
                None => core.process_index@,
            },
            None => core.process_index@,
        },
        _ => core.process_index@,
    }
}

/// The IO index after an action, like `process_index_after`.
pub open spec fn io_index_after(core: CoreState, a: Action) -> Seq<Option<JobHandle>> {
    match a {
        Action::AssignIo { id, io } => match job_at(core, id) {
            Some(_) => {
                let h = core.job_id_map@[id];
                let cleared = match core.spec_runtime(h) {
                    Some(rt) => match rt.io {
                        Some(o) => index_cleared(core.io_index@, o.index as int),
                        None => core.io_index@,
                    },
                    None => core.io_index@,
                };
                index_set(cleared, io.index as int, h)
            },
            None => core.io_index@,
        },
        Action::CleanupJob { id } => match job_at(core, id) {
            Some(j) => match j.io {
                Some(io) => index_cleared(core.io_index@, io.index as int),
                None => core.io_index@,
            },
            None => core.io_index@,
        },
        _ => core.io_index@,
    }
}

/// The runtime records after an assignment: the job's record takes the new handle.
pub open spec fn runtime_after(core: CoreState, a: Action) -> Seq<Option<JobRuntime>> {
    match a {
        Action::AssignProcess { id, process } => match job_at(core, id) {
            Some(_) => {
                let h = core.job_id_map@[id];
                match core.spec_runtime(h) {
                    Some(rt) => core.runtime@.update(h.index as int, Some(JobRuntime { process: Some(process), io: rt.io })),
                    None => core.runtime@,
                }
            },
            None => core.runtime@,
        },
        Action::AssignIo { id, io } => match job_at(core, id) {
            Some(_) => {
                let h = core.job_id_map@[id];
                match core.spec_runtime(h) {
                    Some(rt) => core.runtime@.update(h.index as int, Some(JobRuntime { process: rt.process, io: Some(io) })),
                    None => core.runtime@,
                }
            },
            None => core.runtime@,
        },
        Action::CleanupJob { id } => match job_at(core, id) {
            Some(_) => {
                let h = core.job_id_map@[id];
                if (h.index as int) < core.runtime@.len() {
                    core.runtime@.update(h.index as int, None)
                } else {
                    core.runtime@
                }
            },
            None => core.runtime@,
        },
        _ => core.runtime@,
    }
}

/// The state invariants every reducer keeps: every registered id reaches
/// its job, the index counts are exact, and every registered job has its
/// runtime record.
pub open spec fn core_wf(core: CoreState) -> bool {
    core.jobs_indexed() && core.counts_match() && core.runtime_paired()
}

/// Everything but the core store is left alone.
pub open spec fn only_core_changed(a: ExecutionState, b: ExecutionState) -> bool {
    &&& a.timeout == b.timeout
    &&& a.result == b.result
    &&& a.metrics == b.metrics
    &&& a.clock == b.clock
    &&& a.hash == b.hash
}

fn field_update(j: &JobState, a: &Action) -> (f: JobFields)
    ensures
        f == job_field_update(*j, *a),
{
    let f = JobFields {
        process: j.process,
        io: j.io,
        timed_out: j.timed_out,
        lifecycle: j.lifecycle,
        io_state: j.io_state,
    };
    match a {
        Action::SetLifecycle { state, .. } => JobFields { lifecycle: *state, ..f },
        Action::Finished { .. } => JobFields { lifecycle: JobLifecycle::Finished, ..f },
        Action::Rejected { .. } => JobFields { lifecycle: JobLifecycle::Finished, ..f },
        Action::AssignProcess { process, .. } => JobFields { process: Some(*process), ..f },
        Action::AssignIo { io, .. } => JobFields { io: Some(*io), ..f },
        Action::SetJobIoState { state, .. } => JobFields { io_state: *state, ..f },
        Action::TimeoutReached { .. } => JobFields { timed_out: true, ..f },
        Action::HandleProcessFailure { .. } => JobFields { process: None, ..f },
        Action::HandleIoFailure { .. } => JobFields { io: None, io_state: JobIoState::Closed, ..f },
        _ => f,
    }
}

/// Applies a field-changing action to the live job under `h`.
fn update_target(core: &mut CoreState, h: JobHandle, a: &Action)
    requires
        core_wf(*old(core)),
        target_handle(*old(core), *a) == Some(h),
    ensures
        core_wf(*final(core)),
        old(core).hash_consistent() ==> final(core).hash_consistent(),
        final(core).hash_moved_with(old(core)),
        jobs_view(*final(core)) == jobs_after(*old(core), *a),
        final(core).process_index == old(core).process_index,
        final(core).io_index == old(core).io_index,
        final(core).runtime == old(core).runtime,
        final(core).process_count == old(core).process_count,
        final(core).io_count == old(core).io_count,
        final(core).job_id_map == old(core).job_id_map,
{
    let ghost pre = *core;
    match core.job(h) {
        Some(j) => {
            let id = j.id;
            let f = field_update(j, a);
            let ghost jv = *j;
            core.set_job_fields(id, h, f);
            proof {
                if pre.job_id_map@.contains_key(jv.id) && pre.job_id_map@[jv.id] == h {
                    lemma_view_set_fields(pre, *core, jv.id, h, f);
                } else {
                    assert forall|k: u64| #[trigger] job_at(*core, k) == job_at(pre, k) by {
                        if pre.job_id_map@.contains_key(k) {
                            let hk = pre.job_id_map@[k];
                            if hk.index == h.index {
                                assert(pre.jobs.spec_get(hk.index, hk.generation) is Some);
                                assert(hk.generation == h.generation);
                            }
                        }
                    }
                    assert(jobs_view(*core) =~= jobs_view(pre));
                }
            }
        },
        None => {
            proof {
                assert(jobs_view(*core) =~= jobs_after(pre, *a));
            }
        },
    }
}

fn assign_process(core: &mut CoreState, a: &Action, id: u64, process: ProcessHandle)
    requires
        core_wf(*old(core)),
        *a == (Action::AssignProcess { id, process }),
    ensures
        core_wf(*final(core)),
        old(core).hash_consistent() ==> final(core).hash_consistent(),
        final(core).hash_moved_with(old(core)),
        jobs_view(*final(core)) == jobs_after(*old(core), *a),
        final(core).process_index@ == process_index_after(*old(core), *a),
        final(core).io_index@ == io_index_after(*old(core), *a),
        final(core).runtime@ == runtime_after(*old(core), *a),
        final(core).job_id_map == old(core).job_id_map,
{
    let ghost pre = *core;
    if let Some(h) = core.job_handle(id) {
        if core.job(h).is_some() {
            update_target(core, h, a);
            let ghost mid = *core;
            match core.runtime(h) {
                Some(rt) => {
                    let rt = *rt;
                    if let Some(old_p) = rt.process {
                        core.remove_process_index(old_p);
                    }
                    core.set_runtime(h, JobRuntime { process: Some(process), io: rt.io });
                },
                None => {},
            }
            core.insert_process_index(process, h);
            proof {
                assert(jobs_view(*core) =~= jobs_view(mid));
            }
        } else {
            proof {
                assert(jobs_view(*core) =~= jobs_after(pre, *a));
            }
        }
    } else {
        proof {
            assert(jobs_view(*core) =~= jobs_after(pre, *a));
        }
    }
}

fn assign_io(core: &mut CoreState, a: &Action, id: u64, io: IoHandle)
    requires
        core_wf(*old(core)),
        *a == (Action::AssignIo { id, io }),
    ensures
        core_wf(*final(core)),
        old(core).hash_consistent() ==> final(core).hash_consistent(),
        final(core).hash_moved_with(old(core)),
        jobs_view(*final(core)) == jobs_after(*old(core), *a),
        final(core).process_index@ == process_index_after(*old(core), *a),
        final(core).io_index@ == io_index_after(*old(core), *a),
        final(core).runtime@ == runtime_after(*old(core), *a),
        final(core).job_id_map == old(core).job_id_map,
{
    let ghost pre = *core;
    if let Some(h) = core.job_handle(id) {
        if core.job(h).is_some() {
            update_target(core, h, a);
            let ghost mid = *core;
            match core.runtime(h) {
                Some(rt) => {
                    let rt = *rt;
                    if let Some(old_io) = rt.io {
                        core.remove_io_index(old_io);
                    }
                    core.set_runtime(h, JobRuntime { process: rt.process, io: Some(io) });
                },
                None => {},
            }
            core.insert_io_index(io, h);
            proof {
                assert(jobs_view(*core) =~= jobs_view(mid));
            }
        } else {
            proof {
                assert(jobs_view(*core) =~= jobs_after(pre, *a));
            }
        }
    } else {
        proof {
            assert(jobs_view(*core) =~= jobs_after(pre, *a));
        }
    }
}

fn cleanup_job(core: &mut CoreState, a: &Action, id: u64)
    requires
        core_wf(*old(core)),
        *a == (Action::CleanupJob { id }),
    ensures
        core_wf(*final(core)),
        old(core).hash_consistent() ==> final(core).hash_consistent(),
        final(core).hash_moved_with(old(core)),
        jobs_view(*final(core)) == jobs_after(*old(core), *a),
        final(core).process_index@ == process_index_after(*old(core), *a),
        final(core).io_index@ == io_index_after(*old(core), *a),
        final(core).runtime@ == runtime_after(*old(core), *a),
{
    let ghost pre = *core;
    let removed = core.remove_job(id);
    proof {
        if pre.job_id_map@.contains_key(id) {
            if removed is Some {
                lemma_view_remove(pre, *core, id);
            } else {
                assert forall|k: u64| k != id implies #[trigger] job_at(*core, k) == job_at(pre, k) by {}
                assert(jobs_view(*core) =~= jobs_view(pre).remove(id));
            }
        } else {
            assert(jobs_view(*core) =~= jobs_view(pre).remove(id));
        }
    }
}

/// The state a submission leaves behind: a new id gets a fresh submitted job
/// with its own empty runtime record; a known id changes nothing.
pub open spec fn submit_result(old_core: CoreState, new_core: CoreState, id: u64, owner: u32, cmd: Seq<String>) -> bool {
    if old_core.job_id_map@.contains_key(id) {
        new_core == old_core
    } else {
        &&& jobs_view(new_core).contains_key(id)
        &&& submitted_job(jobs_view(new_core)[id], id, owner, cmd)
        &&& jobs_view(new_core) == jobs_view(old_core).insert(id, jobs_view(new_core)[id])
        &&& new_core.spec_runtime(new_core.job_id_map@[id]) == Some(JobRuntime { process: None, io: None })
        &&& new_core.process_index == old_core.process_index
        &&& new_core.io_index == old_core.io_index
    }
}

fn submit_job(core: &mut CoreState, id: u64, owner: u32, command: &Vec<String>)
    requires
        core_wf(*old(core)),
        old(core).jobs.slots@.len() < u32::MAX,
    ensures
        core_wf(*final(core)),
        old(core).hash_consistent() ==> final(core).hash_consistent(),
        final(core).hash_moved_with(old(core)),
        submit_result(*old(core), *final(core), id, owner, command@),
{
    let ghost pre = *core;
    let policy = default_policy(command.as_slice());
    let argv = command.clone();
    assert(argv@ =~= command@);
    let exec_spec = ExecSpec {
        argv,
        stdin: None,
        capture_stdout: true,
        capture_stderr: true,
        max_output: SUBMIT_MAX_OUTPUT,
    };
    let ghost e = exec_spec;
    core.insert_job(id, owner, exec_spec, policy);
    proof {
        if !pre.job_id_map@.contains_key(id) {
            lemma_view_insert(pre, *core, id, new_job_spec(id, owner, e, policy));
        }
    }
}

/// Applies job actions: registration, lifecycle and IO state changes,
/// process and IO assignment, failures and cleanup.
pub struct JobReducer;

impl JobReducer {
    pub fn handles(&self) -> (r: Vec<ActionKind>)
        ensures
            r@ == seq![
                ActionKind::Submit,
                ActionKind::SetLifecycle,
                ActionKind::Finished,
                ActionKind::Rejected,
                ActionKind::CleanupJob,
                ActionKind::TimeoutReached,
                ActionKind::AssignProcess,
                ActionKind::StartProcess,
                ActionKind::PollProcess,
                ActionKind::SignalProcess,
                ActionKind::HandleProcessFailure,
                ActionKind::SetJobIoState,
                ActionKind::AssignIo,
                ActionKind::HandleIoFailure,
            ],
    {
        let v = vec![
            ActionKind::Submit,
            ActionKind::SetLifecycle,
            ActionKind::Finished,
            ActionKind::Rejected,
            ActionKind::CleanupJob,
            ActionKind::TimeoutReached,
            ActionKind::AssignProcess,
            ActionKind::StartProcess,
            ActionKind::PollProcess,
            ActionKind::SignalProcess,
            ActionKind::HandleProcessFailure,
            ActionKind::SetJobIoState,
            ActionKind::AssignIo,
            ActionKind::HandleIoFailure,
        ];
        v
    }

    pub fn apply(&self, state: &mut ExecutionState, action: &Action, effects: &mut Vec<Effect>)
        requires
            core_wf(old(state).core),
            action is Submit ==> old(state).core.jobs.slots@.len() < u32::MAX,
        ensures
            core_wf(final(state).core),
            old(state).core.hash_consistent() ==> final(state).core.hash_consistent(),
            final(state).core.hash_moved_with(&old(state).core),
            only_core_changed(*old(state), *final(state)),
            effects_alike(final(effects)@, old(effects)@ + job_effects(old(state).core, *action)),
            match *action {
                Action::Submit { id, owner, job } => submit_result(old(state).core, final(state).core, id, owner, job.command@),
                _ => {
                    &&& (!(*action is CleanupJob) ==> final(state).core.job_id_map == old(state).core.job_id_map)
                    &&& jobs_view(final(state).core) == jobs_after(old(state).core, *action)
                    &&& final(state).core.process_index@ == process_index_after(old(state).core, *action)
                    &&& final(state).core.io_index@ == io_index_after(old(state).core, *action)
                    &&& final(state).core.runtime@ == runtime_after(old(state).core, *action)
                },
            },
    {
        let ghost pre = state.core;
        let ghost eff0 = effects@;
        let core = &mut state.core;
        match action {
            Action::Submit { id, owner, job } => {
                submit_job(core, *id, *owner, &job.command);
            },
            Action::CleanupJob { id } => {
                cleanup_job(core, action, *id);
            },
            Action::AssignProcess { id, process } => {
                assign_process(core, action, *id, *process);
            },
            Action::AssignIo { id, io } => {
                assign_io(core, action, *id, *io);
            },
            Action::SetLifecycle { id, .. }
            | Action::Finished { id, .. }
            | Action::Rejected { id, .. }
            | Action::SetJobIoState { id, .. }
            | Action::TimeoutReached { id } => {
                match core.job_handle(*id) {
                    Some(h) => update_target(core, h, action),
                    None => {
                        proof {
                            assert(jobs_view(*core) =~= jobs_after(pre, *action));
                        }
                    },
                }
            },
            Action::HandleProcessFailure { process, err } => {
                match core.job_by_process(*process) {
                    Some(h) => {
                        if let Some(j) = core.job(h) {
                            effects.push(
                                Effect::Log {
                                    owner: j.owner,
                                    level: LogLevel::Error,
                                    event: LogEvent::Error { id: j.id, err: err.clone() },
                                },
                            );
                        }
                        update_target(core, h, action);
                    },
                    None => {
                        proof {
                            assert(jobs_view(*core) =~= jobs_after(pre, *action));
                        }
                    },
                }
            },
            Action::HandleIoFailure { io, reason } => {
                match core.job_by_io(*io) {
                    Some(h) => {
                        if let Some(j) = core.job(h) {
                            effects.push(
                                Effect::Log {
                                    owner: j.owner,
                                    level: LogLevel::Error,
                                    event: LogEvent::Error { id: j.id, err: reason.clone() },
                                },
                            );
                        }
                        update_target(core, h, action);
                    },
                    None => {
                        proof {
                            assert(jobs_view(*core) =~= jobs_after(pre, *action));
                        }
                    },
                }
            },
            Action::PollProcess { process } => {
                effects.push(Effect::PollProcess { process: *process });
                proof {
                    assert(jobs_view(*core) =~= jobs_after(pre, *action));
                }
            },
            Action::StartProcess { id } => {
                if let Some(h) = core.job_handle(*id) {
                    if let Some(j) = core.job(h) {
                        effects.push(
                            Effect::StartProcess { id: *id, exec_spec: j.exec_spec.clone(), policy: j.policy },
                        );
                    }
                }
                proof {
                    assert(jobs_view(*core) =~= jobs_after(pre, *action));
                }
            },
            Action::SignalProcess { process, signal } => {
                effects.push(Effect::KillProcess { process: *process, signal: *signal });
                proof {
                    assert(jobs_view(*core) =~= jobs_after(pre, *action));
                }
            },
            _ => {
                proof {
                    assert(jobs_view(*core) =~= jobs_after(pre, *action));
                }
            },
        }
        proof {
            let want = eff0 + job_effects(pre, *action);
            assert forall|i: int| 0 <= i < effects@.len() implies #[trigger] effect_alike(effects@[i], want[i]) by {
                if i < eff0.len() {
                    assert(effects@[i] == eff0[i]);
                }
            }
        }
    }
}

} // verus!
