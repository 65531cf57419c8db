use corepolicy_manager::machine::core_state::CoreState;
use corepolicy_manager::high_level::identity::Principal;
use corepolicy_manager::machine::execution::ExecutionState;
use corepolicy_manager::machine::scheduler::Scheduler;
use corepolicy_manager::machine::state_view::StateView;
use corepolicy_manager::machine::types::{
    Action, ActionMeta, CancelPolicy, CauseId, Event, ExecPolicy, ExecSpec, LogEvent, LogLevel, RoutedAction,
};
use corepolicy_manager::machine::engine::Core;
use corepolicy_manager::machine::types::{Handle, JobRequest};
use corepolicy_manager::machine::verify::verify_global;

fn meta() -> ActionMeta {
    ActionMeta { id: CauseId(1), parent: None, source: Principal::System, reply_to: None }
}

fn spec_true() -> ExecSpec {
    ExecSpec {
        argv: vec!["true".to_string()],
        stdin: None,
        capture_stdout: false,
        capture_stderr: false,
        max_output: 0,
    }
}

fn policy_none() -> ExecPolicy {
    ExecPolicy { timeout_ms: None, kill_grace_ms: 0, cancel: CancelPolicy::Ignore }
}

#[test]
fn test_scheduler_budget() {
    let mut scheduler = Scheduler::new(10);
    let mut state = ExecutionState::new();
    let meta = meta();

    for i in 0..20 {
        scheduler.enqueue(
            RoutedAction { action: Action::AdvanceTime { delta: i as u64 }, meta: meta.clone() },
            &mut state,
        );
    }

    let mut count = 0;
    while scheduler.pop_next().is_some() {
        count += 1;
    }

    assert_eq!(count, 10);
    assert!(scheduler.is_exhausted());
}

#[test]
fn test_scheduler_priority_eviction() {
    let mut scheduler = Scheduler::new(1000000);
    let mut state = ExecutionState::new();
    let meta = meta();

    for _ in 0..4096 {
        scheduler.enqueue(
            RoutedAction {
                action: Action::EmitLog {
                    owner: 0,
                    level: LogLevel::Info,
                    event: LogEvent::Generic("test".to_string()),
                },
                meta: meta.clone(),
            },
            &mut state,
        );
    }

    assert_eq!(scheduler.total_len, 1000);

    let res = scheduler.enqueue(
        RoutedAction { action: Action::AdvanceTime { delta: 1 }, meta: meta.clone() },
        &mut state,
    );

    assert!(res.is_none());
    assert_eq!(scheduler.total_len, 1001);
}

#[test]
fn execution_state_job_view_handles_stale_core_handles() {
    let mut state = ExecutionState::new();
    state.core.insert_job(7, 42, spec_true(), policy_none());

    let handle = state.core.job_handle(7).expect("job handle must exist");
    let removed = state.core.jobs.remove(handle.index, handle.generation);
    assert!(removed.is_some());

    assert!(state.job(7).is_none());
}

#[test]
fn verify_global_reports_drift_without_panicking() {
    let mut state = ExecutionState::new();
    state.core.insert_job(9, 7, spec_true(), policy_none());

    let handle = state.core.job_handle(9).expect("job handle must exist");
    state.core.runtime[handle.index as usize] = None;

    let err = verify_global(&state).expect_err("drift must be reported");
    assert!(err.contains("job missing runtime mapping"));
}

#[test]
fn verify_global_reports_core_hash_drift() {
    let mut state = ExecutionState::new();
    state.core.insert_job(11, 3, spec_true(), policy_none());
    state.core.hash ^= 1;

    let err = verify_global(&state).expect_err("hash drift must be reported");
    assert!(err.contains("core hash drift"));
}

#[test]
fn reactor_timeout_honors_tick_deadline() {
    assert_eq!(corepolicy_manager::compute_reactor_timeout_ms(-1, 0), 16);
    assert_eq!(corepolicy_manager::compute_reactor_timeout_ms(-1, 15), 1);
    assert_eq!(corepolicy_manager::compute_reactor_timeout_ms(-1, 16), 0);
    assert_eq!(corepolicy_manager::compute_reactor_timeout_ms(50, 0), 16);
    assert_eq!(corepolicy_manager::compute_reactor_timeout_ms(5, 0), 5);
    assert_eq!(corepolicy_manager::compute_reactor_timeout_ms(0, 0), 0);
}

#[test]
fn verify_global_accepts_fresh_and_populated_state() {
    let mut state = ExecutionState::new();
    assert!(verify_global(&state).is_ok());
    state.core.insert_job(1, 5, spec_true(), policy_none());
    state.core.insert_job(2, 6, spec_true(), policy_none());
    assert!(verify_global(&state).is_ok());
    let removed = state.core.remove_job(1);
    assert!(removed.is_some());
    assert!(verify_global(&state).is_ok());
}

#[test]
fn scheduler_reports_kind_bound_drop() {
    let mut scheduler = Scheduler::new(10);
    let mut state = ExecutionState::new();
    for _ in 0..1000 {
        assert!(scheduler
            .enqueue(RoutedAction { action: Action::Query { id: 1 }, meta: meta() }, &mut state)
            .is_none());
    }
    let res = scheduler.enqueue(RoutedAction { action: Action::Query { id: 1 }, meta: meta() }, &mut state);
    assert!(matches!(res, Some(Event::DroppedAction { .. })));
    assert_eq!(state.metrics.dropped_actions, 1);
    assert_eq!(scheduler.total_len, 1000);
}

#[test]
fn scheduler_serves_critical_lane_first() {
    let mut scheduler = Scheduler::new(100);
    let mut state = ExecutionState::new();
    scheduler.enqueue(
        RoutedAction {
            action: Action::EmitLog { owner: 0, level: LogLevel::Info, event: LogEvent::Generic("bg".to_string()) },
            meta: meta(),
        },
        &mut state,
    );
    scheduler.enqueue(RoutedAction { action: Action::Admitted { id: 3 }, meta: meta() }, &mut state);
    let first = scheduler.pop_next().expect("an action is queued");
    assert!(matches!(first.action, Action::Admitted { id: 3 }));
    let second = scheduler.pop_next().expect("an action is queued");
    assert!(matches!(second.action, Action::EmitLog { .. }));
    assert!(scheduler.pop_next().is_none());
    assert!(scheduler.is_exhausted());
}

#[test]
fn core_steps_keep_the_core_hash_consistent() {
    let core = Core::new();
    let mut state = ExecutionState::new();
    let mut effects = Vec::new();
    let submit = Action::Submit { id: 7, owner: 3, job: JobRequest { command: vec!["true".to_string()] } };
    core.step(&mut state, &submit, &mut effects);
    core.step(&mut state, &Action::Admitted { id: 7 }, &mut effects);
    core.step(&mut state, &Action::Started { id: 7 }, &mut effects);
    let process = Handle { index: 0, generation: 1, _marker: std::marker::PhantomData };
    core.step(&mut state, &Action::AssignProcess { id: 7, process }, &mut effects);
    assert_eq!(state.core.hash, state.core.recompute_hash_full());
    assert!(verify_global(&state).is_ok());

    // The process leads back to its job.
    let h = state.core.job_handle(7).expect("job 7 is registered");
    let found = state.core.job_by_process(process).expect("the process is indexed");
    assert_eq!((found.index, found.generation), (h.index, h.generation));

    // Cleaning up forgets the job.
    core.step(&mut state, &Action::CleanupJob { id: 7 }, &mut effects);
    assert!(state.core.job_handle(7).is_none());
    assert_eq!(state.core.hash, state.core.recompute_hash_full());
}

#[test]
fn insert_then_remove_restores_a_drifted_hash() {
    let mut s = CoreState::new();
    s.insert_job(1, 2, spec_true(), policy_none());
    s.hash ^= 0x55;
    let before = s.hash;
    s.insert_job(3, 9, spec_true(), policy_none());
    assert_ne!(s.hash, before);
    let h = s.job_handle(3).unwrap();
    let r = s.remove_job(3).unwrap();
    assert_eq!(r.id, 3);
    assert_eq!(r.owner, 9);
    assert_eq!(s.hash, before);
    assert!(s.job_handle(3).is_none());
    assert!(s.job(h).is_none());
    assert!(s.runtime(h).is_none());
    assert!(s.remove_job(3).is_none());
    assert_eq!(s.hash, before);
    assert_ne!(s.recompute_hash_full(), s.hash);
}

#[test]
fn removing_an_absent_index_entry_changes_nothing() {
    let mut s = CoreState::new();
    s.insert_job(1, 2, spec_true(), policy_none());
    let h = s.job_handle(1).unwrap();
    s.insert_process_index(Handle::new(2, 0), h);
    let hash = s.hash;
    let count = s.process_count;
    s.remove_process_index(Handle::new(0, 0));
    s.remove_process_index(Handle::new(40, 0));
    assert_eq!(s.hash, hash);
    assert_eq!(s.process_count, count);
    let found = s.job_by_process(Handle::new(2, 0)).unwrap();
    assert_eq!((found.index, found.generation), (h.index, h.generation));
    s.remove_process_index(Handle::new(2, 0));
    assert_eq!(s.process_count, count - 1);
    assert!(s.job_by_process(Handle::new(2, 0)).is_none());
    assert_eq!(s.recompute_hash_full(), s.hash);
}

#[test]
fn a_stale_handle_misses_after_its_slot_is_reused() {
    let mut s = CoreState::new();
    s.insert_job(1, 2, spec_true(), policy_none());
    let h1 = s.job_handle(1).unwrap();
    assert!(s.remove_job(1).is_some());
    s.insert_job(5, 6, spec_true(), policy_none());
    let h5 = s.job_handle(5).unwrap();
    assert_eq!(h5.index, h1.index);
    assert_ne!(h5.generation, h1.generation);
    assert!(s.job(h1).is_none());
    assert_eq!(s.job(h5).unwrap().id, 5);
    assert_eq!(s.recompute_hash_full(), s.hash);
}
