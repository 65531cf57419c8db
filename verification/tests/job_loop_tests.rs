use corepolicy_manager::daemon::replay::{replay, DivergenceKind, ReplayRecord, TickStats};
use corepolicy_manager::daemon::tick::{ClientCommand, DaemonTick, TickInput};
use corepolicy_manager::high_level::api::Command;
use corepolicy_manager::high_level::capability::{CapabilityRegistry, CapabilityToken};
use corepolicy_manager::high_level::identity::Principal;
use corepolicy_manager::machine::engine::Core;
use corepolicy_manager::machine::execution::ExecutionState;
use corepolicy_manager::machine::types::{Action, CancelPolicy, Event, Intent, JobRequest};

fn recording() -> Vec<ReplayRecord> {
    vec![
        ReplayRecord::Intent(
            Principal::System,
            Intent::Submit { id: 1, owner: 0, job: JobRequest { command: vec!["ls".to_string()] } },
        ),
        ReplayRecord::Event(Event::TimeAdvanced(100)),
    ]
}

#[test]
fn test_deterministic_replay_advanced() {
    let core = Core::new();
    let hash1 = replay(&core, recording()).0.expect("replay should finish");
    let hash2 = replay(&core, recording()).0.expect("replay should finish");
    assert_eq!(hash1, hash2);
}

#[test]
fn replay_meets_a_recorded_hash_and_reports_a_wrong_one() {
    let core = Core::new();
    let hash = replay(&core, recording()).0.unwrap();
    let mut checked = recording();
    checked.push(ReplayRecord::TickHash(hash));
    assert_eq!(replay(&core, checked).0, Ok(hash));

    let mut wrong = recording();
    wrong.push(ReplayRecord::TickHash(hash ^ 1));
    let d = replay(&core, wrong).0.unwrap_err();
    assert_eq!(d.tick, 0);
    assert!(d.kind == DivergenceKind::Hash);
    assert_eq!(d.expected, hash ^ 1);
    assert_eq!(d.actual, hash);
}

#[test]
fn replay_checks_counts_only_where_recorded() {
    let core = Core::new();
    let hash = replay(&core, recording()).0.unwrap();
    let mut quiet = recording();
    quiet.push(ReplayRecord::TickEnd(TickStats { hash, actions_processed: 0, dropped_actions: 0 }));
    assert_eq!(replay(&core, quiet).0, Ok(hash));
    let mut counted = recording();
    counted.push(ReplayRecord::TickEnd(TickStats { hash, actions_processed: 100000, dropped_actions: 0 }));
    let d = replay(&core, counted).0.unwrap_err();
    assert!(d.kind == DivergenceKind::Processed);
    assert_eq!(d.expected, 100000);
}

#[test]
fn map_to_exec_builds_service_calls() {
    let cmd = Command::Cmd { service: "package".to_string(), args: vec!["list".to_string(), "packages".to_string()] };
    let (exec, policy) = cmd.map_to_exec();
    assert_eq!(exec.argv, vec!["cmd".to_string(), "package".to_string(), "list".to_string(), "packages".to_string()]);
    assert!(exec.stdin.is_none());
    assert!(exec.capture_stdout && exec.capture_stderr);
    assert_eq!(exec.max_output, 1024 * 1024);
    assert_eq!(policy.timeout_ms, None);
    assert_eq!(policy.kill_grace_ms, 1000);
    assert!(policy.cancel == CancelPolicy::Graceful);

    let cmd = Command::Dumpsys { service: "battery".to_string(), args: vec![] };
    let (exec, _) = cmd.map_to_exec();
    assert_eq!(exec.argv, vec!["dumpsys".to_string(), "battery".to_string()]);
    assert_eq!(exec.max_output, 4 * 1024 * 1024);
}

fn open_caps() -> CapabilityRegistry {
    let mut caps = CapabilityRegistry::new();
    caps.insert(0, CapabilityToken::allow_all());
    caps.insert(2000, CapabilityToken::allow_all());
    caps
}

#[test]
fn tick_answers_status_requests_and_advances_time() {
    let core = Core::new();
    let caps = open_caps();
    let mut state = ExecutionState::new();
    let mut tick = DaemonTick::new();
    let input = TickInput {
        ticks: 3,
        commands: vec![
            ClientCommand { client_id: 4, uid: 2000, command: Command::PreloadStatus },
            ClientCommand { client_id: 5, uid: 2000, command: Command::GetResult { id: 99 } },
            ClientCommand { client_id: 6, uid: 2000, command: Command::PreloadStatus },
        ],
        events: vec![],
    };
    let out = tick.daemon_tick(&core, &mut state, &caps, input);
    assert_eq!(out.status_requests, vec![4, 6]);
    assert_eq!(tick.tick_counter, 1);
    assert!(out.verification.is_none());
    assert_eq!(state.clock, 48);
    assert!(out.processed > 0);
    // the query for an unknown job is not valid, so it is never answered
    assert!(out.replies.is_empty());
}

#[test]
fn tick_submits_a_service_call_and_reports_its_start() {
    let core = Core::new();
    let caps = open_caps();
    let mut state = ExecutionState::new();
    let mut tick = DaemonTick::new();
    let input = TickInput {
        ticks: 0,
        commands: vec![ClientCommand {
            client_id: 7,
            uid: 2000,
            command: Command::Cmd { service: "power".to_string(), args: vec![] },
        }],
        events: vec![],
    };
    let out = tick.daemon_tick(&core, &mut state, &caps, input);
    // the job id is taken first, then its request's cause names the job
    assert!(state.core.job_handle(2).is_some());
    assert!(out.effects.iter().any(|e| matches!(e, corepolicy_manager::machine::types::Effect::StartProcess { id: 2, .. })));
    assert!(out.replies.iter().all(|r| r.client_id == 7));
    let _ = out.replies.iter().any(|r| matches!(r.action, Action::Started { .. }));
}

#[test]
fn tick_without_capabilities_lets_nothing_in() {
    let core = Core::new();
    let caps = CapabilityRegistry::new();
    let mut state = ExecutionState::new();
    let mut tick = DaemonTick::new();
    let input = TickInput {
        ticks: 1,
        commands: vec![ClientCommand {
            client_id: 7,
            uid: 2000,
            command: Command::Cmd { service: "power".to_string(), args: vec![] },
        }],
        events: vec![],
    };
    let out = tick.daemon_tick(&core, &mut state, &caps, input);
    assert!(state.core.job_handle(2).is_none());
    assert_eq!(out.processed, 0);
    assert_eq!(state.clock, 0);
}

#[test]
fn tick_checks_the_state_every_sixty_fourth_tick() {
    let core = Core::new();
    let caps = open_caps();
    let mut state = ExecutionState::new();
    let mut tick = DaemonTick::new();
    for n in 1..=64u64 {
        let out = tick.daemon_tick(&core, &mut state, &caps, TickInput { ticks: 0, commands: vec![], events: vec![] });
        assert_eq!(out.verification.is_some(), n == 64);
        if n == 64 {
            assert_eq!(out.verification, Some(Ok(())));
        }
    }
}

#[test]
fn replay_keeps_the_stats_of_checked_ticks_and_counts_intent_actions() {
    let core = Core::new();
    let (r, run) = replay(&core, recording());
    let hash = r.unwrap();
    assert_eq!(run.state.hash, hash);
    assert!(run.checked.is_empty());
    assert!(run.tally.handled + run.skipped >= 2);
    let mut checked = recording();
    checked.push(ReplayRecord::TickHash(hash));
    let (r, run) = replay(&core, checked);
    assert_eq!(r, Ok(hash));
    assert_eq!(run.checked.len(), 1);
    assert_eq!(run.checked[0].hash, hash);
}

#[test]
fn tick_hands_every_admitted_action_to_the_scheduler() {
    let core = Core::new();
    let caps = open_caps();
    let mut state = ExecutionState::new();
    let mut tick = DaemonTick::new();
    let input = TickInput {
        ticks: 0,
        commands: vec![ClientCommand {
            client_id: 7,
            uid: 0,
            command: Command::Dumpsys { service: "battery".to_string(), args: vec![] },
        }],
        events: vec![],
    };
    let out = tick.daemon_tick(&core, &mut state, &caps, input);
    assert!(out.handled >= 2);
    assert!(out.left_queued == 0 || out.processed + out.dropped == 10000 || out.rounds_exhausted);
}
