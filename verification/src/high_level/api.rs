//! Command schema and the typed status replies served over IPC.

use vstd::prelude::*;
use crate::machine::types::{CancelPolicy, ExecPolicy, ExecSpec};

verus! {

/// The finite set of commands a client may send.
pub enum Command {
    Cmd { service: String, args: Vec<String> },
    Dumpsys { service: String, args: Vec<String> },
    GetResult { id: u64 },
    Cancel { id: u64 },
    PreloadStatus,
}

/// Output cap of a `cmd` call, in bytes.
pub const CMD_MAX_OUTPUT: usize = 1048576;

/// Output cap of a `dumpsys` call, in bytes.
pub const DUMPSYS_MAX_OUTPUT: usize = 4194304;

/// The command line that runs `program` on `service` with `args`.
pub open spec fn service_argv(program: Seq<char>, service: String, args: Seq<String>) -> Seq<Seq<char>> {
    seq![program, service@] + args.map_values(|a: String| a@)
}

/// A service call of `program`: captured output up to `max_output` bytes,
/// no input, no timeout, a second of grace and a graceful cancel.
pub open spec fn service_exec(
    r: (ExecSpec, ExecPolicy),
    program: Seq<char>,
    service: String,
    args: Seq<String>,
    max_output: usize,
) -> bool {
    &&& r.0.argv@.map_values(|a: String| a@) == service_argv(program, service, args)
    &&& r.0.stdin is None
    &&& r.0.capture_stdout
    &&& r.0.capture_stderr
    &&& r.0.max_output == max_output
    &&& r.1 == ExecPolicy { timeout_ms: None, kill_grace_ms: 1000, cancel: CancelPolicy::Graceful }
}

/// What a `Cmd` or `Dumpsys` command runs.
pub open spec fn exec_of_command(c: Command, r: (ExecSpec, ExecPolicy)) -> bool {
    match c {
        Command::Cmd { service, args } => service_exec(r, "cmd"@, service, args@, CMD_MAX_OUTPUT),
        Command::Dumpsys { service, args } => service_exec(r, "dumpsys"@, service, args@, DUMPSYS_MAX_OUTPUT),
        _ => false,
    }
}

fn service_call(program: &str, service: &String, args: &Vec<String>, max_output: usize) -> (r: (ExecSpec, ExecPolicy))
    ensures
        service_exec(r, program@, *service, args@, max_output),
{
    let mut argv: Vec<String> = Vec::new();
    argv.push(String::from_str(program));
    argv.push(service.clone());
    for i in 0..args.len()
        invariant
            argv@.map_values(|a: String| a@) == service_argv(program@, *service, args@.subrange(0, i as int)),
    {
        let ghost before = argv@;
        argv.push(args[i].clone());
        proof {
            let f = |a: String| a@;
            assert(argv@ == before.push(args@[i as int]));
            assert(argv@.map_values(f) =~= before.map_values(f).push(args@[i as int]@));
            assert(args@.subrange(0, i + 1).map_values(f) =~= args@.subrange(0, i as int).map_values(f).push(
                args@[i as int]@,
            ));
            assert(argv@.map_values(f) =~= service_argv(program@, *service, args@.subrange(0, i + 1)));
        }
    }
    proof {
        assert(args@.subrange(0, args@.len() as int) =~= args@);
    }
    (
        ExecSpec { argv, stdin: None, capture_stdout: true, capture_stderr: true, max_output },
        ExecPolicy { timeout_ms: None, kill_grace_ms: 1000, cancel: CancelPolicy::Graceful },
    )
}

impl Command {
    /// The command line and policy a `Cmd` or `Dumpsys` command runs with:
    /// `cmd` or `dumpsys`, then the service and its arguments.
    pub fn map_to_exec(&self) -> (r: (ExecSpec, ExecPolicy))
        requires
            self is Cmd || self is Dumpsys,
        ensures
            exec_of_command(*self, r),
    {
        match self {
            Command::Cmd { service, args } => service_call("cmd", service, args, CMD_MAX_OUTPUT),
            Command::Dumpsys { service, args } => service_call("dumpsys", service, args, DUMPSYS_MAX_OUTPUT),
            _ => {
                assert(false);
                service_call("cmd", &String::new(), &Vec::new(), 0)
            },
        }
    }
}

/// Registration status of one inotify-watched path.
#[derive(Debug, PartialEq, Eq)]
pub struct WatchedPathStatus {
    pub path: String,
    pub registered: bool,
}

/// The state of the preload runtime's inotify watches.
pub struct InotifyStatus {
    pub fd_active: bool,
    pub wd_cgroup: Option<i32>,
    pub wd_pkg_xml: Option<i32>,
    pub wd_pkg_list: Option<i32>,
    pub events_seen: u64,
    pub last_raw_mask: Option<u32>,
    pub last_source: Option<String>,
    pub last_foreground_pid: Option<i32>,
    pub package_cache_dirty: bool,
    pub last_exception: Option<String>,
}

/// Pure policy-state snapshot of the preload addon.
pub struct PreloadSnapshot {
    pub enabled: bool,
    pub last_foreground_pid: i32,
    pub last_foreground_package: Option<String>,
    pub package_cache_count: usize,
    pub package_cache_dirty: bool,
    pub dedup_cache_count: usize,
    pub negative_cache_count: usize,
    pub in_flight_count: usize,
    pub in_flight_packages: Vec<String>,
    pub total_failures: u32,
    pub auto_disabled: bool,
    pub events_seen: u64,
    pub last_skip_stage: Option<String>,
    pub last_skip_reason: Option<String>,
    pub last_skip_package: Option<String>,
    pub last_discovered_path_count: usize,
    pub last_warmup_result: Option<String>,
    pub last_warmup_package: Option<String>,
}

/// The full daemon status report answered to a preload status request.
pub struct DaemonStatusReport {
    pub mode: String,
    pub socket_path: String,
    pub preload_addon_loaded: bool,
    pub enable_preload_file_exists: bool,
    pub enable_preload_path: String,
    pub foreground_path_exists: bool,
    pub watched_paths: Vec<WatchedPathStatus>,
    pub preload: Option<PreloadSnapshot>,
}

} // verus!
