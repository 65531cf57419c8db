//! The effect executor's routing table: which watched stream of which IO
//! drain each reactor token stands for, and the core events that reactor
//! readiness and a round of stream IO come to. Registering streams with the
//! reactor, reading and writing them, and spawning and signalling processes
//! is the runtime's.

use vstd::prelude::*;
use crate::machine::types::{Event, IoHandle, IoStream};
use crate::codec::{decode_text_list, text_list_of_json};
use crate::high_level::addons::keyed::names_view;
use crate::text::{push_str, string_of};

verus! {

/// A readiness report of the reactor for one registration token.
pub struct ReadyEvent {
    pub token: u64,
    pub readable: bool,
    pub writable: bool,
    pub error: bool,
}

/// Routes reactor tokens to the streams they were registered for.
pub struct EffectExecutor {
    pub fd_map: Vec<Option<(IoHandle, IoStream)>>,
}

/// The route of a token, if it has one.
pub open spec fn route_of(m: Seq<Option<(IoHandle, IoStream)>>, token: u64) -> Option<(IoHandle, IoStream)> {
    if (token as int) < m.len() {
        m[token as int]
    } else {
        None
    }
}

/// The table after routing `token` to `(io, stream)`: grown with empty
/// entries to reach the token if needed.
pub open spec fn routed(
    m: Seq<Option<(IoHandle, IoStream)>>,
    token: u64,
    io: IoHandle,
    stream: IoStream,
) -> Seq<Option<(IoHandle, IoStream)>> {
    if (token as int) < m.len() {
        m.update(token as int, Some((io, stream)))
    } else {
        m + Seq::new((token - m.len()) as nat, |k: int| None::<(IoHandle, IoStream)>) + seq![Some((io, stream))]
    }
}

/// Whether an entry routes to `stream` of the drain `io`.
pub open spec fn routes_to(e: Option<(IoHandle, IoStream)>, io: IoHandle, stream: IoStream) -> bool {
    e matches Some((i, s)) && i.index == io.index && i.generation == io.generation && s == stream
}

/// The table with every entry for `stream` of `io` cleared.
pub open spec fn unrouted(m: Seq<Option<(IoHandle, IoStream)>>, io: IoHandle, stream: IoStream) -> Seq<
    Option<(IoHandle, IoStream)>,
> {
    m.map_values(
        |e: Option<(IoHandle, IoStream)>|
            if routes_to(e, io, stream) {
                None
            } else {
                e
            },
    )
}

/// The core event one readiness report stands for, if its token is routed.
pub open spec fn ready_event(m: Seq<Option<(IoHandle, IoStream)>>, ev: ReadyEvent) -> Option<
    (IoHandle, IoStream, bool, bool, bool),
> {
    match route_of(m, ev.token) {
        Some((io, stream)) => Some((io, stream, ev.readable, ev.writable, ev.error)),
        None => None,
    }
}

/// The `IoReady` events of a batch of readiness reports, in order; reports
/// on unrouted tokens are dropped.
pub open spec fn ready_events(m: Seq<Option<(IoHandle, IoStream)>>, evs: Seq<ReadyEvent>) -> Seq<
    (IoHandle, IoStream, bool, bool, bool),
>
    decreases evs.len(),
{
    if evs.len() == 0 {
        seq![]
    } else {
        let rest = ready_events(m, evs.drop_last());
        match ready_event(m, evs.last()) {
            Some(x) => rest.push(x),
            None => rest,
        }
    }
}

/// An `IoReady` event as plain values.
pub open spec fn io_ready_view(e: Event) -> Option<(IoHandle, IoStream, bool, bool, bool)> {
    match e {
        Event::IoReady { io, stream, readable, writable, error } => Some((io, stream, readable, writable, error)),
        _ => None,
    }
}

/// The error text of a stream's round, if it failed. A stream's round is
/// `Ok(true)` when the stream is done (its slot handed back), `Ok(false)`
/// when it is not, `Err` with the error text; `None` without a slot.
pub open spec fn failed_text(r: Option<Result<bool, Seq<char>>>) -> Option<Seq<char>> {
    match r {
        Some(Err(e)) => Some(e),
        _ => None,
    }
}

/// Whether a stream was served but is not done.
pub open spec fn left_open(r: Option<Result<bool, Seq<char>>>) -> bool {
    r matches Some(Ok(false))
}

/// The event a round of IO on a drain comes to: a failure names the last
/// stream that failed, with its direction; otherwise a stream that was
/// served but not finished marks the drain closed; otherwise nothing. A
/// stream without a slot is `None`.
pub open spec fn io_round_event(
    stdout: Option<Result<bool, Seq<char>>>,
    stderr: Option<Result<bool, Seq<char>>>,
    stdin: Option<Result<bool, Seq<char>>>,
) -> Option<(bool, Seq<char>)> {
    if failed_text(stdin) is Some {
        Some((true, "stdin write: "@ + failed_text(stdin)->0))
    } else if failed_text(stderr) is Some {
        Some((true, "stderr read: "@ + failed_text(stderr)->0))
    } else if failed_text(stdout) is Some {
        Some((true, "stdout read: "@ + failed_text(stdout)->0))
    } else if left_open(stdout) || left_open(stderr) || left_open(stdin) {
        Some((false, seq![]))
    } else {
        None
    }
}

pub open spec fn stream_io_view(r: Option<Result<bool, String>>) -> Option<Result<bool, Seq<char>>> {
    match r {
        Some(Ok(b)) => Some(Ok(b)),
        Some(Err(e)) => Some(Err(e@)),
        None => None,
    }
}

impl EffectExecutor {
    /// An executor with no stream watched.
    pub fn new() -> (x: Self)
        ensures
            x.fd_map@.len() == 0,
    {
        EffectExecutor { fd_map: Vec::new() }
    }

    /// A stream was registered with the reactor under `token`: readiness on
    /// the token is now the stream's.
    pub fn watch_stream(&mut self, io: IoHandle, stream: IoStream, token: u64)
        requires
            token < usize::MAX,
        ensures
            final(self).fd_map@ == routed(old(self).fd_map@, token, io, stream),
    {
        let idx = token as usize;
        let ghost pre = self.fd_map@;
        if idx < self.fd_map.len() {
            self.fd_map.set(idx, Some((io, stream)));
            return;
        }
        while self.fd_map.len() < idx
            invariant
                idx == token,
                pre.len() <= self.fd_map@.len() <= idx,
                self.fd_map@ == pre + Seq::new(
                    (self.fd_map@.len() - pre.len()) as nat,
                    |k: int| None::<(IoHandle, IoStream)>,
                ),
            decreases idx - self.fd_map@.len(),
        {
            let ghost before = self.fd_map@;
            self.fd_map.push(None);
            proof {
                assert(self.fd_map@ =~= pre + Seq::new(
                    (self.fd_map@.len() - pre.len()) as nat,
                    |k: int| None::<(IoHandle, IoStream)>,
                ));
            }
        }
        self.fd_map.push(Some((io, stream)));
        proof {
            assert(self.fd_map@ =~= routed(pre, token, io, stream));
        }
    }

    /// A stream is no longer watched: no token routes to it any more.
    pub fn unwatch_stream(&mut self, io: IoHandle, stream: IoStream)
        ensures
            final(self).fd_map@ == unrouted(old(self).fd_map@, io, stream),
    {
        let ghost pre = self.fd_map@;
        let n = self.fd_map.len();
        let mut i: usize = 0;
        while i < n
            invariant
                n == pre.len(),
                self.fd_map@.len() == n,
                i <= n,
                forall|k: int| 0 <= k < i ==> #[trigger] self.fd_map@[k] == unrouted(pre, io, stream)[k],
                forall|k: int| i <= k < n ==> #[trigger] self.fd_map@[k] == pre[k],
            decreases n - i,
        {
            let hit = match self.fd_map[i] {
                Some((mio, ms)) => mio.index == io.index && mio.generation == io.generation && ms == stream,
                None => false,
            };
            if hit {
                self.fd_map.set(i, None);
            }
            i = i + 1;
        }
        proof {
            assert(self.fd_map@ =~= unrouted(pre, io, stream));
        }
    }

    /// The core events a batch of readiness reports stands for (see
    /// `ready_events`).
    pub fn process_reactor_events(&self, events: &Vec<ReadyEvent>) -> (r: Vec<Event>)
        ensures
            r@.len() == ready_events(self.fd_map@, events@).len(),
            forall|k: int| 0 <= k < r@.len() ==> #[trigger] io_ready_view(r@[k]) == Some(
                ready_events(self.fd_map@, events@)[k],
            ),
    {
        let mut out: Vec<Event> = Vec::new();
        let mut i: usize = 0;
        while i < events.len()
            invariant
                i <= events@.len(),
                out@.len() == ready_events(self.fd_map@, events@.take(i as int)).len(),
                forall|k: int| 0 <= k < out@.len() ==> #[trigger] io_ready_view(out@[k]) == Some(
                    ready_events(self.fd_map@, events@.take(i as int))[k],
                ),
            decreases events@.len() - i,
        {
            let ev = &events[i];
            proof {
                assert(events@.take(i + 1).drop_last() =~= events@.take(i as int));
                assert(events@.take(i + 1).last() == events@[i as int]);
            }
            let idx = ev.token as usize;
            if ev.token < self.fd_map.len() as u64 {
                match self.fd_map[idx] {
                    Some((io, stream)) => {
                        out.push(
                            Event::IoReady {
                                io,
                                stream,
                                readable: ev.readable,
                                writable: ev.writable,
                                error: ev.error,
                            },
                        );
                    },
                    None => {},
                }
            }
            i = i + 1;
        }
        proof {
            assert(events@.take(i as int) =~= events@);
        }
        out
    }
}

/// The event a round of IO on drain `io` comes to (see `io_round_event`).
pub fn io_round_outcome(
    io: IoHandle,
    stdout: Option<Result<bool, String>>,
    stderr: Option<Result<bool, String>>,
    stdin: Option<Result<bool, String>>,
) -> (r: Option<Event>)
    ensures
        match io_round_event(stream_io_view(stdout), stream_io_view(stderr), stream_io_view(stdin)) {
            None => r is None,
            Some((failed, reason)) => if failed {
                r matches Some(Event::IoFailed { io: i, reason: t }) && i == io && t@ == reason
            } else {
                r matches Some(Event::IoClosed { io: i }) && i == io
            },
        },
{
    let mut failure: Option<String> = None;
    let mut closed = false;
    match stdout {
        Some(Ok(false)) => closed = true,
        Some(Err(e)) => {
            closed = true;
            let mut t = string_of("stdout read: ");
            push_str(&mut t, e.as_str());
            failure = Some(t);
        },
        _ => {},
    }
    match stderr {
        Some(Ok(false)) => closed = true,
        Some(Err(e)) => {
            closed = true;
            let mut t = string_of("stderr read: ");
            push_str(&mut t, e.as_str());
            failure = Some(t);
        },
        _ => {},
    }
    match stdin {
        Some(Ok(false)) => closed = true,
        Some(Err(e)) => {
            closed = true;
            let mut t = string_of("stdin write: ");
            push_str(&mut t, e.as_str());
            failure = Some(t);
        },
        _ => {},
    }
    match failure {
        Some(reason) => Some(Event::IoFailed { io, reason }),
        None => if closed {
            Some(Event::IoClosed { io })
        } else {
            None
        },
    }
}

/// The files a warm-up task payload names: a task of type 1 followed by
/// the JSON list of paths. An empty payload, another task type, or a list
/// that does not decode are refused with their reasons.
pub fn warmup_task_paths(payload: &Vec<u8>) -> (r: Result<Vec<String>, String>)
    ensures
        payload@.len() == 0 ==> (r matches Err(e) && e@ == "empty payload"@),
        payload@.len() > 0 && payload@[0] != 1 ==> (r matches Err(e) && e@ == "unknown task type"@),
        payload@.len() > 0 && payload@[0] == 1 ==> match text_list_of_json(payload@.skip(1)) {
            Some(l) => (r matches Ok(v) && names_view(v@) == l),
            None => (r matches Err(e) && e@ == "failed to decode paths"@),
        },
{
    if payload.len() == 0 {
        return Err(string_of("empty payload"));
    }
    if payload[0] != 1 {
        return Err(string_of("unknown task type"));
    }
    match decode_text_list(payload, 1) {
        Some(paths) => Ok(paths),
        None => Err(string_of("failed to decode paths")),
    }
}

} // verus!
