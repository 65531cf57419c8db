//! The control socket's protocol: clients, their buffers, the framing of
//! requests (a 4-byte little-endian length, then a body whose first byte
//! names its kind) and of responses. The sockets themselves, and the reads
//! and writes on them, are the runtime's.

use vstd::prelude::*;
use vstd::bytes::{spec_u32_from_le_bytes, spec_u32_to_le_bytes, spec_u64_from_le_bytes, spec_u64_to_le_bytes};
use vstd::slice::slice_subrange;
use vstd::string::StrSliceExecFns;
use std::collections::HashMap;
use crate::high_level::api::Command;
use crate::machine::types::{clone_result, Action, ExecOutcome};

verus! {

broadcast use vstd::std_specs::hash::group_hash_axioms;

/// Most clients served at once.
pub const MAX_CLIENTS: usize = 32;

/// Largest request body.
pub const MAX_PACKET_SIZE: usize = 131072;

/// Most unread bytes kept for a client.
pub const MAX_READ_BUF: usize = 262144;

/// Most pending output kept for a client; a client whose replies would
/// overflow it is dropped.
pub const MAX_WRITE_BUF: usize = 1048576;

/// A registration handle of the runtime's event reactor.
#[derive(Clone, Copy, Debug, PartialEq, Eq, Hash, Structural)]
pub struct Token(pub u64);

/// Where a client's reader stands: waiting for a length header, or for a
/// body of the given length.
#[derive(Debug, Clone, Copy, PartialEq, Eq, Structural)]
pub enum ReadState {
    Header { needed: usize },
    Body { len: usize },
}

/// A connected client.
pub struct Conn {
    pub token: Token,
    pub read_buf: Vec<u8>,
    pub write_buf: Vec<u8>,
    pub state: ReadState,
    pub uid: u32,
}

/// A request of a client, with who sent it.
pub struct WireMsg {
    pub client_id: u32,
    pub command: Command,
    pub uid: u32,
}

/// A request body by kind: a JSON command (kind 1), a result query
/// (kind 2) or a cancellation (kind 3), the last two with an 8-byte
/// little-endian job id.
pub enum WireRequest {
    Json(Vec<u8>),
    GetResult(u64),
    Cancel(u64),
}

/// What the reader found in a client's buffer.
pub enum Frame {
    Incomplete,
    Request(WireRequest),
    Invalid,
}

/// A reply owed to a client: a started job's id, a job result, a
/// cancellation acknowledgement, or a refusal.
pub enum WireResponse {
    Exec(u64),
    Result(Option<ExecOutcome>),
    CancelOk,
    Error,
}

/// A job result to be written to a client once it is encoded as JSON.
pub struct PendingResult {
    pub client_id: u32,
    pub result: Option<ExecOutcome>,
}

/// What the runtime does with a reactor event on the control socket.
#[derive(Debug, Clone, Copy, PartialEq, Eq, Structural)]
pub enum EventPlan {
    AcceptClients,
    Ignore,
    Disconnect(u32),
    Serve(u32),
}

pub struct IpcModule {
    pub server_token: Option<Token>,
    pub clients: HashMap<u32, Conn>,
    pub client_tokens: HashMap<u64, u32>,
    pub next_client_id: u32,
}

/// The shape of a request body.
pub enum RequestShape {
    Json(Seq<u8>),
    GetResult(u64),
    Cancel(u64),
}

/// The request a body carries, if it is well formed.
pub open spec fn request_shape(body: Seq<u8>) -> Option<RequestShape> {
    if body.len() == 0 {
        None
    } else if body[0] == 1 {
        Some(RequestShape::Json(body.skip(1)))
    } else if body[0] == 2 && body.len() == 9 {
        Some(RequestShape::GetResult(spec_u64_from_le_bytes(body.subrange(1, 9))))
    } else if body[0] == 3 && body.len() == 9 {
        Some(RequestShape::Cancel(spec_u64_from_le_bytes(body.subrange(1, 9))))
    } else {
        None
    }
}

pub open spec fn shape_of(r: WireRequest) -> RequestShape {
    match r {
        WireRequest::Json(b) => RequestShape::Json(b@),
        WireRequest::GetResult(id) => RequestShape::GetResult(id),
        WireRequest::Cancel(id) => RequestShape::Cancel(id),
    }
}

/// What the reader finds, by shape.
pub enum FrameShape {
    Incomplete,
    Request(RequestShape),
    Invalid,
}

pub open spec fn frame_shape(f: Frame) -> FrameShape {
    match f {
        Frame::Incomplete => FrameShape::Incomplete,
        Frame::Request(r) => FrameShape::Request(shape_of(r)),
        Frame::Invalid => FrameShape::Invalid,
    }
}

/// Reading a body of `len` bytes from `buf`.
pub open spec fn body_step(len: usize, buf: Seq<u8>) -> (ReadState, Seq<u8>, FrameShape) {
    if buf.len() >= len {
        match request_shape(buf.take(len as int)) {
            Some(r) => (ReadState::Header { needed: 4 }, buf.skip(len as int), FrameShape::Request(r)),
            None => (ReadState::Header { needed: 4 }, buf.skip(len as int), FrameShape::Invalid),
        }
    } else {
        (ReadState::Body { len }, buf, FrameShape::Incomplete)
    }
}

/// One pass of the reader: a header (when one is awaited and complete)
/// announces a body of 1 to `MAX_PACKET_SIZE` bytes, or the client is
/// invalid; then a complete body is taken and decoded.
pub open spec fn frame_step(state: ReadState, buf: Seq<u8>) -> (ReadState, Seq<u8>, FrameShape) {
    match state {
        ReadState::Header { needed } => if buf.len() >= needed {
            let len = spec_u32_from_le_bytes(buf.take(4));
            if len > MAX_PACKET_SIZE || len == 0 {
                (state, buf, FrameShape::Invalid)
            } else {
                body_step(len as usize, buf.skip(4))
            }
        } else {
            (state, buf, FrameShape::Incomplete)
        },
        ReadState::Body { len } => body_step(len, buf),
    }
}

/// A reader state the protocol can reach.
pub open spec fn read_state_ok(s: ReadState) -> bool {
    match s {
        ReadState::Header { needed } => needed == 4,
        ReadState::Body { len } => 0 < len <= MAX_PACKET_SIZE,
    }
}

/// A response frame: the body's length in 4 little-endian bytes, then the body.
pub open spec fn framed(body: Seq<u8>) -> Seq<u8> {
    spec_u32_to_le_bytes(body.len() as u32) + body
}

/// The body of a response that carries no JSON.
pub open spec fn plain_response_body(r: WireResponse) -> Option<Seq<u8>> {
    match r {
        WireResponse::Exec(id) => Some(seq![1u8] + spec_u64_to_le_bytes(id)),
        WireResponse::CancelOk => Some(seq![3u8]),
        WireResponse::Error => Some(seq![4u8]),
        WireResponse::Result(_) => None,
    }
}

/// Whether a framed response body still fits in a client's output: a
/// client whose pending output would grow past `MAX_WRITE_BUF` is dropped.
pub open spec fn fits(out: Seq<u8>, body: Seq<u8>) -> bool {
    out.len() + 4 + body.len() <= MAX_WRITE_BUF
}

/// How the module changes when a response body is queued for a client: a
/// client that is gone is left so; one whose output has room gets the
/// framed body appended and nothing else changes; one whose output would
/// overflow is forgotten, with its token.
pub open spec fn frame_queued(pre: IpcModule, post: IpcModule, c: u32, body: Seq<u8>) -> bool {
    &&& post.server_token == pre.server_token
    &&& post.next_client_id == pre.next_client_id
    &&& if !pre.clients@.contains_key(c) {
        &&& post.clients@ == pre.clients@
        &&& post.client_tokens@ == pre.client_tokens@
    } else if fits(pre.clients@[c].write_buf@, body) {
        &&& post.client_tokens@ == pre.client_tokens@
        &&& post.clients@.dom() == pre.clients@.dom()
        &&& post.clients@[c].write_buf@ == pre.clients@[c].write_buf@ + framed(body)
        &&& post.clients@[c].read_buf@ == pre.clients@[c].read_buf@
        &&& post.clients@[c].state == pre.clients@[c].state
        &&& post.clients@[c].uid == pre.clients@[c].uid
        &&& post.clients@[c].token == pre.clients@[c].token
        &&& forall|k: u32| k != c && #[trigger] pre.clients@.contains_key(k) ==> post.clients@[k]
            == pre.clients@[k]
    } else {
        &&& post.clients@ == pre.clients@.remove(c)
        &&& post.client_tokens@ == pre.client_tokens@.remove(pre.clients@[c].token.0)
    }
}

/// The response without JSON that answers an action: a started job's id,
/// a cancellation acknowledgement, or a refusal.
pub open spec fn plain_reply(a: Action) -> WireResponse {
    match a {
        Action::Started { id } => WireResponse::Exec(id),
        Action::Controlled { .. } => WireResponse::CancelOk,
        _ => WireResponse::Error,
    }
}

/// The reply an action owes the client that asked for it.
pub open spec fn reply_kind(a: Action) -> Option<u8> {
    match a {
        Action::Started { .. } => Some(1u8),
        Action::QueryResult { .. } => Some(2u8),
        Action::Finished { .. } => Some(2u8),
        Action::Controlled { .. } => Some(3u8),
        Action::Rejected { .. } => Some(4u8),
        _ => None,
    }
}

/// A request framed the way clients frame it is read back whole: from a
/// reader waiting for a header, a length header followed by a well-formed
/// body of 1 to `MAX_PACKET_SIZE` bytes yields that body's request and
/// leaves exactly the bytes that followed it.
pub proof fn law_framed_request_reads_back(body: Seq<u8>, rest: Seq<u8>)
    requires
        0 < body.len() <= MAX_PACKET_SIZE,
        request_shape(body) is Some,
    ensures
        frame_step(ReadState::Header { needed: 4 }, framed(body) + rest) == (
            ReadState::Header { needed: 4 },
            rest,
            FrameShape::Request(request_shape(body)->0),
        ),
{
    vstd::bytes::lemma_auto_spec_u32_to_from_le_bytes();
    let buf = framed(body) + rest;
    let header = spec_u32_to_le_bytes(body.len() as u32);
    assert(buf.take(4) =~= header);
    assert(buf.skip(4) =~= body + rest);
    assert((body + rest).take(body.len() as int) =~= body);
    assert((body + rest).skip(body.len() as int) =~= rest);
}

/// A header announcing an empty body, or one over `MAX_PACKET_SIZE`
/// bytes, marks the client invalid.
pub proof fn law_bad_length_is_invalid(len: u32, rest: Seq<u8>)
    requires
        len == 0 || len > MAX_PACKET_SIZE,
    ensures
        frame_step(ReadState::Header { needed: 4 }, spec_u32_to_le_bytes(len) + rest).2 is Invalid,
{
    vstd::bytes::lemma_auto_spec_u32_to_from_le_bytes();
    assert((spec_u32_to_le_bytes(len) + rest).take(4) =~= spec_u32_to_le_bytes(len));
}

proof fn lemma_le_bytes_len()
    ensures
        forall|x: u32| #[trigger] spec_u32_to_le_bytes(x).len() == 4,
        forall|x: u64| #[trigger] spec_u64_to_le_bytes(x).len() == 8,
{
    vstd::bytes::lemma_auto_spec_u32_to_from_le_bytes();
    vstd::bytes::lemma_auto_spec_u64_to_from_le_bytes();
}

/// Splits `v` after `n` bytes, giving the first part and keeping the rest.
fn take_front(v: &mut Vec<u8>, n: usize) -> (front: Vec<u8>)
    requires
        n <= old(v)@.len(),
    ensures
        front@ == old(v)@.take(n as int),
        final(v)@ == old(v)@.skip(n as int),
{
    let mut front = v.split_off(n);
    std::mem::swap(v, &mut front);
    assert(front@ =~= old(v)@.take(n as int));
    assert(v@ =~= old(v)@.skip(n as int));
    front
}

/// Decodes a request body.
pub fn decode_request(body: &Vec<u8>) -> (r: Option<WireRequest>)
    ensures
        match r {
            Some(req) => request_shape(body@) == Some(shape_of(req)),
            None => request_shape(body@) is None,
        },
{
    if body.len() == 0 {
        return None;
    }
    let kind = body[0];
    if kind == 1 {
        let mut rest: Vec<u8> = Vec::new();
        let n = body.len();
        for i in 1..n
            invariant
                n == body@.len(),
                1 <= n,
                rest@ == body@.subrange(1, i as int),
        {
            rest.push(body[i]);
            assert(rest@ =~= body@.subrange(1, i + 1));
        }
        assert(rest@ =~= body@.skip(1));
        return Some(WireRequest::Json(rest));
    }
    if (kind == 2 || kind == 3) && body.len() == 9 {
        let id = vstd::bytes::u64_from_le_bytes(slice_subrange(body.as_slice(), 1, 9));
        if kind == 2 {
            return Some(WireRequest::GetResult(id));
        } else {
            return Some(WireRequest::Cancel(id));
        }
    }
    None
}

/// One pass of the reader over a client (see `frame_step`): what it found,
/// with the reader state and the unread bytes updated.
pub fn next_frame(conn: &mut Conn) -> (f: Frame)
    requires
        read_state_ok(old(conn).state),
    ensures
        frame_step(old(conn).state, old(conn).read_buf@) == (final(conn).state, final(conn).read_buf@, frame_shape(f)),
        read_state_ok(final(conn).state),
        final(conn).token == old(conn).token,
        final(conn).uid == old(conn).uid,
        final(conn).write_buf@ == old(conn).write_buf@,
{
    let mut len: usize = 0;
    match conn.state {
        ReadState::Header { needed } => {
            if conn.read_buf.len() < needed {
                return Frame::Incomplete;
            }
            let announced = vstd::bytes::u32_from_le_bytes(slice_subrange(conn.read_buf.as_slice(), 0, 4));
            assert(conn.read_buf@.subrange(0, 4) =~= conn.read_buf@.take(4));
            if announced as usize > MAX_PACKET_SIZE || announced == 0 {
                return Frame::Invalid;
            }
            let _header = take_front(&mut conn.read_buf, 4);
            len = announced as usize;
            conn.state = ReadState::Body { len };
        },
        ReadState::Body { len: l } => {
            len = l;
        },
    }
    if conn.read_buf.len() < len {
        return Frame::Incomplete;
    }
    let body = take_front(&mut conn.read_buf, len);
    conn.state = ReadState::Header { needed: 4 };
    match decode_request(&body) {
        Some(req) => Frame::Request(req),
        None => Frame::Invalid,
    }
}

/// Appends a framed response body to a client's output if it fits, and
/// says whether it did; an output that would overflow is left as it was.
pub fn queue_body(conn: &mut Conn, body: &Vec<u8>) -> (ok: bool)
    requires
        body@.len() <= u32::MAX,
    ensures
        ok == fits(old(conn).write_buf@, body@),
        ok ==> final(conn).write_buf@ == old(conn).write_buf@ + framed(body@),
        !ok ==> final(conn).write_buf@ == old(conn).write_buf@,
        final(conn).read_buf@ == old(conn).read_buf@,
        final(conn).state == old(conn).state,
        final(conn).token == old(conn).token,
        final(conn).uid == old(conn).uid,
{
    if conn.write_buf.len() > MAX_WRITE_BUF - 4 || body.len() > MAX_WRITE_BUF - 4 - conn.write_buf.len() {
        return false;
    }
    let header = vstd::bytes::u32_to_le_bytes(body.len() as u32);
    conn.write_buf.extend_from_slice(header.as_slice());
    conn.write_buf.extend_from_slice(body.as_slice());
    assert(conn.write_buf@ =~= old(conn).write_buf@ + framed(body@));
    true
}

/// The body of a response that carries no JSON.
pub fn plain_body(resp: &WireResponse) -> (r: Option<Vec<u8>>)
    ensures
        match r {
            Some(b) => plain_response_body(*resp) == Some(b@),
            None => plain_response_body(*resp) is None,
        },
{
    match resp {
        WireResponse::Exec(id) => {
            let mut b: Vec<u8> = Vec::new();
            b.push(1u8);
            let mut le = vstd::bytes::u64_to_le_bytes(*id);
            b.append(&mut le);
            assert(b@ =~= seq![1u8] + spec_u64_to_le_bytes(*id));
            Some(b)
        },
        WireResponse::CancelOk => {
            let mut b: Vec<u8> = Vec::new();
            b.push(3u8);
            assert(b@ =~= seq![3u8]);
            Some(b)
        },
        WireResponse::Error => {
            let mut b: Vec<u8> = Vec::new();
            b.push(4u8);
            assert(b@ =~= seq![4u8]);
            Some(b)
        },
        WireResponse::Result(_) => None,
    }
}

impl IpcModule {
    /// A module with no clients, listening under `token`.
    pub fn new(token: Token) -> (m: Self)
        ensures
            m.server_token == Some(token),
            m.clients@.len() == 0,
            m.client_tokens@.len() == 0,
            m.next_client_id == 1,
    {
        IpcModule { server_token: Some(token), clients: HashMap::new(), client_tokens: HashMap::new(), next_client_id: 1 }
    }

    /// Whether another client may be accepted.
    pub fn has_room(&self) -> (r: bool)
        ensures
            r == (self.clients@.len() < MAX_CLIENTS),
    {
        proof {
            crate::machine::core_state::lemma_id_map_model();
            lemma_u32_map_model();
        }
        self.clients.len() < MAX_CLIENTS
    }

    /// Registers an accepted client under a fresh id (never zero; ids wrap
    /// around) and returns the id.
    pub fn register_client(&mut self, token: Token, uid: u32) -> (id: u32)
        ensures
            id == old(self).next_client_id,
            final(self).next_client_id == if old(self).next_client_id == u32::MAX {
                1
            } else {
                (old(self).next_client_id + 1) as u32
            },
            final(self).clients@.dom() == old(self).clients@.dom().insert(id),
            forall|k: u32| k != id && #[trigger] old(self).clients@.contains_key(k) ==> final(self).clients@[k]
                == old(self).clients@[k],
            final(self).clients@[id].token == token,
            final(self).clients@[id].uid == uid,
            final(self).clients@[id].read_buf@.len() == 0,
            final(self).clients@[id].write_buf@.len() == 0,
            final(self).clients@[id].state == (ReadState::Header { needed: 4 }),
            final(self).client_tokens@ == old(self).client_tokens@.insert(token.0, id),
            final(self).server_token == old(self).server_token,
    {
        proof {
            lemma_u32_map_model();
            crate::machine::core_state::lemma_id_map_model();
        }
        let id = self.next_client_id;
        self.next_client_id = if self.next_client_id == u32::MAX { 1 } else { self.next_client_id + 1 };
        let conn = Conn {
            token,
            read_buf: Vec::new(),
            write_buf: Vec::new(),
            state: ReadState::Header { needed: 4 },
            uid,
        };
        self.clients.insert(id, conn);
        self.client_tokens.insert(token.0, id);
        id
    }

    /// What to do with an event on `token`: accept on the listening socket
    /// when readable; drop a client on error; otherwise serve the client;
    /// ignore tokens of no client.
    pub fn plan_event(&self, token: Token, readable: bool, error: bool) -> (p: EventPlan)
        ensures
            p == if self.server_token == Some(token) && readable {
                EventPlan::AcceptClients
            } else if !self.client_tokens@.contains_key(token.0) {
                EventPlan::Ignore
            } else if error {
                EventPlan::Disconnect(self.client_tokens@[token.0])
            } else {
                EventPlan::Serve(self.client_tokens@[token.0])
            },
    {
        proof {
            crate::machine::core_state::lemma_id_map_model();
        }
        let is_server = match self.server_token {
            Some(t) => t.0 == token.0,
            None => false,
        };
        if is_server && readable {
            return EventPlan::AcceptClients;
        }
        match self.client_tokens.get(&token.0) {
            None => EventPlan::Ignore,
            Some(id) => if error {
                EventPlan::Disconnect(*id)
            } else {
                EventPlan::Serve(*id)
            },
        }
    }

    /// Appends bytes read from a client; `false` when its unread bytes now
    /// exceed `MAX_READ_BUF`, after which the client is to be dropped.
    pub fn receive(&mut self, client_id: u32, bytes: &[u8]) -> (ok: bool)
        ensures
            old(self).clients@.contains_key(client_id) ==> {
                &&& final(self).clients@.dom() == old(self).clients@.dom()
                &&& final(self).clients@[client_id].read_buf@ == old(self).clients@[client_id].read_buf@ + bytes@
                &&& final(self).clients@[client_id].write_buf@ == old(self).clients@[client_id].write_buf@
                &&& final(self).clients@[client_id].state == old(self).clients@[client_id].state
                &&& final(self).clients@[client_id].uid == old(self).clients@[client_id].uid
                &&& final(self).clients@[client_id].token == old(self).clients@[client_id].token
                &&& ok == (final(self).clients@[client_id].read_buf@.len() <= MAX_READ_BUF)
            },
            !old(self).clients@.contains_key(client_id) ==> ok && final(self).clients@ == old(self).clients@,
            forall|k: u32| k != client_id && #[trigger] old(self).clients@.contains_key(k) ==> final(self).clients@[k]
                == old(self).clients@[k],
            final(self).client_tokens@ == old(self).client_tokens@,
            final(self).server_token == old(self).server_token,
            final(self).next_client_id == old(self).next_client_id,
    {
        proof {
            lemma_u32_map_model();
        }
        match self.clients.remove(&client_id) {
            None => true,
            Some(mut conn) => {
                let ghost before = conn.read_buf@;
                conn.read_buf.extend_from_slice(bytes);
                assert(conn.read_buf@ =~= before + bytes@);
                let ok = conn.read_buf.len() <= MAX_READ_BUF;
                self.clients.insert(client_id, conn);
                ok
            },
        }
    }

    /// One pass of the reader over a client (see `frame_step`); `None` when
    /// there is no such client.
    pub fn next_request(&mut self, client_id: u32) -> (r: Option<Frame>)
        requires
            forall|k: u32| #[trigger] old(self).clients@.contains_key(k) ==> read_state_ok(old(self).clients@[k].state),
        ensures
            match r {
                Some(f) => {
                    &&& old(self).clients@.contains_key(client_id)
                    &&& frame_step(old(self).clients@[client_id].state, old(self).clients@[client_id].read_buf@) == (
                        final(self).clients@[client_id].state,
                        final(self).clients@[client_id].read_buf@,
                        frame_shape(f),
                    )
                    &&& final(self).clients@[client_id].write_buf@ == old(self).clients@[client_id].write_buf@
                    &&& final(self).clients@[client_id].uid == old(self).clients@[client_id].uid
                },
                None => !old(self).clients@.contains_key(client_id) && final(self).clients@ == old(self).clients@,
            },
            final(self).clients@.dom() == old(self).clients@.dom(),
            forall|k: u32| #[trigger] final(self).clients@.contains_key(k) ==> read_state_ok(final(self).clients@[k].state),
            forall|k: u32| k != client_id && #[trigger] old(self).clients@.contains_key(k) ==> final(self).clients@[k]
                == old(self).clients@[k],
            final(self).client_tokens@ == old(self).client_tokens@,
            final(self).server_token == old(self).server_token,
            final(self).next_client_id == old(self).next_client_id,
    {
        proof {
            lemma_u32_map_model();
        }
        match self.clients.remove(&client_id) {
            None => None,
            Some(mut conn) => {
                let f = next_frame(&mut conn);
                self.clients.insert(client_id, conn);
                Some(f)
            },
        }
    }

    /// The message a decoded request makes, from the client that sent it;
    /// a JSON request carries the command its body parsed to, if any.
    pub fn message_for(&self, client_id: u32, request: WireRequest, json_command: Option<Command>) -> (r: Option<
        WireMsg,
    >)
        ensures
            match r {
                Some(m) => {
                    &&& self.clients@.contains_key(client_id)
                    &&& m.client_id == client_id
                    &&& m.uid == self.clients@[client_id].uid
                    &&& match request {
                        WireRequest::Json(_) => json_command == Some(m.command),
                        WireRequest::GetResult(id) => m.command == (Command::GetResult { id }),
                        WireRequest::Cancel(id) => m.command == (Command::Cancel { id }),
                    }
                },
                None => !self.clients@.contains_key(client_id) || (request is Json && json_command is None),
            },
    {
        proof {
            lemma_u32_map_model();
        }
        let uid = match self.clients.get(&client_id) {
            Some(conn) => conn.uid,
            None => return None,
        };
        let command = match request {
            WireRequest::Json(_) => match json_command {
                Some(c) => c,
                None => return None,
            },
            WireRequest::GetResult(id) => Command::GetResult { id },
            WireRequest::Cancel(id) => Command::Cancel { id },
        };
        Some(WireMsg { client_id, command, uid })
    }

    /// Drops the first `n` bytes of a client's output, once written.
    pub fn consume_written(&mut self, client_id: u32, n: usize)
        ensures
            (old(self).clients@.contains_key(client_id) && n <= old(self).clients@[client_id].write_buf@.len()) ==> {
                &&& final(self).clients@[client_id].write_buf@ == old(self).clients@[client_id].write_buf@.skip(n as int)
                &&& final(self).clients@[client_id].read_buf@ == old(self).clients@[client_id].read_buf@
                &&& final(self).clients@[client_id].state == old(self).clients@[client_id].state
                &&& final(self).clients@[client_id].uid == old(self).clients@[client_id].uid
                &&& final(self).clients@[client_id].token == old(self).clients@[client_id].token
            },
            !(old(self).clients@.contains_key(client_id) && n <= old(self).clients@[client_id].write_buf@.len())
                ==> final(self).clients@ == old(self).clients@,
            final(self).clients@.dom() == old(self).clients@.dom(),
            forall|k: u32| k != client_id && #[trigger] old(self).clients@.contains_key(k) ==> final(self).clients@[k]
                == old(self).clients@[k],
            final(self).client_tokens@ == old(self).client_tokens@,
            final(self).server_token == old(self).server_token,
            final(self).next_client_id == old(self).next_client_id,
    {
        proof {
            lemma_u32_map_model();
        }
        match self.clients.remove(&client_id) {
            None => {},
            Some(mut conn) => {
                if n <= conn.write_buf.len() {
                    let _written = take_front(&mut conn.write_buf, n);
                    self.clients.insert(client_id, conn);
                } else {
                    self.clients.insert(client_id, conn);
                    assert(self.clients@ =~= old(self).clients@);
                }
            },
        }
    }

    /// Forgets a client and its token; the token, for the runtime to
    /// deregister its socket.
    pub fn disconnect(&mut self, client_id: u32) -> (t: Option<Token>)
        ensures
            match t {
                Some(tok) => {
                    &&& old(self).clients@.contains_key(client_id)
                    &&& tok == old(self).clients@[client_id].token
                    &&& final(self).clients@ == old(self).clients@.remove(client_id)
                    &&& final(self).client_tokens@ == old(self).client_tokens@.remove(tok.0)
                },
                None => {
                    &&& !old(self).clients@.contains_key(client_id)
                    &&& final(self).clients@ == old(self).clients@
                    &&& final(self).client_tokens@ == old(self).client_tokens@
                },
            },
            final(self).server_token == old(self).server_token,
            final(self).next_client_id == old(self).next_client_id,
    {
        proof {
            lemma_u32_map_model();
            crate::machine::core_state::lemma_id_map_model();
        }
        match self.clients.remove(&client_id) {
            Some(conn) => {
                self.client_tokens.remove(&conn.token.0);
                Some(conn.token)
            },
            None => None,
        }
    }

    /// Queues a framed response body for a client, if it is connected; a
    /// client whose output would overflow is dropped instead, and its
    /// token handed back for the runtime to deregister its socket.
    pub fn queue_frame(&mut self, client_id: u32, body: &Vec<u8>) -> (dropped: Option<Token>)
        requires
            body@.len() <= u32::MAX,
        ensures
            frame_queued(*old(self), *final(self), client_id, body@),
            dropped == (if old(self).clients@.contains_key(client_id) && !fits(
                old(self).clients@[client_id].write_buf@,
                body@,
            ) {
                Some(old(self).clients@[client_id].token)
            } else {
                None
            }),
    {
        proof {
            lemma_u32_map_model();
            crate::machine::core_state::lemma_id_map_model();
        }
        match self.clients.remove(&client_id) {
            None => {
                assert(self.clients@ =~= old(self).clients@);
                None
            },
            Some(mut conn) => {
                if queue_body(&mut conn, body) {
                    self.clients.insert(client_id, conn);
                    assert(self.clients@.dom() =~= old(self).clients@.dom());
                    None
                } else {
                    self.client_tokens.remove(&conn.token.0);
                    assert(self.clients@ =~= old(self).clients@.remove(client_id));
                    Some(conn.token)
                }
            },
        }
    }

    /// Answers the client an action replies to: a started job's id, a
    /// cancellation acknowledgement or a refusal are queued at once; a job
    /// result, which goes out as JSON, is handed back to be encoded and
    /// queued with `queue_result`.
    pub fn intercept_action(&mut self, action: &Action, reply_to: Option<u32>) -> (r: Option<PendingResult>)
        ensures
            match (reply_to, reply_kind(*action)) {
                (Some(c), Some(k)) => if k == 2 {
                    &&& final(self).clients@ == old(self).clients@
                    &&& final(self).client_tokens@ == old(self).client_tokens@
                    &&& final(self).server_token == old(self).server_token
                    &&& final(self).next_client_id == old(self).next_client_id
                    &&& if old(self).clients@.contains_key(c) {
                        &&& r is Some
                        &&& r->0.client_id == c
                        &&& match *action {
                            Action::QueryResult { result, .. } => match (r->0.result, result) {
                                (Some(a), Some(b)) => a.same_as(b),
                                (None, None) => true,
                                _ => false,
                            },
                            Action::Finished { id, result, .. } => match r->0.result {
                                Some(o) => o.id == id && crate::machine::types::same_result(o.result, result),
                                None => false,
                            },
                            _ => false,
                        }
                    } else {
                        r is None
                    }
                } else {
                    &&& r is None
                    &&& frame_queued(*old(self), *final(self), c, plain_response_body(plain_reply(*action))->0)
                },
                _ => {
                    &&& r is None
                    &&& final(self).clients@ == old(self).clients@
                    &&& final(self).client_tokens@ == old(self).client_tokens@
                    &&& final(self).server_token == old(self).server_token
                    &&& final(self).next_client_id == old(self).next_client_id
                },
            },
    {
        proof {
            lemma_u32_map_model();
            lemma_le_bytes_len();
        }
        let client_id = match reply_to {
            Some(id) => id,
            None => return None,
        };
        let resp = match action {
            Action::Started { id } => WireResponse::Exec(*id),
            Action::Controlled { .. } => WireResponse::CancelOk,
            Action::Rejected { .. } => WireResponse::Error,
            Action::QueryResult { result, .. } => {
                if !self.clients.contains_key(&client_id) {
                    return None;
                }
                let copy = match result {
                    Some(o) => Some(o.clone()),
                    None => None,
                };
                return Some(PendingResult { client_id, result: copy });
            },
            Action::Finished { id, result, .. } => {
                if !self.clients.contains_key(&client_id) {
                    return None;
                }
                let outcome = ExecOutcome { id: *id, result: clone_result(result) };
                return Some(PendingResult { client_id, result: Some(outcome) });
            },
            _ => return None,
        };
        match plain_body(&resp) {
            Some(body) => {
                let _ = self.queue_frame(client_id, &body);
            },
            None => {},
        }
        None
    }

    /// Queues a job result, encoded as JSON, for a client: kind 2.
    pub fn queue_result(&mut self, client_id: u32, json: &Vec<u8>) -> (dropped: Option<Token>)
        requires
            json@.len() < u32::MAX,
        ensures
            frame_queued(*old(self), *final(self), client_id, seq![2u8] + json@),
            dropped == (if old(self).clients@.contains_key(client_id) && !fits(
                old(self).clients@[client_id].write_buf@,
                seq![2u8] + json@,
            ) {
                Some(old(self).clients@[client_id].token)
            } else {
                None
            }),
    {
        let mut body: Vec<u8> = Vec::new();
        body.push(2u8);
        body.extend_from_slice(json.as_slice());
        assert(body@ =~= seq![2u8] + json@);
        self.queue_frame(client_id, &body)
    }

    /// Queues the preload status, as JSON text, for a client: kind 5.
    pub fn send_preload_status(&mut self, client_id: u32, status_json: String) -> (dropped: Option<Token>)
        requires
            vstd::utf8::encode_utf8(status_json@).len() < u32::MAX,
        ensures
            frame_queued(*old(self), *final(self), client_id, seq![5u8] + vstd::utf8::encode_utf8(status_json@)),
            dropped == (if old(self).clients@.contains_key(client_id) && !fits(
                old(self).clients@[client_id].write_buf@,
                seq![5u8] + vstd::utf8::encode_utf8(status_json@),
            ) {
                Some(old(self).clients@[client_id].token)
            } else {
                None
            }),
    {
        let bytes = status_json.as_str().as_bytes_vec();
        let mut body: Vec<u8> = Vec::new();
        body.push(5u8);
        body.extend_from_slice(bytes.as_slice());
        assert(body@ =~= seq![5u8] + vstd::utf8::encode_utf8(status_json@));
        self.queue_frame(client_id, &body)
    }
}

/// The client map behaves as a map from `u32` keys.
pub proof fn lemma_u32_map_model()
    ensures
        vstd::std_specs::hash::obeys_key_model::<u32>(),
        vstd::std_specs::hash::builds_valid_hashers::<std::collections::hash_map::RandomState>(),
{
}

} // verus!
