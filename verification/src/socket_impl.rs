//! The engine-side socket: it owns the pipes and acceptors created for it,
//! routes commands through its protocol policy, parks pending operations,
//! and decides what the event loop must register, write, arm or reply.
//!
//! All transport work stays with the event loop. It calls these transitions
//! with tokens, byte counts and assembled messages, and performs the actions
//! and replies they return; every reply a caller sees originates here.

use vstd::prelude::*;
use vstd::string::StringSliceAdditionalSpecFns;

use crate::event_loop_msg::{SocketNotify, SocketOption};
use crate::global::{
    invalid_input_io_error, other_io_error, timed_out_io_error, ErrorKind, IoError, SocketId,
    SocketType,
};
use crate::message::Message;
use crate::codec::{be_bytes4, frame_of};
use crate::pipe::{Pipe, PipeAction, PipeStateKind};
use crate::protocol::{Protocol, SendPlan};

verus! {

/// The engine-side state of one socket.
pub struct SocketImpl {
    pub id: SocketId,
    pub protocol: Protocol,
    /// The live pipes, in the order they were added; their tokens mirror the
    /// policy's pipe list entry for entry.
    pub pipes: Vec<Pipe>,
    /// The live acceptors: endpoint token and bound address.
    pub acceptors: Vec<(usize, String)>,
    /// A message accepted for sending that no peer could take yet.
    pub pending_send: Option<Message>,
    /// The pipe that owes the completion of the send in flight.
    pub send_in_flight: Option<usize>,
    /// Whether a receive command awaits a message.
    pub pending_recv: bool,
    /// Messages the policy accepted while no receive was pending, each
    /// with the token of the pipe it arrived on.
    pub backlog: Vec<(usize, Message)>,
    /// The pipe that delivered the most recently received message; a bus
    /// device forwarding that message excludes this pipe from the
    /// re-broadcast.
    pub last_recv_from: Option<usize>,
    pub send_timeout_ms: u64,
    pub recv_timeout_ms: u64,
    pub survey_deadline_ms: u64,
    /// The request resend interval, kept as set; automatic retransmission
    /// of an unanswered request is not driven by this engine.
    pub resend_ivl_ms: Option<u64>,
}

/// The reconnect and rebind backoff, in milliseconds.
pub const RETRY_DELAY_MS: u64 = 200;

/// The default send and receive deadline, in milliseconds.
pub const DEFAULT_TIMEOUT_MS: u64 = 1000;

impl SocketImpl {
    /// The endpoint tokens of the owned pipes, in order.
    pub open spec fn tokens(self) -> Seq<usize> {
        self.pipes@.map_values(|p: Pipe| p.token)
    }

    /// The policy sees exactly the owned pipes, and every owned pipe is in a
    /// consistent state of its own.
    pub open spec fn wf(self) -> bool {
        &&& self.protocol.wf()
        &&& self.protocol.pipes@ == self.tokens()
        &&& (forall|i: int| 0 <= i < self.pipes@.len() ==> (#[trigger] self.pipes@[i]).wf())
        &&& (self.protocol.strips_header() ==> forall|i: int|
            0 <= i < self.backlog@.len() ==> (#[trigger] self.backlog@[i]).1.header@.len() == 4)
    }

    pub fn new(id: SocketId, kind: SocketType) -> (r: SocketImpl)
        ensures
            r.wf(),
            r.id == id,
            r.protocol.kind == kind,
            r.protocol.pipes@.len() == 0,
            r.protocol.dist@.len() == 0,
            r.protocol.subscriptions@.len() == 0,
            r.protocol.rr == 0,
            r.protocol.fq == 0,
            r.protocol.req_id_seq == 0,
            r.protocol.survey_id_seq == 0,
            r.protocol.cur_req is None,
            r.protocol.cur_reply is None,
            r.protocol.cur_survey is None,
            !r.protocol.survey_expired,
            r.pipes@.len() == 0,
            r.acceptors@.len() == 0,
            r.pending_send is None,
            r.send_in_flight is None,
            !r.pending_recv,
            r.backlog@.len() == 0,
            r.last_recv_from is None,
            r.send_timeout_ms == DEFAULT_TIMEOUT_MS,
            r.recv_timeout_ms == DEFAULT_TIMEOUT_MS,
            r.survey_deadline_ms == DEFAULT_TIMEOUT_MS,
            r.resend_ivl_ms is None,
    {
        let r = SocketImpl {
            id,
            protocol: Protocol::new(kind),
            pipes: Vec::new(),
            acceptors: Vec::new(),
            pending_send: None,
            send_in_flight: None,
            pending_recv: false,
            backlog: Vec::new(),
            last_recv_from: None,
            send_timeout_ms: DEFAULT_TIMEOUT_MS,
            recv_timeout_ms: DEFAULT_TIMEOUT_MS,
            survey_deadline_ms: DEFAULT_TIMEOUT_MS,
            resend_ivl_ms: None,
        };
        proof {
            assert(r.tokens() =~= Seq::<usize>::empty());
        }
        r
    }

    pub fn socket_type(&self) -> (r: SocketType)
        ensures
            r == self.protocol.kind,
    {
        self.protocol.get_type()
    }

    /// A transport connection was established (by connect, reconnect or
    /// accept): wrap it in a fresh pipe and start its lifecycle. The address
    /// is kept for outgoing connections so the pipe can be replaced on
    /// error.
    pub fn on_connected(&mut self, addr: Option<String>, token: usize) -> (r: Result<
        PipeAction,
        IoError,
    >)
        requires
            old(self).wf(),
        ensures
            final(self).wf(),
            r is Ok <==> !old(self).tokens().contains(token),
            r is Ok ==> final(self).pipes@.len() == old(self).pipes@.len() + 1,
            r is Ok ==> final(self).pipes@[final(self).pipes@.len() - 1].token == token,
            r is Ok ==> final(self).pipes@[final(self).pipes@.len() - 1].state
                == PipeStateKind::HandshakeTx,
            r is Ok ==> final(self).pipes@[final(self).pipes@.len() - 1].addr == addr,
            r is Ok ==> final(self).pipes@[final(self).pipes@.len() - 1].protocol_id == old(self).protocol.kind.spec_id(),
            r is Ok ==> final(self).pipes@[final(self).pipes@.len() - 1].protocol_peer_id == old(self).protocol.kind.spec_peer().spec_id(),
            r is Ok ==> !final(self).pipes@[final(self).pipes@.len() - 1].opened,
            r is Ok ==> final(self).protocol.dist@ == old(self).protocol.dist@,
            r is Ok ==> final(self).protocol.subscriptions@ == old(self).protocol.subscriptions@,
            r is Ok ==> final(self).protocol.cur_req == old(self).protocol.cur_req,
            r is Ok ==> final(self).protocol.cur_reply == old(self).protocol.cur_reply,
            r is Ok ==> final(self).protocol.cur_survey == old(self).protocol.cur_survey,
            r is Ok ==> final(self).protocol.survey_expired == old(self).protocol.survey_expired,
            r is Ok ==> r == Ok::<PipeAction, IoError>(PipeAction::RegisterWritable),
            r is Ok ==> forall|i: int|
                0 <= i < old(self).pipes@.len() ==> final(self).pipes@[i] == old(self).pipes@[i],
            r is Err ==> final(self).pipes@ == old(self).pipes@ && r->Err_0.kind
                == ErrorKind::InvalidData,
            final(self).protocol.kind == old(self).protocol.kind,
            final(self).acceptors@ == old(self).acceptors@,
            final(self).pending_send == old(self).pending_send,
            final(self).send_in_flight == old(self).send_in_flight,
            final(self).pending_recv == old(self).pending_recv,
            final(self).backlog@ == old(self).backlog@,
            final(self).last_recv_from == old(self).last_recv_from,
            final(self).send_timeout_ms == old(self).send_timeout_ms,
            final(self).recv_timeout_ms == old(self).recv_timeout_ms,
            final(self).survey_deadline_ms == old(self).survey_deadline_ms,
            final(self).resend_ivl_ms == old(self).resend_ivl_ms,
    {
        let protocol_id = self.protocol.get_type().id();
        let peer_protocol_id = self.protocol.get_type().peer().id();
        match self.protocol.add_pipe(token) {
            Ok(()) => {
                let mut pipe = Pipe::new(token, addr, (protocol_id, peer_protocol_id));
                let action = pipe.open();
                self.pipes.push(pipe);
                proof {
                    assert(self.tokens() =~= old(self).tokens().push(token));
                }
                Ok(action)
            },
            Err(e) => Err(e),
        }
    }

    /// The position of the pipe registered under this endpoint token.
    pub fn pipe_index(&self, token: usize) -> (r: Option<usize>)
        ensures
            r matches Some(i) ==> i < self.pipes@.len() && self.pipes@[i as int].token == token,
            r is None ==> !self.tokens().contains(token),
    {
        let mut i: usize = 0;
        while i < self.pipes.len()
            invariant
                i <= self.pipes@.len(),
                forall|k: int| 0 <= k < i ==> (#[trigger] self.pipes@[k]).token != token,
            decreases self.pipes@.len() - i,
        {
            if self.pipes[i].token == token {
                return Some(i);
            }
            i = i + 1;
        }
        proof {
            if self.tokens().contains(token) {
                let k = choose|k: int|
                    0 <= k < self.tokens().len() && self.tokens()[k] == token;
                assert(self.pipes@[k].token == token);
            }
        }
        None
    }

    /// The state of the pipe at this position.
    pub fn pipe_state(&self, i: usize) -> (r: PipeStateKind)
        requires
            i < self.pipes@.len(),
        ensures
            r == self.pipes@[i as int].state,
    {
        self.pipes[i].state
    }

    /// The endpoint token of the pipe at this position.
    pub fn pipe_token(&self, i: usize) -> (r: usize)
        requires
            i < self.pipes@.len(),
        ensures
            r == self.pipes@[i as int].token,
    {
        self.pipes[i].token
    }

    /// The handshake bytes the pipe at this position owes its peer.
    pub fn handshake_to_send(&self, i: usize) -> (r: Vec<u8>)
        requires
            i < self.pipes@.len(),
            self.pipes@[i as int].state == PipeStateKind::HandshakeTx,
        ensures
            r@ == crate::codec::handshake_frame(self.pipes@[i as int].protocol_id),
    {
        self.pipes[i].handshake_to_send()
    }

    /// Everything but the pipe at position `i` is untouched, and that pipe
    /// kept its identity.
    pub open spec fn only_pipe_changed(self, pre: SocketImpl, i: int) -> bool {
        &&& self.pipes@.len() == pre.pipes@.len()
        &&& (forall|k: int| 0 <= k < pre.pipes@.len() && k != i ==> self.pipes@[k] == pre.pipes@[k])
        &&& self.pipes@[i].same_identity(pre.pipes@[i])
        &&& self.acceptors@ == pre.acceptors@
        &&& self.pending_send == pre.pending_send
        &&& self.send_in_flight == pre.send_in_flight
        &&& self.pending_recv == pre.pending_recv
        &&& self.backlog@ == pre.backlog@
        &&& self.id == pre.id
    }

    /// The writable event in the handshake-sending state: the event loop
    /// wrote `written` bytes of the preamble and reports the count here.
    pub fn on_handshake_sent(&mut self, i: usize, written: usize) -> (r: Result<
        PipeAction,
        IoError,
    >)
        requires
            old(self).wf(),
            i < old(self).pipes@.len(),
            old(self).pipes@[i as int].state == PipeStateKind::HandshakeTx,
        ensures
            final(self).wf(),
            final(self).only_pipe_changed(*old(self), i as int),
            final(self).protocol == old(self).protocol,
            r is Ok <==> written == 8,
            written == 8 ==> final(self).pipes@[i as int].state == PipeStateKind::HandshakeRx && r
                == Ok::<PipeAction, IoError>(PipeAction::RegisterReadable),
            written != 8 ==> final(self).pipes@[i as int].state == PipeStateKind::Dead && (
            r matches Err(e) && e.kind == ErrorKind::WouldBlock),
    {
        let mut pipe = self.pipes.remove(i);
        let r = pipe.on_handshake_sent(written);
        self.pipes.insert(i, pipe);
        proof {
            assert(self.pipes@ =~= old(self).pipes@.update(
                i as int,
                self.pipes@[i as int],
            ));
            assert(self.tokens() =~= old(self).tokens());
        }
        r
    }

    /// The readable event in the handshake-receiving state: the event loop
    /// read the 8-byte preamble and hands it over. On success the pipe
    /// becomes idle, joins the distribution set, and the "pipe opened"
    /// notification is owed to the policy's bookkeeping; on mismatch the
    /// pipe dies.
    pub fn on_handshake_received(&mut self, i: usize, handshake: &[u8]) -> (r: Result<(), IoError>)
        requires
            old(self).wf(),
            i < old(self).pipes@.len(),
            old(self).pipes@[i as int].state == PipeStateKind::HandshakeRx,
            handshake@.len() == 8,
        ensures
            final(self).wf(),
            final(self).only_pipe_changed(*old(self), i as int),
            r is Ok <==> handshake@ == crate::codec::handshake_frame(
                old(self).pipes@[i as int].protocol_peer_id,
            ),
            r is Ok ==> final(self).pipes@[i as int].state == PipeStateKind::Idle
                && final(self).pipes@[i as int].opened,
            r is Ok ==> final(self).protocol.dist@.contains(old(self).pipes@[i as int].token),
            r is Ok && old(self).protocol.dist@.contains(old(self).pipes@[i as int].token)
                ==> final(self).protocol.dist@ == old(self).protocol.dist@,
            r is Ok && !old(self).protocol.dist@.contains(old(self).pipes@[i as int].token)
                ==> final(self).protocol.dist@ == old(self).protocol.dist@.push(
                old(self).pipes@[i as int].token,
            ),
            final(self).protocol.pipes@ == old(self).protocol.pipes@,
            final(self).protocol.kind == old(self).protocol.kind,
            final(self).protocol.subscriptions@ == old(self).protocol.subscriptions@,
            final(self).protocol.cur_req == old(self).protocol.cur_req,
            final(self).protocol.cur_reply == old(self).protocol.cur_reply,
            final(self).protocol.cur_survey == old(self).protocol.cur_survey,
            final(self).protocol.survey_expired == old(self).protocol.survey_expired,
            r matches Err(e) ==> final(self).pipes@[i as int].state == PipeStateKind::Dead && e.kind
                == ErrorKind::InvalidData && final(self).protocol == old(self).protocol,
    {
        let mut pipe = self.pipes.remove(i);
        let token = pipe.token;
        let r = pipe.on_handshake_received(handshake);
        self.pipes.insert(i, pipe);
        proof {
            assert(self.pipes@ =~= old(self).pipes@.update(i as int, self.pipes@[i as int]));
            assert(self.tokens() =~= old(self).tokens());
        }
        match r {
            Ok(()) => {
                proof {
                    assert(self.protocol.pipes@[i as int] == token);
                }
                let ghost d0 = self.protocol.dist@;
                self.protocol.on_pipe_opened(token);
                proof {
                    if !d0.contains(token) {
                        assert(self.protocol.dist@[d0.len() as int] == token);
                    }
                }
                Ok(())
            },
            Err(e) => Err(e),
        }
    }

    /// A transport error on this pipe: it is evicted from the socket and,
    /// when it was created by an outgoing connect, its address comes back so
    /// a reconnect can be scheduled after the fixed backoff.
    pub fn on_pipe_error(&mut self, token: usize) -> (r: Option<(usize, String, u64)>)
        requires
            old(self).wf(),
        ensures
            final(self).wf(),
            !final(self).tokens().contains(token),
            r is Some <==> (exists|j: int|
                0 <= j < old(self).pipes@.len() && (#[trigger] old(self).pipes@[j]).token == token
                    && old(self).pipes@[j].addr is Some),
            r matches Some((t, a, d)) ==> t == token && d == RETRY_DELAY_MS && (exists|j: int|
                0 <= j < old(self).pipes@.len() && (#[trigger] old(self).pipes@[j]).token == token
                    && old(self).pipes@[j].addr == Some(a)),
            old(self).tokens().contains(token) ==> (exists|j: int|
                0 <= j < old(self).pipes@.len() && (#[trigger] old(self).pipes@[j]).token == token
                    && final(self).pipes@ == old(self).pipes@.remove(j)),
            !old(self).tokens().contains(token) ==> *final(self) == *old(self),
            final(self).acceptors@ == old(self).acceptors@,
            final(self).pending_send == old(self).pending_send,
            final(self).send_in_flight == old(self).send_in_flight,
            final(self).pending_recv == old(self).pending_recv,
            final(self).backlog@ == old(self).backlog@,
            final(self).protocol.kind == old(self).protocol.kind,
            final(self).protocol.subscriptions@ == old(self).protocol.subscriptions@,
            final(self).protocol.cur_req == old(self).protocol.cur_req,
            final(self).protocol.cur_reply == old(self).protocol.cur_reply,
            final(self).protocol.cur_survey == old(self).protocol.cur_survey,
            final(self).protocol.survey_expired == old(self).protocol.survey_expired,
    {
        match self.pipe_index(token) {
            Some(i) => {
                let removed = self.protocol.remove_pipe(token);
                proof {
                    assert(old(self).tokens().contains(token)) by {
                        assert(old(self).tokens()[i as int] == token);
                    }
                    let j = removed->0 as int;
                    assert(old(self).protocol.pipes@[j] == token);
                    assert(old(self).tokens()[j] == token);
                    if i as int != j {
                        assert(old(self).protocol.pipes@[i as int] == token);
                        assert(false);
                    }
                }
                let pipe = self.pipes.remove(i);
                proof {
                    assert(self.tokens() =~= self.protocol.pipes@);
                    lemma_tokens_remove(old(self).pipes@, i as int);
                    if self.tokens().contains(token) {
                        let k = choose|k: int|
                            0 <= k < self.tokens().len() && self.tokens()[k] == token;
                        if k < i {
                            assert(old(self).tokens()[k] == token);
                        } else {
                            assert(old(self).tokens()[k + 1] == token);
                        }
                        assert(false);
                    }
                    assert forall|j: int|
                        0 <= j < old(self).pipes@.len() && (#[trigger] old(self).pipes@[j]).token
                            == token implies j == i as int by {
                        assert(old(self).tokens()[j] == token);
                        assert(old(self).tokens()[i as int] == token);
                        let oldpipes = old(self).protocol.pipes@;
                        assert(oldpipes[j] == oldpipes[i as int]);
                    }
                    assert(old(self).pipes@[i as int] == pipe);
                }
                match pipe.addr() {
                    Some(a) => Some((token, a, RETRY_DELAY_MS)),
                    None => None,
                }
            },
            None => {
                proof {
                    assert(!self.tokens().contains(token));
                    if old(self).tokens().contains(token) {
                        assert(false);
                    }
                    assert forall|j: int|
                        0 <= j < old(self).pipes@.len() implies (#[trigger] old(self).pipes@[j]).token != token by {
                        if old(self).pipes@[j].token == token {
                            assert(old(self).tokens()[j] == token);
                        }
                    }
                }
                None
            },
        }
    }
}

/// What the event loop must do after a send command was taken in.
pub enum SendStep {
    /// The command is answered at once with this reply.
    Replied(SocketNotify),
    /// A transfer started on this pipe; `MsgSent` is owed when it
    /// completes, and the send cancellation timer must be armed.
    AwaitCompletion(usize),
    /// The message is parked until a peer can take it; the send
    /// cancellation timer must be armed.
    Parked,
}

/// What the event loop must do after a receive command was taken in.
pub enum RecvStep {
    /// The command is answered at once with this reply.
    Replied(SocketNotify),
    /// No message is available yet; the receive cancellation timer must be
    /// armed and the reply follows on arrival or timeout.
    AwaitMessage,
}

/// Some pipe carries this token and is idle, so it can take a frame at
/// once.
pub open spec fn pipe_idle_at(pipes: Seq<Pipe>, tok: usize) -> bool {
    exists|j: int|
        0 <= j < pipes.len() && (#[trigger] pipes[j]).token == tok && pipes[j].state
            == PipeStateKind::Idle
}

/// The pipe carrying `tok` — idle before — now owes exactly the frame of
/// `payload`; every other pipe is untouched.
pub open spec fn unicast_written(pre: Seq<Pipe>, post: Seq<Pipe>, tok: usize, payload: Seq<u8>) -> bool {
    &&& post.len() == pre.len()
    &&& forall|j: int|
        0 <= j < pre.len() ==> (if (#[trigger] pre[j]).token == tok && pre[j].state
            == PipeStateKind::Idle {
            post[j].state == PipeStateKind::SendBusy && (post[j].send_op matches Some(op)
                && op.remaining() == frame_of(payload)) && post[j].same_identity(pre[j])
        } else {
            post[j] == pre[j]
        })
}

/// The outcome a planned one-pipe transfer must have: if the chosen pipe
/// was idle the transfer started there, its completion is awaited and the
/// pipe owes exactly the frame of the planned payload; otherwise the
/// planned message parked and nothing was written.
pub open spec fn unicast_outcome(
    pre: SocketImpl,
    post: SocketImpl,
    r: SendStep,
    tok: usize,
    payload: Seq<u8>,
) -> bool {
    if pipe_idle_at(pre.pipes@, tok) {
        &&& r == SendStep::AwaitCompletion(tok)
        &&& post.send_in_flight == Some(tok)
        &&& post.pending_send is None
        &&& unicast_written(pre.pipes@, post.pipes@, tok, payload)
    } else {
        &&& r == SendStep::Parked
        &&& post.send_in_flight is None
        &&& (post.pending_send matches Some(m) && m.payload() == payload)
        &&& post.pipes@ == pre.pipes@
    }
}

impl SocketImpl {
    /// Pipes that were idle and are a broadcast target now owe exactly the
    /// frame of the broadcast payload; every other pipe is untouched.
    pub open spec fn broadcast_applied(
        self,
        pre: SocketImpl,
        targets: Seq<usize>,
        payload: Seq<u8>,
    ) -> bool {
        &&& self.pipes@.len() == pre.pipes@.len()
        &&& forall|j: int|
            0 <= j < pre.pipes@.len() ==> (if targets.contains((#[trigger] pre.pipes@[j]).token)
                && pre.pipes@[j].state == PipeStateKind::Idle {
                self.pipes@[j].state == PipeStateKind::SendBusy && (
                self.pipes@[j].send_op matches Some(op) && op.remaining() == frame_of(payload))
                    && self.pipes@[j].same_identity(pre.pipes@[j])
            } else {
                self.pipes@[j] == pre.pipes@[j]
            })
    }

    /// Writes a copy of the message on every listed pipe that is idle;
    /// busy or handshaking pipes drop their copy (best-effort broadcast).
    fn write_broadcast(&mut self, targets: &Vec<usize>, m: &Message)
        requires
            old(self).wf(),
            crate::protocol::distinct_seq(targets@),
            m.header@.len() + m.body@.len() <= usize::MAX - 8,
        ensures
            final(self).wf(),
            final(self).broadcast_applied(*old(self), targets@, m.payload()),
            final(self).protocol == old(self).protocol,
            final(self).acceptors@ == old(self).acceptors@,
            final(self).pending_send == old(self).pending_send,
            final(self).send_in_flight == old(self).send_in_flight,
            final(self).pending_recv == old(self).pending_recv,
            final(self).backlog@ == old(self).backlog@,
            final(self).last_recv_from == old(self).last_recv_from,
            final(self).send_timeout_ms == old(self).send_timeout_ms,
            final(self).recv_timeout_ms == old(self).recv_timeout_ms,
            final(self).survey_deadline_ms == old(self).survey_deadline_ms,
            final(self).resend_ivl_ms == old(self).resend_ivl_ms,
            final(self).id == old(self).id,
            final(self).tokens() == old(self).tokens(),
    {
        let mut t: usize = 0;
        while t < targets.len()
            invariant
                self.wf(),
                t <= targets@.len(),
                crate::protocol::distinct_seq(targets@),
                m.header@.len() + m.body@.len() <= usize::MAX - 8,
                self.broadcast_applied(*old(self), targets@.take(t as int), m.payload()),
                self.protocol == old(self).protocol,
                self.acceptors@ == old(self).acceptors@,
                self.pending_send == old(self).pending_send,
                self.send_in_flight == old(self).send_in_flight,
                self.pending_recv == old(self).pending_recv,
                self.backlog@ == old(self).backlog@,
                self.last_recv_from == old(self).last_recv_from,
                self.send_timeout_ms == old(self).send_timeout_ms,
                self.recv_timeout_ms == old(self).recv_timeout_ms,
                self.survey_deadline_ms == old(self).survey_deadline_ms,
                self.resend_ivl_ms == old(self).resend_ivl_ms,
                self.id == old(self).id,
                self.tokens() == old(self).tokens(),
            decreases targets@.len() - t,
        {
            let tok = targets[t];
            let ghost mid = *self;
            self.write_one(tok, m);
            t = t + 1;
            proof {
                let pre = *old(self);
                let now = *self;
                let s1 = targets@.take(t as int - 1);
                let s2 = targets@.take(t as int);
                assert(s2 =~= s1.push(targets@[t as int - 1]));
                assert(!s1.contains(tok)) by {
                    if s1.contains(tok) {
                        let k = choose|k: int| 0 <= k < s1.len() && s1[k] == tok;
                        assert(targets@[k] == targets@[t as int - 1]);
                    }
                }
                assert forall|j: int|
                    0 <= j < pre.pipes@.len() implies (if s2.contains(
                        (#[trigger] pre.pipes@[j]).token,
                    ) && pre.pipes@[j].state == PipeStateKind::Idle {
                        now.pipes@[j].state == PipeStateKind::SendBusy && (
                        now.pipes@[j].send_op matches Some(op) && op.remaining() == frame_of(
                            m.payload(),
                        )) && now.pipes@[j].same_identity(pre.pipes@[j])
                    } else {
                        now.pipes@[j] == pre.pipes@[j]
                    }) by {
                    let tk = pre.pipes@[j].token;
                    assert(mid.pipes@[j].token == tk);
                    assert(s2.contains(tk) == (s1.contains(tk) || tk == tok)) by {
                        if s2.contains(tk) && tk != tok {
                            let k = choose|k: int| 0 <= k < s2.len() && s2[k] == tk;
                            if k == t - 1 {
                                assert(s2[k] == tok);
                            } else {
                                assert(s1[k] == tk);
                            }
                        }
                        if s1.contains(tk) {
                            let k = choose|k: int| 0 <= k < s1.len() && s1[k] == tk;
                            assert(s2[k] == tk);
                        }
                        if tk == tok {
                            assert(s2[t as int - 1] == tk);
                        }
                    }
                    if s1.contains(tk) && pre.pipes@[j].state == PipeStateKind::Idle {
                        assert(mid.pipes@[j].state == PipeStateKind::SendBusy);
                        assert(now.pipes@[j] == mid.pipes@[j]);
                    } else if tk == tok && pre.pipes@[j].state == PipeStateKind::Idle {
                        assert(mid.pipes@[j] == pre.pipes@[j]);
                    } else {
                        assert(mid.pipes@[j] == pre.pipes@[j]);
                        if mid.pipes@[j].state == PipeStateKind::Idle && mid.pipes@[j].token
                            == tok {
                            assert(tk == tok);
                            assert(false);
                        }
                        assert(now.pipes@[j] == mid.pipes@[j]);
                    }
                }
            }
        }
        proof {
            assert(targets@.take(targets@.len() as int) =~= targets@);
        }
    }

    /// Writes one copy of the message on the pipe registered under this
    /// token, when there is one and it is idle; otherwise nothing changes.
    fn write_one(&mut self, tok: usize, m: &Message)
        requires
            old(self).wf(),
            m.header@.len() + m.body@.len() <= usize::MAX - 8,
        ensures
            final(self).wf(),
            final(self).pipes@.len() == old(self).pipes@.len(),
            forall|j: int|
                0 <= j < old(self).pipes@.len() ==> (if (#[trigger] old(self).pipes@[j]).token
                    == tok && old(self).pipes@[j].state == PipeStateKind::Idle {
                    final(self).pipes@[j].state == PipeStateKind::SendBusy && (
                    final(self).pipes@[j].send_op matches Some(op) && op.remaining() == frame_of(
                        m.payload(),
                    )) && final(self).pipes@[j].same_identity(old(self).pipes@[j])
                } else {
                    final(self).pipes@[j] == old(self).pipes@[j]
                }),
            final(self).protocol == old(self).protocol,
            final(self).acceptors@ == old(self).acceptors@,
            final(self).pending_send == old(self).pending_send,
            final(self).send_in_flight == old(self).send_in_flight,
            final(self).pending_recv == old(self).pending_recv,
            final(self).backlog@ == old(self).backlog@,
            final(self).id == old(self).id,
            final(self).last_recv_from == old(self).last_recv_from,
            final(self).send_timeout_ms == old(self).send_timeout_ms,
            final(self).recv_timeout_ms == old(self).recv_timeout_ms,
            final(self).survey_deadline_ms == old(self).survey_deadline_ms,
            final(self).resend_ivl_ms == old(self).resend_ivl_ms,
            final(self).tokens() == old(self).tokens(),
    {
        match self.pipe_index(tok) {
            Some(i) => {
                if self.pipes[i].state == PipeStateKind::Idle {
                    let mut pipe = self.pipes.remove(i);
                    let copy = m.clone();
                    proof {
                        assert(copy.payload() =~= m.payload());
                    }
                    pipe.start_send(copy);
                    self.pipes.insert(i, pipe);
                    proof {
                        assert(self.pipes@ =~= old(self).pipes@.update(
                            i as int,
                            self.pipes@[i as int],
                        ));
                        assert(self.tokens() =~= old(self).tokens());
                        assert forall|j: int|
                            0 <= j < old(self).pipes@.len() && j != i && (#[trigger] old(self).pipes@[j]).token == tok implies false by {
                            assert(old(self).tokens()[j] == tok);
                            assert(old(self).tokens()[i as int] == tok);
                            let oldpipes = old(self).protocol.pipes@;
                            assert(oldpipes[j] == oldpipes[i as int]);
                        }
                    }
                } else {
                    proof {
                        assert forall|j: int|
                            0 <= j < old(self).pipes@.len() && j != i && (#[trigger] old(self).pipes@[j]).token == tok implies false by {
                            assert(old(self).tokens()[j] == tok);
                            assert(old(self).tokens()[i as int] == tok);
                            let oldpipes = old(self).protocol.pipes@;
                            assert(oldpipes[j] == oldpipes[i as int]);
                        }
                    }
                }
            },
            None => {
                proof {
                    assert forall|j: int|
                        0 <= j < old(self).pipes@.len() implies (#[trigger] old(self).pipes@[j]).token != tok by {
                        if old(self).pipes@[j].token == tok {
                            assert(old(self).tokens()[j] == tok);
                        }
                    }
                }
            },
        }
    }

    /// Accepts a `SendMsg` command. The policy plans the routing; broadcasts
    /// are written best-effort and succeed at once, unicasts succeed when
    /// the chosen pipe completes, and a send without an available peer is
    /// parked until a peer opens or the timer decides. A surveyor's send
    /// opens a new survey, so queued votes of the superseded survey are
    /// dropped. Exactly one reply per command follows: here, from
    /// `on_send_completed`, or from `on_send_timeout`.
    pub fn send(&mut self, msg: Message) -> (r: SendStep)
        requires
            old(self).wf(),
            old(self).pending_send is None,
            old(self).send_in_flight is None,
            msg.header@.len() + msg.body@.len() <= usize::MAX - 12,
        ensures
            final(self).wf(),
            final(self).protocol.kind == old(self).protocol.kind,
            final(self).tokens() == old(self).tokens(),
            final(self).pending_recv == old(self).pending_recv,
            old(self).protocol.kind != SocketType::Surveyor ==> final(self).backlog@ == old(self).backlog@,
            old(self).protocol.kind == SocketType::Surveyor ==> final(self).backlog@.len() == 0,
            final(self).last_recv_from == old(self).last_recv_from,
            final(self).send_timeout_ms == old(self).send_timeout_ms,
            final(self).recv_timeout_ms == old(self).recv_timeout_ms,
            final(self).survey_deadline_ms == old(self).survey_deadline_ms,
            old(self).protocol.kind == SocketType::Sub || old(self).protocol.kind
                == SocketType::Pull ==> (r matches SendStep::Replied(SocketNotify::MsgNotSent(e))
                && e.kind == ErrorKind::Other),
            old(self).protocol.kind == SocketType::Pub || old(self).protocol.kind == SocketType::Bus
                || old(self).protocol.kind == SocketType::Surveyor ==> r == SendStep::Replied(
                SocketNotify::MsgSent,
            ) && final(self).pending_send is None && final(self).send_in_flight is None,
            old(self).protocol.kind == SocketType::Pub || old(self).protocol.kind == SocketType::Bus
                ==> final(self).broadcast_applied(*old(self), old(self).protocol.dist@, msg.payload()),
            old(self).protocol.kind == SocketType::Surveyor ==> final(self).broadcast_applied(
                *old(self),
                old(self).protocol.dist@,
                crate::codec::be_bytes4(old(self).protocol.next_survey_id()) + msg.payload(),
            ),
            (old(self).protocol.kind == SocketType::Rep || old(self).protocol.kind
                == SocketType::Respondent) && old(self).protocol.cur_reply is None ==> (r matches
                SendStep::Replied(SocketNotify::MsgNotSent(e)) && e.kind == ErrorKind::Other),
            old(self).protocol.kind == SocketType::Surveyor ==> final(self).protocol.cur_survey
                == Some(old(self).protocol.next_survey_id()) && !final(self).protocol.survey_expired
                && final(self).protocol.survey_id_seq == (old(self).protocol.survey_id_seq + 1)
                % 0x1_0000_0000,
            old(self).protocol.kind == SocketType::Pair && old(self).protocol.dist@.len() > 0
                ==> unicast_outcome(
                *old(self),
                *final(self),
                r,
                old(self).protocol.dist@[0],
                msg.payload(),
            ),
            old(self).protocol.kind == SocketType::Push && old(self).protocol.dist@.len() > 0
                ==> unicast_outcome(
                *old(self),
                *final(self),
                r,
                old(self).protocol.rr_choice(),
                msg.payload(),
            ),
            old(self).protocol.kind == SocketType::Req && old(self).protocol.dist@.len() > 0
                ==> unicast_outcome(
                *old(self),
                *final(self),
                r,
                old(self).protocol.rr_choice(),
                crate::codec::be_bytes4(old(self).protocol.next_request_id()) + msg.payload(),
            ) && final(self).protocol.cur_req == Some(old(self).protocol.next_request_id()),
            (old(self).protocol.kind == SocketType::Pair || old(self).protocol.kind
                == SocketType::Push || old(self).protocol.kind == SocketType::Req) && old(self).protocol.dist@.len() == 0 ==> r == SendStep::Parked && (final(self).pending_send matches Some(m) && m.header@ == msg.header@ && m.body@ == msg.body@),
            (old(self).protocol.kind == SocketType::Rep || old(self).protocol.kind
                == SocketType::Respondent) && old(self).protocol.cur_reply is Some ==> final(self).protocol.cur_reply is None && (if old(self).protocol.dist@.contains(
                (old(self).protocol.cur_reply->0).1,
            ) {
                unicast_outcome(
                    *old(self),
                    *final(self),
                    r,
                    (old(self).protocol.cur_reply->0).1,
                    crate::codec::be_bytes4((old(self).protocol.cur_reply->0).0) + msg.payload(),
                )
            } else {
                r matches SendStep::Replied(SocketNotify::MsgNotSent(e)) && e.kind
                    == ErrorKind::Other
            }),
            r matches SendStep::AwaitCompletion(t) ==> final(self).send_in_flight == Some(t)
                && final(self).pending_send is None && (exists|j: int|
                0 <= j < final(self).pipes@.len() && (#[trigger] final(self).pipes@[j]).token == t
                    && final(self).pipes@[j].state == PipeStateKind::SendBusy),
            r == SendStep::Parked ==> final(self).pending_send is Some && final(self).send_in_flight is None,
            r matches SendStep::Replied(n) ==> final(self).pending_send is None && final(self).send_in_flight is None && (n is MsgSent || n is MsgNotSent),
    {
        let ghost pre = *old(self);
        let kind = self.protocol.get_type();
        let plan = self.protocol.send(msg);
        match plan {
            SendPlan::Broadcast(targets, m) => {
                if kind == SocketType::Surveyor {
                    // votes still queued belong to the superseded survey
                    self.backlog = Vec::new();
                }
                proof {
                    assert(crate::protocol::distinct_seq(targets@));
                }
                self.write_broadcast(&targets, &m);
                SendStep::Replied(SocketNotify::MsgSent)
            },
            SendPlan::Unicast(tok, m) => {
                proof {
                    if pre.protocol.kind == SocketType::Pair || pre.protocol.kind
                        == SocketType::Push {
                        assert(m.payload() =~= msg.payload());
                    }
                    if pre.protocol.kind == SocketType::Req {
                        assert(m.payload() =~= crate::codec::be_bytes4(
                            pre.protocol.next_request_id(),
                        ) + msg.payload());
                    }
                    if pre.protocol.kind == SocketType::Rep || pre.protocol.kind
                        == SocketType::Respondent {
                        assert(m.payload() =~= crate::codec::be_bytes4(
                            (pre.protocol.cur_reply->0).0,
                        ) + msg.payload());
                    }
                }
                self.start_unicast(tok, m)
            },
            SendPlan::NoPeer(m) => {
                self.pending_send = Some(m);
                SendStep::Parked
            },
            SendPlan::Reject(e) => SendStep::Replied(SocketNotify::MsgNotSent(e)),
        }
    }

    /// Starts the planned transfer on the chosen pipe if it is idle;
    /// otherwise the message parks until the pipe frees up or the send
    /// timer fires.
    fn start_unicast(&mut self, tok: usize, m: Message) -> (r: SendStep)
        requires
            old(self).wf(),
            old(self).pending_send is None,
            old(self).send_in_flight is None,
            m.header@.len() + m.body@.len() <= usize::MAX - 8,
        ensures
            final(self).wf(),
            final(self).tokens() == old(self).tokens(),
            final(self).protocol == old(self).protocol,
            final(self).acceptors@ == old(self).acceptors@,
            final(self).pending_recv == old(self).pending_recv,
            final(self).backlog@ == old(self).backlog@,
            final(self).last_recv_from == old(self).last_recv_from,
            final(self).send_timeout_ms == old(self).send_timeout_ms,
            final(self).recv_timeout_ms == old(self).recv_timeout_ms,
            final(self).survey_deadline_ms == old(self).survey_deadline_ms,
            final(self).resend_ivl_ms == old(self).resend_ivl_ms,
            final(self).id == old(self).id,
            pipe_idle_at(old(self).pipes@, tok) ==> r == SendStep::AwaitCompletion(tok) && final(self).send_in_flight == Some(tok) && final(self).pending_send is None && unicast_written(
                old(self).pipes@,
                final(self).pipes@,
                tok,
                m.payload(),
            ),
            !pipe_idle_at(old(self).pipes@, tok) ==> r == SendStep::Parked && final(self).send_in_flight is None && final(self).pending_send == Some(m) && final(self).pipes@
                == old(self).pipes@,
            r matches SendStep::AwaitCompletion(t) ==> t == tok && (exists|j: int|
                0 <= j < final(self).pipes@.len() && (#[trigger] final(self).pipes@[j]).token == t
                    && final(self).pipes@[j].state == PipeStateKind::SendBusy),
            r is Replied ==> false,
    {
        match self.pipe_index(tok) {
            Some(i) => {
                if self.pipes[i].state == PipeStateKind::Idle {
                    let ghost mid = *self;
                    let mut pipe = self.pipes.remove(i);
                    pipe.start_send(m);
                    self.pipes.insert(i, pipe);
                    proof {
                        assert(self.pipes@ =~= mid.pipes@.update(i as int, self.pipes@[i as int]));
                        assert(self.tokens() =~= mid.tokens());
                        assert(pipe_idle_at(old(self).pipes@, tok)) by {
                            assert(old(self).pipes@[i as int].token == tok);
                        }
                        assert forall|j: int|
                            0 <= j < old(self).pipes@.len() && j != i && (#[trigger] old(self).pipes@[j]).token == tok implies false by {
                            assert(old(self).tokens()[j] == tok);
                            assert(old(self).tokens()[i as int] == tok);
                            let oldpipes = old(self).protocol.pipes@;
                            assert(oldpipes[j] == oldpipes[i as int]);
                        }
                    }
                    self.send_in_flight = Some(tok);
                    SendStep::AwaitCompletion(tok)
                } else {
                    proof {
                        assert forall|j: int|
                            0 <= j < old(self).pipes@.len() && (#[trigger] old(self).pipes@[j]).token == tok implies j == i as int by {
                            assert(old(self).tokens()[j] == tok);
                            assert(old(self).tokens()[i as int] == tok);
                            let oldpipes = old(self).protocol.pipes@;
                            assert(oldpipes[j] == oldpipes[i as int]);
                        }
                    }
                    self.pending_send = Some(m);
                    SendStep::Parked
                }
            },
            None => {
                proof {
                    assert forall|j: int|
                        0 <= j < old(self).pipes@.len() implies (#[trigger] old(self).pipes@[j]).token != tok by {
                        if old(self).pipes@[j].token == tok {
                            assert(old(self).tokens()[j] == tok);
                        }
                    }
                }
                self.pending_send = Some(m);
                SendStep::Parked
            },
        }
    }

    /// A bus socket re-broadcasts a message it is forwarding — the origin
    /// is the pipe the message arrived on, as `last_recv_from` records —
    /// to every opened pipe except that one: the pattern's only loop
    /// prevention. Success is reported at once, as for any broadcast.
    pub fn send_from(&mut self, msg: Message, origin: usize) -> (r: SendStep)
        requires
            old(self).wf(),
            old(self).pending_send is None,
            old(self).send_in_flight is None,
            old(self).protocol.kind == SocketType::Bus,
            msg.header@.len() + msg.body@.len() <= usize::MAX - 12,
        ensures
            final(self).wf(),
            final(self).protocol == old(self).protocol,
            final(self).tokens() == old(self).tokens(),
            r == SendStep::Replied(SocketNotify::MsgSent),
            final(self).pending_send is None,
            final(self).send_in_flight is None,
            final(self).pending_recv == old(self).pending_recv,
            final(self).backlog@ == old(self).backlog@,
            final(self).broadcast_applied(
                *old(self),
                (if old(self).protocol.dist@.contains(origin) {
                    old(self).protocol.dist@.remove(old(self).protocol.dist@.index_of(origin))
                } else {
                    old(self).protocol.dist@
                }),
                msg.payload(),
            ),
            forall|j: int|
                0 <= j < old(self).pipes@.len() && (#[trigger] old(self).pipes@[j]).token == origin
                    ==> final(self).pipes@[j] == old(self).pipes@[j],
    {
        let targets = self.protocol.targets_excluding(origin);
        self.write_broadcast(&targets, &msg);
        SendStep::Replied(SocketNotify::MsgSent)
    }

    /// The pipe that carried the send in flight reports completion: the one
    /// owed `MsgSent` reply is produced, exactly once — the slot is cleared,
    /// so a second completion produces nothing.
    pub fn on_send_completed(&mut self, token: usize) -> (r: Option<SocketNotify>)
        requires
            old(self).wf(),
        ensures
            final(self).wf(),
            old(self).send_in_flight == Some(token) ==> r == Some(SocketNotify::MsgSent) && final(self).send_in_flight is None,
            old(self).send_in_flight != Some(token) ==> r is None && *final(self) == *old(self),
    {
        match self.send_in_flight {
            Some(t) => {
                if t == token {
                    self.send_in_flight = None;
                    Some(SocketNotify::MsgSent)
                } else {
                    None
                }
            },
            None => None,
        }
    }

    /// The send cancellation timer fired first: the pending send — parked
    /// or in flight — is abandoned and its one reply is the timeout error.
    /// A send already answered leaves nothing pending, so the timer then
    /// produces no second reply.
    pub fn on_send_timeout(&mut self) -> (r: Option<SocketNotify>)
        requires
            old(self).wf(),
        ensures
            final(self).wf(),
            r is Some <==> old(self).pending_send is Some || old(self).send_in_flight is Some,
            r matches Some(n) ==> (n matches SocketNotify::MsgNotSent(e) && e.kind
                == ErrorKind::TimedOut),
            final(self).pending_send is None,
            final(self).send_in_flight is None,
    {
        let owed = match self.pending_send {
            Some(_) => true,
            None => match self.send_in_flight {
                Some(_) => true,
                None => false,
            },
        };
        self.pending_send = None;
        self.send_in_flight = None;
        if owed {
            Some(SocketNotify::MsgNotSent(timed_out_io_error("send timeout reached")))
        } else {
            None
        }
    }

    /// Takes back a parked message, for re-planning once a peer has opened.
    pub fn take_parked_send(&mut self) -> (r: Option<Message>)
        requires
            old(self).wf(),
        ensures
            final(self).wf(),
            r == old(self).pending_send,
            final(self).pending_send is None,
            *final(self) == (SocketImpl { pending_send: None, ..*old(self) }),
    {
        self.pending_send.take()
    }

    /// Accepts a `RecvMsg` command: answered at once from the backlog, or
    /// with the pattern's error; otherwise the reply follows on arrival or
    /// timeout.
    pub fn recv(&mut self) -> (r: RecvStep)
        requires
            old(self).wf(),
            !old(self).pending_recv,
        ensures
            final(self).wf(),
            final(self).protocol.kind == old(self).protocol.kind,
            final(self).tokens() == old(self).tokens(),
            old(self).protocol.kind == SocketType::Pub || old(self).protocol.kind
                == SocketType::Push ==> (r matches RecvStep::Replied(SocketNotify::MsgNotRecv(e))
                && e.kind == ErrorKind::Other) && *final(self) == *old(self),
            old(self).protocol.kind == SocketType::Surveyor && old(self).protocol.survey_expired
                ==> (r matches RecvStep::Replied(SocketNotify::MsgNotRecv(e)) && e.kind
                == ErrorKind::Other) && *final(self) == *old(self),
            old(self).protocol.kind == SocketType::Req && old(self).protocol.cur_req is None ==> (
            r matches RecvStep::Replied(SocketNotify::MsgNotRecv(e)) && e.kind == ErrorKind::Other)
                && *final(self) == *old(self),
            old(self).protocol.kind != SocketType::Pub && old(self).protocol.kind
                != SocketType::Push && !(old(self).protocol.kind == SocketType::Surveyor && old(self).protocol.survey_expired) && !(old(self).protocol.kind == SocketType::Req && old(self).protocol.cur_req is None) ==> (if old(self).backlog@.len() > 0 {
                (r matches RecvStep::Replied(SocketNotify::MsgRecv(m)) && m == old(self).backlog@[0].1) && final(self).backlog@ == old(self).backlog@.skip(1) && !final(self).pending_recv && final(self).last_recv_from == Some(old(self).backlog@[0].0)
                    && (old(self).protocol.kind == SocketType::Rep ==> (final(self).protocol.cur_reply matches Some((id, t)) && t == old(self).backlog@[0].0 && be_bytes4(id) == old(self).backlog@[0].1.header@))
            } else {
                r == RecvStep::AwaitMessage && final(self).pending_recv && final(self).backlog@
                    == old(self).backlog@ && final(self).protocol == old(self).protocol
            }),
            final(self).pipes@ == old(self).pipes@,
            final(self).acceptors@ == old(self).acceptors@,
            final(self).pending_send == old(self).pending_send,
            final(self).send_in_flight == old(self).send_in_flight,
            final(self).send_timeout_ms == old(self).send_timeout_ms,
            final(self).recv_timeout_ms == old(self).recv_timeout_ms,
            final(self).survey_deadline_ms == old(self).survey_deadline_ms,
            final(self).resend_ivl_ms == old(self).resend_ivl_ms,
            final(self).protocol.dist@ == old(self).protocol.dist@,
            final(self).protocol.subscriptions@ == old(self).protocol.subscriptions@,
            final(self).protocol.rr == old(self).protocol.rr,
            final(self).protocol.fq == old(self).protocol.fq,
            final(self).protocol.req_id_seq == old(self).protocol.req_id_seq,
            final(self).protocol.survey_id_seq == old(self).protocol.survey_id_seq,
            final(self).protocol.cur_req == old(self).protocol.cur_req,
            final(self).protocol.cur_survey == old(self).protocol.cur_survey,
            final(self).protocol.survey_expired == old(self).protocol.survey_expired,
            old(self).protocol.kind != SocketType::Rep ==> final(self).protocol.cur_reply == old(self).protocol.cur_reply,
    {
        let kind = self.protocol.get_type();
        if kind == SocketType::Pub || kind == SocketType::Push {
            return RecvStep::Replied(
                SocketNotify::MsgNotRecv(other_io_error("recv not supported by protocol")),
            );
        }
        if kind == SocketType::Surveyor && self.protocol.survey_expired {
            return RecvStep::Replied(
                SocketNotify::MsgNotRecv(other_io_error("survey deadline reached")),
            );
        }
        if kind == SocketType::Req {
            let no_request = match self.protocol.cur_req {
                Some(_) => false,
                None => true,
            };
            if no_request {
                return RecvStep::Replied(
                    SocketNotify::MsgNotRecv(other_io_error("no outstanding request")),
                );
            }
        }
        if self.backlog.len() > 0 {
            let (origin, m) = self.backlog.remove(0);
            proof {
                assert(self.backlog@ =~= old(self).backlog@.skip(1));
            }
            self.last_recv_from = Some(origin);
            if kind == SocketType::Rep {
                let id = crate::codec::read_header(m.header.as_slice());
                self.protocol.record_reply_target(id, origin);
            }
            RecvStep::Replied(SocketNotify::MsgRecv(m))
        } else {
            self.pending_recv = true;
            RecvStep::AwaitMessage
        }
    }

    /// A message assembled on pipe `token` runs through the policy's
    /// filter. Accepted and awaited: the reply is produced and the wait
    /// ends. Accepted unawaited: it joins the backlog. Filtered: nothing.
    pub fn on_msg_received(&mut self, token: usize, msg: Message) -> (r: Option<SocketNotify>)
        requires
            old(self).wf(),
        ensures
            final(self).wf(),
            final(self).tokens() == old(self).tokens(),
            final(self).protocol.kind == old(self).protocol.kind,
            r is Some <==> old(self).pending_recv && old(self).protocol.accepts_incoming(
                token,
                msg.body@,
            ),
            r matches Some(n) ==> (n matches SocketNotify::MsgRecv(m) && old(self).protocol.delivered_shape(msg.header@, msg.body@, m)) && !final(self).pending_recv && final(self).last_recv_from == Some(token),
            old(self).protocol.kind == SocketType::Rep && r is Some ==> (final(self).protocol.cur_reply matches Some((id, t)) && t == token && be_bytes4(id) == msg.body@.take(4)),
            old(self).protocol.kind == SocketType::Rep && r is None ==> final(self).protocol.cur_reply == old(self).protocol.cur_reply,
            !old(self).protocol.accepts_incoming(token, msg.body@) ==> final(self).backlog@ == old(self).backlog@ && final(self).pending_recv == old(self).pending_recv
                && final(self).last_recv_from == old(self).last_recv_from,
            old(self).protocol.accepts_incoming(token, msg.body@) && !old(self).pending_recv ==> final(self).backlog@.len() == old(self).backlog@.len() + 1
                && final(self).backlog@.take(old(self).backlog@.len() as int) == old(self).backlog@
                && final(self).backlog@[old(self).backlog@.len() as int].0 == token
                && final(self).last_recv_from == old(self).last_recv_from
                && final(self).pending_recv == old(self).pending_recv
                && old(self).protocol.delivered_shape(
                msg.header@,
                msg.body@,
                final(self).backlog@[old(self).backlog@.len() as int].1,
            ),
    {
        match self.protocol.on_recv_completed(token, msg) {
            Some(m) => {
                if self.pending_recv {
                    self.pending_recv = false;
                    self.last_recv_from = Some(token);
                    if self.protocol.get_type() == SocketType::Rep {
                        let id = crate::codec::read_header(m.header.as_slice());
                        self.protocol.record_reply_target(id, token);
                    }
                    Some(SocketNotify::MsgRecv(m))
                } else {
                    self.backlog.push((token, m));
                    None
                }
            },
            None => None,
        }
    }

    /// The receive cancellation timer fired first: the wait ends and its
    /// one reply is the timeout error. A receive already answered leaves no
    /// wait pending, so the timer then produces no second reply.
    pub fn on_recv_timeout(&mut self) -> (r: Option<SocketNotify>)
        requires
            old(self).wf(),
        ensures
            final(self).wf(),
            r is Some <==> old(self).pending_recv,
            r matches Some(n) ==> (n matches SocketNotify::MsgNotRecv(e) && e.kind
                == ErrorKind::TimedOut),
            !final(self).pending_recv,
    {
        let owed = self.pending_recv;
        self.pending_recv = false;
        if owed {
            Some(SocketNotify::MsgNotRecv(timed_out_io_error("recv timeout reached")))
        } else {
            None
        }
    }

    /// After a surveyor's send, the survey deadline timer must be armed for
    /// this many milliseconds; any other socket arms none.
    pub fn survey_timer_request(&self) -> (r: Option<u64>)
        ensures
            r == (if self.protocol.kind == SocketType::Surveyor && self.protocol.cur_survey
                is Some && !self.protocol.survey_expired {
                Some(self.survey_deadline_ms)
            } else {
                None::<u64>
            }),
    {
        let is_active = match self.protocol.cur_survey {
            Some(_) => !self.protocol.survey_expired,
            None => false,
        };
        if self.protocol.get_type() == SocketType::Surveyor && is_active {
            Some(self.survey_deadline_ms)
        } else {
            None
        }
    }

    /// The survey deadline fired: receives fail until the next survey. It
    /// touches nothing but the policy's expiry flag: pending operations,
    /// the backlog and the pipes stay as they were, so a following receive
    /// command finds the socket exactly as the deadline left it.
    pub fn on_survey_deadline(&mut self)
        requires
            old(self).wf(),
        ensures
            final(self).wf(),
            old(self).protocol.kind == SocketType::Surveyor ==> final(self).protocol.survey_expired,
            old(self).protocol.kind != SocketType::Surveyor ==> *final(self) == *old(self),
            final(self).pipes@ == old(self).pipes@,
            final(self).acceptors@ == old(self).acceptors@,
            final(self).pending_send == old(self).pending_send,
            final(self).send_in_flight == old(self).send_in_flight,
            final(self).pending_recv == old(self).pending_recv,
            final(self).backlog@ == old(self).backlog@,
            final(self).last_recv_from == old(self).last_recv_from,
            final(self).send_timeout_ms == old(self).send_timeout_ms,
            final(self).recv_timeout_ms == old(self).recv_timeout_ms,
            final(self).survey_deadline_ms == old(self).survey_deadline_ms,
            final(self).resend_ivl_ms == old(self).resend_ivl_ms,
            final(self).protocol.kind == old(self).protocol.kind,
            final(self).protocol.pipes@ == old(self).protocol.pipes@,
            final(self).protocol.dist@ == old(self).protocol.dist@,
            final(self).protocol.subscriptions@ == old(self).protocol.subscriptions@,
            final(self).protocol.rr == old(self).protocol.rr,
            final(self).protocol.fq == old(self).protocol.fq,
            final(self).protocol.req_id_seq == old(self).protocol.req_id_seq,
            final(self).protocol.survey_id_seq == old(self).protocol.survey_id_seq,
            final(self).protocol.cur_req == old(self).protocol.cur_req,
            final(self).protocol.cur_reply == old(self).protocol.cur_reply,
            final(self).protocol.cur_survey == old(self).protocol.cur_survey,
    {
        self.protocol.on_survey_deadline();
    }
}

impl SocketImpl {
    /// Applies a `SetOption` command. Durations are converted to the
    /// milliseconds the timers use; pattern-specific options are rejected on
    /// sockets of any other pattern; priorities are accepted and ignored.
    pub fn set_option(&mut self, option: SocketOption) -> (r: Result<(), IoError>)
        requires
            old(self).wf(),
        ensures
            final(self).wf(),
            final(self).protocol.kind == old(self).protocol.kind,
            final(self).tokens() == old(self).tokens(),
            option matches SocketOption::SendTimeout(_) ==> r is Ok && final(self).send_timeout_ms
                == crate::global::spec_to_millis(option->SendTimeout_0) && *final(self) == (
            SocketImpl { send_timeout_ms: final(self).send_timeout_ms, ..*old(self) }),
            option matches SocketOption::RecvTimeout(_) ==> r is Ok && final(self).recv_timeout_ms
                == crate::global::spec_to_millis(option->RecvTimeout_0) && *final(self) == (
            SocketImpl { recv_timeout_ms: final(self).recv_timeout_ms, ..*old(self) }),
            option matches SocketOption::SendPriority(_) ==> r is Ok && *final(self) == *old(self),
            option matches SocketOption::RecvPriority(_) ==> r is Ok && *final(self) == *old(self),
            option matches SocketOption::Subscribe(_) ==> (r is Ok <==> old(self).protocol.kind
                == SocketType::Sub),
            option matches SocketOption::Unsubscribe(_) ==> (r is Ok <==> old(self).protocol.kind
                == SocketType::Sub),
            (option matches SocketOption::Subscribe(_)) && old(self).protocol.kind
                == SocketType::Sub ==> ({
                let bytes = vstd::utf8::encode_utf8(option->Subscribe_0@);
                &&& final(self).protocol.subs_view().contains(bytes)
                &&& (old(self).protocol.subs_view().contains(bytes) ==> final(self).protocol.subscriptions@ == old(self).protocol.subscriptions@)
                &&& (!old(self).protocol.subs_view().contains(bytes) ==> final(self).protocol.subs_view() == old(self).protocol.subs_view().push(bytes))
                &&& *final(self) == (SocketImpl { protocol: final(self).protocol, ..*old(self) })
                &&& final(self).protocol.pipes@ == old(self).protocol.pipes@
                &&& final(self).protocol.dist@ == old(self).protocol.dist@
                &&& final(self).protocol.rr == old(self).protocol.rr
                &&& final(self).protocol.fq == old(self).protocol.fq
                &&& final(self).protocol.req_id_seq == old(self).protocol.req_id_seq
                &&& final(self).protocol.survey_id_seq == old(self).protocol.survey_id_seq
                &&& final(self).protocol.cur_req == old(self).protocol.cur_req
                &&& final(self).protocol.cur_reply == old(self).protocol.cur_reply
                &&& final(self).protocol.cur_survey == old(self).protocol.cur_survey
                &&& final(self).protocol.survey_expired == old(self).protocol.survey_expired
            }),
            (option matches SocketOption::Unsubscribe(_)) && old(self).protocol.kind
                == SocketType::Sub ==> ({
                let bytes = vstd::utf8::encode_utf8(option->Unsubscribe_0@);
                &&& !final(self).protocol.subs_view().contains(bytes)
                &&& (forall|p: Seq<u8>|
                    p != bytes ==> final(self).protocol.subs_view().contains(p) == old(self).protocol.subs_view().contains(p))
                &&& *final(self) == (SocketImpl { protocol: final(self).protocol, ..*old(self) })
                &&& final(self).protocol.pipes@ == old(self).protocol.pipes@
                &&& final(self).protocol.dist@ == old(self).protocol.dist@
                &&& final(self).protocol.rr == old(self).protocol.rr
                &&& final(self).protocol.fq == old(self).protocol.fq
                &&& final(self).protocol.req_id_seq == old(self).protocol.req_id_seq
                &&& final(self).protocol.survey_id_seq == old(self).protocol.survey_id_seq
                &&& final(self).protocol.cur_req == old(self).protocol.cur_req
                &&& final(self).protocol.cur_reply == old(self).protocol.cur_reply
                &&& final(self).protocol.cur_survey == old(self).protocol.cur_survey
                &&& final(self).protocol.survey_expired == old(self).protocol.survey_expired
            }),
            option matches SocketOption::SurveyDeadline(_) ==> (r is Ok <==> old(self).protocol.kind == SocketType::Surveyor),
            (option matches SocketOption::SurveyDeadline(_)) && old(self).protocol.kind
                == SocketType::Surveyor ==> final(self).survey_deadline_ms
                == crate::global::spec_to_millis(option->SurveyDeadline_0) && *final(self) == (
            SocketImpl { survey_deadline_ms: final(self).survey_deadline_ms, ..*old(self) }),
            option matches SocketOption::ResendInterval(_) ==> (r is Ok <==> old(self).protocol.kind == SocketType::Req),
            (option matches SocketOption::ResendInterval(_)) && old(self).protocol.kind
                == SocketType::Req ==> final(self).resend_ivl_ms == Some(
                crate::global::spec_to_millis(option->ResendInterval_0),
            ) && *final(self) == (SocketImpl { resend_ivl_ms: final(self).resend_ivl_ms, ..*old(self) }),
            r matches Err(e) ==> e.kind == ErrorKind::InvalidInput && *final(self) == *old(self),
    {
        match option {
            SocketOption::SendTimeout(d) => {
                self.send_timeout_ms = crate::global::duration_to_millis(&d);
                Ok(())
            },
            SocketOption::RecvTimeout(d) => {
                self.recv_timeout_ms = crate::global::duration_to_millis(&d);
                Ok(())
            },
            SocketOption::Subscribe(s) => {
                if self.protocol.get_type() == SocketType::Sub {
                    let prefix = vstd::slice::slice_to_vec(s.as_str().as_bytes());
                    proof {
                        assert(prefix@ == vstd::utf8::encode_utf8(s@));
                    }
                    let ghost subs_pre = self.protocol.subs_view();
                    self.protocol.subscribe(prefix);
                    proof {
                        if !subs_pre.contains(prefix@) {
                            assert(self.protocol.subs_view()[subs_pre.len() as int] == prefix@);
                        }
                    }
                    Ok(())
                } else {
                    Err(invalid_input_io_error("subscriptions require a subscriber socket"))
                }
            },
            SocketOption::Unsubscribe(s) => {
                if self.protocol.get_type() == SocketType::Sub {
                    let prefix = vstd::slice::slice_to_vec(s.as_str().as_bytes());
                    proof {
                        assert(prefix@ == vstd::utf8::encode_utf8(s@));
                    }
                    self.protocol.unsubscribe(&prefix);
                    Ok(())
                } else {
                    Err(invalid_input_io_error("subscriptions require a subscriber socket"))
                }
            },
            SocketOption::SurveyDeadline(d) => {
                if self.protocol.get_type() == SocketType::Surveyor {
                    self.survey_deadline_ms = crate::global::duration_to_millis(&d);
                    Ok(())
                } else {
                    Err(invalid_input_io_error("survey deadlines require a surveyor socket"))
                }
            },
            SocketOption::ResendInterval(d) => {
                if self.protocol.get_type() == SocketType::Req {
                    self.resend_ivl_ms = Some(crate::global::duration_to_millis(&d));
                    Ok(())
                } else {
                    Err(invalid_input_io_error("resend intervals require a request socket"))
                }
            },
            SocketOption::SendPriority(_) => Ok(()),
            SocketOption::RecvPriority(_) => Ok(()),
        }
    }

    /// A listener was bound for this socket under this endpoint token.
    pub fn add_acceptor(&mut self, token: usize, addr: String)
        requires
            old(self).wf(),
        ensures
            final(self).wf(),
            final(self).acceptors@ == old(self).acceptors@.push((token, addr)),
            final(self).pipes@ == old(self).pipes@,
            final(self).protocol == old(self).protocol,
    {
        self.acceptors.push((token, addr));
    }

    /// Whether this endpoint token names one of the socket's acceptors;
    /// the event loop uses it to tell listener readiness from pipe
    /// readiness.
    pub fn has_acceptor(&self, token: usize) -> (r: bool)
        ensures
            r == (exists|i: int|
                0 <= i < self.acceptors@.len() && (#[trigger] self.acceptors@[i]).0 == token),
    {
        let mut i: usize = 0;
        while i < self.acceptors.len()
            invariant
                i <= self.acceptors@.len(),
                forall|k: int| 0 <= k < i ==> (#[trigger] self.acceptors@[k]).0 != token,
            decreases self.acceptors@.len() - i,
        {
            if self.acceptors[i].0 == token {
                return true;
            }
            i = i + 1;
        }
        false
    }

    /// The listener failed: the acceptor is dropped and its address comes
    /// back so a rebind can be scheduled after the fixed backoff.
    pub fn on_acceptor_error(&mut self, token: usize) -> (r: Option<(usize, String, u64)>)
        requires
            old(self).wf(),
        ensures
            final(self).wf(),
            final(self).pipes@ == old(self).pipes@,
            final(self).protocol == old(self).protocol,
            r is Some <==> (exists|i: int|
                0 <= i < old(self).acceptors@.len() && (#[trigger] old(self).acceptors@[i]).0
                    == token),
            r matches Some((t, a, d)) ==> t == token && d == RETRY_DELAY_MS && (exists|i: int|
                0 <= i < old(self).acceptors@.len() && (#[trigger] old(self).acceptors@[i]) == (
                token,
                a,
            ) && final(self).acceptors@ == old(self).acceptors@.remove(i)),
            r is None ==> *final(self) == *old(self),
    {
        let mut i: usize = 0;
        while i < self.acceptors.len()
            invariant
                old(self).wf(),
                i <= self.acceptors@.len(),
                *self == *old(self),
                forall|k: int| 0 <= k < i ==> (#[trigger] self.acceptors@[k]).0 != token,
            decreases self.acceptors@.len() - i,
        {
            if self.acceptors[i].0 == token {
                let (_, addr) = self.acceptors.remove(i);
                proof {
                    assert(old(self).acceptors@[i as int] == (token, addr));
                }
                return Some((token, addr, RETRY_DELAY_MS));
            }
            i = i + 1;
        }
        None
    }

    /// Tears the socket down: every pipe and acceptor is dropped, and the
    /// endpoint tokens that were registered come back so the event loop can
    /// deregister them.
    pub fn destroy(&mut self) -> (r: Vec<usize>)
        requires
            old(self).wf(),
        ensures
            final(self).wf(),
            r@ == old(self).tokens(),
            final(self).pipes@.len() == 0,
            final(self).acceptors@.len() == 0,
            final(self).protocol.kind == old(self).protocol.kind,
            final(self).pending_send is None,
            final(self).send_in_flight is None,
            !final(self).pending_recv,
    {
        let mut tokens: Vec<usize> = Vec::new();
        let mut i: usize = 0;
        while i < self.pipes.len()
            invariant
                i <= self.pipes@.len(),
                *self == *old(self),
                tokens@ == old(self).tokens().take(i as int),
            decreases self.pipes@.len() - i,
        {
            tokens.push(self.pipes[i].token);
            i = i + 1;
            proof {
                assert(tokens@ =~= old(self).tokens().take(i as int));
            }
        }
        proof {
            assert(old(self).tokens().take(old(self).tokens().len() as int) =~= old(self).tokens());
        }
        let kind = self.protocol.get_type();
        self.protocol = Protocol::new(kind);
        self.pipes = Vec::new();
        self.acceptors = Vec::new();
        self.pending_send = None;
        self.send_in_flight = None;
        self.pending_recv = false;
        self.backlog = Vec::new();
        self.last_recv_from = None;
        proof {
            assert(self.tokens() =~= Seq::<usize>::empty());
        }
        tokens
    }
}

/// The position of the transport separator: the bytes `"://"` begin at `i`.
pub open spec fn scheme_sep_at(s: Seq<u8>, i: int) -> bool {
    0 <= i && i + 3 <= s.len() && s[i] == 58 && s[i + 1] == 47 && s[i + 2] == 47
}

/// Splits an endpoint address of the form `scheme://specific` at its first
/// separator, returning the byte position where `"://"` begins; an address
/// without a separator is malformed.
pub fn split_address(addr: &str) -> (r: Result<usize, IoError>)
    ensures
        r matches Ok(i) ==> scheme_sep_at(addr.spec_bytes(), i as int) && (forall|k: int|
            0 <= k < i ==> !scheme_sep_at(addr.spec_bytes(), k)),
        r is Err <==> (forall|k: int| !scheme_sep_at(addr.spec_bytes(), k)),
        r matches Err(e) ==> e.kind == ErrorKind::InvalidInput,
{
    let b = addr.as_bytes();
    if b.len() < 3 {
        return Err(invalid_input_io_error("invalid address syntax"));
    }
    let mut i: usize = 0;
    while i <= b.len() - 3
        invariant
            b@.len() >= 3,
            i <= b@.len(),
            b@ == addr.spec_bytes(),
            forall|k: int| 0 <= k < i ==> !scheme_sep_at(addr.spec_bytes(), k),
        decreases b@.len() - i,
    {
        if b[i] == 58 && b[i + 1] == 47 && b[i + 2] == 47 {
            proof {
                assert(scheme_sep_at(addr.spec_bytes(), i as int));
            }
            return Ok(i);
        }
        i = i + 1;
    }
    Err(invalid_input_io_error("invalid address syntax"))
}

/// Removing a pipe removes exactly its token from the token sequence.
proof fn lemma_tokens_remove(pipes: Seq<Pipe>, i: int)
    requires
        0 <= i < pipes.len(),
    ensures
        pipes.remove(i).map_values(|p: Pipe| p.token) == pipes.map_values(
            |p: Pipe| p.token,
        ).remove(i),
{
    assert(pipes.remove(i).map_values(|p: Pipe| p.token) =~= pipes.map_values(
        |p: Pipe| p.token,
    ).remove(i));
}

} // verus!
