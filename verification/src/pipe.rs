//! The pipe state machine: one byte-stream connection progressing through
//! handshake, idle and busy states, and the incremental operations that
//! assemble or emit one length-prefixed message at a time.
//!
//! The pipe itself never touches a transport. The surrounding event loop
//! reads and writes the connection and feeds the resulting byte chunks and
//! completion counts into these transitions; every decision the pipe takes is
//! a pure function of its state and those inputs.

use vstd::assert_seqs_equal;
use vstd::prelude::*;

use crate::codec::{
    be_bytes8, check_handshake, create_handshake, frame_of, frame_payload, handshake_frame,
    read_prefix,
};
use crate::global::{invalid_data_io_error, other_io_error, would_block_io_error, ErrorKind, IoError};
use crate::message::Message;

verus! {

/// The three stages of receiving one framed message.
#[derive(Debug, Copy, Clone, Eq, PartialEq, Structural)]
pub enum RecvOperationStep {
    /// Reading the 8-byte length prefix.
    Prefix,
    /// Reading exactly the announced number of payload bytes.
    Payload,
    /// The message has been assembled and handed out.
    Done,
}

impl RecvOperationStep {
    pub open spec fn spec_next(self) -> RecvOperationStep {
        match self {
            RecvOperationStep::Prefix => RecvOperationStep::Payload,
            RecvOperationStep::Payload => RecvOperationStep::Done,
            RecvOperationStep::Done => RecvOperationStep::Done,
        }
    }

    pub fn next(&self) -> (r: RecvOperationStep)
        ensures
            r == self.spec_next(),
    {
        match *self {
            RecvOperationStep::Prefix => RecvOperationStep::Payload,
            RecvOperationStep::Payload => RecvOperationStep::Done,
            RecvOperationStep::Done => RecvOperationStep::Done,
        }
    }
}

/// An in-progress receive: the prefix bytes gathered so far, the announced
/// payload length once known, and the payload bytes gathered so far.
pub struct RecvOperation {
    pub step: RecvOperationStep,
    pub read: usize,
    pub prefix: Vec<u8>,
    pub msg_len: u64,
    pub buffer: Vec<u8>,
}

impl RecvOperation {
    /// Between calls: the cursor mirrors the current stage's buffer, the
    /// prefix is complete before any payload byte is accepted, and the
    /// announced length both matches the prefix and fits in memory.
    pub open spec fn wf(self) -> bool {
        match self.step {
            RecvOperationStep::Prefix => self.read == self.prefix@.len() && self.prefix@.len() <= 8
                && self.buffer@.len() == 0,
            RecvOperationStep::Payload => self.prefix@.len() == 8 && be_bytes8(self.msg_len)
                == self.prefix@ && self.read == self.buffer@.len() && self.buffer@.len()
                <= self.msg_len && self.msg_len <= usize::MAX,
            RecvOperationStep::Done => true,
        }
    }

    /// Every byte this operation has accepted from the wire, in order.
    pub open spec fn consumed(self) -> Seq<u8> {
        self.prefix@ + self.buffer@
    }

    /// The operation still owes bytes to the current stage: the prefix is
    /// short, or the payload is short of the announced length. A receive
    /// that ends a call incomplete has consumed everything offered, so a
    /// complete frame can never be withheld.
    pub open spec fn incomplete(self) -> bool {
        match self.step {
            RecvOperationStep::Prefix => self.prefix@.len() < 8,
            RecvOperationStep::Payload => self.buffer@.len() < self.msg_len,
            RecvOperationStep::Done => false,
        }
    }

    pub fn new() -> (r: RecvOperation)
        ensures
            r.wf(),
            r.step == RecvOperationStep::Prefix,
            r.consumed() == Seq::<u8>::empty(),
    {
        let r = RecvOperation {
            step: RecvOperationStep::Prefix,
            read: 0,
            prefix: Vec::new(),
            msg_len: 0,
            buffer: Vec::new(),
        };
        proof {
            assert(r.consumed() =~= Seq::<u8>::empty());
        }
        r
    }

    /// Moves to the next stage and resets the stage cursor.
    pub fn step_forward(&mut self)
        ensures
            final(self).step == old(self).step.spec_next(),
            final(self).read == 0,
            final(self).prefix@ == old(self).prefix@,
            final(self).msg_len == old(self).msg_len,
            final(self).buffer@ == old(self).buffer@,
    {
        self.step = self.step.next();
        self.read = 0;
    }

    /// Consumes bytes from `input` and advances the assembly. Returns how
    /// many bytes were consumed and, once the whole frame has arrived, the
    /// assembled message. A finished operation rejects further input; a
    /// length prefix that exceeds the addressable memory is rejected as a
    /// protocol violation (on targets whose `usize` spans the full 64-bit
    /// range no prefix can trigger it).
    pub fn recv(&mut self, input: &[u8]) -> (r: Result<(usize, Option<Message>), IoError>)
        requires
            old(self).wf(),
        ensures
            final(self).wf(),
            old(self).step == RecvOperationStep::Done ==> r is Err && *final(self) == *old(self),
            r matches Err(e) ==> (old(self).step == RecvOperationStep::Done && e.kind
                == ErrorKind::Other) || (old(self).step != RecvOperationStep::Done && e.kind
                == ErrorKind::InvalidData && usize::MAX < u64::MAX),
            r is Err && old(self).step != RecvOperationStep::Done ==> old(self).step
                == RecvOperationStep::Prefix && old(self).consumed().len() + input@.len() >= 8 && (
            exists|v: u64|
                #[trigger] be_bytes8(v) == (old(self).consumed() + input@).take(8) && v
                    > usize::MAX),
            r matches Ok((n, m)) ==> n <= input@.len(),
            r matches Ok((n, Some(m))) ==> final(self).step == RecvOperationStep::Done
                && m.header@ == Seq::<u8>::empty() && old(self).consumed() + input@.take(n as int)
                == frame_of(m.body@),
            r matches Ok((n, None)) ==> n == input@.len() && final(self).step
                != RecvOperationStep::Done && final(self).consumed() == old(self).consumed()
                + input@ && final(self).incomplete(),
    {
        if self.step == RecvOperationStep::Done {
            return Err(other_io_error("recv operation already completed"));
        }
        let ghost pre = *self;
        let mut pos: usize = 0;
        if self.step == RecvOperationStep::Prefix {
            while self.prefix.len() < 8 && pos < input.len()
                invariant
                    self.step == RecvOperationStep::Prefix,
                    pos <= input@.len(),
                    self.prefix@.len() <= 8,
                    self.prefix@ == pre.prefix@ + input@.take(pos as int),
                    self.buffer@ == pre.buffer@,
                    self.buffer@.len() == 0,
                    self.msg_len == pre.msg_len,
                decreases input@.len() - pos,
            {
                self.prefix.push(input[pos]);
                pos = pos + 1;
            }
            self.read = self.prefix.len();
            if self.prefix.len() == 8 {
                let len64 = read_prefix(self.prefix.as_slice());
                if len64 > usize::MAX as u64 {
                    proof {
                        assert(pre.consumed() =~= pre.prefix@);
                        assert((pre.consumed() + input@).take(8) =~= self.prefix@);
                    }
                    self.step = RecvOperationStep::Done;
                    return Err(invalid_data_io_error("length prefix exceeds addressable memory"));
                }
                self.msg_len = len64;
                self.step_forward();
            } else {
                proof {
                    assert(final(self).consumed() =~= pre.consumed() + input@);
                }
                return Ok((pos, None));
            }
        }
        let ghost mid = *self;
        let ghost pos_mid = pos as int;
        let msg_len_usize: usize = self.msg_len as usize;
        while self.buffer.len() < msg_len_usize && pos < input.len()
            invariant
                self.step == RecvOperationStep::Payload,
                msg_len_usize == self.msg_len,
                self.msg_len == mid.msg_len,
                self.msg_len <= usize::MAX,
                be_bytes8(self.msg_len) == self.prefix@,
                self.prefix@ == mid.prefix@,
                self.prefix@.len() == 8,
                0 <= pos_mid <= pos <= input@.len(),
                self.buffer@.len() <= self.msg_len,
                self.buffer@ == mid.buffer@ + input@.subrange(pos_mid, pos as int),
            decreases input@.len() - pos,
        {
            self.buffer.push(input[pos]);
            pos = pos + 1;
            proof {
                assert_seqs_equal!(
                    self.buffer@ == mid.buffer@ + input@.subrange(pos_mid, pos as int)
                );
            }
        }
        self.read = self.buffer.len();
        if self.buffer.len() == msg_len_usize {
            self.step_forward();
            let mut body: Vec<u8> = Vec::new();
            core::mem::swap(&mut body, &mut self.buffer);
            let msg = Message::with_body(body);
            proof {
                assert(input@.take(pos as int) =~= input@.take(pos_mid) + input@.subrange(
                    pos_mid,
                    pos as int,
                ));
                assert(mid.prefix@ == pre.prefix@ + input@.take(pos_mid));
                assert(pre.consumed() + input@.take(pos as int) =~= frame_of(msg.body@));
            }
            Ok((pos, Some(msg)))
        } else {
            proof {
                assert(input@ =~= input@.take(pos_mid) + input@.subrange(pos_mid, input@.len() as int));
                assert(final(self).consumed() =~= pre.consumed() + input@);
            }
            Ok((pos, None))
        }
    }
}

/// Completion law for the framing round trip: an operation that has
/// consumed exactly the frame of a payload is never incomplete. Combined
/// with `RecvOperation::recv`'s guarantees — a call that returns no message
/// consumes its whole input and leaves the operation incomplete — feeding
/// the bytes of one frame, in any pieces, must end with the assembled
/// message: the framed payload cannot be withheld.
pub proof fn lemma_recv_completion(op: RecvOperation, payload: Seq<u8>)
    requires
        op.wf(),
        payload.len() <= u64::MAX,
        op.consumed() == frame_of(payload),
    ensures
        !op.incomplete(),
{
    match op.step {
        RecvOperationStep::Prefix => {
            assert(op.consumed().len() == op.prefix@.len());
            assert(frame_of(payload).len() == 8 + payload.len());
        },
        RecvOperationStep::Payload => {
            assert(op.prefix@ =~= frame_of(payload).take(8));
            assert(frame_of(payload).take(8) =~= be_bytes8(payload.len() as u64));
            crate::codec::lemma_be_bytes8_injective(op.msg_len, payload.len() as u64);
            assert(op.consumed().len() == frame_of(payload).len());
            assert(op.buffer@.len() == payload.len());
        },
        RecvOperationStep::Done => {},
    }
}

/// An in-progress send: the complete wire frame and how many of its bytes
/// the transport has taken so far.
pub struct SendOperation {
    pub buffer: Vec<u8>,
    pub written: usize,
}

impl SendOperation {
    pub open spec fn wf(self) -> bool {
        self.written <= self.buffer@.len()
    }

    /// The bytes still owed to the transport.
    pub open spec fn remaining(self) -> Seq<u8> {
        self.buffer@.skip(self.written as int)
    }

    pub fn new(buffer: Vec<u8>) -> (r: SendOperation)
        ensures
            r.wf(),
            r.buffer@ == buffer@,
            r.written == 0,
            r.remaining() == buffer@,
    {
        let r = SendOperation { buffer, written: 0 };
        proof {
            assert(r.remaining() =~= r.buffer@);
        }
        r
    }

    /// A copy of the bytes still owed, for the next transport write.
    pub fn next_chunk(&self) -> (r: Vec<u8>)
        requires
            self.wf(),
        ensures
            r@ == self.remaining(),
    {
        let mut r: Vec<u8> = Vec::new();
        r.extend_from_slice(&self.buffer.as_slice()[self.written..self.buffer.len()]);
        proof {
            assert(r@ =~= self.remaining());
        }
        r
    }

    /// Records that the transport accepted `n` more bytes; true once the
    /// whole frame is out.
    pub fn advance(&mut self, n: usize) -> (done: bool)
        requires
            old(self).wf(),
            n <= old(self).remaining().len(),
        ensures
            final(self).wf(),
            final(self).buffer@ == old(self).buffer@,
            final(self).written == old(self).written + n,
            done <==> final(self).remaining().len() == 0,
    {
        let cap = self.buffer.len();
        proof {
            assert(old(self).remaining().len() == old(self).buffer@.len() - old(self).written);
        }
        self.written = self.written + n;
        self.written == cap
    }
}

/// The lifecycle states of a pipe.
#[derive(Debug, Copy, Clone, Eq, PartialEq, Structural)]
pub enum PipeStateKind {
    /// Just created; the connection is not yet registered for readiness.
    Initial,
    /// Waiting for writability to send the 8-byte handshake.
    HandshakeTx,
    /// Waiting for readability to receive and verify the peer's handshake.
    HandshakeRx,
    /// Handshake complete; no transfer in progress.
    Idle,
    /// A framed message is being written out.
    SendBusy,
    /// A framed message is being assembled.
    RecvBusy,
    /// The connection failed or the handshake was rejected; the pipe is done.
    Dead,
}

/// The readiness interest the surrounding event loop must register after a
/// transition; all registrations are edge-triggered and one-shot.
#[derive(Debug, Copy, Clone, Eq, PartialEq, Structural)]
pub enum PipeAction {
    RegisterWritable,
    RegisterReadable,
    /// Nothing to register: the pipe is dead or has no pending interest.
    NoInterest,
}

/// One byte-stream connection: its endpoint token, its optional origin
/// address (kept for reconnecting), the protocol identifiers exchanged in
/// the handshake, and the progress of the transfer in flight, if any.
///
/// The transport itself stays with the event loop, which feeds byte chunks
/// and write counts into these transitions.
pub struct Pipe {
    pub token: usize,
    pub addr: Option<String>,
    pub protocol_id: u16,
    pub protocol_peer_id: u16,
    pub state: PipeStateKind,
    pub recv_op: Option<RecvOperation>,
    pub send_op: Option<SendOperation>,
    pub opened: bool,
}

impl Pipe {
    /// A pipe carries traffic only after its handshake has completed and the
    /// "pipe opened" notification went out, and holds exactly one pending
    /// operation in a busy state and none otherwise.
    pub open spec fn wf(self) -> bool {
        match self.state {
            PipeStateKind::Initial => !self.opened && self.recv_op is None && self.send_op is None,
            PipeStateKind::HandshakeTx => !self.opened && self.recv_op is None && self.send_op
                is None,
            PipeStateKind::HandshakeRx => !self.opened && self.recv_op is None && self.send_op
                is None,
            PipeStateKind::Idle => self.opened && self.recv_op is None && self.send_op is None,
            PipeStateKind::SendBusy => self.opened && self.recv_op is None && (match self.send_op {
                Some(op) => op.wf(),
                None => false,
            }),
            PipeStateKind::RecvBusy => self.opened && self.send_op is None && (match self.recv_op {
                Some(op) => op.wf() && op.step != RecvOperationStep::Done,
                None => false,
            }),
            PipeStateKind::Dead => self.recv_op is None && self.send_op is None,
        }
    }

    pub fn new(token: usize, addr: Option<String>, ids: (u16, u16)) -> (r: Pipe)
        ensures
            r.wf(),
            r.token == token,
            r.addr == addr,
            r.protocol_id == ids.0,
            r.protocol_peer_id == ids.1,
            r.state == PipeStateKind::Initial,
            !r.opened,
    {
        let (protocol_id, protocol_peer_id) = ids;
        Pipe {
            token,
            addr,
            protocol_id,
            protocol_peer_id,
            state: PipeStateKind::Initial,
            recv_op: None,
            send_op: None,
            opened: false,
        }
    }

    /// Consumes the pipe, keeping only its origin address, as needed when a
    /// dead pipe is replaced by a reconnect.
    pub fn addr(self) -> (r: Option<String>)
        ensures
            r == self.addr,
    {
        self.addr
    }

    /// Fields the transitions never touch.
    pub open spec fn same_identity(self, other: Pipe) -> bool {
        self.token == other.token && self.addr == other.addr && self.protocol_id
            == other.protocol_id && self.protocol_peer_id == other.protocol_peer_id
    }

    /// Starts the lifecycle: a fresh pipe asks for writability to emit its
    /// handshake. Opening in any other state is a lifecycle violation and
    /// kills the pipe.
    pub fn open(&mut self) -> (r: PipeAction)
        requires
            old(self).wf(),
        ensures
            final(self).wf(),
            final(self).same_identity(*old(self)),
            old(self).state == PipeStateKind::Initial ==> final(self).state
                == PipeStateKind::HandshakeTx && r == PipeAction::RegisterWritable,
            old(self).state != PipeStateKind::Initial ==> final(self).state == PipeStateKind::Dead
                && r == PipeAction::NoInterest,
            final(self).opened == old(self).opened,
    {
        if self.state == PipeStateKind::Initial {
            self.state = PipeStateKind::HandshakeTx;
            PipeAction::RegisterWritable
        } else {
            self.recv_op = None;
            self.send_op = None;
            self.state = PipeStateKind::Dead;
            PipeAction::NoInterest
        }
    }

    /// The 8-byte preamble this side owes its peer.
    pub fn handshake_to_send(&self) -> (r: Vec<u8>)
        requires
            self.state == PipeStateKind::HandshakeTx,
        ensures
            r@ == handshake_frame(self.protocol_id),
    {
        create_handshake(self.protocol_id)
    }

    /// Outcome of the attempt to write the handshake. The whole preamble
    /// must go out atomically; a short write is treated as a transport
    /// failure and kills the pipe.
    pub fn on_handshake_sent(&mut self, written: usize) -> (r: Result<PipeAction, IoError>)
        requires
            old(self).wf(),
            old(self).state == PipeStateKind::HandshakeTx,
        ensures
            final(self).wf(),
            final(self).same_identity(*old(self)),
            r is Ok <==> written == 8,
            written == 8 ==> final(self).state == PipeStateKind::HandshakeRx && r
                == Ok::<PipeAction, IoError>(PipeAction::RegisterReadable),
            written != 8 ==> final(self).state == PipeStateKind::Dead && (r matches Err(e)
                && e.kind == ErrorKind::WouldBlock),
            final(self).opened == old(self).opened,
    {
        if written == 8 {
            self.state = PipeStateKind::HandshakeRx;
            Ok(PipeAction::RegisterReadable)
        } else {
            self.state = PipeStateKind::Dead;
            Err(would_block_io_error("failed to send full handshake"))
        }
    }

    /// Verifies the received preamble byte-for-byte against the frame the
    /// expected peer protocol would send. On success the pipe becomes idle
    /// and — for the first and only time — reports itself opened; on
    /// mismatch it dies.
    pub fn on_handshake_received(&mut self, handshake: &[u8]) -> (r: Result<(), IoError>)
        requires
            old(self).wf(),
            old(self).state == PipeStateKind::HandshakeRx,
            handshake@.len() == 8,
        ensures
            final(self).wf(),
            final(self).same_identity(*old(self)),
            r is Ok <==> handshake@ == handshake_frame(old(self).protocol_peer_id),
            r is Ok ==> final(self).state == PipeStateKind::Idle && final(self).opened
                && !old(self).opened,
            r matches Err(e) ==> final(self).state == PipeStateKind::Dead && e.kind
                == ErrorKind::InvalidData && !final(self).opened,
    {
        match check_handshake((self.protocol_id, self.protocol_peer_id), handshake) {
            Ok(()) => {
                self.state = PipeStateKind::Idle;
                self.opened = true;
                Ok(())
            },
            Err(e) => {
                self.state = PipeStateKind::Dead;
                Err(e)
            },
        }
    }

    /// An incoming message was announced by readability: begin assembling
    /// it.
    pub fn start_recv(&mut self) -> (r: PipeAction)
        requires
            old(self).wf(),
            old(self).state == PipeStateKind::Idle,
        ensures
            final(self).wf(),
            final(self).same_identity(*old(self)),
            final(self).state == PipeStateKind::RecvBusy,
            final(self).recv_op matches Some(op) && op.consumed() == Seq::<u8>::empty()
                && op.step == RecvOperationStep::Prefix,
            r == PipeAction::RegisterReadable,
    {
        self.recv_op = Some(RecvOperation::new());
        self.state = PipeStateKind::RecvBusy;
        PipeAction::RegisterReadable
    }

    /// Feeds bytes read from the connection into the assembly. A completed
    /// message returns the pipe to idle; its body is exactly the payload
    /// whose frame the pipe consumed since the receive began. An oversized
    /// length prefix kills the pipe.
    pub fn on_recv_bytes(&mut self, input: &[u8]) -> (r: Result<
        (usize, Option<Message>),
        IoError,
    >)
        requires
            old(self).wf(),
            old(self).state == PipeStateKind::RecvBusy,
        ensures
            final(self).wf(),
            final(self).same_identity(*old(self)),
            r matches Ok((n, m)) ==> n <= input@.len(),
            r matches Ok((n, Some(m))) ==> final(self).state == PipeStateKind::Idle && m.header@
                == Seq::<u8>::empty() && old(self).recv_op->0.consumed() + input@.take(n as int)
                == frame_of(m.body@),
            r matches Ok((n, None)) ==> n == input@.len() && final(self).state
                == PipeStateKind::RecvBusy
                && final(self).recv_op->0.consumed() == old(self).recv_op->0.consumed() + input@
                && final(self).recv_op->0.incomplete(),
            r is Err ==> final(self).state == PipeStateKind::Dead && usize::MAX < u64::MAX && (
            exists|v: u64|
                #[trigger] be_bytes8(v) == (old(self).recv_op->0.consumed() + input@).take(8) && v
                    > usize::MAX),
    {
        let mut op = self.recv_op.take().unwrap();
        let step_result = op.recv(input);
        match step_result {
            Ok((n, Some(msg))) => {
                self.recv_op = None;
                self.state = PipeStateKind::Idle;
                Ok((n, Some(msg)))
            },
            Ok((n, None)) => {
                self.recv_op = Some(op);
                Ok((n, None))
            },
            Err(e) => {
                self.recv_op = None;
                self.send_op = None;
                self.state = PipeStateKind::Dead;
                Err(e)
            },
        }
    }

    /// Accepts an outgoing message: the pipe frames it and waits for
    /// writability to push the frame out.
    pub fn start_send(&mut self, msg: Message) -> (r: PipeAction)
        requires
            old(self).wf(),
            old(self).state == PipeStateKind::Idle,
            msg.header@.len() + msg.body@.len() <= usize::MAX,
            msg.header@.len() + msg.body@.len() <= u64::MAX,
        ensures
            final(self).wf(),
            final(self).same_identity(*old(self)),
            final(self).state == PipeStateKind::SendBusy,
            final(self).send_op matches Some(op) && op.remaining() == frame_of(msg.payload()),
            r == PipeAction::RegisterWritable,
    {
        let frame = frame_payload(&msg);
        self.send_op = Some(SendOperation::new(frame));
        self.state = PipeStateKind::SendBusy;
        PipeAction::RegisterWritable
    }

    /// The bytes of the frame still owed to the transport.
    pub fn send_remaining(&self) -> (r: Vec<u8>)
        requires
            self.wf(),
            self.state == PipeStateKind::SendBusy,
        ensures
            r@ == self.send_op->0.remaining(),
    {
        self.send_op.as_ref().unwrap().next_chunk()
    }

    /// The transport accepted `n` more bytes of the frame. Once nothing is
    /// owed the pipe returns to idle and reports the message sent.
    pub fn on_sent(&mut self, n: usize) -> (done: bool)
        requires
            old(self).wf(),
            old(self).state == PipeStateKind::SendBusy,
            n <= old(self).send_op->0.remaining().len(),
        ensures
            final(self).wf(),
            final(self).same_identity(*old(self)),
            done <==> old(self).send_op->0.remaining().len() == n,
            done ==> final(self).state == PipeStateKind::Idle,
            !done ==> final(self).state == PipeStateKind::SendBusy
                && final(self).send_op->0.remaining() == old(self).send_op->0.remaining().skip(
                n as int,
            ),
    {
        let mut op = self.send_op.take().unwrap();
        let done = op.advance(n);
        if done {
            self.send_op = None;
            self.state = PipeStateKind::Idle;
        } else {
            proof {
                assert(op.remaining() =~= old(self).send_op->0.remaining().skip(n as int));
            }
            self.send_op = Some(op);
        }
        done
    }

    /// A transport error at any point: the pipe dies and drops any pending
    /// operation.
    pub fn on_error(&mut self)
        ensures
            final(self).wf(),
            final(self).same_identity(*old(self)),
            final(self).state == PipeStateKind::Dead,
    {
        self.recv_op = None;
        self.send_op = None;
        self.state = PipeStateKind::Dead;
    }
}

/// A pipe reaches its traffic-carrying states only after the one transition
/// that reported it opened: being idle or busy implies the "pipe opened"
/// notification was emitted first.
pub proof fn lemma_traffic_implies_opened(p: Pipe)
    requires
        p.wf(),
    ensures
        p.state == PipeStateKind::Idle || p.state == PipeStateKind::SendBusy || p.state
            == PipeStateKind::RecvBusy ==> p.opened,
{
}

/// Peer-match safety: a socket of type `a` expects the handshake of
/// `a.spec_peer()`, and a peer of type `b` sends the handshake of `b`. The
/// frames coincide exactly when the two types are compatible, so an
/// incompatible peer's handshake is rejected by `on_handshake_received` and
/// the pipe dies without ever reaching its idle state.
pub proof fn lemma_mismatched_handshake_rejected(a: crate::global::SocketType, b: crate::global::SocketType)
    ensures
        a.spec_matches(b) <==> handshake_frame(b.spec_id()) == handshake_frame(
            a.spec_peer().spec_id(),
        ),
{
    crate::global::lemma_peer_involutive(a);
    crate::global::lemma_peer_involutive(b);
    crate::codec::lemma_handshake_frame_injective(b.spec_id(), a.spec_peer().spec_id());
    crate::global::lemma_id_injective(b, a.spec_peer());
}

} // verus!
