//! Socket-type algebra, identifier sequences and the error taxonomy shared by
//! every component of the engine.

use vstd::prelude::*;

verus! {

/// Defines the socket types, which in turn determine the exact semantics of
/// the socket: one-to-one pair, publish/subscribe, request/reply, pipeline,
/// survey and bus patterns.
#[derive(Debug, PartialEq, Eq, Clone, Copy, Structural)]
pub enum SocketType {
    /// One-to-one protocol: communication with exactly one peer at a time.
    Pair,
    /// Broadcasts messages to every subscriber. Receive is not defined.
    Pub,
    /// Receives the publications matching a subscription. Send is not defined.
    Sub,
    /// Sends requests and receives the correlated replies.
    Req,
    /// Receives requests and sends replies back to the requester.
    Rep,
    /// Load-balances messages among the next processing step. Receive is not defined.
    Push,
    /// Fair-queues messages from the previous processing step. Send is not defined.
    Pull,
    /// Broadcasts a survey and gathers responses until a deadline.
    Surveyor,
    /// Receives surveys and sends votes back.
    Respondent,
    /// Broadcasts messages to all other nodes of the topology.
    Bus,
}

impl SocketType {
    /// The 16-bit protocol identifier carried in the handshake,
    /// laid out as `family << 4 | role`.
    pub open spec fn spec_id(self) -> u16 {
        match self {
            SocketType::Pair => 16,
            SocketType::Pub => 32,
            SocketType::Sub => 33,
            SocketType::Req => 48,
            SocketType::Rep => 49,
            SocketType::Push => 80,
            SocketType::Pull => 81,
            SocketType::Surveyor => 98,
            SocketType::Respondent => 99,
            SocketType::Bus => 112,
        }
    }

    /// The socket type a socket of this type expects on the other side of
    /// each of its connections.
    pub open spec fn spec_peer(self) -> SocketType {
        match self {
            SocketType::Pair => SocketType::Pair,
            SocketType::Pub => SocketType::Sub,
            SocketType::Sub => SocketType::Pub,
            SocketType::Req => SocketType::Rep,
            SocketType::Rep => SocketType::Req,
            SocketType::Push => SocketType::Pull,
            SocketType::Pull => SocketType::Push,
            SocketType::Surveyor => SocketType::Respondent,
            SocketType::Respondent => SocketType::Surveyor,
            SocketType::Bus => SocketType::Bus,
        }
    }

    /// Two socket types are compatible exactly when each names the other as
    /// its peer.
    pub open spec fn spec_matches(self, other: SocketType) -> bool {
        self.spec_peer() == other && other.spec_peer() == self
    }

    pub fn id(&self) -> (r: u16)
        ensures
            r == self.spec_id(),
    {
        match *self {
            SocketType::Pair => 16,
            SocketType::Pub => 32,
            SocketType::Sub => 33,
            SocketType::Req => 48,
            SocketType::Rep => 49,
            SocketType::Push => 80,
            SocketType::Pull => 81,
            SocketType::Surveyor => 98,
            SocketType::Respondent => 99,
            SocketType::Bus => 112,
        }
    }

    pub fn peer(&self) -> (r: SocketType)
        ensures
            r == self.spec_peer(),
    {
        match *self {
            SocketType::Pair => SocketType::Pair,
            SocketType::Pub => SocketType::Sub,
            SocketType::Sub => SocketType::Pub,
            SocketType::Req => SocketType::Rep,
            SocketType::Rep => SocketType::Req,
            SocketType::Push => SocketType::Pull,
            SocketType::Pull => SocketType::Push,
            SocketType::Surveyor => SocketType::Respondent,
            SocketType::Respondent => SocketType::Surveyor,
            SocketType::Bus => SocketType::Bus,
        }
    }

    pub fn matches(&self, other: SocketType) -> (r: bool)
        ensures
            r == self.spec_matches(other),
    {
        self.peer() == other && other.peer() == *self
    }
}

/// Compatibility is symmetric: a socket matches its counterpart exactly when
/// the counterpart matches it.
pub proof fn lemma_matches_symmetric(a: SocketType, b: SocketType)
    ensures
        a.spec_matches(b) == b.spec_matches(a),
{
}

/// Taking the peer twice leads back to the original socket type.
pub proof fn lemma_peer_involutive(a: SocketType)
    ensures
        a.spec_peer().spec_peer() == a,
{
}

/// Protocol identifiers are distinct across socket types, so a handshake
/// frame determines the socket type that produced it.
pub proof fn lemma_id_injective(a: SocketType, b: SocketType)
    ensures
        a.spec_id() == b.spec_id() ==> a == b,
{
}

/// Process-unique identifier of a socket within its session.
#[derive(Debug, Copy, Clone, PartialEq, Eq, Hash, Structural)]
pub struct SocketId(pub usize);

/// Process-unique identifier of a device probe within its session.
#[derive(Debug, Copy, Clone, PartialEq, Eq, Hash, Structural)]
pub struct ProbeId(pub usize);

/// `core::cell::Cell` is a shared mutable slot whose content Verus cannot
/// track; the type is declared so a counter can live behind an `Rc`.
#[verifier::external_type_specification]
#[verifier::external_body]
#[verifier::reject_recursive_types(T)]
pub struct ExCell<T: ?Sized>(core::cell::Cell<T>);

/// Relies on `core::cell::Cell::new`: wraps the value in a fresh cell.
/// Nothing is stated because the cell's content is shared mutable state.
pub assume_specification<T>[ core::cell::Cell::<T>::new ](value: T) -> core::cell::Cell<T>;

/// Relies on `core::cell::Cell::get`: returns a copy of the current content.
/// The content depends on every clone of the cell, so no value is promised.
pub assume_specification<T: Copy>[ core::cell::Cell::<T>::get ](cell: &core::cell::Cell<T>) -> T;

/// Relies on `core::cell::Cell::set`: replaces the current content.
pub assume_specification<T>[ core::cell::Cell::<T>::set ](cell: &core::cell::Cell<T>, val: T);

/// A monotonic sequence of dense identifiers. Clones share the same counter,
/// so identifiers stay unique across every handle of one sequence.
#[derive(Clone)]
pub struct IdSequence {
    value: std::rc::Rc<core::cell::Cell<usize>>,
}

impl IdSequence {
    pub fn new() -> IdSequence {
        IdSequence { value: std::rc::Rc::new(core::cell::Cell::new(0)) }
    }

    /// Returns the next identifier and advances the shared counter. The
    /// counter lives in a shared cell, so no relation between successive
    /// results can be stated here; uniqueness holds as long as the counter
    /// does not wrap around the `usize` range.
    pub fn next(&self) -> usize {
        let id = self.value.get();

        self.value.set(id.wrapping_add(1));
        id
    }
}

impl Default for IdSequence {
    fn default() -> Self {
        IdSequence::new()
    }
}

/// The error taxonomy of the library, mirroring the transport-level kinds a
/// caller can observe.
#[derive(Debug, PartialEq, Eq, Clone, Copy, Structural)]
pub enum ErrorKind {
    /// Transport not ready, or the command queue is full.
    WouldBlock,
    /// Malformed handshake or length prefix: a protocol violation.
    InvalidData,
    /// Malformed option value or address.
    InvalidInput,
    /// A send, receive or survey deadline expired.
    TimedOut,
    /// Protocol misuse, or a closed channel.
    Other,
}

/// An error value carrying its kind and a static description.
#[derive(Debug, Clone, Copy)]
pub struct IoError {
    pub kind: ErrorKind,
    pub reason: &'static str,
}

impl IoError {
    pub fn kind(&self) -> (r: ErrorKind)
        ensures
            r == self.kind,
    {
        self.kind
    }

    pub fn reason(&self) -> (r: &'static str)
        ensures
            r == self.reason,
    {
        self.reason
    }
}

pub fn other_io_error(msg: &'static str) -> (r: IoError)
    ensures
        r.kind == ErrorKind::Other,
        r.reason == msg,
{
    IoError { kind: ErrorKind::Other, reason: msg }
}

pub fn invalid_data_io_error(msg: &'static str) -> (r: IoError)
    ensures
        r.kind == ErrorKind::InvalidData,
        r.reason == msg,
{
    IoError { kind: ErrorKind::InvalidData, reason: msg }
}

pub fn would_block_io_error(msg: &'static str) -> (r: IoError)
    ensures
        r.kind == ErrorKind::WouldBlock,
        r.reason == msg,
{
    IoError { kind: ErrorKind::WouldBlock, reason: msg }
}

pub fn invalid_input_io_error(msg: &'static str) -> (r: IoError)
    ensures
        r.kind == ErrorKind::InvalidInput,
        r.reason == msg,
{
    IoError { kind: ErrorKind::InvalidInput, reason: msg }
}

pub fn timed_out_io_error(msg: &'static str) -> (r: IoError)
    ensures
        r.kind == ErrorKind::TimedOut,
        r.reason == msg,
{
    IoError { kind: ErrorKind::TimedOut, reason: msg }
}

/// The whole-second part of a duration: a function of the duration alone,
/// named so that contracts can speak of the conversion's result.
pub uninterp spec fn secs_of(d: core::time::Duration) -> u64;

/// The millisecond part of a duration below one second: a function of the
/// duration alone.
pub uninterp spec fn subsec_ms_of(d: core::time::Duration) -> u32;

/// Relies on `core::time::Duration::as_secs`: the whole-second part of the
/// duration, a function of the duration alone.
pub assume_specification[ core::time::Duration::as_secs ](d: &core::time::Duration) -> (r: u64)
    ensures
        r == secs_of(*d),
;

/// Relies on `core::time::Duration::subsec_millis`: the fractional part of
/// the duration in whole milliseconds, a function of the duration alone and
/// always below 1000.
pub assume_specification[ core::time::Duration::subsec_millis ](d: &core::time::Duration) -> (r:
    u32)
    ensures
        r == subsec_ms_of(*d),
        r < 1000,
;

/// The milliseconds a duration spans, saturating at the top of the `u64`
/// range.
pub open spec fn spec_to_millis(d: core::time::Duration) -> u64 {
    if secs_of(d) * 1000 + subsec_ms_of(d) <= u64::MAX {
        (secs_of(d) * 1000 + subsec_ms_of(d)) as u64
    } else {
        u64::MAX
    }
}

/// Converts a time span into the milliseconds the engine's timers use,
/// saturating at the top of the `u64` range instead of overflowing.
pub fn duration_to_millis(d: &core::time::Duration) -> (r: u64)
    ensures
        r == spec_to_millis(*d),
{
    let secs: u64 = d.as_secs();
    let sub: u64 = d.subsec_millis() as u64;
    match secs.checked_mul(1000) {
        Some(ms) => match ms.checked_add(sub) {
            Some(total) => total,
            None => u64::MAX,
        },
        None => u64::MAX,
    }
}

/// Conversion of a time span into the milliseconds the engine's timers use.
pub trait ToMillis {
    fn to_millis(&self) -> u64;
}

impl ToMillis for core::time::Duration {
    fn to_millis(&self) -> u64 {
        duration_to_millis(self)
    }
}

} // verus!
