//! Scalability-protocols messaging core: protocol-typed sockets exchanging
//! discrete messages over byte-stream connections.
//!
//! The crate holds the engine-side logic: the socket-type algebra, the
//! handshake and length-prefix framing codec, the per-connection pipe state
//! machine, the per-pattern routing policies, and the timer bookkeeping.
//! Actual transports and the blocking caller facade live outside; they drive
//! these state machines with plain byte chunks and readiness events.

pub mod codec;
pub mod event_loop_msg;
pub mod global;
pub mod message;
pub mod pipe;
pub mod protocol;
pub mod session_impl;
pub mod socket_impl;
pub mod timer;
