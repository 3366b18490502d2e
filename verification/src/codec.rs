//! Wire-format codec: the fixed 8-byte protocol handshake, the 8-byte
//! big-endian length prefix that frames every message, and the 4-byte
//! big-endian routing headers used by the request/reply and survey patterns.

use vstd::prelude::*;

use crate::global::{invalid_data_io_error, IoError};
use crate::message::Message;

verus! {

/// The eight bytes of a `u64` in big-endian order.
pub open spec fn be_bytes8(v: u64) -> Seq<u8> {
    seq![
        (v >> 56) as u8,
        (v >> 48) as u8,
        (v >> 40) as u8,
        (v >> 32) as u8,
        (v >> 24) as u8,
        (v >> 16) as u8,
        (v >> 8) as u8,
        v as u8,
    ]
}

/// The four bytes of a `u32` in big-endian order.
pub open spec fn be_bytes4(v: u32) -> Seq<u8> {
    seq![(v >> 24) as u8, (v >> 16) as u8, (v >> 8) as u8, v as u8]
}

/// Two distinct values never share a big-endian encoding.
pub proof fn lemma_be_bytes8_injective(a: u64, b: u64)
    ensures
        be_bytes8(a) == be_bytes8(b) ==> a == b,
{
    if be_bytes8(a) == be_bytes8(b) {
        assert((a >> 56) as u8 == (b >> 56) as u8 && (a >> 48) as u8 == (b >> 48) as u8 && (a
            >> 40) as u8 == (b >> 40) as u8 && (a >> 32) as u8 == (b >> 32) as u8 && (a
            >> 24) as u8 == (b >> 24) as u8 && (a >> 16) as u8 == (b >> 16) as u8 && (a
            >> 8) as u8 == (b >> 8) as u8 && a as u8 == b as u8 ==> a == b) by (bit_vector);
        assert(be_bytes8(a)[0] == be_bytes8(b)[0]);
        assert(be_bytes8(a)[1] == be_bytes8(b)[1]);
        assert(be_bytes8(a)[2] == be_bytes8(b)[2]);
        assert(be_bytes8(a)[3] == be_bytes8(b)[3]);
        assert(be_bytes8(a)[4] == be_bytes8(b)[4]);
        assert(be_bytes8(a)[5] == be_bytes8(b)[5]);
        assert(be_bytes8(a)[6] == be_bytes8(b)[6]);
        assert(be_bytes8(a)[7] == be_bytes8(b)[7]);
    }
}

/// Two distinct values never share a big-endian encoding.
pub proof fn lemma_be_bytes4_injective(a: u32, b: u32)
    ensures
        be_bytes4(a) == be_bytes4(b) ==> a == b,
{
    if be_bytes4(a) == be_bytes4(b) {
        assert((a >> 24) as u8 == (b >> 24) as u8 && (a >> 16) as u8 == (b >> 16) as u8 && (a
            >> 8) as u8 == (b >> 8) as u8 && a as u8 == b as u8 ==> a == b) by (bit_vector);
        assert(be_bytes4(a)[0] == be_bytes4(b)[0]);
        assert(be_bytes4(a)[1] == be_bytes4(b)[1]);
        assert(be_bytes4(a)[2] == be_bytes4(b)[2]);
        assert(be_bytes4(a)[3] == be_bytes4(b)[3]);
    }
}

/// Writes the 8-byte big-endian length prefix for a payload of `v` bytes.
pub fn write_prefix(v: u64) -> (r: Vec<u8>)
    ensures
        r@ == be_bytes8(v),
{
    let mut r: Vec<u8> = Vec::new();
    r.push((v >> 56) as u8);
    r.push((v >> 48) as u8);
    r.push((v >> 40) as u8);
    r.push((v >> 32) as u8);
    r.push((v >> 24) as u8);
    r.push((v >> 16) as u8);
    r.push((v >> 8) as u8);
    r.push(v as u8);
    proof {
        assert(r@ =~= be_bytes8(v));
    }
    r
}

/// Reads the value of an 8-byte big-endian length prefix.
pub fn read_prefix(b: &[u8]) -> (r: u64)
    requires
        b@.len() == 8,
    ensures
        be_bytes8(r) == b@,
{
    let x0 = b[0];
    let x1 = b[1];
    let x2 = b[2];
    let x3 = b[3];
    let x4 = b[4];
    let x5 = b[5];
    let x6 = b[6];
    let x7 = b[7];
    let r: u64 = ((x0 as u64) << 56) | ((x1 as u64) << 48) | ((x2 as u64) << 40) | ((
    x3 as u64) << 32) | ((x4 as u64) << 24) | ((x5 as u64) << 16) | ((x6 as u64) << 8) | (
    x7 as u64);
    proof {
        let v: u64 = ((x0 as u64) << 56) | ((x1 as u64) << 48) | ((x2 as u64) << 40) | ((
        x3 as u64) << 32) | ((x4 as u64) << 24) | ((x5 as u64) << 16) | ((x6 as u64) << 8) | (
        x7 as u64);
        assert({
            let w: u64 = ((x0 as u64) << 56) | ((x1 as u64) << 48) | ((x2 as u64) << 40) | ((
            x3 as u64) << 32) | ((x4 as u64) << 24) | ((x5 as u64) << 16) | ((x6 as u64) << 8) | (
            x7 as u64);
            (w >> 56) as u8 == x0 && (w >> 48) as u8 == x1 && (w >> 40) as u8 == x2 && (w
                >> 32) as u8 == x3 && (w >> 24) as u8 == x4 && (w >> 16) as u8 == x5 && (w
                >> 8) as u8 == x6 && w as u8 == x7
        }) by (bit_vector);
        assert(be_bytes8(r) =~= b@);
    }
    r
}

/// Writes the 4-byte big-endian routing header carrying a request or survey
/// identifier.
pub fn write_header(v: u32) -> (r: Vec<u8>)
    ensures
        r@ == be_bytes4(v),
{
    let mut r: Vec<u8> = Vec::new();
    r.push((v >> 24) as u8);
    r.push((v >> 16) as u8);
    r.push((v >> 8) as u8);
    r.push(v as u8);
    proof {
        assert(r@ =~= be_bytes4(v));
    }
    r
}

/// Reads the identifier carried by a 4-byte big-endian routing header.
pub fn read_header(b: &[u8]) -> (r: u32)
    requires
        b@.len() == 4,
    ensures
        be_bytes4(r) == b@,
{
    let x0 = b[0];
    let x1 = b[1];
    let x2 = b[2];
    let x3 = b[3];
    let r: u32 = ((x0 as u32) << 24) | ((x1 as u32) << 16) | ((x2 as u32) << 8) | (x3 as u32);
    proof {
        assert({
            let w: u32 = ((x0 as u32) << 24) | ((x1 as u32) << 16) | ((x2 as u32) << 8) | (
            x3 as u32);
            (w >> 24) as u8 == x0 && (w >> 16) as u8 == x1 && (w >> 8) as u8 == x2 && w as u8 == x3
        }) by (bit_vector);
        assert(be_bytes4(r) =~= b@);
    }
    r
}

/// The fixed 8-byte connection preamble: `00 53 50 00`, the big-endian
/// protocol identifier, then two reserved zero bytes.
pub open spec fn handshake_frame(protocol_id: u16) -> Seq<u8> {
    seq![0u8, 83u8, 80u8, 0u8, (protocol_id >> 8) as u8, protocol_id as u8, 0u8, 0u8]
}

/// Handshake frames of distinct protocol identifiers differ, so a received
/// frame pins down the peer's protocol.
pub proof fn lemma_handshake_frame_injective(a: u16, b: u16)
    ensures
        handshake_frame(a) == handshake_frame(b) ==> a == b,
{
    if handshake_frame(a) == handshake_frame(b) {
        assert((a >> 8) as u8 == (b >> 8) as u8 && a as u8 == b as u8 ==> a == b) by (bit_vector);
        assert(handshake_frame(a)[4] == handshake_frame(b)[4]);
        assert(handshake_frame(a)[5] == handshake_frame(b)[5]);
    }
}

/// Builds the handshake this side sends, carrying its own protocol
/// identifier.
pub fn create_handshake(protocol_id: u16) -> (r: Vec<u8>)
    ensures
        r@ == handshake_frame(protocol_id),
{
    let mut r: Vec<u8> = Vec::new();
    r.push(0u8);
    r.push(83u8);
    r.push(80u8);
    r.push(0u8);
    r.push((protocol_id >> 8) as u8);
    r.push(protocol_id as u8);
    r.push(0u8);
    r.push(0u8);
    proof {
        assert(r@ =~= handshake_frame(protocol_id));
    }
    r
}

/// Verifies byte-for-byte that the received preamble equals the frame the
/// expected peer protocol would send. `pids` is this side's protocol
/// identifier paired with the expected peer identifier.
pub fn check_handshake(pids: (u16, u16), handshake: &[u8]) -> (r: Result<(), IoError>)
    requires
        handshake@.len() == 8,
    ensures
        r is Ok <==> handshake@ == handshake_frame(pids.1),
        r is Err ==> r->Err_0.kind == crate::global::ErrorKind::InvalidData,
{
    let (_, peer_id) = pids;
    let ok = handshake[0] == 0 && handshake[1] == 83 && handshake[2] == 80 && handshake[3] == 0
        && handshake[4] == (peer_id >> 8) as u8 && handshake[5] == peer_id as u8 && handshake[6]
        == 0 && handshake[7] == 0;
    if ok {
        proof {
            assert(handshake@ =~= handshake_frame(peer_id));
        }
        Ok(())
    } else {
        Err(invalid_data_io_error("received bad handshake"))
    }
}

/// A message whose payload is `payload` travels on the wire as this frame:
/// the 8-byte big-endian payload length, then the payload itself.
pub open spec fn frame_of(payload: Seq<u8>) -> Seq<u8>
    recommends
        payload.len() <= u64::MAX,
{
    be_bytes8(payload.len() as u64) + payload
}

/// Framing round trip: a frame that turns out to be a prefix of the frame of
/// payload `b2` can only be the frame of `b2` itself, taken whole. Hence a
/// receiver that assembles a message out of the first bytes of
/// `frame_of(b2)` recovers exactly `b2`, and consumes exactly the frame.
pub proof fn lemma_frame_round_trip(b1: Seq<u8>, b2: Seq<u8>, n: int)
    requires
        b1.len() <= u64::MAX,
        b2.len() <= u64::MAX,
        0 <= n <= frame_of(b2).len(),
        frame_of(b1) == frame_of(b2).take(n),
    ensures
        b1 == b2,
        n == frame_of(b2).len(),
{
    assert(frame_of(b1).len() == 8 + b1.len());
    assert(frame_of(b2).len() == 8 + b2.len());
    assert(n == 8 + b1.len());
    assert forall|i: int| 0 <= i < 8 implies #[trigger] be_bytes8(b1.len() as u64)[i]
        == be_bytes8(b2.len() as u64)[i] by {
        assert(frame_of(b1)[i] == be_bytes8(b1.len() as u64)[i]);
        assert(frame_of(b2)[i] == be_bytes8(b2.len() as u64)[i]);
        assert(frame_of(b1)[i] == frame_of(b2).take(n)[i]);
    }
    assert(be_bytes8(b1.len() as u64) =~= be_bytes8(b2.len() as u64));
    lemma_be_bytes8_injective(b1.len() as u64, b2.len() as u64);
    assert(b1.len() == b2.len());
    assert forall|i: int| 0 <= i < b1.len() implies b1[i] == b2[i] by {
        assert(frame_of(b1)[8 + i] == b1[i]);
        assert(frame_of(b2)[8 + i] == b2[i]);
        assert(frame_of(b1)[8 + i] == frame_of(b2).take(n)[8 + i]);
    }
    assert(b1 =~= b2);
}

/// Builds the wire frame of a message: length prefix, header bytes, body
/// bytes.
pub fn frame_payload(msg: &Message) -> (r: Vec<u8>)
    requires
        msg.header@.len() + msg.body@.len() <= u64::MAX,
        msg.header@.len() + msg.body@.len() <= usize::MAX,
    ensures
        r@ == frame_of(msg.payload()),
{
    let total: usize = msg.header.len() + msg.body.len();
    let mut r = write_prefix(total as u64);
    r.extend_from_slice(msg.header.as_slice());
    r.extend_from_slice(msg.body.as_slice());
    proof {
        assert(r@ =~= frame_of(msg.payload()));
    }
    r
}

} // verus!
