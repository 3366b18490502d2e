//! The per-pattern routing policies. A policy tracks the pipes added to its
//! socket and the subset that completed their handshake (the distribution
//! set, in open order), plus the pattern-specific correlation state:
//! subscriptions, round-robin cursors, outstanding request and survey
//! identifiers, and the recorded origin of the request being answered.
//!
//! A policy never performs a transfer itself: `send` plans which pipes
//! receive which bytes, and `on_recv_completed` decides whether an assembled
//! message is delivered to the caller, after stripping and recording the
//! routing header its pattern prescribes.

use vstd::prelude::*;

use crate::codec::{be_bytes4, read_header, write_header};
use crate::global::{invalid_data_io_error, other_io_error, ErrorKind, IoError, SocketType};
use crate::message::Message;

verus! {

/// Request and survey identifiers carry this flag in their high bit.
pub const REQUEST_ID_FLAG: u32 = 0x8000_0000;

/// No element appears twice.
pub open spec fn distinct_seq<T>(s: Seq<T>) -> bool {
    forall|i: int, j: int| 0 <= i < j < s.len() ==> s[i] != s[j]
}

/// `p` is an initial segment of `s`.
pub open spec fn is_prefix_of(p: Seq<u8>, s: Seq<u8>) -> bool {
    p.len() <= s.len() && s.take(p.len() as int) == p
}

/// A subscriber delivers a message exactly when one of its subscription
/// prefixes starts the message body; the empty prefix matches everything.
pub open spec fn sub_matches(subs: Seq<Seq<u8>>, body: Seq<u8>) -> bool {
    exists|i: int| 0 <= i < subs.len() && is_prefix_of(subs[i], body)
}

/// Membership test on a token list.
fn contains_token(v: &Vec<usize>, tok: usize) -> (r: bool)
    ensures
        r == v@.contains(tok),
{
    let mut i: usize = 0;
    while i < v.len()
        invariant
            i <= v@.len(),
            forall|k: int| 0 <= k < i ==> v@[k] != tok,
        decreases v@.len() - i,
    {
        if v[i] == tok {
            return true;
        }
        i = i + 1;
    }
    false
}

/// Position of a token in a list, if present.
fn find_token(v: &Vec<usize>, tok: usize) -> (r: Option<usize>)
    ensures
        r matches Some(i) ==> i < v@.len() && v@[i as int] == tok,
        r is None ==> !v@.contains(tok),
{
    let mut i: usize = 0;
    while i < v.len()
        invariant
            i <= v@.len(),
            forall|k: int| 0 <= k < i ==> v@[k] != tok,
        decreases v@.len() - i,
    {
        if v[i] == tok {
            return Some(i);
        }
        i = i + 1;
    }
    None
}

/// Byte-for-byte equality of two buffers.
fn eq_bytes(a: &Vec<u8>, b: &Vec<u8>) -> (r: bool)
    ensures
        r == (a@ == b@),
{
    if a.len() != b.len() {
        return false;
    }
    let mut i: usize = 0;
    while i < a.len()
        invariant
            i <= a@.len(),
            a@.len() == b@.len(),
            forall|k: int| 0 <= k < i ==> a@[k] == b@[k],
        decreases a@.len() - i,
    {
        if a[i] != b[i] {
            return false;
        }
        i = i + 1;
    }
    proof {
        assert(a@ =~= b@);
    }
    true
}

/// Whether `p` starts `body`.
fn starts_with(body: &Vec<u8>, p: &Vec<u8>) -> (r: bool)
    ensures
        r == is_prefix_of(p@, body@),
{
    if p.len() > body.len() {
        return false;
    }
    let mut i: usize = 0;
    while i < p.len()
        invariant
            i <= p@.len(),
            p@.len() <= body@.len(),
            forall|k: int| 0 <= k < i ==> body@[k] == p@[k],
        decreases p@.len() - i,
    {
        if body[i] != p[i] {
            proof {
                assert(body@.take(p@.len() as int)[i as int] != p@[i as int]);
            }
            return false;
        }
        i = i + 1;
    }
    proof {
        assert(body@.take(p@.len() as int) =~= p@);
    }
    true
}

/// Whether the buffer already occurs in the list.
fn contains_prefix(v: &Vec<Vec<u8>>, p: &Vec<u8>) -> (r: bool)
    ensures
        r == v@.map_values(|x: Vec<u8>| x@).contains(p@),
{
    let mut i: usize = 0;
    while i < v.len()
        invariant
            i <= v@.len(),
            forall|k: int| 0 <= k < i ==> (#[trigger] v@[k])@ != p@,
        decreases v@.len() - i,
    {
        if eq_bytes(&v[i], p) {
            proof {
                assert(v@.map_values(|x: Vec<u8>| x@)[i as int] == p@);
            }
            return true;
        }
        i = i + 1;
    }
    proof {
        let view = v@.map_values(|x: Vec<u8>| x@);
        if view.contains(p@) {
            let k = choose|k: int| 0 <= k < view.len() && view[k] == p@;
            assert(view[k] == v@[k]@);
            assert(v@[k]@ != p@);
        }
    }
    false
}

/// Copy of a token list.
fn clone_tokens(v: &Vec<usize>) -> (r: Vec<usize>)
    ensures
        r@ == v@,
{
    let r = v.clone();
    proof {
        assert(r@ =~= v@);
    }
    r
}

/// What the socket must do with an accepted outgoing message.
pub enum SendPlan {
    /// Write the message on every listed pipe and report `MsgSent` at once;
    /// pipes that are not ready drop their copy (best-effort broadcast).
    Broadcast(Vec<usize>, Message),
    /// Write the message on this one pipe and report `MsgSent` when that
    /// pipe completes the transfer.
    Unicast(usize, Message),
    /// No peer can take the message now: park it until a peer opens or the
    /// send timer fires.
    NoPeer(Message),
    /// The pattern rejects the send outright; report `MsgNotSent` at once.
    Reject(IoError),
}

/// The routing state of one socket's pattern.
pub struct Protocol {
    pub kind: SocketType,
    /// Tokens of every pipe added to the socket.
    pub pipes: Vec<usize>,
    /// Tokens of the opened pipes, in the order their handshakes completed:
    /// the distribution set.
    pub dist: Vec<usize>,
    /// Subscription prefixes; only a Sub socket holds any.
    pub subscriptions: Vec<Vec<u8>>,
    /// Round-robin cursor for load-balanced sends (Push, Req).
    pub rr: usize,
    /// Fair-queue cursor rotating over the distribution set for receives.
    pub fq: usize,
    /// Low bits of the next request identifier (Req).
    pub req_id_seq: u32,
    /// The outstanding request identifier, at most one (Req).
    pub cur_req: Option<u32>,
    /// The request being answered: its identifier and the pipe it arrived
    /// on. A Rep socket records it when the engine delivers the request to
    /// the caller, so the reply answers the request the caller saw; a
    /// Respondent records it on arrival, since surveys supersede each
    /// other.
    pub cur_reply: Option<(u32, usize)>,
    /// Low bits of the next survey identifier (Surveyor).
    pub survey_id_seq: u32,
    /// The running survey's identifier, at most one (Surveyor).
    pub cur_survey: Option<u32>,
    /// Set when the survey deadline fired; cleared by the next send
    /// (Surveyor).
    pub survey_expired: bool,
}

impl Protocol {
    /// Token lists hold no duplicates, only opened pipes are distributed,
    /// and pattern state is confined to the pattern it belongs to.
    pub open spec fn wf(self) -> bool {
        &&& distinct_seq(self.pipes@)
        &&& distinct_seq(self.dist@)
        &&& forall|i: int| 0 <= i < self.dist@.len() ==> self.pipes@.contains(#[trigger] self.dist@[i])
        &&& distinct_seq(self.subs_view())
        &&& (self.kind != SocketType::Sub ==> self.subscriptions@.len() == 0)
        &&& (self.kind != SocketType::Req ==> self.cur_req is None)
        &&& (self.kind != SocketType::Rep && self.kind != SocketType::Respondent
            ==> self.cur_reply is None)
        &&& (self.kind != SocketType::Surveyor ==> self.cur_survey is None && !self.survey_expired)
    }

    pub fn new(kind: SocketType) -> (r: Protocol)
        ensures
            r.wf(),
            r.kind == kind,
            r.pipes@ == Seq::<usize>::empty(),
            r.dist@ == Seq::<usize>::empty(),
            r.subscriptions@ == Seq::<Vec<u8>>::empty(),
            r.rr == 0,
            r.fq == 0,
            r.req_id_seq == 0,
            r.survey_id_seq == 0,
            r.cur_req is None,
            r.cur_reply is None,
            r.cur_survey is None,
            !r.survey_expired,
    {
        let r = Protocol {
            kind,
            pipes: Vec::new(),
            dist: Vec::new(),
            subscriptions: Vec::new(),
            rr: 0,
            fq: 0,
            req_id_seq: 0,
            cur_req: None,
            cur_reply: None,
            survey_id_seq: 0,
            cur_survey: None,
            survey_expired: false,
        };
        proof {
            assert(r.pipes@ =~= Seq::<usize>::empty());
            assert(r.dist@ =~= Seq::<usize>::empty());
            assert(r.subscriptions@ =~= Seq::<Vec<u8>>::empty());
        }
        r
    }

    pub fn get_type(&self) -> (r: SocketType)
        ensures
            r == self.kind,
    {
        self.kind
    }

    /// Registers a pipe with the socket. A token can be added only once.
    pub fn add_pipe(&mut self, tok: usize) -> (r: Result<(), IoError>)
        requires
            old(self).wf(),
        ensures
            final(self).wf(),
            r is Ok <==> !old(self).pipes@.contains(tok),
            r is Ok ==> final(self).pipes@ == old(self).pipes@.push(tok),
            r is Ok ==> final(self).dist@ == old(self).dist@,
            r is Ok ==> final(self).kind == old(self).kind,
            r is Ok ==> final(self).subscriptions@ == old(self).subscriptions@,
            r is Ok ==> final(self).rr == old(self).rr,
            r is Ok ==> final(self).fq == old(self).fq,
            r is Ok ==> final(self).req_id_seq == old(self).req_id_seq,
            r is Ok ==> final(self).survey_id_seq == old(self).survey_id_seq,
            r is Ok ==> final(self).cur_req == old(self).cur_req,
            r is Ok ==> final(self).cur_reply == old(self).cur_reply,
            r is Ok ==> final(self).cur_survey == old(self).cur_survey,
            r is Ok ==> final(self).survey_expired == old(self).survey_expired,
            r is Err ==> *final(self) == *old(self) && r->Err_0.kind == ErrorKind::InvalidData,
    {
        if contains_token(&self.pipes, tok) {
            Err(invalid_data_io_error("a pipe has already been added with that token"))
        } else {
            self.pipes.push(tok);
            proof {
                let s = old(self).pipes@;
                assert forall|i: int, j: int| 0 <= i < j < self.pipes@.len() implies self.pipes@[i]
                    != self.pipes@[j] by {
                    if j < s.len() {
                    } else {
                        if self.pipes@[i] == tok {
                            assert(s[i] == tok);
                            assert(s.contains(tok));
                        }
                    }
                }
                assert forall|k: int| 0 <= k < self.dist@.len() implies self.pipes@.contains(
                    #[trigger] self.dist@[k],
                ) by {
                    assert(s.contains(self.dist@[k]));
                    let m = choose|m: int| 0 <= m < s.len() && s[m] == self.dist@[k];
                    assert(self.pipes@[m] == self.dist@[k]);
                }
            }
            Ok(())
        }
    }

    /// Unregisters a pipe and drops it from the distribution set; true when
    /// the token was known.
    pub fn remove_pipe(&mut self, tok: usize) -> (r: Option<usize>)
        requires
            old(self).wf(),
        ensures
            final(self).wf(),
            r is Some <==> old(self).pipes@.contains(tok),
            r matches Some(i) ==> i < old(self).pipes@.len() && old(self).pipes@[i as int] == tok
                && final(self).pipes@ == old(self).pipes@.remove(i as int),
            r is None ==> final(self).pipes@ == old(self).pipes@,
            !final(self).pipes@.contains(tok),
            !final(self).dist@.contains(tok),
            forall|t: usize|
                t != tok ==> (final(self).pipes@.contains(t) == old(self).pipes@.contains(t)
                    && final(self).dist@.contains(t) == old(self).dist@.contains(t)),
            final(self).kind == old(self).kind,
            final(self).subscriptions@ == old(self).subscriptions@,
            final(self).rr == old(self).rr,
            final(self).fq == old(self).fq,
            final(self).req_id_seq == old(self).req_id_seq,
            final(self).survey_id_seq == old(self).survey_id_seq,
            final(self).cur_req == old(self).cur_req,
            final(self).cur_reply == old(self).cur_reply,
            final(self).cur_survey == old(self).cur_survey,
            final(self).survey_expired == old(self).survey_expired,
    {
        match find_token(&self.dist, tok) {
            Some(i) => {
                self.dist.remove(i);
                proof {
                    lemma_unique_remove(old(self).dist@, tok, i as int);
                }
            },
            None => {},
        }
        match find_token(&self.pipes, tok) {
            Some(i) => {
                self.pipes.remove(i);
                proof {
                    lemma_unique_remove(old(self).pipes@, tok, i as int);
                    assert forall|k: int| 0 <= k < self.dist@.len() implies self.pipes@.contains(
                        #[trigger] self.dist@[k],
                    ) by {
                        assert(old(self).pipes@.contains(self.dist@[k]));
                        assert(self.dist@[k] != tok);
                        lemma_remove_keeps_others(old(self).pipes@, tok, i as int, self.dist@[k]);
                    }
                }
                Some(i)
            },
            None => None,
        }
    }

    /// A pipe completed its handshake: it joins the distribution set and
    /// begins to take part in the pattern's traffic.
    pub fn on_pipe_opened(&mut self, tok: usize)
        requires
            old(self).wf(),
        ensures
            final(self).wf(),
            old(self).pipes@.contains(tok) && !old(self).dist@.contains(tok) ==> final(self).dist@
                == old(self).dist@.push(tok),
            !(old(self).pipes@.contains(tok) && !old(self).dist@.contains(tok))
                ==> final(self).dist@ == old(self).dist@,
            final(self).pipes@ == old(self).pipes@,
            final(self).kind == old(self).kind,
            final(self).subscriptions@ == old(self).subscriptions@,
            final(self).rr == old(self).rr,
            final(self).fq == old(self).fq,
            final(self).req_id_seq == old(self).req_id_seq,
            final(self).survey_id_seq == old(self).survey_id_seq,
            final(self).cur_req == old(self).cur_req,
            final(self).cur_reply == old(self).cur_reply,
            final(self).cur_survey == old(self).cur_survey,
            final(self).survey_expired == old(self).survey_expired,
    {
        if contains_token(&self.pipes, tok) && !contains_token(&self.dist, tok) {
            self.dist.push(tok);
        }
    }
}

impl Protocol {
    /// The subscription prefixes as byte sequences.
    pub open spec fn subs_view(self) -> Seq<Seq<u8>> {
        self.subscriptions@.map_values(|v: Vec<u8>| v@)
    }

    /// Adds a subscription prefix; a prefix already subscribed is kept once.
    pub fn subscribe(&mut self, prefix: Vec<u8>)
        requires
            old(self).wf(),
            old(self).kind == SocketType::Sub,
        ensures
            final(self).wf(),
            old(self).subs_view().contains(prefix@) ==> final(self).subscriptions@ == old(self).subscriptions@,
            !old(self).subs_view().contains(prefix@) ==> final(self).subs_view() == old(self).subs_view().push(prefix@),
            final(self).pipes@ == old(self).pipes@,
            final(self).dist@ == old(self).dist@,
            final(self).kind == old(self).kind,
            final(self).rr == old(self).rr,
            final(self).fq == old(self).fq,
            final(self).req_id_seq == old(self).req_id_seq,
            final(self).survey_id_seq == old(self).survey_id_seq,
            final(self).cur_req == old(self).cur_req,
            final(self).cur_reply == old(self).cur_reply,
            final(self).cur_survey == old(self).cur_survey,
            final(self).survey_expired == old(self).survey_expired,
    {
        if !contains_prefix(&self.subscriptions, &prefix) {
            self.subscriptions.push(prefix);
            proof {
                assert(self.subs_view() =~= old(self).subs_view().push(self.subscriptions@[(
                self.subscriptions@.len() - 1) as int]@));
            }
        }
    }

    /// Drops a subscription prefix; true when it was subscribed.
    pub fn unsubscribe(&mut self, prefix: &Vec<u8>) -> (found: bool)
        requires
            old(self).wf(),
            old(self).kind == SocketType::Sub,
        ensures
            final(self).wf(),
            found <==> old(self).subs_view().contains(prefix@),
            !final(self).subs_view().contains(prefix@),
            forall|p: Seq<u8>|
                p != prefix@ ==> final(self).subs_view().contains(p) == old(self).subs_view().contains(p),
            final(self).pipes@ == old(self).pipes@,
            final(self).dist@ == old(self).dist@,
            final(self).kind == old(self).kind,
            final(self).rr == old(self).rr,
            final(self).fq == old(self).fq,
            final(self).req_id_seq == old(self).req_id_seq,
            final(self).survey_id_seq == old(self).survey_id_seq,
            final(self).cur_req == old(self).cur_req,
            final(self).cur_reply == old(self).cur_reply,
            final(self).cur_survey == old(self).cur_survey,
            final(self).survey_expired == old(self).survey_expired,
    {
        let mut i: usize = 0;
        while i < self.subscriptions.len()
            invariant
                i <= self.subscriptions@.len(),
                forall|k: int| 0 <= k < i ==> self.subs_view()[k] != prefix@,
                self.subscriptions@ == old(self).subscriptions@,
                *self == *old(self),
                old(self).wf(),
                old(self).kind == SocketType::Sub,
            decreases self.subscriptions@.len() - i,
        {
            if eq_bytes(&self.subscriptions[i], prefix) {
                proof {
                    assert(self.subs_view()[i as int] == prefix@);
                }
                self.subscriptions.remove(i);
                proof {
                    assert(self.subs_view() =~= old(self).subs_view().remove(i as int));
                    lemma_unique_remove(old(self).subs_view(), prefix@, i as int);
                }
                return true;
            }
            i = i + 1;
        }
        proof {
            if old(self).subs_view().contains(prefix@) {
                let k = choose|k: int|
                    0 <= k < old(self).subs_view().len() && old(self).subs_view()[k] == prefix@;
                assert(self.subs_view()[k] != prefix@);
            }
        }
        false
    }

    /// Whether some subscription prefix starts this message body.
    pub fn matches_subscription(&self, body: &Vec<u8>) -> (r: bool)
        ensures
            r == sub_matches(self.subs_view(), body@),
    {
        let mut i: usize = 0;
        while i < self.subscriptions.len()
            invariant
                i <= self.subscriptions@.len(),
                forall|k: int| 0 <= k < i ==> !is_prefix_of(self.subs_view()[k], body@),
            decreases self.subscriptions@.len() - i,
        {
            if starts_with(body, &self.subscriptions[i]) {
                proof {
                    assert(is_prefix_of(self.subs_view()[i as int], body@));
                }
                return true;
            }
            i = i + 1;
        }
        false
    }

    /// The rotating fair-queue cursor: the opened pipe whose turn it is to
    /// be read, so that no peer starves the others.
    pub fn fair_queue_next(&mut self) -> (r: Option<usize>)
        requires
            old(self).wf(),
        ensures
            final(self).wf(),
            r is Some <==> old(self).dist@.len() > 0,
            r matches Some(tok) ==> tok == old(self).dist@[(old(self).fq % old(self).dist@.len() as usize) as int],
            r matches Some(tok) ==> final(self).fq == (old(self).fq % old(self).dist@.len() as usize) + 1,
            final(self).pipes@ == old(self).pipes@,
            final(self).dist@ == old(self).dist@,
            final(self).kind == old(self).kind,
            final(self).subscriptions@ == old(self).subscriptions@,
            final(self).cur_req == old(self).cur_req,
            final(self).cur_reply == old(self).cur_reply,
            final(self).cur_survey == old(self).cur_survey,
            final(self).survey_expired == old(self).survey_expired,
    {
        if self.dist.len() > 0 {
            let idx = self.fq % self.dist.len();
            self.fq = idx + 1;
            Some(self.dist[idx])
        } else {
            None
        }
    }
}

/// Splits an incoming body into its 4-byte routing header — decoded as the
/// identifier it carries — and the remaining payload.
fn split_id_header(body: Vec<u8>) -> (r: (u32, Vec<u8>, Vec<u8>))
    requires
        body@.len() >= 4,
    ensures
        be_bytes4(r.0) == body@.take(4),
        r.1@ == body@.take(4),
        r.2@ == body@.skip(4),
{
    let mut head: Vec<u8> = Vec::new();
    head.extend_from_slice(&body.as_slice()[0..4]);
    let mut rest: Vec<u8> = Vec::new();
    rest.extend_from_slice(&body.as_slice()[4..body.len()]);
    proof {
        assert(head@ =~= body@.take(4));
        assert(rest@ =~= body@.skip(4));
    }
    let id = read_header(head.as_slice());
    (id, head, rest)
}

impl Protocol {
    /// The identifier the next request will carry.
    pub open spec fn next_request_id(self) -> u32 {
        REQUEST_ID_FLAG | self.req_id_seq
    }

    /// The identifier the next survey will carry.
    pub open spec fn next_survey_id(self) -> u32 {
        REQUEST_ID_FLAG | self.survey_id_seq
    }

    /// The opened pipe the round-robin cursor points at.
    pub open spec fn rr_choice(self) -> usize
        recommends
            self.dist@.len() > 0,
    {
        self.dist@[self.rr as int % self.dist@.len() as int]
    }

    /// Plans an outgoing message according to the socket's pattern: to whom
    /// it goes, with which routing header, and whether success is reported
    /// at once, on completion, or not at all.
    pub fn send(&mut self, msg: Message) -> (r: SendPlan)
        requires
            old(self).wf(),
            msg.header@.len() + msg.body@.len() <= usize::MAX,
        ensures
            final(self).wf(),
            final(self).kind == old(self).kind,
            final(self).pipes@ == old(self).pipes@,
            final(self).dist@ == old(self).dist@,
            final(self).subscriptions@ == old(self).subscriptions@,
            old(self).kind == SocketType::Pub || old(self).kind == SocketType::Bus ==> *final(self)
                == *old(self) && (r matches SendPlan::Broadcast(t, m) && t@ == old(self).dist@
                && m.header@ == msg.header@ && m.body@ == msg.body@),
            old(self).kind == SocketType::Sub || old(self).kind == SocketType::Pull ==> *final(self)
                == *old(self) && (r matches SendPlan::Reject(e) && e.kind == ErrorKind::Other),
            old(self).kind == SocketType::Pair ==> *final(self) == *old(self) && (if old(self).dist@.len() > 0 {
                r matches SendPlan::Unicast(t, m) && t == old(self).dist@[0] && m.header@
                    == msg.header@ && m.body@ == msg.body@
            } else {
                r matches SendPlan::NoPeer(m) && m.header@ == msg.header@ && m.body@ == msg.body@
            }),
            old(self).kind == SocketType::Push && old(self).dist@.len() > 0 ==> (r matches
                SendPlan::Unicast(t, m) && t == old(self).rr_choice() && m.header@ == msg.header@
                && m.body@ == msg.body@) && final(self).cur_req == old(self).cur_req,
            old(self).kind == SocketType::Push && old(self).dist@.len() == 0 ==> *final(self)
                == *old(self) && (r matches SendPlan::NoPeer(m) && m.header@ == msg.header@
                && m.body@ == msg.body@),
            old(self).kind == SocketType::Req && old(self).dist@.len() > 0 ==> (r matches
                SendPlan::Unicast(t, m) && t == old(self).rr_choice() && m.header@ == be_bytes4(
                old(self).next_request_id(),
            ) && m.body@ == msg.payload()) && final(self).cur_req == Some(
                old(self).next_request_id(),
            ) && final(self).req_id_seq == (old(self).req_id_seq + 1) % 0x1_0000_0000,
            old(self).kind == SocketType::Req && old(self).dist@.len() == 0 ==> *final(self)
                == *old(self) && (r matches SendPlan::NoPeer(m) && m.header@ == msg.header@
                && m.body@ == msg.body@),
            (old(self).kind == SocketType::Rep || old(self).kind == SocketType::Respondent) && old(self).cur_reply is None ==> *final(self) == *old(self) && (r matches SendPlan::Reject(e)
                && e.kind == ErrorKind::Other),
            (old(self).kind == SocketType::Rep || old(self).kind == SocketType::Respondent) && (old(self).cur_reply matches Some((id, tok))) ==> final(self).cur_reply is None && (if old(self).dist@.contains((old(self).cur_reply->0).1) {
                r matches SendPlan::Unicast(t, m) && t == (old(self).cur_reply->0).1 && m.header@
                    == be_bytes4((old(self).cur_reply->0).0) && m.body@ == msg.payload()
            } else {
                r matches SendPlan::Reject(e) && e.kind == ErrorKind::Other
            }),
            old(self).kind == SocketType::Surveyor ==> (r matches SendPlan::Broadcast(t, m) && t@
                == old(self).dist@ && m.header@ == be_bytes4(old(self).next_survey_id()) && m.body@
                == msg.payload()) && final(self).cur_survey == Some(old(self).next_survey_id())
                && !final(self).survey_expired && final(self).survey_id_seq == (old(self).survey_id_seq + 1) % 0x1_0000_0000,
    {
        match self.kind {
            SocketType::Pub | SocketType::Bus => {
                let targets = clone_tokens(&self.dist);
                SendPlan::Broadcast(targets, msg)
            },
            SocketType::Sub | SocketType::Pull => SendPlan::Reject(
                other_io_error("send not supported by protocol"),
            ),
            SocketType::Pair => {
                if self.dist.len() > 0 {
                    SendPlan::Unicast(self.dist[0], msg)
                } else {
                    SendPlan::NoPeer(msg)
                }
            },
            SocketType::Push => {
                if self.dist.len() > 0 {
                    let idx = self.rr % self.dist.len();
                    let tok = self.dist[idx];
                    self.rr = idx + 1;
                    SendPlan::Unicast(tok, msg)
                } else {
                    SendPlan::NoPeer(msg)
                }
            },
            SocketType::Req => {
                if self.dist.len() > 0 {
                    let id = REQUEST_ID_FLAG | self.req_id_seq;
                    self.req_id_seq = self.req_id_seq.wrapping_add(1);
                    self.cur_req = Some(id);
                    let idx = self.rr % self.dist.len();
                    let tok = self.dist[idx];
                    self.rr = idx + 1;
                    let body = msg.to_buffer();
                    SendPlan::Unicast(tok, Message::with_header_and_body(write_header(id), body))
                } else {
                    SendPlan::NoPeer(msg)
                }
            },
            SocketType::Rep | SocketType::Respondent => {
                match self.cur_reply {
                    Some((id, tok)) => {
                        self.cur_reply = None;
                        if contains_token(&self.dist, tok) {
                            let body = msg.to_buffer();
                            SendPlan::Unicast(
                                tok,
                                Message::with_header_and_body(write_header(id), body),
                            )
                        } else {
                            SendPlan::Reject(other_io_error("request origin is gone"))
                        }
                    },
                    None => SendPlan::Reject(other_io_error("no request to reply to")),
                }
            },
            SocketType::Surveyor => {
                let id = REQUEST_ID_FLAG | self.survey_id_seq;
                self.survey_id_seq = self.survey_id_seq.wrapping_add(1);
                self.cur_survey = Some(id);
                self.survey_expired = false;
                let targets = clone_tokens(&self.dist);
                let body = msg.to_buffer();
                SendPlan::Broadcast(targets, Message::with_header_and_body(write_header(id), body))
            },
        }
    }

    /// Whether the pattern delivers an incoming message with this body,
    /// arrived on the pipe `tok`, to the caller: for Pair only from the one
    /// participating peer (the first opened); always for Pull and Bus;
    /// never for the send-only patterns; on a subscription match for Sub;
    /// on a matching outstanding request or running survey identifier for
    /// Req and Surveyor; and for Rep and Respondent whenever the request
    /// header is present.
    pub open spec fn accepts_incoming(self, tok: usize, body: Seq<u8>) -> bool {
        match self.kind {
            SocketType::Pair => self.dist@.len() > 0 && tok == self.dist@[0],
            SocketType::Pull | SocketType::Bus => true,
            SocketType::Pub | SocketType::Push => false,
            SocketType::Sub => sub_matches(self.subs_view(), body),
            SocketType::Req => self.cur_req matches Some(id) && body.len() >= 4 && body.take(4)
                == be_bytes4(id),
            SocketType::Rep | SocketType::Respondent => body.len() >= 4,
            SocketType::Surveyor => self.cur_survey matches Some(id) && !self.survey_expired
                && body.len() >= 4 && body.take(4) == be_bytes4(id),
        }
    }

    /// The patterns whose wire payload starts with a 4-byte routing header;
    /// an accepted incoming message is split into that header and the rest.
    pub open spec fn strips_header(self) -> bool {
        self.kind == SocketType::Req || self.kind == SocketType::Rep || self.kind
            == SocketType::Respondent || self.kind == SocketType::Surveyor
    }

    /// What an accepted incoming message with this header and body looks
    /// like once the pattern has delivered it: split at the routing header
    /// for the correlating patterns, untouched for the rest.
    pub open spec fn delivered_shape(self, header: Seq<u8>, body: Seq<u8>, m: Message) -> bool {
        if self.strips_header() {
            m.header@ == body.take(4) && m.body@ == body.skip(4)
        } else {
            m.header@ == header && m.body@ == body
        }
    }

    /// Decides the fate of a message assembled on pipe `tok`: delivered to
    /// the caller — with the routing header its pattern strips and records —
    /// or silently dropped.
    pub fn on_recv_completed(&mut self, tok: usize, msg: Message) -> (r: Option<Message>)
        requires
            old(self).wf(),
        ensures
            final(self).wf(),
            r is Some <==> old(self).accepts_incoming(tok, msg.body@),
            r matches Some(m) ==> old(self).delivered_shape(msg.header@, msg.body@, m),
            final(self).kind == old(self).kind,
            final(self).pipes@ == old(self).pipes@,
            final(self).dist@ == old(self).dist@,
            final(self).subscriptions@ == old(self).subscriptions@,
            old(self).kind == SocketType::Pull || old(self).kind == SocketType::Bus ==> *final(self) == *old(self) && (r matches Some(m)
                && m.header@ == msg.header@ && m.body@ == msg.body@),
            old(self).kind == SocketType::Pair ==> *final(self) == *old(self) && (r is Some <==> (
            old(self).dist@.len() > 0 && tok == old(self).dist@[0])) && (r matches Some(m)
                && m.header@ == msg.header@ && m.body@ == msg.body@ || r is None),
            old(self).kind == SocketType::Pub || old(self).kind == SocketType::Push ==> *final(self)
                == *old(self) && r is None,
            old(self).kind == SocketType::Sub ==> *final(self) == *old(self) && (r is Some
                <==> sub_matches(old(self).subs_view(), msg.body@)) && (r matches Some(m)
                ==> m.header@ == msg.header@ && m.body@ == msg.body@),
            old(self).kind == SocketType::Req ==> ((r is Some <==> (old(self).cur_req matches Some(
                id,
            ) && msg.body@.len() >= 4 && msg.body@.take(4) == be_bytes4(id))) && (r matches Some(m)
                ==> m.header@ == msg.body@.take(4) && m.body@ == msg.body@.skip(4) && final(self).cur_req is None) && (r is None ==> *final(self) == *old(self))),
            old(self).kind == SocketType::Rep ==> *final(self) == *old(self) && ((r is Some
                <==> msg.body@.len() >= 4) && (r matches Some(m) ==> m.header@ == msg.body@.take(4)
                && m.body@ == msg.body@.skip(4))),
            old(self).kind == SocketType::Respondent ==> ((r is Some <==> msg.body@.len() >= 4) && (
            r matches Some(m) ==> m.header@ == msg.body@.take(4) && m.body@ == msg.body@.skip(4)
                && (final(self).cur_reply matches Some((id, t)) && t == tok && be_bytes4(id)
                == msg.body@.take(4))) && (r is None ==> *final(self) == *old(self))),
            old(self).kind == SocketType::Surveyor ==> *final(self) == *old(self) && ((r is Some
                <==> (old(self).cur_survey matches Some(id) && !old(self).survey_expired
                && msg.body@.len() >= 4 && msg.body@.take(4) == be_bytes4(id))) && (r matches Some(
                m,
            ) ==> m.header@ == msg.body@.take(4) && m.body@ == msg.body@.skip(4))),
    {
        match self.kind {
            SocketType::Pair => {
                if self.dist.len() > 0 && self.dist[0] == tok {
                    Some(msg)
                } else {
                    None
                }
            },
            SocketType::Pull | SocketType::Bus => Some(msg),
            SocketType::Pub | SocketType::Push => None,
            SocketType::Sub => {
                if self.matches_subscription(msg.get_body()) {
                    Some(msg)
                } else {
                    None
                }
            },
            SocketType::Req => {
                match self.cur_req {
                    Some(id) => {
                        if msg.body.len() >= 4 {
                            let (_, body) = msg.explode();
                            let (got, head, rest) = split_id_header(body);
                            if got == id {
                                self.cur_req = None;
                                proof {
                                    crate::codec::lemma_be_bytes4_injective(got, id);
                                }
                                Some(Message::with_header_and_body(head, rest))
                            } else {
                                proof {
                                    crate::codec::lemma_be_bytes4_injective(got, id);
                                }
                                None
                            }
                        } else {
                            None
                        }
                    },
                    None => None,
                }
            },
            SocketType::Rep => {
                if msg.body.len() >= 4 {
                    let (_, body) = msg.explode();
                    let (_, head, rest) = split_id_header(body);
                    Some(Message::with_header_and_body(head, rest))
                } else {
                    None
                }
            },
            SocketType::Respondent => {
                if msg.body.len() >= 4 {
                    let (_, body) = msg.explode();
                    let (id, head, rest) = split_id_header(body);
                    self.cur_reply = Some((id, tok));
                    Some(Message::with_header_and_body(head, rest))
                } else {
                    None
                }
            },
            SocketType::Surveyor => {
                match self.cur_survey {
                    Some(id) => {
                        if self.survey_expired {
                            None
                        } else if msg.body.len() >= 4 {
                            let (_, body) = msg.explode();
                            let (got, head, rest) = split_id_header(body);
                            if got == id {
                                proof {
                                    crate::codec::lemma_be_bytes4_injective(got, id);
                                }
                                Some(Message::with_header_and_body(head, rest))
                            } else {
                                proof {
                                    crate::codec::lemma_be_bytes4_injective(got, id);
                                }
                                None
                            }
                        } else {
                            None
                        }
                    },
                    None => None,
                }
            },
        }
    }

    /// The distribution set without the pipe a message arrived on. The bus
    /// pattern broadcasts a forwarded message to every opened pipe except
    /// the one that delivered it, which is its only loop prevention.
    pub fn targets_excluding(&self, origin: usize) -> (r: Vec<usize>)
        requires
            self.wf(),
        ensures
            self.dist@.contains(origin) ==> r@ == self.dist@.remove(self.dist@.index_of(origin)),
            !self.dist@.contains(origin) ==> r@ == self.dist@,
            !r@.contains(origin),
            distinct_seq(r@),
    {
        let mut r = clone_tokens(&self.dist);
        match find_token(&r, origin) {
            Some(i) => {
                r.remove(i);
                proof {
                    assert(self.dist@[i as int] == origin);
                    assert(self.dist@.contains(origin));
                    let k = self.dist@.index_of(origin);
                    assert(self.dist@[k] == origin);
                    if k != i {
                        assert(false);
                    }
                    lemma_unique_remove(self.dist@, origin, i as int);
                }
                r
            },
            None => {
                proof {
                    assert(!self.dist@.contains(origin));
                }
                r
            },
        }
    }

    /// The engine delivered a request to the caller: the pattern records
    /// the request's identifier and origin pipe as the pair the next reply
    /// answers — recorded at delivery, so with several requests queued the
    /// reply always answers the one the caller actually saw.
    pub fn record_reply_target(&mut self, id: u32, tok: usize)
        requires
            old(self).wf(),
            old(self).kind == SocketType::Rep,
        ensures
            final(self).wf(),
            final(self).cur_reply == Some((id, tok)),
            final(self).kind == old(self).kind,
            final(self).pipes@ == old(self).pipes@,
            final(self).dist@ == old(self).dist@,
            final(self).subscriptions@ == old(self).subscriptions@,
            final(self).rr == old(self).rr,
            final(self).fq == old(self).fq,
            final(self).req_id_seq == old(self).req_id_seq,
            final(self).survey_id_seq == old(self).survey_id_seq,
            final(self).cur_req == old(self).cur_req,
            final(self).cur_survey == old(self).cur_survey,
            final(self).survey_expired == old(self).survey_expired,
    {
        self.cur_reply = Some((id, tok));
    }

    /// The survey deadline fired: further receives fail until the next
    /// survey is sent.
    pub fn on_survey_deadline(&mut self)
        requires
            old(self).wf(),
        ensures
            final(self).wf(),
            old(self).kind == SocketType::Surveyor ==> final(self).survey_expired,
            old(self).kind != SocketType::Surveyor ==> *final(self) == *old(self),
            final(self).kind == old(self).kind,
            final(self).pipes@ == old(self).pipes@,
            final(self).dist@ == old(self).dist@,
            final(self).subscriptions@ == old(self).subscriptions@,
            final(self).rr == old(self).rr,
            final(self).fq == old(self).fq,
            final(self).req_id_seq == old(self).req_id_seq,
            final(self).survey_id_seq == old(self).survey_id_seq,
            final(self).cur_req == old(self).cur_req,
            final(self).cur_reply == old(self).cur_reply,
            final(self).cur_survey == old(self).cur_survey,
    {
        match self.kind {
            SocketType::Surveyor => {
                self.survey_expired = true;
            },
            _ => {},
        }
    }
}

/// Request/reply correlation: a reply whose routing header carries the
/// identifier `rep_id` — as a Rep socket sends it back for a recorded
/// request — is accepted by a Req socket exactly when its outstanding
/// request carries that same identifier; every other reply is dropped, so
/// no reply crosses over to a client whose request it does not answer.
pub proof fn lemma_req_rep_correlation(req: Protocol, tok: usize, rep_id: u32, payload: Seq<u8>)
    requires
        req.kind == SocketType::Req,
    ensures
        req.accepts_incoming(tok, be_bytes4(rep_id) + payload) <==> req.cur_req == Some(rep_id),
{
    let body = be_bytes4(rep_id) + payload;
    assert(body.take(4) =~= be_bytes4(rep_id));
    if req.cur_req is Some {
        let id = req.cur_req->0;
        crate::codec::lemma_be_bytes4_injective(id, rep_id);
    }
}

/// Survey correlation: a vote whose routing header carries the identifier
/// `survey_id` is accepted by a Surveyor exactly when its running,
/// unexpired survey carries that identifier; stale votes are dropped, and
/// after the deadline nothing is accepted at all.
pub proof fn lemma_survey_correlation(sur: Protocol, tok: usize, survey_id: u32, payload: Seq<u8>)
    requires
        sur.kind == SocketType::Surveyor,
    ensures
        sur.accepts_incoming(tok, be_bytes4(survey_id) + payload) <==> (sur.cur_survey == Some(
            survey_id,
        ) && !sur.survey_expired),
{
    let body = be_bytes4(survey_id) + payload;
    assert(body.take(4) =~= be_bytes4(survey_id));
    if sur.cur_survey is Some {
        let id = sur.cur_survey->0;
        crate::codec::lemma_be_bytes4_injective(id, survey_id);
    }
}

/// Removing the only occurrence of a value from a duplicate-free sequence
/// keeps it duplicate-free and drops exactly that value.
proof fn lemma_unique_remove<T>(s: Seq<T>, tok: T, i: int)
    requires
        distinct_seq(s),
        0 <= i < s.len(),
        s[i] == tok,
    ensures
        distinct_seq(s.remove(i)),
        !s.remove(i).contains(tok),
        forall|t: T| t != tok ==> s.remove(i).contains(t) == s.contains(t),
{
    let removed = s.remove(i);
    assert forall|t: T| t != tok implies removed.contains(t) == s.contains(t) by {
        if s.contains(t) {
            let k = choose|k: int| 0 <= k < s.len() && s[k] == t;
            if k < i {
                assert(removed[k] == t);
            } else {
                assert(removed[k - 1] == t);
            }
        }
        if removed.contains(t) {
            let k = choose|k: int| 0 <= k < removed.len() && removed[k] == t;
            if k < i {
                assert(s[k] == t);
            } else {
                assert(s[k + 1] == t);
            }
        }
    }
    if removed.contains(tok) {
        let k = choose|k: int| 0 <= k < removed.len() && removed[k] == tok;
        if k < i {
            assert(s[k] == tok);
        } else {
            assert(s[k + 1] == tok);
        }
    }
}

/// Values other than the removed one keep their membership.
proof fn lemma_remove_keeps_others<T>(s: Seq<T>, tok: T, i: int, t: T)
    requires
        0 <= i < s.len(),
        s[i] == tok,
        t != tok,
        s.contains(t),
    ensures
        s.remove(i).contains(t),
{
    let k = choose|k: int| 0 <= k < s.len() && s[k] == t;
    if k < i {
        assert(s.remove(i)[k] == t);
    } else {
        assert(s.remove(i)[k - 1] == t);
    }
}

} // verus!
