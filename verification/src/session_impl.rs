//! The engine-side session: the table of live sockets keyed by their dense
//! identifiers, and the index that maps every registered endpoint token back
//! to the socket that owns it. The event loop dispatches readiness events
//! and timer expirations through this index.

use vstd::prelude::*;

use crate::global::{SocketId, SocketType};
use crate::socket_impl::SocketImpl;

verus! {

/// The engine-side session state.
pub struct SessionImpl {
    /// One slot per socket identifier ever assigned; a destroyed socket
    /// leaves an empty slot, so identifiers are never reused.
    pub sockets: Vec<Option<SocketImpl>>,
    /// Endpoint token to owning socket identifier.
    pub token_index: Vec<(usize, usize)>,
}

impl SessionImpl {
    /// Each live socket is consistent and carries the identifier of its
    /// slot, and no endpoint token is indexed twice.
    pub open spec fn wf(self) -> bool {
        &&& forall|i: int|
            0 <= i < self.sockets@.len() ==> (match #[trigger] self.sockets@[i] {
                Some(s) => s.wf() && s.id == SocketId(i as usize),
                None => true,
            })
        &&& forall|i: int, j: int|
            0 <= i < j < self.token_index@.len() ==> self.token_index@[i].0
                != self.token_index@[j].0
    }

    /// Whether this endpoint token is registered.
    pub open spec fn spec_owner_of(self, token: usize) -> Option<usize> {
        if exists|i: int|
            0 <= i < self.token_index@.len() && (#[trigger] self.token_index@[i]).0 == token {
            Some(
                self.token_index@[choose|i: int|
                    0 <= i < self.token_index@.len() && (#[trigger] self.token_index@[i]).0
                        == token].1,
            )
        } else {
            None
        }
    }

    pub fn new() -> (r: SessionImpl)
        ensures
            r.wf(),
            r.sockets@.len() == 0,
            r.token_index@.len() == 0,
    {
        SessionImpl { sockets: Vec::new(), token_index: Vec::new() }
    }

    /// Creates a socket of this type under the next dense identifier.
    pub fn create_socket(&mut self, kind: SocketType) -> (r: SocketId)
        requires
            old(self).wf(),
        ensures
            final(self).wf(),
            r == SocketId(old(self).sockets@.len() as usize),
            final(self).sockets@.len() == old(self).sockets@.len() + 1,
            final(self).sockets@[old(self).sockets@.len() as int] matches Some(s) && s.protocol.kind
                == kind,
            final(self).token_index@ == old(self).token_index@,
            forall|i: int|
                0 <= i < old(self).sockets@.len() ==> final(self).sockets@[i] == old(self).sockets@[i],
    {
        let id = SocketId(self.sockets.len());
        self.sockets.push(Some(SocketImpl::new(id, kind)));
        id
    }

    /// Destroys a socket: its slot empties, its endpoint registrations
    /// disappear, and the tokens the event loop must deregister come back.
    /// An unknown or already destroyed socket yields nothing.
    pub fn destroy_socket(&mut self, sid: SocketId) -> (r: Vec<usize>)
        requires
            old(self).wf(),
        ensures
            final(self).wf(),
            final(self).sockets@.len() == old(self).sockets@.len(),
            sid.0 < old(self).sockets@.len() ==> final(self).sockets@[sid.0 as int] is None,
            forall|i: int|
                0 <= i < old(self).sockets@.len() && i != sid.0 ==> final(self).sockets@[i] == old(self).sockets@[i],
            forall|i: int|
                0 <= i < final(self).token_index@.len() ==> (#[trigger] final(self).token_index@[i]).1 != sid.0,
            sid.0 < old(self).sockets@.len() && (old(self).sockets@[sid.0 as int] matches Some(s))
                ==> r@ == old(self).sockets@[sid.0 as int]->0.tokens(),
            !(sid.0 < old(self).sockets@.len() && old(self).sockets@[sid.0 as int] is Some)
                ==> r@.len() == 0,
            forall|k: int|
                0 <= k < old(self).token_index@.len() && (#[trigger] old(self).token_index@[k]).1
                    != sid.0 ==> final(self).token_index@.contains(old(self).token_index@[k]),
            forall|k: int|
                0 <= k < final(self).token_index@.len() ==> old(self).token_index@.contains(
                    #[trigger] final(self).token_index@[k],
                ),
    {
        let id = sid.0;
        let mut removed: Vec<usize> = Vec::new();
        if id < self.sockets.len() {
            let mut slot: Option<SocketImpl> = None;
            core::mem::swap(&mut slot, &mut self.sockets[id]);
            match slot {
                Some(mut imp) => {
                    removed = imp.destroy();
                },
                None => {},
            }
        }
        let mut kept: Vec<(usize, usize)> = Vec::new();
        let mut i: usize = 0;
        while i < self.token_index.len()
            invariant
                old(self).wf(),
                i <= self.token_index@.len(),
                self.token_index@ == old(self).token_index@,
                forall|k: int| 0 <= k < kept@.len() ==> (#[trigger] kept@[k]).1 != id,
                forall|k: int, l: int|
                    0 <= k < l < kept@.len() ==> kept@[k].0 != kept@[l].0,
                forall|k: int|
                    0 <= k < kept@.len() ==> (exists|m: int|
                        0 <= m < i && (#[trigger] old(self).token_index@[m]) == (
                        #[trigger] kept@[k])),
                forall|m: int|
                    0 <= m < i && (#[trigger] old(self).token_index@[m]).1 != id ==> kept@.contains(
                        old(self).token_index@[m],
                    ),
            decreases self.token_index@.len() - i,
        {
            let (token, owner) = self.token_index[i];
            let ghost kept_pre = kept@;
            if owner != id {
                kept.push((token, owner));
                proof {
                    assert(old(self).token_index@[i as int] == kept@[kept@.len() - 1]);
                    assert forall|k: int, l: int|
                        0 <= k < l < kept@.len() implies kept@[k].0 != kept@[l].0 by {
                        let m1 = choose|m: int|
                            0 <= m < i + 1 && (#[trigger] old(self).token_index@[m]) == kept@[k];
                        let m2 = choose|m: int|
                            0 <= m < i + 1 && (#[trigger] old(self).token_index@[m]) == kept@[l];
                        if m1 == m2 {
                            assert(kept@[k] == kept@[l]);
                            assert(false);
                        }
                    }
                }
            }
            i = i + 1;
            proof {
                assert forall|m: int|
                    0 <= m < i && (#[trigger] old(self).token_index@[m]).1 != id implies kept@.contains(
                    old(self).token_index@[m],
                ) by {
                    if m < i - 1 {
                        let k = choose|k: int|
                            0 <= k < kept_pre.len() && kept_pre[k] == old(self).token_index@[m];
                        assert(kept@[k] == old(self).token_index@[m]);
                    } else {
                        assert(kept@[kept@.len() - 1] == old(self).token_index@[m]);
                    }
                }
            }
        }
        self.token_index = kept;
        proof {
            assert forall|k: int|
                0 <= k < self.token_index@.len() implies old(self).token_index@.contains(
                #[trigger] self.token_index@[k],
            ) by {
                let m = choose|m: int|
                    0 <= m < old(self).token_index@.len() && old(self).token_index@[m]
                        == self.token_index@[k];
                assert(old(self).token_index@[m] == self.token_index@[k]);
            }
        }
        removed
    }

    /// Registers an endpoint token as owned by this socket. A token is
    /// registered at most once for its lifetime.
    pub fn register_endpoint(&mut self, token: usize, sid: SocketId) -> (r: bool)
        requires
            old(self).wf(),
        ensures
            final(self).wf(),
            final(self).sockets@ == old(self).sockets@,
            r <==> old(self).spec_owner_of(token) is None,
            r ==> final(self).spec_owner_of(token) == Some(sid.0),
            !r ==> final(self).token_index@ == old(self).token_index@,
    {
        let id = sid.0;
        let mut i: usize = 0;
        while i < self.token_index.len()
            invariant
                old(self).wf(),
                i <= self.token_index@.len(),
                *self == *old(self),
                forall|k: int| 0 <= k < i ==> (#[trigger] self.token_index@[k]).0 != token,
            decreases self.token_index@.len() - i,
        {
            if self.token_index[i].0 == token {
                proof {
                    assert(self.token_index@[i as int].0 == token);
                }
                return false;
            }
            i = i + 1;
        }
        proof {
            if old(self).spec_owner_of(token) is Some {
                let w = choose|w: int|
                    0 <= w < self.token_index@.len() && (#[trigger] self.token_index@[w]).0
                        == token;
                assert(self.token_index@[w].0 != token);
            }
        }
        self.token_index.push((token, id));
        proof {
            let n = self.token_index@.len() - 1;
            assert(self.token_index@[n].0 == token);
            assert forall|k: int, l: int|
                0 <= k < l < self.token_index@.len() implies self.token_index@[k].0
                != self.token_index@[l].0 by {
                if l < n {
                } else {
                    assert(self.token_index@[k] == old(self).token_index@[k]);
                }
            }
            let w = choose|w: int|
                0 <= w < self.token_index@.len() && (#[trigger] self.token_index@[w]).0 == token;
            if w != n {
                assert(self.token_index@[w].0 == self.token_index@[n].0);
            }
            assert(self.spec_owner_of(token) == Some(id as usize));
        }
        true
    }

    /// The socket owning this endpoint token, if it is registered.
    pub fn owner_of(&self, token: usize) -> (r: Option<SocketId>)
        requires
            self.wf(),
        ensures
            r matches Some(SocketId(id)) ==> self.spec_owner_of(token) == Some(id),
            r is None <==> self.spec_owner_of(token) is None,
    {
        let mut i: usize = 0;
        while i < self.token_index.len()
            invariant
                self.wf(),
                i <= self.token_index@.len(),
                forall|k: int| 0 <= k < i ==> (#[trigger] self.token_index@[k]).0 != token,
            decreases self.token_index@.len() - i,
        {
            if self.token_index[i].0 == token {
                let owner = self.token_index[i].1;
                proof {
                    let w = choose|w: int|
                        0 <= w < self.token_index@.len() && (#[trigger] self.token_index@[w]).0
                            == token;
                    if w != i as int {
                        assert(self.token_index@[w].0 == self.token_index@[i as int].0);
                    }
                }
                return Some(SocketId(owner));
            }
            i = i + 1;
        }
        proof {
            if self.spec_owner_of(token) is Some {
                let w = choose|w: int|
                    0 <= w < self.token_index@.len() && (#[trigger] self.token_index@[w]).0
                        == token;
                assert(self.token_index@[w].0 != token);
            }
        }
        None
    }

    /// Unregisters an endpoint token, as when its pipe or acceptor dies;
    /// true when it was registered.
    pub fn unregister_endpoint(&mut self, token: usize) -> (r: bool)
        requires
            old(self).wf(),
        ensures
            final(self).wf(),
            final(self).sockets@ == old(self).sockets@,
            r <==> old(self).spec_owner_of(token) is Some,
            final(self).spec_owner_of(token) is None,
    {
        let mut i: usize = 0;
        while i < self.token_index.len()
            invariant
                old(self).wf(),
                i <= self.token_index@.len(),
                *self == *old(self),
                forall|k: int| 0 <= k < i ==> (#[trigger] self.token_index@[k]).0 != token,
            decreases self.token_index@.len() - i,
        {
            if self.token_index[i].0 == token {
                self.token_index.remove(i);
                proof {
                    let s = old(self).token_index@;
                    assert forall|k: int, l: int|
                        0 <= k < l < self.token_index@.len() implies self.token_index@[k].0
                        != self.token_index@[l].0 by {
                        if l < i {
                        } else if k < i {
                            assert(self.token_index@[k] == s[k] && self.token_index@[l] == s[l
                                + 1]);
                        } else {
                            assert(self.token_index@[k] == s[k + 1] && self.token_index@[l] == s[l
                                + 1]);
                        }
                    }
                    assert forall|k: int|
                        0 <= k < self.token_index@.len() implies (#[trigger] self.token_index@[k]).0
                        != token by {
                        if k < i {
                        } else {
                            assert(self.token_index@[k] == s[k + 1]);
                        }
                    }
                    assert(old(self).token_index@[i as int].0 == token);
                    if self.spec_owner_of(token) is Some {
                        let w = choose|w: int|
                            0 <= w < self.token_index@.len() && (#[trigger] self.token_index@[w]).0
                                == token;
                        assert(false);
                    }
                }
                return true;
            }
            i = i + 1;
        }
        proof {
            if old(self).spec_owner_of(token) is Some {
                let w = choose|w: int|
                    0 <= w < self.token_index@.len() && (#[trigger] self.token_index@[w]).0
                        == token;
                assert(self.token_index@[w].0 != token);
            }
        }
        false
    }
}

} // verus!
