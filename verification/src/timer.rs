//! The timer subsystem: scheduled expirations for reconnect and rebind
//! backoff, send/receive cancellation, survey deadlines and request resends.
//! Arming returns an opaque handle; completion paths cancel by handle before
//! replying, so a timer never fires for an operation that already finished.

use vstd::prelude::*;

use crate::event_loop_msg::EventLoopTimeout;

verus! {

/// One armed timer: its handle, its absolute deadline in milliseconds, and
/// the expiration it delivers.
pub struct TimerEntry {
    pub handle: u64,
    pub deadline: u64,
    pub what: EventLoopTimeout,
}

/// The pending timers of one event loop, with a monotonic handle sequence.
pub struct TimerList {
    pub next_handle: u64,
    pub entries: Vec<TimerEntry>,
}

impl TimerList {
    /// Handles are unique: each armed timer carries one below the next to be
    /// issued.
    pub open spec fn wf(self) -> bool {
        &&& forall|i: int|
            0 <= i < self.entries@.len() ==> (#[trigger] self.entries@[i]).handle
                < self.next_handle
        &&& forall|i: int, j: int|
            0 <= i < j < self.entries@.len() ==> self.entries@[i].handle
                != self.entries@[j].handle
    }

    pub fn new() -> (r: TimerList)
        ensures
            r.wf(),
            r.entries@.len() == 0,
    {
        TimerList { next_handle: 0, entries: Vec::new() }
    }

    /// Arms a timer that delivers `what` once `deadline` has passed; the
    /// returned handle cancels it.
    pub fn arm(&mut self, deadline: u64, what: EventLoopTimeout) -> (handle: u64)
        requires
            old(self).wf(),
            old(self).next_handle < u64::MAX,
        ensures
            final(self).wf(),
            handle == old(self).next_handle,
            final(self).next_handle == old(self).next_handle + 1,
            final(self).entries@.len() == old(self).entries@.len() + 1,
            final(self).entries@[final(self).entries@.len() - 1].handle == handle,
            final(self).entries@[final(self).entries@.len() - 1].deadline == deadline,
            final(self).entries@[final(self).entries@.len() - 1].what == what,
            forall|i: int|
                0 <= i < old(self).entries@.len() ==> final(self).entries@[i] == old(
                    self,
                ).entries@[i],
    {
        let handle = self.next_handle;
        self.next_handle = self.next_handle + 1;
        self.entries.push(TimerEntry { handle, deadline, what });
        handle
    }

    /// Cancels the timer with this handle; true when it was still pending.
    pub fn cancel(&mut self, handle: u64) -> (found: bool)
        requires
            old(self).wf(),
        ensures
            final(self).wf(),
            final(self).next_handle == old(self).next_handle,
            found <==> (exists|i: int|
                0 <= i < old(self).entries@.len() && (#[trigger] old(self).entries@[i]).handle
                    == handle),
            found ==> (exists|i: int|
                0 <= i < old(self).entries@.len() && (#[trigger] old(self).entries@[i]).handle
                    == handle && final(self).entries@ == old(self).entries@.remove(i)),
            !found ==> *final(self) == *old(self),
            forall|i: int|
                0 <= i < final(self).entries@.len() ==> (#[trigger] final(self).entries@[i]).handle
                    != handle,
    {
        let mut i: usize = 0;
        while i < self.entries.len()
            invariant
                old(self).wf(),
                i <= self.entries@.len(),
                *self == *old(self),
                forall|k: int| 0 <= k < i ==> (#[trigger] self.entries@[k]).handle != handle,
            decreases self.entries@.len() - i,
        {
            if self.entries[i].handle == handle {
                self.entries.remove(i);
                proof {
                    assert forall|k: int|
                        0 <= k < self.entries@.len() implies (#[trigger] self.entries@[k]).handle
                        != handle by {
                        if k < i {
                            assert(self.entries@[k] == old(self).entries@[k]);
                        } else {
                            assert(self.entries@[k] == old(self).entries@[k + 1]);
                        }
                    }
                    assert forall|a: int, b: int|
                        0 <= a < b < self.entries@.len() implies self.entries@[a].handle
                        != self.entries@[b].handle by {
                        let s = old(self).entries@;
                        if b < i {
                        } else if a < i {
                            assert(self.entries@[a] == s[a] && self.entries@[b] == s[b + 1]);
                        } else {
                            assert(self.entries@[a] == s[a + 1] && self.entries@[b] == s[b + 1]);
                        }
                    }
                    assert forall|k: int|
                        0 <= k < self.entries@.len() implies (#[trigger] self.entries@[k]).handle
                        < self.next_handle by {
                        if k < i {
                        } else {
                            assert(self.entries@[k] == old(self).entries@[k + 1]);
                        }
                    }
                }
                return true;
            }
            i = i + 1;
        }
        false
    }

    /// Removes and returns the first timer whose deadline has passed; the
    /// event loop drains expirations by calling this until it returns
    /// nothing.
    pub fn due_one(&mut self, now: u64) -> (r: Option<EventLoopTimeout>)
        requires
            old(self).wf(),
        ensures
            final(self).wf(),
            final(self).next_handle == old(self).next_handle,
            r is Some <==> (exists|i: int|
                0 <= i < old(self).entries@.len() && (#[trigger] old(self).entries@[i]).deadline
                    <= now),
            r is None ==> *final(self) == *old(self),
            r matches Some(what) ==> (exists|i: int|
                0 <= i < old(self).entries@.len() && (#[trigger] old(self).entries@[i]).deadline
                    <= now && what == old(self).entries@[i].what && final(self).entries@ == old(
                    self,
                ).entries@.remove(i) && (forall|k: int|
                    0 <= k < i ==> old(self).entries@[k].deadline > now)),
    {
        let mut i: usize = 0;
        while i < self.entries.len()
            invariant
                old(self).wf(),
                i <= self.entries@.len(),
                *self == *old(self),
                forall|k: int| 0 <= k < i ==> (#[trigger] self.entries@[k]).deadline > now,
            decreases self.entries@.len() - i,
        {
            if self.entries[i].deadline <= now {
                let entry = self.entries.remove(i);
                proof {
                    let s = old(self).entries@;
                    assert forall|a: int, b: int|
                        0 <= a < b < self.entries@.len() implies self.entries@[a].handle
                        != self.entries@[b].handle by {
                        if b < i {
                        } else if a < i {
                            assert(self.entries@[a] == s[a] && self.entries@[b] == s[b + 1]);
                        } else {
                            assert(self.entries@[a] == s[a + 1] && self.entries@[b] == s[b + 1]);
                        }
                    }
                    assert forall|k: int|
                        0 <= k < self.entries@.len() implies (#[trigger] self.entries@[k]).handle
                        < self.next_handle by {
                        if k < i {
                        } else {
                            assert(self.entries@[k] == s[k + 1]);
                        }
                    }
                }
                return Some(entry.what);
            }
            i = i + 1;
        }
        None
    }
}

} // verus!
