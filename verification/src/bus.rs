//! The broadcast fan-out: one bus on which every session publishes and from
//! which every session reads.
//!
//! Every event is delivered to every subscriber, the publisher's own
//! subscription included. Each subscriber reads at its own pace and sees
//! the events in the order in which they were published. The bus keeps the
//! latest events up to its capacity; a subscriber that falls further behind
//! than that loses the oldest events it had not read, and holds up nobody.
//!
//! The bus itself is plain data. Sessions that run side by side share it
//! behind a lock.

use vstd::prelude::*;

verus! {

#[derive(Debug, Clone, Copy)]
struct Subscriber {
    handle: u64,
    /// How many of the retained events this subscriber has not read.
    backlog: usize,
}

pub struct Bus<T> {
    capacity: usize,
    /// The latest events, oldest first.
    retained: Vec<T>,
    subscribers: Vec<Subscriber>,
    next_handle: u64,
}

/// What a subscriber has before it once an event is delivered to it: the
/// event joins the end of what was pending, and where that would pass the
/// capacity the oldest pending event is dropped.
pub open spec fn delivered<T>(pending: Seq<T>, event: T, capacity: nat) -> Seq<T> {
    if pending.len() < capacity {
        pending.push(event)
    } else {
        pending.drop_first().push(event)
    }
}

impl<T> Bus<T> {
    pub closed spec fn wf(&self) -> bool {
        &&& 1 <= self.capacity
        &&& self.retained@.len() <= self.capacity
        &&& forall|i: int|
            0 <= i < self.subscribers@.len() ==> (#[trigger] self.subscribers@[i]).backlog
                <= self.retained@.len() && self.subscribers@[i].handle < self.next_handle
        &&& forall|i: int, j: int|
            0 <= i < j < self.subscribers@.len() ==> (#[trigger] self.subscribers@[i]).handle != (
            #[trigger] self.subscribers@[j]).handle
    }

    /// How many unread events a subscriber can have.
    pub closed spec fn capacity(&self) -> nat {
        self.capacity as nat
    }

    /// Whether handles have run out, so that nobody else can subscribe.
    pub closed spec fn exhausted(&self) -> bool {
        self.next_handle == u64::MAX
    }

    /// Whether there is a subscription under this handle.
    pub closed spec fn subscribed(&self, handle: u64) -> bool {
        exists|i: int| 0 <= i < self.subscribers@.len() && (#[trigger] self.subscribers@[i]).handle
            == handle
    }

    spec fn position(&self, handle: u64) -> int {
        choose|i: int| 0 <= i < self.subscribers@.len() && (#[trigger] self.subscribers@[i]).handle
            == handle
    }

    spec fn pending_at(&self, i: int) -> Seq<T> {
        self.retained@.subrange(
            self.retained@.len() - self.subscribers@[i].backlog,
            self.retained@.len() as int,
        )
    }

    /// The events that a subscriber has not read yet, oldest first.
    pub closed spec fn pending(&self, handle: u64) -> Seq<T> {
        self.pending_at(self.position(handle))
    }

    proof fn lemma_position(&self, i: int)
        requires
            self.wf(),
            0 <= i < self.subscribers@.len(),
        ensures
            self.subscribed(self.subscribers@[i].handle),
            self.position(self.subscribers@[i].handle) == i,
    {
        let h = self.subscribers@[i].handle;
        let p = self.position(h);
        assert(self.subscribers@[p].handle == h);
        if p < i {
            assert(self.subscribers@[p].handle != self.subscribers@[i].handle);
        } else if i < p {
            assert(self.subscribers@[i].handle != self.subscribers@[p].handle);
        }
    }

    /// A bus without subscribers. A capacity of zero counts as one.
    pub fn new(capacity: usize) -> (bus: Bus<T>)
        ensures
            bus.wf(),
            bus.capacity() == if capacity == 0 {
                1
            } else {
                capacity as nat
            },
            forall|h: u64| !bus.subscribed(h),
            !bus.exhausted(),
    {
        Bus {
            capacity: if capacity == 0 {
                1
            } else {
                capacity
            },
            retained: Vec::new(),
            subscribers: Vec::new(),
            next_handle: 0,
        }
    }

    /// Where a handle stands among the subscribers.
    fn find(&self, handle: u64) -> (at: Option<usize>)
        requires
            self.wf(),
        ensures
            match at {
                Some(i) => i < self.subscribers@.len() && self.subscribers@[i as int].handle
                    == handle && self.subscribed(handle) && self.position(handle) == i,
                None => !self.subscribed(handle),
            },
    {
        let mut i: usize = 0;
        while i < self.subscribers.len()
            invariant
                self.wf(),
                i <= self.subscribers@.len(),
                forall|j: int| 0 <= j < i ==> (#[trigger] self.subscribers@[j]).handle != handle,
            decreases self.subscribers@.len() - i,
        {
            if self.subscribers[i].handle == handle {
                proof {
                    self.lemma_position(i as int);
                }
                return Some(i);
            }
            i = i + 1;
        }
        None
    }

    /// Subscribes. The new subscriber has nothing pending: it sees what is
    /// published from now on. Nothing changes for the others. `None` means
    /// that handles have run out.
    pub fn subscribe(&mut self) -> (handle: Option<u64>)
        requires
            old(self).wf(),
        ensures
            final(self).wf(),
            final(self).capacity() == old(self).capacity(),
            match handle {
                Some(h) => {
                    &&& !old(self).exhausted()
                    &&& !old(self).subscribed(h)
                    &&& final(self).subscribed(h)
                    &&& final(self).pending(h) == Seq::<T>::empty()
                    &&& forall|g: u64|
                        g != h ==> (final(self).subscribed(g) <==> old(self).subscribed(g))
                    &&& forall|g: u64|
                        old(self).subscribed(g) ==> final(self).pending(g) == old(self).pending(g)
                },
                None => old(self).exhausted() && *final(self) == *old(self),
            },
    {
        if self.next_handle == u64::MAX {
            return None;
        }
        let h = self.next_handle;
        let ghost before = *self;
        self.subscribers.push(Subscriber { handle: h, backlog: 0 });
        self.next_handle = h + 1;
        proof {
            let n = before.subscribers@.len() as int;
            assert(self.wf()) by {
                assert forall|i: int, j: int| 0 <= i < j < self.subscribers@.len() implies (
                #[trigger] self.subscribers@[i]).handle != (#[trigger] self.subscribers@[j]).handle by {
                    if j < n {
                        assert(before.subscribers@[i].handle != before.subscribers@[j].handle);
                    } else {
                        assert(before.subscribers@[i].handle < h);
                    }
                }
            }
            if before.subscribed(h) {
                let p = before.position(h);
                assert(before.subscribers@[p].handle < h);
            }
            self.lemma_position(n);
            assert(self.pending(h) =~= Seq::<T>::empty());
            assert forall|g: u64| g != h implies (self.subscribed(g) <==> before.subscribed(g)) by {
                if before.subscribed(g) {
                    let p = before.position(g);
                    assert(self.subscribers@[p].handle == g);
                }
                if self.subscribed(g) {
                    let p = self.position(g);
                    assert(before.subscribers@[p].handle == g);
                }
            }
            assert forall|g: u64| before.subscribed(g) implies self.pending(g) == before.pending(
                g,
            ) by {
                let p = before.position(g);
                before.lemma_position(p);
                assert(self.subscribers@[p] == before.subscribers@[p]);
                self.lemma_position(p);
            }
        }
        Some(h)
    }

    /// Ends a subscription, and says whether there was one. Nothing changes
    /// for the others.
    pub fn unsubscribe(&mut self, handle: u64) -> (was: bool)
        requires
            old(self).wf(),
        ensures
            final(self).wf(),
            final(self).capacity() == old(self).capacity(),
            was == old(self).subscribed(handle),
            !final(self).subscribed(handle),
            forall|g: u64| g != handle ==> (final(self).subscribed(g) <==> old(self).subscribed(g)),
            forall|g: u64|
                g != handle && old(self).subscribed(g) ==> final(self).pending(g) == old(
                    self,
                ).pending(g),
    {
        let ghost before = *self;
        match self.find(handle) {
            None => false,
            Some(at) => {
                let _ = self.subscribers.remove(at);
                proof {
                    let now = self.subscribers@;
                    let old_subs = before.subscribers@;
                    assert forall|i: int| 0 <= i < now.len() implies (#[trigger] now[i])
                        == old_subs[if i < at {
                        i
                    } else {
                        i + 1
                    }] by {}
                    assert(self.wf()) by {
                        assert forall|i: int, j: int| 0 <= i < j < now.len() implies (
                        #[trigger] now[i]).handle != (#[trigger] now[j]).handle by {
                            let a = if i < at {
                                i
                            } else {
                                i + 1
                            };
                            let b = if j < at {
                                j
                            } else {
                                j + 1
                            };
                            assert(old_subs[a].handle != old_subs[b].handle);
                        }
                    }
                    assert(!self.subscribed(handle)) by {
                        if self.subscribed(handle) {
                            let p = self.position(handle);
                            let a = if p < at {
                                p
                            } else {
                                p + 1
                            };
                            before.lemma_position(a);
                        }
                    }
                    assert forall|g: u64| g != handle implies (self.subscribed(g)
                        <==> before.subscribed(g)) by {
                        if before.subscribed(g) {
                            let p = before.position(g);
                            let a = if p < at {
                                p
                            } else {
                                p - 1
                            };
                            assert(now[a].handle == g);
                        }
                        if self.subscribed(g) {
                            let p = self.position(g);
                            let a = if p < at {
                                p
                            } else {
                                p + 1
                            };
                            assert(old_subs[a].handle == g);
                        }
                    }
                    assert forall|g: u64| g != handle && before.subscribed(g) implies self.pending(
                        g,
                    ) == before.pending(g) by {
                        let p = before.position(g);
                        before.lemma_position(p);
                        let a = if p < at {
                            p
                        } else {
                            p - 1
                        };
                        assert(now[a] == old_subs[p]);
                        self.lemma_position(a);
                    }
                }
                true
            },
        }
    }

    /// Publishes an event: it is delivered to every subscriber, behind what
    /// that subscriber still has pending.
    pub fn publish(&mut self, event: T)
        requires
            old(self).wf(),
        ensures
            final(self).wf(),
            final(self).capacity() == old(self).capacity(),
            final(self).exhausted() == old(self).exhausted(),
            forall|h: u64| final(self).subscribed(h) <==> old(self).subscribed(h),
            forall|h: u64|
                old(self).subscribed(h) ==> final(self).pending(h) == delivered(
                    old(self).pending(h),
                    event,
                    old(self).capacity(),
                ),
    {
        let ghost before = *self;
        let full = self.retained.len() == self.capacity;
        if full {
            let _ = self.retained.remove(0);
        }
        self.retained.push(event);
        let n: usize = self.subscribers.len();
        let cap: usize = self.capacity;
        let mut i: usize = 0;
        while i < n
            invariant
                i <= n,
                n == self.subscribers@.len(),
                n == before.subscribers@.len(),
                cap == self.capacity,
                before.wf(),
                self.capacity == before.capacity,
                self.next_handle == before.next_handle,
                self.retained@ == if full {
                    before.retained@.drop_first().push(event)
                } else {
                    before.retained@.push(event)
                },
                full == (before.retained@.len() == before.capacity),
                forall|j: int|
                    0 <= j < n ==> (#[trigger] self.subscribers@[j]).handle
                        == before.subscribers@[j].handle,
                forall|j: int|
                    0 <= j < i ==> (#[trigger] self.subscribers@[j]).backlog == if before.subscribers@[j].backlog
                        < cap {
                        before.subscribers@[j].backlog + 1
                    } else {
                        cap as int
                    },
                forall|j: int|
                    i <= j < n ==> (#[trigger] self.subscribers@[j]).backlog
                        == before.subscribers@[j].backlog,
            decreases n - i,
        {
            let s = self.subscribers[i];
            assert(s.backlog <= before.retained@.len());
            let backlog: usize = if s.backlog < cap {
                s.backlog + 1
            } else {
                cap
            };
            self.subscribers.set(i, Subscriber { handle: s.handle, backlog });
            i = i + 1;
        }
        proof {
            assert(self.wf());
            assert forall|h: u64| self.subscribed(h) <==> before.subscribed(h) by {
                if before.subscribed(h) {
                    let p = before.position(h);
                    assert(self.subscribers@[p].handle == h);
                }
                if self.subscribed(h) {
                    let p = self.position(h);
                    assert(before.subscribers@[p].handle == h);
                }
            }
            assert forall|h: u64| before.subscribed(h) implies self.pending(h) == delivered(
                before.pending(h),
                event,
                before.capacity(),
            ) by {
                let p = before.position(h);
                before.lemma_position(p);
                assert(self.subscribers@[p].handle == h);
                self.lemma_position(p);
                assert(self.pending_at(p) =~= delivered(before.pending_at(p), event, cap as nat));
            }
        }
    }

    /// The oldest event that a subscriber has not read, if there is one.
    /// Nothing is pending under a handle that is not subscribed.
    pub fn peek(&self, handle: u64) -> (event: Option<&T>)
        requires
            self.wf(),
        ensures
            match event {
                Some(e) => self.subscribed(handle) && self.pending(handle).len() > 0 && *e
                    == self.pending(handle)[0],
                None => !self.subscribed(handle) || self.pending(handle).len() == 0,
            },
    {
        match self.find(handle) {
            None => None,
            Some(at) => {
                let backlog: usize = self.subscribers[at].backlog;
                if backlog == 0 {
                    None
                } else {
                    Some(&self.retained[self.retained.len() - backlog])
                }
            },
        }
    }

    /// How many events a subscriber has not read.
    pub fn backlog(&self, handle: u64) -> (n: usize)
        requires
            self.wf(),
        ensures
            n == if self.subscribed(handle) {
                self.pending(handle).len()
            } else {
                0
            },
            n <= self.capacity(),
    {
        match self.find(handle) {
            None => 0,
            Some(at) => self.subscribers[at].backlog,
        }
    }

    /// Marks the oldest pending event of a subscriber as read, and says
    /// whether there was one. Nothing changes for the others.
    pub fn advance(&mut self, handle: u64) -> (was: bool)
        requires
            old(self).wf(),
        ensures
            final(self).wf(),
            final(self).capacity() == old(self).capacity(),
            was == (old(self).subscribed(handle) && old(self).pending(handle).len() > 0),
            forall|g: u64| final(self).subscribed(g) <==> old(self).subscribed(g),
            was ==> final(self).pending(handle) == old(self).pending(handle).drop_first(),
            forall|g: u64|
                old(self).subscribed(g) && (g != handle || !was) ==> final(self).pending(g) == old(
                    self,
                ).pending(g),
    {
        let ghost before = *self;
        match self.find(handle) {
            None => false,
            Some(at) => {
                let s = self.subscribers[at];
                if s.backlog == 0 {
                    false
                } else {
                    self.subscribers.set(
                        at,
                        Subscriber { handle: s.handle, backlog: s.backlog - 1 },
                    );
                    proof {
                        assert(self.wf());
                        assert forall|g: u64| self.subscribed(g) <==> before.subscribed(g) by {
                            if before.subscribed(g) {
                                let p = before.position(g);
                                assert(self.subscribers@[p].handle == g);
                            }
                            if self.subscribed(g) {
                                let p = self.position(g);
                                assert(before.subscribers@[p].handle == g);
                            }
                        }
                        self.lemma_position(at as int);
                        assert(self.pending_at(at as int) =~= before.pending_at(
                            at as int,
                        ).drop_first());
                        assert forall|g: u64| before.subscribed(g) && g != handle implies self.pending(
                            g,
                        ) == before.pending(g) by {
                            let p = before.position(g);
                            before.lemma_position(p);
                            assert(self.subscribers@[p] == before.subscribers@[p]);
                            self.lemma_position(p);
                        }
                    }
                    true
                }
            },
        }
    }
}

// ---------------------------------------------------------------------------
// What holds of every delivery
// ---------------------------------------------------------------------------

/// An event that is delivered is the last that the subscriber has pending,
/// and what was pending before keeps its order in front of it: at most the
/// oldest pending event is lost.
pub proof fn delivery_keeps_order<T>(pending: Seq<T>, event: T, capacity: nat)
    requires
        capacity >= 1,
        pending.len() <= capacity,
    ensures
        delivered(pending, event, capacity).len() <= capacity,
        delivered(pending, event, capacity).last() == event,
        delivered(pending, event, capacity).drop_last() == if pending.len() < capacity {
            pending
        } else {
            pending.drop_first()
        },
{
    let d = delivered(pending, event, capacity);
    if pending.len() < capacity {
        assert(d.drop_last() =~= pending);
    } else {
        assert(d.drop_last() =~= pending.drop_first());
    }
}

/// Of two events published one after the other, a subscriber with room for
/// two has the first right in front of the second.
pub proof fn later_event_follows_earlier<T>(pending: Seq<T>, first: T, second: T, capacity: nat)
    requires
        capacity >= 2,
        pending.len() <= capacity,
    ensures
        ({
            let d = delivered(delivered(pending, first, capacity), second, capacity);
            &&& d.len() >= 2
            &&& d[d.len() - 2] == first
            &&& d[d.len() - 1] == second
        }),
{
}

} // verus!
