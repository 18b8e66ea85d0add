//! One mapping's rendezvous ring.
//!
//! A session owns a ring of `SESSION_CAP` pending slots.  The listener side
//! installs freshly accepted external sockets; the data-connection side takes
//! them out again by slot index.  A slot whose socket has waited longer than
//! the expiry window may be evicted in favour of a newcomer.

use crate::consts::PENDING_EXPIRE_SECS;
use crate::consts::SESSION_CAP;
use crate::consts::SESSION_CAP_MASK;
use vstd::prelude::*;

verus! {

/// A single rendezvous point: an external socket awaiting its data
/// connection, and the second it arrived.
pub struct PendingSlot<C> {
    pub conn: Option<C>,
    pub start: u64,
}

impl<C> PendingSlot<C> {
    /// An empty slot; the timestamp parks at the largest value.
    pub open spec fn spec_empty() -> PendingSlot<C> {
        PendingSlot { conn: None, start: u64::MAX }
    }

    /// Creates an empty slot.
    pub fn new() -> (s: PendingSlot<C>)
        ensures
            s == Self::spec_empty(),
    {
        PendingSlot { conn: None, start: u64::MAX }
    }
}

/// The ring mask turns the probe counter into a ring position.
proof fn lemma_mask_mod(x: usize)
    ensures
        x & 7 == x % 8,
{
    assert(x & 7 == x % 8) by (bit_vector);
}

/// A socket that has waited longer than the expiry window may be evicted.
pub open spec fn spec_stale(start: u64, now: u64) -> bool {
    now > start + PENDING_EXPIRE_SECS
}

/// A slot accepts a newcomer when it is empty or its socket has expired.
pub open spec fn spec_available<C>(s: PendingSlot<C>, now: u64) -> bool {
    s.conn is None || spec_stale(s.start, now)
}

/// One mapping's ring of pending slots, its probe cursor, and the flag that
/// marks the session torn down.
pub struct Session<C> {
    using: bool,
    outcons: Vec<PendingSlot<C>>,
    next: usize,
    port: u16,
}

impl<C> Session<C> {
    /// The ring always holds exactly `SESSION_CAP` slots, the cursor stays
    /// inside it, and an empty slot carries the parked timestamp.
    pub closed spec fn wf(&self) -> bool {
        &&& self.outcons@.len() == SESSION_CAP
        &&& self.next < SESSION_CAP
        &&& forall|i: int|
            0 <= i < SESSION_CAP ==> ((#[trigger] self.outcons@[i]).conn is None
                ==> self.outcons@[i].start == u64::MAX)
    }

    /// Whether the session is still in service; false marks teardown.
    pub closed spec fn spec_using(&self) -> bool {
        self.using
    }

    /// The external port this session listens on.
    pub closed spec fn spec_port(&self) -> u16 {
        self.port
    }

    /// The probe cursor: the next push starts probing here.
    pub closed spec fn spec_next(&self) -> int {
        self.next as int
    }

    /// The slot at ring position `i`.
    pub closed spec fn slot(&self, i: int) -> PendingSlot<C> {
        self.outcons@[i]
    }

    /// Whether some slot of the ring holds exactly this socket.
    pub open spec fn holds_conn(&self, c: C) -> bool {
        exists|i: int| 0 <= i < SESSION_CAP && (#[trigger] self.slot(i)).conn == Some(c)
    }

    /// A session fresh out of `new`: in service, empty ring, cursor at zero.
    pub open spec fn spec_fresh(&self, port: u16) -> bool {
        &&& self.wf()
        &&& self.spec_using()
        &&& self.spec_port() == port
        &&& self.spec_next() == 0
        &&& forall|i: int| 0 <= i < SESSION_CAP ==> self.slot(i) == PendingSlot::<C>::spec_empty()
    }

    /// The ring position the probe sequence settles on after skipping `i`
    /// positions: the first position from there on that accepts a newcomer.
    pub open spec fn first_available(&self, now: u64, i: int) -> Option<int>
        decreases SESSION_CAP - i,
    {
        if i < 0 || i >= SESSION_CAP {
            None
        } else if spec_available(self.slot((self.spec_next() + i) % (SESSION_CAP as int)), now) {
            Some((self.spec_next() + i) % (SESSION_CAP as int))
        } else {
            self.first_available(now, i + 1)
        }
    }

    /// Whatever position the probe settles on is a position that accepts a
    /// newcomer: empty, or expired.
    pub proof fn lemma_probe_available(&self, now: u64, i: int, k: int)
        requires
            self.first_available(now, i) == Some(k),
        ensures
            0 <= k < SESSION_CAP,
            spec_available(self.slot(k), now),
        decreases SESSION_CAP - i,
    {
        if 0 <= i < SESSION_CAP {
            if !spec_available(self.slot((self.spec_next() + i) % (SESSION_CAP as int)), now) {
                self.lemma_probe_available(now, i + 1, k);
            }
        }
    }

    /// Slot reuse: a slot whose socket is younger than the expiry window is
    /// never chosen for a newcomer, so a pending socket can be displaced
    /// only after it was consumed or after it expired.
    pub proof fn lemma_slot_reuse(&self, now: u64, k: int)
        requires
            0 <= k < SESSION_CAP,
            self.slot(k).conn is Some,
            !spec_stale(self.slot(k).start, now),
        ensures
            self.first_available(now, 0) != Some(k),
    {
        if self.first_available(now, 0) == Some(k) {
            self.lemma_probe_available(now, 0, k);
        }
    }

    /// Allocates a session with every slot empty.
    pub fn new(port: u16) -> (s: Session<C>)
        ensures
            s.spec_fresh(port),
    {
        let mut vc: Vec<PendingSlot<C>> = Vec::new();
        let mut i: usize = 0;
        while i < SESSION_CAP
            invariant
                i <= SESSION_CAP,
                vc@.len() == i,
                forall|j: int| 0 <= j < i ==> vc@[j] == PendingSlot::<C>::spec_empty(),
            decreases SESSION_CAP - i,
        {
            vc.push(PendingSlot::new());
            i = i + 1;
        }
        Session { using: true, outcons: vc, next: 0, port }
    }

    /// Whether the session is still in service.
    pub fn is_using(&self) -> (r: bool)
        ensures
            r == self.spec_using(),
    {
        self.using
    }

    /// The external port this session listens on.
    pub fn port(&self) -> (r: u16)
        ensures
            r == self.spec_port(),
    {
        self.port
    }

    /// Installs a freshly accepted external socket.
    ///
    /// Probes up to `SESSION_CAP` ring positions starting at the cursor and
    /// installs the socket in the first position that is empty or expired,
    /// returning the chosen slot index together with the evicted socket, if
    /// one was displaced.  Returns `None`, leaving the session unchanged,
    /// when the session is torn down or every slot holds a fresh socket.
    pub fn push(&mut self, conn: C, now: u64) -> (r: Option<(usize, Option<C>)>)
        requires
            old(self).wf(),
        ensures
            final (self).wf(),
            final (self).spec_using() == old(self).spec_using(),
            final (self).spec_port() == old(self).spec_port(),
            r is None <==> (!old(self).spec_using() || old(self).first_available(now, 0) is None),
            r is None ==> *final (self) == *old(self),
            r matches Some((key, evicted)) ==> {
                &&& old(self).first_available(now, 0) == Some(key as int)
                &&& key < SESSION_CAP
                &&& evicted == old(self).slot(key as int).conn
                &&& final (self).slot(key as int) == (PendingSlot { conn: Some(conn), start: now })
                &&& forall|i: int|
                    0 <= i < SESSION_CAP && i != key ==> final (self).slot(i) == old(self).slot(i)
                &&& final (self).spec_next() == (key + 1) % (SESSION_CAP as int)
            },
    {
        if !self.using {
            return None;
        }
        let mut count: usize = 0;
        while count < SESSION_CAP
            invariant
                self.wf(),
                *self == *old(self),
                old(self).spec_using(),
                count <= SESSION_CAP,
                self.first_available(now, 0) == self.first_available(now, count as int),
            decreases SESSION_CAP - count,
        {
            let key = (self.next + count) & SESSION_CAP_MASK;
            proof {
                lemma_mask_mod((self.next + count) as usize);
                assert(key as int == (old(self).spec_next() + count) % (SESSION_CAP as int));
            }
            let stale = match &self.outcons[key].conn {
                Some(_) => now > self.outcons[key].start && now - self.outcons[key].start
                    > PENDING_EXPIRE_SECS,
                None => true,
            };
            if stale {
                proof {
                    assert(spec_available(self.slot(key as int), now));
                    assert(self.first_available(now, count as int) == Some(key as int));
                    assert(old(self).first_available(now, 0) == Some(key as int));
                }
                let evicted = self.outcons[key].conn.take();
                self.outcons[key] = PendingSlot { conn: Some(conn), start: now };
                self.next = (key + 1) & SESSION_CAP_MASK;
                proof {
                    lemma_mask_mod((key + 1) as usize);
                    assert(self.next as int == (key + 1) % (SESSION_CAP as int));
                }
                return Some((key, evicted));
            }
            count = count + 1;
        }
        proof {
            assert(old(self).first_available(now, SESSION_CAP as int) is None);
        }
        None
    }

    /// Takes the pending socket out of `slot`, leaving the slot empty.  An
    /// out-of-range index or an empty slot yields `None`.
    pub fn take(&mut self, slot: usize) -> (r: Option<C>)
        requires
            old(self).wf(),
        ensures
            final (self).wf(),
            final (self).spec_using() == old(self).spec_using(),
            final (self).spec_port() == old(self).spec_port(),
            final (self).spec_next() == old(self).spec_next(),
            slot >= SESSION_CAP ==> r is None && *final (self) == *old(self),
            slot < SESSION_CAP ==> {
                &&& r == old(self).slot(slot as int).conn
                &&& final (self).slot(slot as int) == PendingSlot::<C>::spec_empty()
                &&& forall|i: int|
                    0 <= i < SESSION_CAP && i != slot ==> final (self).slot(i) == old(self).slot(i)
            },
    {
        if slot >= SESSION_CAP {
            return None;
        }
        let c = self.outcons[slot].conn.take();
        self.outcons[slot] = PendingSlot::new();
        c
    }

    /// Tears the session down: marks it out of service and empties every
    /// slot, handing back the pending sockets so the caller can shut them
    /// down.
    pub fn close(&mut self) -> (conns: Vec<C>)
        requires
            old(self).wf(),
        ensures
            final (self).wf(),
            !final (self).spec_using(),
            final (self).spec_port() == old(self).spec_port(),
            forall|i: int|
                0 <= i < SESSION_CAP ==> final (self).slot(i) == PendingSlot::<C>::spec_empty(),
            forall|i: int|
                0 <= i < SESSION_CAP && old(self).slot(i).conn is Some ==> conns@.contains(
                    old(self).slot(i).conn.unwrap(),
                ),
            forall|k: int|
                0 <= k < conns@.len() ==> old(self).holds_conn(#[trigger] conns@[k]),
            conns@.len() <= SESSION_CAP,
    {
        self.using = false;
        let mut conns: Vec<C> = Vec::new();
        let mut i: usize = 0;
        while i < SESSION_CAP
            invariant
                old(self).wf(),
                self.outcons@.len() == SESSION_CAP,
                self.next == old(self).next,
                self.next < SESSION_CAP,
                self.port == old(self).port,
                !self.using,
                i <= SESSION_CAP,
                forall|j: int| 0 <= j < i ==> self.slot(j) == PendingSlot::<C>::spec_empty(),
                forall|j: int| i <= j < SESSION_CAP ==> self.slot(j) == old(self).slot(j),
                forall|j: int|
                    0 <= j < i && old(self).slot(j).conn is Some ==> conns@.contains(
                        old(self).slot(j).conn.unwrap(),
                    ),
                forall|k: int|
                    0 <= k < conns@.len() ==> old(self).holds_conn(#[trigger] conns@[k]),
                conns@.len() <= i,
            decreases SESSION_CAP - i,
        {
            let ghost prev = *self;
            let c = self.outcons[i].conn.take();
            self.outcons[i] = PendingSlot::new();
            proof {
                assert(c == old(self).slot(i as int).conn);
                assert(self.slot(i as int) == PendingSlot::<C>::spec_empty());
                assert forall|j: int| 0 <= j < i + 1 implies self.slot(j)
                    == PendingSlot::<C>::spec_empty() by {
                    if j < i {
                        assert(prev.slot(j) == PendingSlot::<C>::spec_empty());
                        assert(self.slot(j) == prev.slot(j));
                    }
                }
            }
            match c {
                Some(v) => {
                    let ghost oldconns = conns@;
                    proof {
                        assert(old(self).slot(i as int).conn == Some(v));
                        assert(old(self).holds_conn(v));
                    }
                    conns.push(v);
                    proof {
                        assert(conns@[oldconns.len() as int] == v);
                        assert(forall|k: int|
                            0 <= k < oldconns.len() ==> conns@[k] == oldconns[k]);
                    }
                },
                None => {},
            }
            i = i + 1;
        }
        proof {
            assert forall|j: int| 0 <= j < SESSION_CAP implies (#[trigger] self.outcons@[j])
                == PendingSlot::<C>::spec_empty() by {
                assert(self.slot(j) == PendingSlot::<C>::spec_empty());
            }
            assert(self.wf());
        }
        conns
    }
}

} // verus!
