//! The server's session registry.
//!
//! Sessions live in a slab keyed by session id; a second map goes from
//! external port back to the owning session id, so a reconnect can find and
//! evict the previous owner of a port.  The registry keeps the two views
//! consistent: every live session id maps to a unique port and back.

use crate::consts::SESSION_CAP;
use crate::consts::SESSION_MAX;
use crate::session::PendingSlot;
use crate::session::Session;
use crate::slab::Slab;
use std::collections::HashMap;
use vstd::prelude::*;

verus! {

broadcast use vstd::std_specs::hash::group_hash_axioms;

/// Why a batch of sessions could not be started.
#[derive(Debug, Clone, Copy, PartialEq, Eq, Structural)]
pub enum StartError {
    /// A requested port is already owned or requested twice.
    PortConflict,
    /// The registry cannot hold that many more sessions.
    CapacityOver,
}

/// Whether `id` appears among the first `n` listed session ids.
pub open spec fn id_listed(ids: Seq<u16>, n: int, id: int) -> bool {
    exists|k: int| 0 <= k < n && (#[trigger] ids[k]) as int == id
}

/// The registry of live sessions and the port-to-id index.
pub struct Registry<C> {
    sessions: Slab<Session<C>>,
    port_map: HashMap<u16, usize>,
}

impl<C> Registry<C> {
    /// The live sessions, keyed by session id.
    pub closed spec fn view(&self) -> Map<int, Session<C>> {
        self.sessions@
    }

    /// The port-to-session-id index.
    pub closed spec fn ports(&self) -> Map<u16, usize> {
        self.port_map@
    }

    /// Number of live sessions.
    pub closed spec fn count(&self) -> nat {
        self.sessions.count()
    }

    /// Most sessions the registry accepts at once.
    pub closed spec fn limit(&self) -> nat {
        self.sessions.limit()
    }

    /// Registry invariant: the slab is sound, ids fit in the two wire bytes,
    /// every live session is well formed and owns exactly the port the index
    /// maps back to it.
    pub closed spec fn wf(&self) -> bool {
        &&& self.sessions.wf()
        &&& self.sessions.limit() <= SESSION_MAX
        &&& self.sessions.slots() <= SESSION_MAX
        &&& forall|id: int|
            #[trigger] self.sessions@.dom().contains(id) ==> {
                &&& self.sessions@[id].wf()
                &&& self.port_map@.contains_key(self.sessions@[id].spec_port())
                &&& self.port_map@[self.sessions@[id].spec_port()] == id
            }
        &&& forall|p: u16|
            #[trigger] self.port_map@.contains_key(p) ==> {
                &&& self.sessions@.dom().contains(self.port_map@[p] as int)
                &&& self.sessions@[self.port_map@[p] as int].spec_port() == p
            }
    }

    /// A well-formed registry never allows more sessions than ids that fit
    /// in the two wire bytes.
    pub proof fn lemma_limit_bound(&self)
        requires
            self.wf(),
        ensures
            self.limit() <= SESSION_MAX,
    {
    }

    /// Creates an empty registry capped at the session-id space.
    pub fn new() -> (r: Registry<C>)
        ensures
            r.wf(),
            r@ === Map::empty(),
            r.ports() === Map::empty(),
            r.count() == 0,
            r.limit() == SESSION_MAX,
    {
        let mut sessions: Slab<Session<C>> = Slab::new();
        sessions.set_limit_len(SESSION_MAX);
        Registry { sessions, port_map: HashMap::new() }
    }

    /// Caps how many sessions the registry will hold at once.
    pub fn set_limit(&mut self, limit: usize)
        requires
            old(self).wf(),
            limit <= SESSION_MAX,
        ensures
            final (self).wf(),
            final (self)@ == old(self)@,
            final (self).ports() == old(self).ports(),
            final (self).count() == old(self).count(),
            final (self).limit() == limit,
    {
        self.sessions.set_limit_len(limit);
    }

    /// Looks up which session owns an external port.
    pub fn port_id(&self, port: u16) -> (r: Option<usize>)
        requires
            self.wf(),
        ensures
            match r {
                Some(id) => self.ports().contains_key(port) && id == self.ports()[port]
                    && self@.dom().contains(id as int),
                None => !self.ports().contains_key(port),
            },
    {
        match self.port_map.get(&port) {
            Some(id) => Some(*id),
            None => None,
        }
    }

    /// Whether the session `id` exists and is still in service.
    pub fn is_using(&self, id: usize) -> (r: bool)
        requires
            self.wf(),
        ensures
            r == (self@.dom().contains(id as int) && self@[id as int].spec_using()),
    {
        match self.sessions.get(id) {
            Some(s) => s.is_using(),
            None => false,
        }
    }

    /// Hands a freshly accepted external socket to session `id`.
    ///
    /// On success returns the chosen slot index and the socket that was
    /// evicted to make room, if any; the caller shuts the evicted socket
    /// down and announces the slot to the client.
    pub fn push_conn(&mut self, id: usize, conn: C, now: u64) -> (r: Option<(usize, Option<C>)>)
        requires
            old(self).wf(),
        ensures
            final (self).wf(),
            final (self).ports() == old(self).ports(),
            final (self).count() == old(self).count(),
            final (self).limit() == old(self).limit(),
            forall|k: int|
                #[trigger] final (self)@.dom().contains(k) <==> old(self)@.dom().contains(k),
            !old(self)@.dom().contains(id as int) ==> r is None && *final (self) == *old(self),
            old(self)@.dom().contains(id as int) ==> {
                let s0 = old(self)@[id as int];
                &&& forall|k: int|
                    old(self)@.dom().contains(k) && k != id ==> final (self)@[k] == old(self)@[k]
                &&& (r is None <==> (!s0.spec_using() || s0.first_available(now, 0) is None))
                &&& (r is None ==> final (self)@[id as int] == s0)
                &&& (r matches Some((slot, evicted)) ==> {
                    &&& s0.first_available(now, 0) == Some(slot as int)
                    &&& slot < SESSION_CAP
                    &&& evicted == s0.slot(slot as int).conn
                    &&& final (self)@[id as int].slot(slot as int) == (PendingSlot {
                        conn: Some(conn),
                        start: now,
                    })
                    &&& forall|j: int|
                        0 <= j < SESSION_CAP && j != slot ==> final (self)@[id as int].slot(j)
                            == s0.slot(j)
                    &&& final (self)@[id as int].spec_using() == s0.spec_using()
                    &&& final (self)@[id as int].spec_port() == s0.spec_port()
                })
            },
    {
        match self.sessions.get_mut(id) {
            Some(sec) => sec.push(conn, now),
            None => None,
        }
    }

    /// Pairs a data connection with the pending socket at `(id, slot)`,
    /// emptying the slot.
    pub fn take_conn(&mut self, id: usize, slot: usize) -> (r: Option<C>)
        requires
            old(self).wf(),
        ensures
            final (self).wf(),
            final (self).ports() == old(self).ports(),
            final (self).count() == old(self).count(),
            final (self).limit() == old(self).limit(),
            forall|k: int|
                #[trigger] final (self)@.dom().contains(k) <==> old(self)@.dom().contains(k),
            !old(self)@.dom().contains(id as int) ==> r is None && *final (self) == *old(self),
            old(self)@.dom().contains(id as int) ==> {
                let s0 = old(self)@[id as int];
                &&& forall|k: int|
                    old(self)@.dom().contains(k) && k != id ==> final (self)@[k] == old(self)@[k]
                &&& slot >= SESSION_CAP ==> r is None && final (self)@[id as int] == s0
                &&& slot < SESSION_CAP ==> {
                    &&& r == s0.slot(slot as int).conn
                    &&& final (self)@[id as int].slot(slot as int) == PendingSlot::<
                        C,
                    >::spec_empty()
                    &&& forall|j: int|
                        0 <= j < SESSION_CAP && j != slot ==> final (self)@[id as int].slot(j)
                            == s0.slot(j)
                    &&& final (self)@[id as int].spec_using() == s0.spec_using()
                    &&& final (self)@[id as int].spec_port() == s0.spec_port()
                }
            },
    {
        match self.sessions.get_mut(id) {
            Some(sec) => sec.take(slot),
            None => None,
        }
    }

    /// Creates one session per requested external port and indexes each
    /// under a fresh session id.
    ///
    /// The batch is all-or-nothing: a port that is already owned (or asked
    /// for twice) refuses the whole batch, as does a batch that would push
    /// the registry past its capacity; either way the registry is left
    /// untouched.
    pub fn start_sessions(&mut self, outers: &Vec<u16>) -> (r: Result<Vec<u16>, StartError>)
        requires
            old(self).wf(),
        ensures
            final (self).wf(),
            final (self).limit() == old(self).limit(),
            match r {
                Result::Err(StartError::PortConflict) => {
                    &&& (!outers@.no_duplicates() || exists|i: int|
                        0 <= i < outers@.len() && old(self).ports().contains_key(
                            #[trigger] outers@[i],
                        ))
                    &&& *final (self) == *old(self)
                },
                Result::Err(StartError::CapacityOver) => {
                    &&& outers@.no_duplicates()
                    &&& forall|i: int|
                        0 <= i < outers@.len() ==> !old(self).ports().contains_key(
                            #[trigger] outers@[i],
                        )
                    &&& old(self).count() + outers@.len() > old(self).limit()
                    &&& *final (self) == *old(self)
                },
                Result::Ok(ids) => {
                    &&& outers@.no_duplicates()
                    &&& forall|i: int|
                        0 <= i < outers@.len() ==> !old(self).ports().contains_key(
                            #[trigger] outers@[i],
                        )
                    &&& old(self).count() + outers@.len() <= old(self).limit()
                    &&& ids@.len() == outers@.len()
                    &&& ids@.no_duplicates()
                    &&& forall|i: int|
                        0 <= i < ids@.len() ==> !old(self)@.dom().contains(
                            (#[trigger] ids@[i]) as int,
                        )
                    &&& forall|i: int|
                        0 <= i < ids@.len() ==> final (self)@.dom().contains(
                            (#[trigger] ids@[i]) as int,
                        ) && final (self)@[ids@[i] as int].spec_fresh(outers@[i])
                    &&& forall|i: int|
                        0 <= i < ids@.len() ==> final (self).ports().contains_key(
                            #[trigger] outers@[i],
                        ) && final (self).ports()[outers@[i]] == ids@[i] as usize
                    &&& forall|id: int|
                        #[trigger] old(self)@.dom().contains(id) ==> final (self)@.dom().contains(
                            id,
                        ) && final (self)@[id] == old(self)@[id]
                    &&& forall|id: int|
                        #[trigger] final (self)@.dom().contains(id) ==> old(self)@.dom().contains(
                            id,
                        ) || id_listed(ids@, ids@.len() as int, id)
                    &&& forall|p: u16|
                        #[trigger] old(self).ports().contains_key(p)
                            ==> final (self).ports().contains_key(p)
                            && final (self).ports()[p] == old(self).ports()[p]
                    &&& forall|p: u16|
                        #[trigger] final (self).ports().contains_key(p)
                            ==> old(self).ports().contains_key(p) || outers@.contains(p)
                    &&& final (self).count() == old(self).count() + outers@.len()
                },
            },
    {
        // Refuse ports that are already owned or asked for twice.
        let mut i: usize = 0;
        while i < outers.len()
            invariant
                old(self).wf(),
                *self == *old(self),
                i <= outers@.len(),
                forall|k: int|
                    0 <= k < i ==> !old(self).ports().contains_key(#[trigger] outers@[k]),
                forall|k1: int, k2: int|
                    0 <= k1 < k2 < i ==> outers@[k1] != outers@[k2],
            decreases outers@.len() - i,
        {
            if self.port_map.get(&outers[i]).is_some() {
                return Result::Err(StartError::PortConflict);
            }
            let mut j: usize = 0;
            while j < i
                invariant
                    old(self).wf(),
                    *self == *old(self),
                    i < outers@.len(),
                    j <= i,
                    forall|k: int| 0 <= k < j ==> outers@[k] != outers@[i as int],
                decreases i - j,
            {
                if outers[j] == outers[i] {
                    return Result::Err(StartError::PortConflict);
                }
                j = j + 1;
            }
            i = i + 1;
        }
        proof {
            assert(outers@.no_duplicates()) by {
                assert forall|k1: int, k2: int|
                    0 <= k1 < outers@.len() && 0 <= k2 < outers@.len() && k1 != k2 implies outers@[k1]
                    != outers@[k2] by {
                    if k1 < k2 {
                    } else {
                    }
                }
            }
        }
        // Refuse a batch that cannot fit; nothing was created yet, so the
        // whole exchange is all-or-nothing.
        let cnt = self.sessions.len();
        let lim = self.sessions.capacity();
        if cnt > lim || outers.len() > lim - cnt {
            return Result::Err(StartError::CapacityOver);
        }
        // Create and index one session per mapping.
        let mut ids: Vec<u16> = Vec::new();
        let mut i: usize = 0;
        while i < outers.len()
            invariant
                old(self).wf(),
                self.wf(),
                outers@.no_duplicates(),
                forall|k: int|
                    0 <= k < outers@.len() ==> !old(self).ports().contains_key(
                        #[trigger] outers@[k],
                    ),
                old(self).count() + outers@.len() <= old(self).limit(),
                self.limit() == old(self).limit(),
                i <= outers@.len(),
                ids@.len() == i,
                self.count() == old(self).count() + i,
                ids@.no_duplicates(),
                forall|k: int|
                    0 <= k < i ==> !old(self)@.dom().contains((#[trigger] ids@[k]) as int),
                forall|k: int|
                    0 <= k < i ==> self@.dom().contains((#[trigger] ids@[k]) as int)
                        && self@[ids@[k] as int].spec_fresh(outers@[k]),
                forall|k: int|
                    0 <= k < i ==> self.ports().contains_key(#[trigger] outers@[k])
                        && self.ports()[outers@[k]] == ids@[k] as usize,
                forall|id: int|
                    #[trigger] old(self)@.dom().contains(id) ==> self@.dom().contains(id)
                        && self@[id] == old(self)@[id],
                forall|id: int|
                    #[trigger] self@.dom().contains(id) ==> old(self)@.dom().contains(id)
                        || id_listed(ids@, i as int, id),
                forall|p: u16|
                    #[trigger] old(self).ports().contains_key(p) ==> self.ports().contains_key(p)
                        && self.ports()[p] == old(self).ports()[p],
                forall|p: u16|
                    #[trigger] self.ports().contains_key(p) ==> old(self).ports().contains_key(p)
                        || outers@.take(i as int).contains(p),
            decreases outers@.len() - i,
        {
            let sec: Session<C> = Session::new(outers[i]);
            let ghost prev = *self;
            let ghost prev_ids = ids@;
            match self.sessions.push(sec) {
                Some(id) => {
                    proof {
                        self.sessions.lemma_counts();
                        assert(id < SESSION_MAX);
                        assert(id as u16 as int == id as int);
                    }
                    ids.push(id as u16);
                    self.port_map.insert(outers[i], id);
                    proof {
                        let gi = i as int;
                        assert(self.sessions.wf());
                        assert(self.sessions.slots() <= SESSION_MAX) by {
                            if prev.sessions.holes() == 0 {
                                assert(id == prev.sessions.count());
                                assert(prev.sessions.count() < prev.sessions.limit());
                            }
                        }
                        // the new id is fresh, so the listed ids stay distinct
                        assert forall|k: int| 0 <= k < gi implies ids@[k] != ids@[gi] by {
                            assert(prev@.dom().contains(ids@[k] as int));
                        }
                        // every old port key survives the insert
                        assert forall|p: u16| #[trigger] prev.ports().contains_key(p) implies self.ports().contains_key(p) by {}
                        // the prefix of served ports grows by exactly this port
                        assert forall|p: u16| #[trigger] self.ports().contains_key(
                            p,
                        ) implies prev.ports().contains_key(p) || outers@.take(gi + 1).contains(
                            p,
                        ) by {
                            if p == outers@[gi] {
                                assert(outers@.take(gi + 1)[gi] == p);
                            }
                        }
                        assert forall|p: u16| outers@.take(gi as int).contains(
                            p,
                        ) implies outers@.take(gi + 1).contains(p) by {
                            let w = choose|w: int|
                                0 <= w < gi && outers@.take(gi as int)[w] == p;
                            assert(outers@.take(gi + 1)[w] == p);
                        }
                        // the registry invariant survives the paired insert
                        assert forall|sid: int| #[trigger] self.sessions@.dom().contains(
                            sid,
                        ) implies {
                            &&& self.sessions@[sid].wf()
                            &&& self.port_map@.contains_key(self.sessions@[sid].spec_port())
                            &&& self.port_map@[self.sessions@[sid].spec_port()] == sid
                        } by {
                            if sid == id as int {
                            } else {
                                assert(prev@.dom().contains(sid));
                                assert(self@[sid] == prev@[sid]);
                                let sp = prev@[sid].spec_port();
                                assert(prev.ports().contains_key(sp));
                                if sp == outers@[gi] {
                                    if prev@.dom().contains(prev.ports()[sp] as int)
                                        && old(self)@.dom().contains(prev.ports()[sp] as int) {
                                        assert(old(self).ports().contains_key(sp));
                                    }
                                }
                            }
                        }
                        assert forall|p: u16| #[trigger] self.port_map@.contains_key(
                            p,
                        ) implies {
                            &&& self.sessions@.dom().contains(self.port_map@[p] as int)
                            &&& self.sessions@[self.port_map@[p] as int].spec_port() == p
                        } by {
                            if p != outers@[gi] {
                                assert(prev.ports().contains_key(p));
                                assert(prev.ports()[p] == self.ports()[p]);
                                assert(prev@[prev.ports()[p] as int].spec_port() == p);
                                assert(self.ports()[p] as int != id as int);
                            }
                        }
                        assert forall|sid: int| #[trigger] self@.dom().contains(
                            sid,
                        ) implies old(self)@.dom().contains(sid) || id_listed(
                            ids@,
                            gi + 1,
                            sid,
                        ) by {
                            if sid == id as int {
                                assert(ids@[gi] as int == sid);
                            } else {
                                assert(prev@.dom().contains(sid));
                                if !old(self)@.dom().contains(sid) {
                                    assert(id_listed(prev_ids, gi, sid));
                                    let w = choose|w: int|
                                        0 <= w < gi && (#[trigger] prev_ids[w]) as int == sid;
                                    assert(ids@[w] == prev_ids[w]);
                                    assert(ids@[w] as int == sid);
                                }
                            }
                        }
                    }
                },
                None => {
                    proof {
                        assert(false);
                    }
                    return Result::Err(StartError::CapacityOver);
                },
            }
            i = i + 1;
        }
        proof {
            assert(outers@.take(outers@.len() as int) =~= outers@);
            assert forall|p: u16| outers@.take(outers@.len() as int).contains(p) implies outers@.contains(p) by {}
        }
        Result::Ok(ids)
    }

    /// One step of the close cascade: removes session `id`, unmaps its port,
    /// and hands back the port together with every pending socket the
    /// session still held, so the caller can wake the listener and shut the
    /// sockets down.
    pub fn close_single(&mut self, id: usize) -> (r: Option<(u16, Vec<C>)>)
        requires
            old(self).wf(),
        ensures
            final (self).wf(),
            final (self).limit() == old(self).limit(),
            r is None <==> !old(self)@.dom().contains(id as int),
            r is None ==> *final (self) == *old(self),
            r matches Some((port, conns)) ==> {
                let s0 = old(self)@[id as int];
                &&& port == s0.spec_port()
                &&& final (self)@ == old(self)@.remove(id as int)
                &&& final (self).ports() == old(self).ports().remove(port)
                &&& final (self).count() == old(self).count() - 1
                &&& forall|i: int|
                    0 <= i < SESSION_CAP && (#[trigger] s0.slot(i)).conn is Some ==> conns@.contains(
                        s0.slot(i).conn.unwrap(),
                    )
                &&& forall|k: int| 0 <= k < conns@.len() ==> s0.holds_conn(#[trigger] conns@[k])
                &&& conns@.len() <= SESSION_CAP
            },
    {
        match self.sessions.remove(id) {
            Some(mut sec) => {
                let port = sec.port();
                self.port_map.remove(&port);
                let conns = sec.close();
                Some((port, conns))
            },
            None => None,
        }
    }
}

} // verus!
