//! The client's side of the control channel.
//!
//! After a successful handshake the client remembers which private address
//! each session id stands for.  In the steady state it reads four-byte
//! frames: a NEWSOCKET frame makes it dial the mapped private address and
//! answer with a NEWCONN frame that echoes the same id and slot; an IDLE
//! byte feeds the watchdog; a KILL closes the channel; anything else is
//! ignored.

use crate::codec::newconn_frame;
use crate::codec::join_id;
use crate::codec::lemma_id_bytes;
use crate::codec::spec_join_id;
use crate::config::Iomap;
use crate::consts::IDLE;
use crate::consts::KILL;
use crate::consts::NEWCONN;
use crate::consts::NEWSOCKET;
use vstd::prelude::*;

verus! {

/// The session-id-to-private-address table built from a handshake reply,
/// read-only for the lifetime of the control connection.
pub struct SessionTable {
    ids: Vec<u16>,
    inners: Vec<String>,
}

impl SessionTable {
    /// One private address per session id.
    pub closed spec fn wf(&self) -> bool {
        self.ids@.len() == self.inners@.len()
    }

    /// The session ids, in handshake order.
    pub closed spec fn spec_ids(&self) -> Seq<u16> {
        self.ids@
    }

    /// The private addresses, in handshake order.
    pub closed spec fn spec_inners(&self) -> Seq<Seq<char>> {
        self.inners@.map_values(|s: String| s@)
    }

    /// The address entered for `id` at position `i` or later: the first
    /// match wins.
    pub closed spec fn lookup_from(&self, id: u16, i: int) -> Option<Seq<char>>
        decreases self.spec_ids().len() - i,
    {
        if i < 0 || i >= self.ids@.len() {
            None
        } else if self.ids@[i] == id {
            Some(self.inners@[i]@)
        } else {
            self.lookup_from(id, i + 1)
        }
    }

    /// The private address a session id stands for, if any.
    pub open spec fn spec_lookup(&self, id: u16) -> Option<Seq<char>> {
        self.lookup_from(id, 0)
    }

    /// Pairs the handshake's session ids with the configured mappings, in
    /// order.
    pub fn new(ids: Vec<u16>, map: &Vec<Iomap>) -> (t: SessionTable)
        requires
            ids@.len() == map@.len(),
        ensures
            t.wf(),
            t.spec_ids() == ids@,
            t.spec_inners().len() == map@.len(),
            forall|i: int|
                0 <= i < map@.len() ==> t.spec_inners()[i] == (#[trigger] map@[i]).inner@,
    {
        let mut inners: Vec<String> = Vec::new();
        let mut i: usize = 0;
        while i < map.len()
            invariant
                ids@.len() == map@.len(),
                i <= map@.len(),
                inners@.len() == i,
                forall|j: int| 0 <= j < i ==> (#[trigger] inners@[j])@ == map@[j].inner@,
            decreases map@.len() - i,
        {
            inners.push(map[i].inner.clone());
            i = i + 1;
        }
        let t = SessionTable { ids, inners };
        proof {
            assert forall|i: int| 0 <= i < map@.len() implies t.spec_inners()[i] == (
            #[trigger] map@[i]).inner@ by {
                assert(t.spec_inners()[i] == t.inners@[i]@);
            }
        }
        t
    }

    /// Finds the private address for a session id; the earliest entry wins.
    pub fn lookup(&self, id: u16) -> (r: Option<String>)
        requires
            self.wf(),
        ensures
            match r {
                Some(s) => self.spec_lookup(id) == Some(s@),
                None => self.spec_lookup(id) is None,
            },
    {
        let mut i: usize = 0;
        while i < self.ids.len()
            invariant
                self.wf(),
                i <= self.ids@.len(),
                self.lookup_from(id, 0) == self.lookup_from(id, i as int),
            decreases self.ids@.len() - i,
        {
            if self.ids[i] == id {
                proof {
                    assert(self.lookup_from(id, i as int) == Some(self.inners@[i as int]@));
                }
                return Some(self.inners[i].clone());
            }
            i = i + 1;
        }
        proof {
            assert(self.lookup_from(id, self.ids@.len() as int) is None);
        }
        None
    }
}

/// What the client does with one steady-state frame.
#[derive(Debug)]
pub enum ClientAction {
    /// Dial this private address and open a data connection that starts
    /// with this NEWCONN frame.
    Dial { inner: String, frame: Vec<u8> },
    /// An IDLE came in: push the watchdog deadline out.
    ResetWatchdog,
    /// A KILL came in: close the control channel.
    Close,
    /// Unknown or unmapped frame: do nothing.
    Ignore,
}

/// Decides one steady-state frame of the control channel.
///
/// A NEWSOCKET frame for a known session id yields a dial of the mapped
/// private address whose NEWCONN answer echoes exactly the id and slot
/// bytes that came in, so the data connection claims precisely the pending
/// socket that was announced.
pub fn client_step(table: &SessionTable, b0: u8, b1: u8, b2: u8, b3: u8) -> (a: ClientAction)
    requires
        table.wf(),
    ensures
        b0 == NEWSOCKET ==> match table.spec_lookup(spec_join_id(b1, b2)) {
            Some(addr) => a matches ClientAction::Dial { inner, frame } && inner@ == addr
                && frame@ == seq![NEWCONN, b1, b2, b3],
            None => a matches ClientAction::Ignore,
        },
        b0 == IDLE ==> a matches ClientAction::ResetWatchdog,
        b0 == KILL ==> a matches ClientAction::Close,
        b0 != NEWSOCKET && b0 != IDLE && b0 != KILL ==> a matches ClientAction::Ignore,
{
    if b0 == NEWSOCKET {
        let id = join_id(b1, b2);
        match table.lookup(id) {
            Some(inner) => {
                let frame = newconn_frame(id, b3);
                proof {
                    lemma_id_bytes(b1, b2);
                }
                ClientAction::Dial { inner, frame }
            },
            None => ClientAction::Ignore,
        }
    } else if b0 == IDLE {
        ClientAction::ResetWatchdog
    } else if b0 == KILL {
        ClientAction::Close
    } else {
        ClientAction::Ignore
    }
}

} // verus!
