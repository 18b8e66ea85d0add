//! The server's side of the START exchange.
//!
//! The checks run in the wire order: announced length, decodable payload,
//! nonempty mapping list, matching key, ports within the configured range,
//! bindable ports, capacity.  The first failed check decides the single
//! reply opcode; only an undecodable payload closes without a reply.

use crate::codec::ids_bytes;
use crate::codec::success_reply;
use crate::config::Client;
use crate::config::Iomap;
use crate::config::Server;
use crate::config::outer_ports;
use crate::consts::ERROR;
use crate::consts::IDLE;
use crate::consts::KILL;
use crate::consts::ERROR_BUSY;
use crate::consts::ERROR_LIMIT_PORT;
use crate::consts::ERROR_PWD;
use crate::consts::ERROR_SESSION_OVER;
use crate::consts::NEWCONN;
use crate::consts::SESSION_MAX;
use crate::consts::START;
use crate::consts::START_PAYLOAD_MAX;
use crate::consts::SUCCESS;
use crate::registry::Registry;
use crate::registry::StartError;
use crate::registry::id_listed;
use vstd::prelude::*;

verus! {

/// What to do with a control stream after reading its first opcode.
#[derive(Debug, PartialEq, Eq, Structural, Clone, Copy)]
pub enum FirstOpcode {
    /// A START opcode: run the handshake on this stream.
    Handshake,
    /// A NEWCONN opcode: pair this stream with a pending socket.
    DataConn,
    /// Anything else is dropped silently.
    Unknown,
}

/// Routes a control stream by its first opcode.
pub fn classify_opcode(op: u8) -> (r: FirstOpcode)
    ensures
        op == START ==> r == FirstOpcode::Handshake,
        op == NEWCONN ==> r == FirstOpcode::DataConn,
        op != START && op != NEWCONN ==> r == FirstOpcode::Unknown,
{
    if op == START {
        FirstOpcode::Handshake
    } else if op == NEWCONN {
        FirstOpcode::DataConn
    } else {
        FirstOpcode::Unknown
    }
}

/// Whether `outer` is allowed by the optional port range.
pub open spec fn spec_port_allowed(outer: u16, limit: Option<(u16, u16)>) -> bool {
    match limit {
        Option::None => true,
        Option::Some((lo, hi)) => lo <= outer && outer <= hi,
    }
}

/// Whether every mapping's outer port is allowed.
pub open spec fn spec_all_ports_allowed(map: Seq<Iomap>, limit: Option<(u16, u16)>) -> bool {
    forall|i: int| 0 <= i < map.len() ==> spec_port_allowed((#[trigger] map[i]).outer, limit)
}

/// Whether no two mappings ask for the same outer port.
pub open spec fn spec_outers_distinct(map: Seq<Iomap>) -> bool {
    forall|i: int, j: int|
        0 <= i < j < map.len() ==> (#[trigger] map[i]).outer != (#[trigger] map[j]).outer
}

/// Whether none of the mappings' outer ports is already owned.
pub open spec fn spec_ports_free(map: Seq<Iomap>, ports: Map<u16, usize>) -> bool {
    forall|i: int| 0 <= i < map.len() ==> !ports.contains_key((#[trigger] map[i]).outer)
}

/// Checks one outer port against the optional range.
pub fn port_allowed(outer: u16, limit: &Option<(u16, u16)>) -> (r: bool)
    ensures
        r == spec_port_allowed(outer, *limit),
{
    match limit {
        Option::None => true,
        Option::Some(pair) => pair.0 <= outer && outer <= pair.1,
    }
}

/// Checks every mapping's outer port against the optional range.
pub fn all_ports_allowed(map: &Vec<Iomap>, limit: &Option<(u16, u16)>) -> (r: bool)
    ensures
        r == spec_all_ports_allowed(map@, *limit),
{
    let mut i: usize = 0;
    while i < map.len()
        invariant
            i <= map@.len(),
            forall|j: int| 0 <= j < i ==> spec_port_allowed((#[trigger] map@[j]).outer, *limit),
        decreases map@.len() - i,
    {
        if !port_allowed(map[i].outer, limit) {
            return false;
        }
        i = i + 1;
    }
    true
}

/// The verdict of the checks that precede any port binding.
#[derive(Debug, PartialEq, Eq, Structural, Clone, Copy)]
pub enum StartCheck {
    /// All checks passed: go bind ports and create sessions.
    Proceed,
    /// The payload did not decode: close without a reply.
    Close,
    /// Reply with this error opcode, then close.
    Refuse(u8),
}

/// The reply the pre-binding checks decide, in wire order: an oversized
/// announced length or an empty mapping list is a protocol error, a key
/// mismatch is an authentication error, an out-of-range port a policy error.
pub open spec fn spec_start_check(cfg: Server, len: u64, parsed: Option<Client>) -> StartCheck {
    if len > START_PAYLOAD_MAX {
        StartCheck::Refuse(ERROR)
    } else {
        match parsed {
            Option::None => StartCheck::Close,
            Option::Some(c) => {
                if c.map@.len() == 0 {
                    StartCheck::Refuse(ERROR)
                } else if c.key@ != cfg.key@ {
                    StartCheck::Refuse(ERROR_PWD)
                } else if !spec_all_ports_allowed(c.map@, cfg.limit_port) {
                    StartCheck::Refuse(ERROR_LIMIT_PORT)
                } else {
                    StartCheck::Proceed
                }
            },
        }
    }
}

/// Runs the pre-binding checks on an announced length and a decoded payload.
pub fn start_check(cfg: &Server, len: u64, parsed: &Option<Client>) -> (r: StartCheck)
    ensures
        r == spec_start_check(*cfg, len, *parsed),
{
    if len > START_PAYLOAD_MAX {
        return StartCheck::Refuse(ERROR);
    }
    match parsed {
        Option::None => StartCheck::Close,
        Option::Some(c) => {
            if c.map.len() == 0 {
                StartCheck::Refuse(ERROR)
            } else if !(c.key == cfg.key) {
                StartCheck::Refuse(ERROR_PWD)
            } else if !all_ports_allowed(&c.map, &cfg.limit_port) {
                StartCheck::Refuse(ERROR_LIMIT_PORT)
            } else {
                StartCheck::Proceed
            }
        },
    }
}

/// Port-range policy: a START that passes the earlier checks (decodable
/// payload within the length cap, nonempty mapping list, matching key) but
/// maps any outer port outside the configured range is answered with
/// ERROR_LIMIT_PORT.
pub proof fn lemma_port_range_policy(cfg: Server, len: u64, c: Client, i: int)
    requires
        cfg.limit_port matches Some((lo, hi)),
        0 <= i < c.map@.len(),
        !(cfg.limit_port.unwrap().0 <= c.map@[i].outer <= cfg.limit_port.unwrap().1),
        len <= START_PAYLOAD_MAX,
        c.map@.len() > 0,
        c.key@ == cfg.key@,
    ensures
        spec_start_check(cfg, len, Some(c)) == StartCheck::Refuse(ERROR_LIMIT_PORT),
{
    assert(!spec_port_allowed(c.map@[i].outer, cfg.limit_port));
}

/// Handshake closure, before any binding: the pre-binding checks decide
/// exactly one verdict; a refusal always carries a documented opcode, a
/// silent close happens only for an undecodable payload, and the exchange
/// proceeds only on a nonempty, authenticated, in-range configuration.
pub proof fn lemma_handshake_closure(cfg: Server, len: u64, parsed: Option<Client>)
    ensures
        spec_start_check(cfg, len, parsed) == StartCheck::Close <==> (len <= START_PAYLOAD_MAX
            && parsed is None),
        spec_start_check(cfg, len, parsed) matches StartCheck::Refuse(e) ==> (e == ERROR || e
            == ERROR_PWD || e == ERROR_LIMIT_PORT),
        spec_start_check(cfg, len, parsed) == StartCheck::Proceed <==> (len <= START_PAYLOAD_MAX
            && parsed is Some && parsed.unwrap().map@.len() > 0 && parsed.unwrap().key@ == cfg.key@
            && spec_all_ports_allowed(parsed.unwrap().map@, cfg.limit_port)),
{
}

/// How a whole START exchange ends on the wire.
#[derive(Debug)]
pub enum HandshakeOutcome {
    /// Close the stream without writing anything.
    CloseSilent,
    /// Write this one error opcode, then close.
    Reject(u8),
    /// Write SUCCESS and these session ids, then enter the steady state.
    Accept(Vec<u16>),
}

/// Decides a whole START exchange.
///
/// `len` is the payload length announced on the wire, `parsed` the decoded
/// configuration (`None` when the payload was not valid), and `binds_ok`
/// whether every requested external port could be bound.  On acceptance the
/// registry holds one fresh session per mapping; on any other outcome it is
/// left untouched.
pub fn server_handshake<C>(
    reg: &mut Registry<C>,
    cfg: &Server,
    len: u64,
    parsed: &Option<Client>,
    binds_ok: bool,
) -> (r: HandshakeOutcome)
    requires
        old(reg).wf(),
    ensures
        final (reg).wf(),
        final (reg).limit() == old(reg).limit(),
        !(r matches HandshakeOutcome::Accept(_)) ==> *final (reg) == *old(reg),
        spec_start_check(*cfg, len, *parsed) == StartCheck::Close ==> r
            == HandshakeOutcome::CloseSilent,
        spec_start_check(*cfg, len, *parsed) matches StartCheck::Refuse(e) ==> r
            == HandshakeOutcome::Reject(e),
        r matches HandshakeOutcome::Reject(e) ==> (e == ERROR || e == ERROR_PWD || e == ERROR_BUSY
            || e == ERROR_LIMIT_PORT || e == ERROR_SESSION_OVER),
        spec_start_check(*cfg, len, *parsed) == StartCheck::Proceed ==> {
            let m = (*parsed).unwrap().map@;
            &&& (!binds_ok ==> r == HandshakeOutcome::Reject(ERROR_BUSY))
            &&& (binds_ok ==> {
                &&& (r == HandshakeOutcome::Reject(ERROR_BUSY) <==> !(spec_outers_distinct(m)
                    && spec_ports_free(m, old(reg).ports())))
                &&& (r == HandshakeOutcome::Reject(ERROR_SESSION_OVER) <==> (spec_outers_distinct(m)
                    && spec_ports_free(m, old(reg).ports()) && old(reg).count() + m.len() > old(
                    reg,
                ).limit()))
                &&& ((r matches HandshakeOutcome::Accept(_)) <==> (spec_outers_distinct(m)
                    && spec_ports_free(m, old(reg).ports()) && old(reg).count() + m.len() <= old(
                    reg,
                ).limit()))
            })
        },
        r matches HandshakeOutcome::Accept(ids) ==> {
            let m = (*parsed).unwrap().map@;
            &&& spec_start_check(*cfg, len, *parsed) == StartCheck::Proceed
            &&& binds_ok
            &&& ids@.len() == m.len()
            &&& ids@.len() <= SESSION_MAX
            &&& ids@.no_duplicates()
            &&& forall|i: int|
                0 <= i < ids@.len() ==> !old(reg)@.dom().contains((#[trigger] ids@[i]) as int)
            &&& forall|i: int|
                0 <= i < ids@.len() ==> final (reg)@.dom().contains((#[trigger] ids@[i]) as int)
                    && final (reg)@[ids@[i] as int].spec_fresh(m[i].outer)
            &&& forall|i: int|
                0 <= i < m.len() ==> final (reg).ports().contains_key((#[trigger] m[i]).outer)
                    && final (reg).ports()[m[i].outer] == ids@[i] as usize
            &&& forall|id: int|
                #[trigger] old(reg)@.dom().contains(id) ==> final (reg)@.dom().contains(id)
                    && final (reg)@[id] == old(reg)@[id]
            &&& forall|id: int|
                #[trigger] final (reg)@.dom().contains(id) ==> old(reg)@.dom().contains(id)
                    || id_listed(ids@, ids@.len() as int, id)
            &&& final (reg).count() == old(reg).count() + m.len()
        },
{
    let check = start_check(cfg, len, parsed);
    match check {
        StartCheck::Close => {
            return HandshakeOutcome::CloseSilent;
        },
        StartCheck::Refuse(e) => {
            return HandshakeOutcome::Reject(e);
        },
        StartCheck::Proceed => {},
    }
    let c = match parsed {
        Option::Some(c) => c,
        Option::None => {
            proof {
                assert(false);
            }
            return HandshakeOutcome::CloseSilent;
        },
    };
    if !binds_ok {
        return HandshakeOutcome::Reject(ERROR_BUSY);
    }
    let outers = outer_ports(&c.map);
    let res = reg.start_sessions(&outers);
    match res {
        Result::Ok(ids) => {
            proof {
                old(reg).lemma_limit_bound();
                assert forall|i: int, j: int|
                    0 <= i < c.map@.len() && 0 <= j < c.map@.len() && i != j implies c.map@[i].outer
                    != c.map@[j].outer by {
                    assert(outers@[i] == c.map@[i].outer);
                    assert(outers@[j] == c.map@[j].outer);
                }
                assert forall|i: int| 0 <= i < c.map@.len() implies !old(
                    reg,
                ).ports().contains_key((#[trigger] c.map@[i]).outer) by {
                    assert(outers@[i] == c.map@[i].outer);
                }
            }
            proof {
                assert forall|i: int| 0 <= i < ids@.len() implies reg@[(#[trigger] ids@[i]) as int].spec_fresh(
                    c.map@[i].outer,
                ) by {
                    assert(outers@[i] == c.map@[i].outer);
                }
                assert forall|i: int| 0 <= i < c.map@.len() implies reg.ports().contains_key(
                    (#[trigger] c.map@[i]).outer,
                ) && reg.ports()[c.map@[i].outer] == ids@[i] as usize by {
                    assert(outers@[i] == c.map@[i].outer);
                }
            }
            HandshakeOutcome::Accept(ids)
        },
        Result::Err(StartError::PortConflict) => {
            proof {
                if spec_outers_distinct(c.map@) && spec_ports_free(c.map@, old(reg).ports()) {
                    assert(outers@.no_duplicates()) by {
                        assert forall|i: int, j: int|
                            0 <= i < outers@.len() && 0 <= j < outers@.len() && i
                                != j implies outers@[i] != outers@[j] by {
                            assert(outers@[i] == c.map@[i].outer);
                            assert(outers@[j] == c.map@[j].outer);
                        }
                    }
                    let w = choose|w: int|
                        0 <= w < outers@.len() && old(reg).ports().contains_key(
                            #[trigger] outers@[w],
                        );
                    assert(c.map@[w].outer == outers@[w]);
                    assert(false);
                }
            }
            HandshakeOutcome::Reject(ERROR_BUSY)
        },
        Result::Err(StartError::CapacityOver) => {
            proof {
                assert(spec_outers_distinct(c.map@)) by {
                    assert forall|i: int, j: int|
                        0 <= i < j < c.map@.len() implies (#[trigger] c.map@[i]).outer != (
                    #[trigger] c.map@[j]).outer by {
                        assert(outers@[i] == c.map@[i].outer);
                        assert(outers@[j] == c.map@[j].outer);
                    }
                }
                assert forall|i: int| 0 <= i < c.map@.len() implies !old(
                    reg,
                ).ports().contains_key((#[trigger] c.map@[i]).outer) by {
                    assert(outers@[i] == c.map@[i].outer);
                }
            }
            HandshakeOutcome::Reject(ERROR_SESSION_OVER)
        },
    }
}

/// Serializes a handshake outcome as the bytes to write before closing or
/// entering the steady state; a silent close writes nothing.
pub fn reply_bytes(r: &HandshakeOutcome) -> (b: Option<Vec<u8>>)
    requires
        *r matches HandshakeOutcome::Accept(ids) ==> ids@.len() <= SESSION_MAX,
    ensures
        b is None <==> *r matches HandshakeOutcome::CloseSilent,
        *r matches HandshakeOutcome::Reject(e) ==> (b matches Some(v) && v@ == seq![e]),
        *r matches HandshakeOutcome::Accept(ids) ==> (b matches Some(v) && v@ == seq![SUCCESS]
            + ids_bytes(ids@) && v@.len() == 1 + 2 * ids@.len()),
{
    match r {
        HandshakeOutcome::CloseSilent => None,
        HandshakeOutcome::Reject(e) => {
            let mut v: Vec<u8> = Vec::new();
            v.push(*e);
            proof {
                assert(v@ =~= seq![*e]);
            }
            Some(v)
        },
        HandshakeOutcome::Accept(ids) => Some(success_reply(ids)),
    }
}

/// What the server does with one steady-state byte.
#[derive(Debug, PartialEq, Eq, Structural, Clone, Copy)]
pub enum ServerAction {
    /// An IDLE came in: push the watchdog out and echo an IDLE back.
    EchoIdle,
    /// A KILL came in: close the control channel.
    Close,
    /// Anything else is ignored.
    Ignore,
}

/// Decides one steady-state byte read by the server: an IDLE resets the
/// watchdog and is echoed, a KILL closes the channel, everything else is
/// ignored.
pub fn server_step(op: u8) -> (a: ServerAction)
    ensures
        op == IDLE ==> a == ServerAction::EchoIdle,
        op == KILL ==> a == ServerAction::Close,
        op != IDLE && op != KILL ==> a == ServerAction::Ignore,
{
    if op == IDLE {
        ServerAction::EchoIdle
    } else if op == KILL {
        ServerAction::Close
    } else {
        ServerAction::Ignore
    }
}

} // verus!
