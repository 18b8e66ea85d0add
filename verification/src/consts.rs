//! Protocol constants: opcodes of the control channel, session sizing and
//! the heartbeat periods.

use vstd::prelude::*;

verus! {

/// Most sessions a server keeps alive at once; session ids fit in two bytes.
pub const SESSION_MAX: usize = 65536;

/// Mask applied to a session's probe counter; must be all ones in binary.
pub const SESSION_CAP_MASK: usize = 7;

/// Pending external sockets a session can hold while they await pairing.
pub const SESSION_CAP: usize = SESSION_CAP_MASK + 1;

/// Seconds between two IDLE bytes sent by the heartbeat emitter.
pub const HEARTBEAT_TIME: u64 = 3;

/// Seconds of silence after which the watchdog declares the peer dead.
pub const HEARTBEAT_TIMEOUT: u64 = 6;

/// Seconds after which a pending external socket may be evicted unpaired.
pub const PENDING_EXPIRE_SECS: u64 = 10;

/// Largest accepted length of a START payload, in bytes.
pub const START_PAYLOAD_MAX: u64 = 1048576;

/// Opcode: client opens the control channel and sends its configuration.
pub const START: u8 = 1;

/// Opcode: server tells the client an external socket arrived.
pub const NEWSOCKET: u8 = 2;

/// Opcode: client opens a data connection for a pending external socket.
pub const NEWCONN: u8 = 3;

/// Opcode: malformed or oversized START, or an empty mapping list.
pub const ERROR: u8 = 4;

/// Opcode: handshake accepted; session ids follow.
pub const SUCCESS: u8 = 5;

/// Opcode: heartbeat byte, echoed by the server.
pub const IDLE: u8 = 6;

/// Opcode: reserved; receipt closes the channel.
pub const KILL: u8 = 7;

/// Opcode: shared key mismatch.
pub const ERROR_PWD: u8 = 8;

/// Opcode: an external port could not be bound.
pub const ERROR_BUSY: u8 = 9;

/// Opcode: an external port falls outside the configured range.
pub const ERROR_LIMIT_PORT: u8 = 10;

/// Opcode: the session registry is full.
pub const ERROR_SESSION_OVER: u8 = 11;

} // verus!
