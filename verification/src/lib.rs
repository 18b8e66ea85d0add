//! The core of a reverse-tunneling proxy: a client behind a NAT keeps one
//! authenticated control channel open to a public server, which listens on
//! external ports on the client's behalf and pairs every external socket
//! with a client-originated data connection.
//!
//! This crate holds the verified heart of that design: the wire codec of
//! the control protocol, the handshake decision, the session registry with
//! its pending-socket rings, the heartbeat watchdog, and the session table
//! the client demultiplexes with.  Sockets, TLS and timers live with the
//! caller; the library works on plain values and hands every socket it
//! displaces or drains back to the caller to shut down.

pub mod base64;
pub mod client;
pub mod codec;
pub mod config;
pub mod consts;
pub mod handshake;
pub mod heartbeat;
pub mod registry;
pub mod session;
pub mod slab;
