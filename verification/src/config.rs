//! Configuration handed to the two state machines.
//!
//! The `key` fields hold the already-hashed shared secret: both peers load
//! their configuration through the same rewriting step, so equality of the
//! rewritten strings is what authentication compares.

use vstd::prelude::*;

verus! {

/// Server-side configuration: hashed key, control port, and an optional
/// closed range restricting which external ports clients may request.
#[derive(Debug, Clone)]
pub struct Server {
    pub key: String,
    pub port: u16,
    pub limit_port: Option<(u16, u16)>,
}

/// One mapping: a private address exposed on one external port.
#[derive(Debug, Clone)]
pub struct Iomap {
    pub inner: String,
    pub outer: u16,
}

/// Client-side configuration: hashed key, the server's address, and the
/// mappings to expose.
#[derive(Debug, Clone)]
pub struct Client {
    pub key: String,
    pub server: String,
    pub map: Vec<Iomap>,
}

/// A loaded configuration file: exactly one of the two sides is populated.
#[derive(Debug, Clone)]
pub struct Config {
    pub server: Option<Server>,
    pub client: Option<Client>,
}

/// The external ports of a mapping list, in order.
pub fn outer_ports(map: &Vec<Iomap>) -> (r: Vec<u16>)
    ensures
        r@.len() == map@.len(),
        forall|i: int| 0 <= i < map@.len() ==> (#[trigger] r@[i]) == map@[i].outer,
{
    let mut r: Vec<u16> = Vec::new();
    let mut i: usize = 0;
    while i < map.len()
        invariant
            i <= map@.len(),
            r@.len() == i,
            forall|j: int| 0 <= j < i ==> (#[trigger] r@[j]) == map@[j].outer,
        decreases map@.len() - i,
    {
        r.push(map[i].outer);
        i = i + 1;
    }
    r
}

} // verus!
