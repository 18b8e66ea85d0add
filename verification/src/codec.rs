//! Wire encoding of the control protocol.
//!
//! Every frame starts with a one-byte opcode.  A START frame carries an
//! 8-byte big-endian payload length; NEWSOCKET and NEWCONN frames carry a
//! two-byte big-endian session id and a one-byte slot index.

use crate::consts::NEWCONN;
use crate::consts::NEWSOCKET;
use crate::consts::START;
use crate::consts::START_PAYLOAD_MAX;
use crate::consts::SUCCESS;
use vstd::prelude::*;

verus! {

/// The eight big-endian bytes of a 64-bit length, most significant first.
pub open spec fn be64(n: u64) -> Seq<u8> {
    seq![
        (n >> 56) as u8,
        (n >> 48) as u8,
        (n >> 40) as u8,
        (n >> 32) as u8,
        (n >> 24) as u8,
        (n >> 16) as u8,
        (n >> 8) as u8,
        n as u8,
    ]
}

/// The value read back from eight big-endian bytes.
pub open spec fn be64_value(b: Seq<u8>) -> u64
    recommends
        b.len() == 8,
{
    (((b[0] as u64) << 56) | ((b[1] as u64) << 48) | ((b[2] as u64) << 40) | ((b[3] as u64) << 32)
        | ((b[4] as u64) << 24) | ((b[5] as u64) << 16) | ((b[6] as u64) << 8) | (b[7] as u64))
}

/// Reading a length back from its eight big-endian bytes undoes writing it.
pub proof fn lemma_be64_roundtrip(n: u64)
    ensures
        be64_value(be64(n)) == n,
{
    assert((((((n >> 56) as u8) as u64) << 56) | ((((n >> 48) as u8) as u64) << 48) | ((((n >> 40)
        as u8) as u64) << 40) | ((((n >> 32) as u8) as u64) << 32) | ((((n >> 24) as u8) as u64)
        << 24) | ((((n >> 16) as u8) as u64) << 16) | ((((n >> 8) as u8) as u64) << 8) | ((n as u8)
        as u64)) == n) by (bit_vector);
}

/// Writes a payload length as eight big-endian bytes.
pub fn encode_len(n: u64) -> (r: Vec<u8>)
    ensures
        r@ == be64(n),
{
    let mut v: Vec<u8> = Vec::new();
    v.push((n >> 56) as u8);
    v.push((n >> 48) as u8);
    v.push((n >> 40) as u8);
    v.push((n >> 32) as u8);
    v.push((n >> 24) as u8);
    v.push((n >> 16) as u8);
    v.push((n >> 8) as u8);
    v.push(n as u8);
    proof {
        assert(v@ =~= be64(n));
    }
    v
}

/// Reads a payload length from eight big-endian bytes.
pub fn decode_len(b: &Vec<u8>) -> (r: u64)
    requires
        b@.len() == 8,
    ensures
        r == be64_value(b@),
{
    (((b[0] as u64) << 56) | ((b[1] as u64) << 48) | ((b[2] as u64) << 40) | ((b[3] as u64) << 32)
        | ((b[4] as u64) << 24) | ((b[5] as u64) << 16) | ((b[6] as u64) << 8) | (b[7] as u64))
}

/// High byte of a session id.
pub open spec fn id_hi(id: u16) -> u8 {
    (id >> 8) as u8
}

/// Low byte of a session id.
pub open spec fn id_lo(id: u16) -> u8 {
    id as u8
}

/// The session id spelled by a high and a low byte.
pub open spec fn spec_join_id(hi: u8, lo: u8) -> u16 {
    (((hi as u16) << 8) | (lo as u16))
}

/// Splitting a session id into two bytes and joining them loses nothing.
pub proof fn lemma_id_roundtrip(id: u16)
    ensures
        spec_join_id(id_hi(id), id_lo(id)) == id,
{
    assert(((((id >> 8) as u8) as u16) << 8) | ((id as u8) as u16) == id) by (bit_vector);
}

/// The two bytes of a joined id are the bytes that were joined.
pub proof fn lemma_id_bytes(hi: u8, lo: u8)
    ensures
        id_hi(spec_join_id(hi, lo)) == hi,
        id_lo(spec_join_id(hi, lo)) == lo,
{
    assert(((((hi as u16) << 8) | (lo as u16)) >> 8) as u8 == hi) by (bit_vector);
    assert(((((hi as u16) << 8) | (lo as u16)) as u8) == lo) by (bit_vector);
}

/// Splits a session id into its high and low wire bytes.
pub fn split_id(id: u16) -> (r: (u8, u8))
    ensures
        r.0 == id_hi(id),
        r.1 == id_lo(id),
{
    ((id >> 8) as u8, id as u8)
}

/// Joins the two wire bytes of a session id.
pub fn join_id(hi: u8, lo: u8) -> (id: u16)
    ensures
        id == spec_join_id(hi, lo),
{
    ((hi as u16) << 8) | (lo as u16)
}

/// The four bytes telling the client an external socket waits at
/// `(id, slot)`.
pub fn newsocket_frame(id: u16, slot: u8) -> (f: Vec<u8>)
    ensures
        f@ == seq![NEWSOCKET, id_hi(id), id_lo(id), slot],
{
    let mut v: Vec<u8> = Vec::new();
    v.push(NEWSOCKET);
    v.push((id >> 8) as u8);
    v.push(id as u8);
    v.push(slot);
    proof {
        assert(v@ =~= seq![NEWSOCKET, id_hi(id), id_lo(id), slot]);
    }
    v
}

/// The four bytes a data connection opens with to claim `(id, slot)`.
pub fn newconn_frame(id: u16, slot: u8) -> (f: Vec<u8>)
    ensures
        f@ == seq![NEWCONN, id_hi(id), id_lo(id), slot],
{
    let mut v: Vec<u8> = Vec::new();
    v.push(NEWCONN);
    v.push((id >> 8) as u8);
    v.push(id as u8);
    v.push(slot);
    proof {
        assert(v@ =~= seq![NEWCONN, id_hi(id), id_lo(id), slot]);
    }
    v
}

/// The id bytes that follow a SUCCESS opcode: two big-endian bytes per id,
/// in order.
pub open spec fn ids_bytes(ids: Seq<u16>) -> Seq<u8> {
    Seq::new(
        2 * ids.len(),
        |k: int|
            if k % 2 == 0 {
                id_hi(ids[k / 2])
            } else {
                id_lo(ids[k / 2])
            },
    )
}

/// The whole handshake acceptance reply: SUCCESS, then two bytes per id.
pub fn success_reply(ids: &Vec<u16>) -> (r: Vec<u8>)
    requires
        ids@.len() <= 65536,
    ensures
        r@ == seq![SUCCESS] + ids_bytes(ids@),
        r@.len() == 1 + 2 * ids@.len(),
{
    let mut v: Vec<u8> = Vec::new();
    v.push(SUCCESS);
    let mut i: usize = 0;
    while i < ids.len()
        invariant
            i <= ids@.len(),
            ids@.len() <= 65536,
            v@ == seq![SUCCESS] + ids_bytes(ids@.take(i as int)),
        decreases ids@.len() - i,
    {
        let id = ids[i];
        v.push((id >> 8) as u8);
        v.push(id as u8);
        i = i + 1;
        proof {
            assert(v@ =~= seq![SUCCESS] + ids_bytes(ids@.take(i as int)));
        }
    }
    proof {
        assert(ids@.take(ids@.len() as int) =~= ids@);
    }
    v
}

/// Reads the session ids out of the bytes that followed a SUCCESS opcode.
pub fn parse_session_ids(b: &Vec<u8>) -> (ids: Vec<u16>)
    requires
        b@.len() % 2 == 0,
    ensures
        2 * ids@.len() == b@.len(),
        forall|i: int|
            0 <= i < ids@.len() ==> (#[trigger] ids@[i]) == spec_join_id(b@[2 * i], b@[2 * i + 1]),
{
    let mut ids: Vec<u16> = Vec::new();
    let mut i: usize = 0;
    while i < b.len()
        invariant
            b@.len() % 2 == 0,
            i % 2 == 0,
            i <= b@.len(),
            2 * ids@.len() == i,
            forall|j: int|
                0 <= j < ids@.len() ==> (#[trigger] ids@[j]) == spec_join_id(
                    b@[2 * j],
                    b@[2 * j + 1],
                ),
        decreases b@.len() - i,
    {
        let id = ((b[i] as u16) << 8) | (b[i + 1] as u16);
        ids.push(id);
        i = i + 2;
    }
    ids
}

/// Encoding a list of session ids and parsing it back yields the same list.
pub proof fn lemma_ids_roundtrip(ids: Seq<u16>, parsed: Seq<u16>)
    requires
        2 * parsed.len() == ids_bytes(ids).len(),
        forall|i: int|
            0 <= i < parsed.len() ==> (#[trigger] parsed[i]) == spec_join_id(
                ids_bytes(ids)[2 * i],
                ids_bytes(ids)[2 * i + 1],
            ),
    ensures
        parsed =~= ids,
{
    assert forall|i: int| 0 <= i < parsed.len() implies parsed[i] == ids[i] by {
        assert(ids_bytes(ids)[2 * i] == id_hi(ids[i]));
        assert(ids_bytes(ids)[2 * i + 1] == id_lo(ids[i]));
        lemma_id_roundtrip(ids[i]);
    }
}

/// The whole START frame: opcode, eight length bytes, then the payload.
/// Refused when the payload is over the documented cap.
pub fn start_frame(payload: &Vec<u8>) -> (r: Option<Vec<u8>>)
    ensures
        r is Some <==> payload@.len() <= START_PAYLOAD_MAX,
        r matches Some(f) ==> f@ == seq![START] + be64(payload@.len() as u64) + payload@,
{
    if payload.len() as u64 > START_PAYLOAD_MAX {
        return None;
    }
    let mut v: Vec<u8> = Vec::new();
    v.push(START);
    let mut lenb = encode_len(payload.len() as u64);
    v.append(&mut lenb);
    let mut i: usize = 0;
    while i < payload.len()
        invariant
            i <= payload@.len(),
            v@ == seq![START] + be64(payload@.len() as u64) + payload@.take(i as int),
        decreases payload@.len() - i,
    {
        v.push(payload[i]);
        i = i + 1;
        proof {
            assert(v@ =~= seq![START] + be64(payload@.len() as u64) + payload@.take(i as int));
        }
    }
    proof {
        assert(payload@.take(payload@.len() as int) =~= payload@);
    }
    Some(v)
}

} // verus!
