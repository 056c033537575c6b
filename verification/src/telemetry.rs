//! The per-packet decision telemetry record and its wire format.
//!
//! Each decision crosses an isolation boundary as a fixed-size,
//! little-endian record: 8 bytes of unsigned nanosecond offset, 4 bytes
//! of signed action, 4 bytes of unsigned packet length.  The layout is
//! not self-describing, so producer and consumer must agree on it
//! byte for byte; `lemma_event_round_trip` pins that agreement.

use vstd::prelude::*;
use crate::rate::NSEC_PER_SEC;

verus! {

/// Size in bytes of one encoded decision record.
pub const EVENT_BYTES: usize = 16;

/// One per-packet decision, as published to the user-space collector.
///
/// `now` is the diagnostic offset in nanoseconds: the distance between
/// the packet's candidate departure time and the current time (or, for
/// a packet dropped as oversize, the packet's length).  `action` is the
/// integer verdict (1 = pass, 0 = drop) and `tot_len` the packet's byte
/// length.
#[derive(Debug, Clone, Copy, PartialEq, Eq, Structural)]
pub struct PacketLog {
    pub now: u64,
    pub action: i32,
    pub tot_len: u32,
}

/// The little-endian wire image of one decision record.
pub open spec fn spec_encode(e: PacketLog) -> Seq<u8> {
    seq![
        e.now as u8,
        (e.now >> 8) as u8,
        (e.now >> 16) as u8,
        (e.now >> 24) as u8,
        (e.now >> 32) as u8,
        (e.now >> 40) as u8,
        (e.now >> 48) as u8,
        (e.now >> 56) as u8,
        (e.action as u32) as u8,
        ((e.action as u32) >> 8) as u8,
        ((e.action as u32) >> 16) as u8,
        ((e.action as u32) >> 24) as u8,
        e.tot_len as u8,
        (e.tot_len >> 8) as u8,
        (e.tot_len >> 16) as u8,
        (e.tot_len >> 24) as u8,
    ]
}

/// The unsigned 64-bit value held little-endian at `off`.
pub open spec fn le_u64_at(s: Seq<u8>, off: int) -> u64 {
    (s[off] as u64) | ((s[off + 1] as u64) << 8) | ((s[off + 2] as u64) << 16) | ((s[off
        + 3] as u64) << 24) | ((s[off + 4] as u64) << 32) | ((s[off + 5] as u64) << 40) | ((s[off
        + 6] as u64) << 48) | ((s[off + 7] as u64) << 56)
}

/// The unsigned 32-bit value held little-endian at `off`.
pub open spec fn le_u32_at(s: Seq<u8>, off: int) -> u32 {
    (s[off] as u32) | ((s[off + 1] as u32) << 8) | ((s[off + 2] as u32) << 16) | ((s[off
        + 3] as u32) << 24)
}

/// The record a well-sized wire image decodes to.
pub open spec fn spec_decode(s: Seq<u8>) -> PacketLog {
    PacketLog {
        now: le_u64_at(s, 0),
        action: le_u32_at(s, 8) as i32,
        tot_len: le_u32_at(s, 12),
    }
}

/// Package one decision into its wire image.
pub fn encode_event(e: &PacketLog) -> (r: Vec<u8>)
    ensures
        r@ == spec_encode(*e),
        r@.len() == EVENT_BYTES,
{
    let mut r: Vec<u8> = Vec::new();
    r.push(#[verifier::truncate] (e.now as u8));
    r.push(#[verifier::truncate] ((e.now >> 8) as u8));
    r.push(#[verifier::truncate] ((e.now >> 16) as u8));
    r.push(#[verifier::truncate] ((e.now >> 24) as u8));
    r.push(#[verifier::truncate] ((e.now >> 32) as u8));
    r.push(#[verifier::truncate] ((e.now >> 40) as u8));
    r.push(#[verifier::truncate] ((e.now >> 48) as u8));
    r.push(#[verifier::truncate] ((e.now >> 56) as u8));
    let action_bits: u32 = #[verifier::truncate] (e.action as u32);
    r.push(#[verifier::truncate] (action_bits as u8));
    r.push(#[verifier::truncate] ((action_bits >> 8) as u8));
    r.push(#[verifier::truncate] ((action_bits >> 16) as u8));
    r.push(#[verifier::truncate] ((action_bits >> 24) as u8));
    r.push(#[verifier::truncate] (e.tot_len as u8));
    r.push(#[verifier::truncate] ((e.tot_len >> 8) as u8));
    r.push(#[verifier::truncate] ((e.tot_len >> 16) as u8));
    r.push(#[verifier::truncate] ((e.tot_len >> 24) as u8));
    proof {
        assert(r@ =~= spec_encode(*e));
    }
    r
}

/// Decode one wire image back into a decision record.
///
/// A buffer of any other size is malformed and yields `None`, so a
/// collector can skip it; a 16-byte buffer always decodes.
pub fn decode_event(bytes: &[u8]) -> (r: Option<PacketLog>)
    ensures
        r is Some <==> bytes@.len() == EVENT_BYTES,
        bytes@.len() == EVENT_BYTES ==> r == Some(spec_decode(bytes@)),
{
    if bytes.len() != EVENT_BYTES {
        return None;
    }
    let now: u64 = (bytes[0] as u64) | ((bytes[1] as u64) << 8) | ((bytes[2] as u64) << 16) | ((
    bytes[3] as u64) << 24) | ((bytes[4] as u64) << 32) | ((bytes[5] as u64) << 40) | ((
    bytes[6] as u64) << 48) | ((bytes[7] as u64) << 56);
    let action_bits: u32 = (bytes[8] as u32) | ((bytes[9] as u32) << 8) | ((bytes[10] as u32)
        << 16) | ((bytes[11] as u32) << 24);
    let tot_len: u32 = (bytes[12] as u32) | ((bytes[13] as u32) << 8) | ((bytes[14] as u32) << 16)
        | ((bytes[15] as u32) << 24);
    Some(PacketLog { now, action: #[verifier::truncate] (action_bits as i32), tot_len })
}

/// The whole seconds of the diagnostic offset, as the collector's
/// human-readable line reports it.
pub fn offset_secs(e: &PacketLog) -> (s: u64)
    ensures
        s == e.now / NSEC_PER_SEC,
{
    e.now / NSEC_PER_SEC
}

/// Whether the record carries a pass verdict; any other action value
/// reads as a drop.
pub fn is_pass(e: &PacketLog) -> (b: bool)
    ensures
        b == (e.action == 1),
{
    e.action == 1
}

/// Producer and consumer agree: decoding an encoded record gives the
/// record back, byte-for-byte and field-for-field.
pub proof fn lemma_event_round_trip(e: PacketLog)
    ensures
        spec_decode(spec_encode(e)) == e,
{
    let x = e.now;
    assert((x as u8 as u64) | (((x >> 8) as u8 as u64) << 8) | (((x >> 16) as u8 as u64) << 16) | ((
    (x >> 24) as u8 as u64) << 24) | (((x >> 32) as u8 as u64) << 32) | (((x >> 40) as u8 as u64)
        << 40) | (((x >> 48) as u8 as u64) << 48) | (((x >> 56) as u8 as u64) << 56) == x)
        by (bit_vector);
    let y = e.action as u32;
    assert((y as u8 as u32) | (((y >> 8) as u8 as u32) << 8) | (((y >> 16) as u8 as u32) << 16) | ((
    (y >> 24) as u8 as u32) << 24) == y) by (bit_vector);
    let a = e.action;
    assert(((a as u32) as i32) == a) by (bit_vector);
    let z = e.tot_len;
    assert((z as u8 as u32) | (((z >> 8) as u8 as u32) << 8) | (((z >> 16) as u8 as u32) << 16) | ((
    (z >> 24) as u8 as u32) << 24) == z) by (bit_vector);
}

} // verus!
