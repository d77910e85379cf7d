//! Byte-order helpers for the wire format: 32-bit little-endian lengths and
//! 32-bit big-endian integer values, together with their round-trip lemmas.

use vstd::prelude::*;

verus! {

/// The four little-endian bytes of a 32-bit value, least significant first.
pub open spec fn spec_u32_le(v: u32) -> Seq<u8> {
    seq![
        (v & 0xff) as u8,
        ((v >> 8) & 0xff) as u8,
        ((v >> 16) & 0xff) as u8,
        ((v >> 24) & 0xff) as u8,
    ]
}

/// The 32-bit value carried by four little-endian bytes.
pub open spec fn spec_u32_of_le(b0: u8, b1: u8, b2: u8, b3: u8) -> u32 {
    (b0 as u32) | ((b1 as u32) << 8) | ((b2 as u32) << 16) | ((b3 as u32) << 24)
}

/// The four big-endian bytes of a 32-bit value, most significant first.
pub open spec fn spec_u32_be(v: u32) -> Seq<u8> {
    seq![
        ((v >> 24) & 0xff) as u8,
        ((v >> 16) & 0xff) as u8,
        ((v >> 8) & 0xff) as u8,
        (v & 0xff) as u8,
    ]
}

/// The 32-bit value carried by four big-endian bytes.
pub open spec fn spec_u32_of_be(b0: u8, b1: u8, b2: u8, b3: u8) -> u32 {
    ((b0 as u32) << 24) | ((b1 as u32) << 16) | ((b2 as u32) << 8) | (b3 as u32)
}

pub fn u32_to_le_bytes(v: u32) -> (r: Vec<u8>)
    ensures
        r@ == spec_u32_le(v),
{
    let mut r: Vec<u8> = Vec::new();
    r.push((v & 0xff) as u8);
    r.push(((v >> 8) & 0xff) as u8);
    r.push(((v >> 16) & 0xff) as u8);
    r.push(((v >> 24) & 0xff) as u8);
    proof {
        assert(r@ =~= spec_u32_le(v));
    }
    r
}

pub fn u32_from_le_bytes(b0: u8, b1: u8, b2: u8, b3: u8) -> (r: u32)
    ensures
        r == spec_u32_of_le(b0, b1, b2, b3),
{
    (b0 as u32) | ((b1 as u32) << 8) | ((b2 as u32) << 16) | ((b3 as u32) << 24)
}

pub fn u32_to_be_bytes(v: u32) -> (r: Vec<u8>)
    ensures
        r@ == spec_u32_be(v),
{
    let mut r: Vec<u8> = Vec::new();
    r.push(((v >> 24) & 0xff) as u8);
    r.push(((v >> 16) & 0xff) as u8);
    r.push(((v >> 8) & 0xff) as u8);
    r.push((v & 0xff) as u8);
    proof {
        assert(r@ =~= spec_u32_be(v));
    }
    r
}

pub fn u32_from_be_bytes(b0: u8, b1: u8, b2: u8, b3: u8) -> (r: u32)
    ensures
        r == spec_u32_of_be(b0, b1, b2, b3),
{
    ((b0 as u32) << 24) | ((b1 as u32) << 16) | ((b2 as u32) << 8) | (b3 as u32)
}

/// The length field written for a payload of `n` bytes: the four
/// little-endian bytes of `n` reduced to 32 bits.
pub open spec fn spec_len_field(n: int) -> Seq<u8> {
    spec_u32_le((n % 0x100000000) as u32)
}

/// One frame on the wire: a type byte, the four-byte little-endian length of
/// the payload, then the payload itself.
pub open spec fn spec_frame(message_type: u8, payload: Seq<u8>) -> Seq<u8> {
    seq![message_type] + spec_len_field(payload.len() as int) + payload
}

/// The little-endian length field of a payload, as executable bytes.
pub fn len_field(n: usize) -> (r: Vec<u8>)
    ensures
        r@ == spec_len_field(n as int),
{
    let reduced = ((n as u64) % 0x100000000u64) as u32;
    u32_to_le_bytes(reduced)
}

/// Assembles a frame from its type byte and payload.
pub fn make_frame(message_type: u8, payload: Vec<u8>) -> (r: Vec<u8>)
    ensures
        r@ == spec_frame(message_type, payload@),
{
    let ghost orig = payload@;
    let mut r: Vec<u8> = Vec::new();
    r.push(message_type);
    let mut len_bytes = len_field(payload.len());
    r.append(&mut len_bytes);
    let mut payload = payload;
    r.append(&mut payload);
    proof {
        assert(r@ =~= spec_frame(message_type, orig));
    }
    r
}

/// A copy of the byte range `[from, to)` of a slice.
pub fn copy_range(bytes: &[u8], from: usize, to: usize) -> (r: Vec<u8>)
    requires
        from <= to <= bytes@.len(),
    ensures
        r@ == bytes@.subrange(from as int, to as int),
{
    let mut r: Vec<u8> = Vec::new();
    let mut i: usize = from;
    while i < to
        invariant
            from <= i <= to <= bytes@.len(),
            r@ == bytes@.subrange(from as int, i as int),
        decreases to - i,
    {
        r.push(bytes[i]);
        i = i + 1;
        proof {
            assert(r@ =~= bytes@.subrange(from as int, i as int));
        }
    }
    r
}

/// In a frame of a payload shorter than 2^32 bytes, the length field holds
/// exactly the number of bytes that follow it, and nothing follows them.
pub proof fn lemma_frame_boundaries(message_type: u8, payload: Seq<u8>)
    requires
        payload.len() < 0x100000000,
    ensures
        spec_frame(message_type, payload).len() == 5 + payload.len(),
        spec_frame(message_type, payload)[0] == message_type,
        spec_frame(message_type, payload).subrange(1, 5) == spec_u32_le(payload.len() as u32),
        spec_u32_of_le(
            spec_frame(message_type, payload)[1],
            spec_frame(message_type, payload)[2],
            spec_frame(message_type, payload)[3],
            spec_frame(message_type, payload)[4],
        ) == payload.len(),
        spec_frame(message_type, payload).subrange(5, spec_frame(message_type, payload).len() as int)
            == payload,
{
    let f = spec_frame(message_type, payload);
    assert(payload.len() as int % 0x100000000 == payload.len() as int);
    assert(f.subrange(1, 5) =~= spec_u32_le(payload.len() as u32));
    assert(f.subrange(5, f.len() as int) =~= payload);
    lemma_u32_le_round_trip(payload.len() as u32);
}

/// Little-endian encoding decodes to the value it was made from.
pub broadcast proof fn lemma_u32_le_round_trip(v: u32)
    ensures
        #![trigger spec_u32_le(v)]
        spec_u32_of_le(
            spec_u32_le(v)[0],
            spec_u32_le(v)[1],
            spec_u32_le(v)[2],
            spec_u32_le(v)[3],
        ) == v,
{
    assert(spec_u32_of_le(
        (v & 0xff) as u8,
        ((v >> 8) & 0xff) as u8,
        ((v >> 16) & 0xff) as u8,
        ((v >> 24) & 0xff) as u8,
    ) == v) by (bit_vector);
}

/// Big-endian encoding decodes to the value it was made from.
pub broadcast proof fn lemma_u32_be_round_trip(v: u32)
    ensures
        #![trigger spec_u32_be(v)]
        spec_u32_of_be(
            spec_u32_be(v)[0],
            spec_u32_be(v)[1],
            spec_u32_be(v)[2],
            spec_u32_be(v)[3],
        ) == v,
{
    assert(spec_u32_of_be(
        ((v >> 24) & 0xff) as u8,
        ((v >> 16) & 0xff) as u8,
        ((v >> 8) & 0xff) as u8,
        (v & 0xff) as u8,
    ) == v) by (bit_vector);
}

} // verus!
