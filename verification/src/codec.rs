//! Length-prefixed wire framing: every unit of transmission is a 4-byte
//! big-endian length followed by exactly that many payload bytes.

use vstd::prelude::*;

verus! {

/// The four big-endian bytes of a 32-bit length.
pub open spec fn be32_bytes(n: u32) -> Seq<u8> {
    seq![(n >> 24) as u8, (n >> 16) as u8, (n >> 8) as u8, n as u8]
}

/// The 32-bit value encoded by four big-endian bytes.
pub open spec fn be32_value(b: Seq<u8>) -> u32
    recommends
        b.len() == 4,
{
    (((b[0] as u32) << 24) | ((b[1] as u32) << 16) | ((b[2] as u32) << 8) | (b[3] as u32)) as u32
}

/// The wire form of one frame: big-endian length, then the payload verbatim.
pub open spec fn frame_of(payload: Seq<u8>) -> Seq<u8>
    recommends
        payload.len() <= u32::MAX,
{
    be32_bytes(payload.len() as u32) + payload
}

/// A complete frame at the front of a buffer: the payload it carries and how
/// many bytes it occupies. A buffer that holds only part of a frame parses to
/// nothing; it never yields a truncated payload.
pub open spec fn parse_frame(b: Seq<u8>) -> Option<(Seq<u8>, int)> {
    if b.len() >= 4 && b.len() - 4 >= be32_value(b.subrange(0, 4)) {
        let n = be32_value(b.subrange(0, 4)) as int;
        Some((b.subrange(4, 4 + n), 4 + n))
    } else {
        None
    }
}

/// Decoding four big-endian bytes undoes encoding a 32-bit length.
pub proof fn lemma_be32_round_trip(n: u32)
    ensures
        be32_value(be32_bytes(n)) == n,
{
    assert((((((n >> 24) as u8) as u32) << 24) | ((((n >> 16) as u8) as u32) << 16)
        | ((((n >> 8) as u8) as u32) << 8) | ((n as u8) as u32)) as u32 == n) by (bit_vector);
}

/// A frame encoded from any payload, followed by any further bytes of the
/// stream, parses back to exactly that payload and consumes exactly the
/// frame's own bytes.
pub proof fn lemma_frame_round_trip(payload: Seq<u8>, rest: Seq<u8>)
    requires
        payload.len() <= u32::MAX,
    ensures
        parse_frame(frame_of(payload) + rest) == Some((payload, 4 + payload.len() as int)),
{
    let b = frame_of(payload) + rest;
    lemma_be32_round_trip(payload.len() as u32);
    assert(b.subrange(0, 4) =~= be32_bytes(payload.len() as u32));
    assert(b.subrange(4, 4 + payload.len() as int) =~= payload);
}

/// A buffer that holds the 4-byte length prefix but fewer payload bytes than
/// the prefix declares does not parse: a short read never yields a payload.
pub proof fn lemma_short_buffer_no_frame(b: Seq<u8>)
    requires
        b.len() >= 4,
        b.len() - 4 < be32_value(b.subrange(0, 4)),
    ensures
        parse_frame(b) is None,
{
}

/// Copy of the bytes of `v` from `from` (inclusive) to `to` (exclusive).
pub fn copy_range(v: &Vec<u8>, from: usize, to: usize) -> (r: Vec<u8>)
    requires
        from <= to <= v@.len(),
    ensures
        r@ == v@.subrange(from as int, to as int),
{
    let mut r: Vec<u8> = Vec::new();
    let mut i: usize = from;
    while i < to
        invariant
            from <= i <= to <= v@.len(),
            r@ == v@.subrange(from as int, i as int),
        decreases to - i,
    {
        r.push(v[i]);
        i += 1;
        assert(v@.subrange(from as int, i as int)
            == v@.subrange(from as int, i - 1 as int).push(v@[i - 1]));
    }
    r
}

/// Encode one frame: the payload's length as 4 big-endian bytes, then the
/// payload itself.
pub fn encode_frame(payload: &Vec<u8>) -> (r: Vec<u8>)
    requires
        payload@.len() <= u32::MAX,
    ensures
        r@ == frame_of(payload@),
{
    let n: u32 = payload.len() as u32;
    let mut r: Vec<u8> = Vec::new();
    r.push((n >> 24) as u8);
    r.push((n >> 16) as u8);
    r.push((n >> 8) as u8);
    r.push(n as u8);
    let mut i: usize = 0;
    while i < payload.len()
        invariant
            i <= payload@.len(),
            payload@.len() <= u32::MAX,
            n == payload@.len() as u32,
            r@ == be32_bytes(n) + payload@.take(i as int),
        decreases payload@.len() - i,
    {
        r.push(payload[i]);
        i += 1;
        assert(payload@.take(i as int) == payload@.take(i - 1 as int).push(payload@[i - 1]));
    }
    assert(be32_bytes(n) + payload@.take(payload@.len() as int) =~= frame_of(payload@));
    r
}

/// The 32-bit value of four big-endian bytes.
pub fn be32_decode(b0: u8, b1: u8, b2: u8, b3: u8) -> (r: u32)
    ensures
        r == be32_value(seq![b0, b1, b2, b3]),
{
    ((b0 as u32) << 24) | ((b1 as u32) << 16) | ((b2 as u32) << 8) | (b3 as u32)
}

/// Decode the frame at the front of `buf`, if a complete one is there:
/// the payload and the number of bytes the frame occupies. A buffer shorter
/// than the frame it announces yields `None`, never a truncated payload.
pub fn decode_frame(buf: &Vec<u8>) -> (r: Option<(Vec<u8>, usize)>)
    ensures
        parse_frame(buf@) is None ==> r is None,
        parse_frame(buf@) matches Some((p, used)) ==> (r matches Some(pc)
            && pc.0@ == p && pc.1 == used),
{
    if buf.len() < 4 {
        return None;
    }
    let n32: u32 = be32_decode(buf[0], buf[1], buf[2], buf[3]);
    assert(seq![buf@[0], buf@[1], buf@[2], buf@[3]] =~= buf@.subrange(0, 4));
    let n: usize = n32 as usize;
    if buf.len() - 4 < n {
        return None;
    }
    let payload = copy_range(buf, 4, 4 + n);
    Some((payload, 4 + n))
}

} // verus!
