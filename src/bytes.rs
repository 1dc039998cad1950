//! Fixed-width big-endian integers.
use vstd::prelude::*;

verus! {

/// The eight big-endian bytes of `v`.
pub open spec fn be8(v: u64) -> Seq<u8> {
    seq![
        ((v >> 56u64) & 0xffu64) as u8,
        ((v >> 48u64) & 0xffu64) as u8,
        ((v >> 40u64) & 0xffu64) as u8,
        ((v >> 32u64) & 0xffu64) as u8,
        ((v >> 24u64) & 0xffu64) as u8,
        ((v >> 16u64) & 0xffu64) as u8,
        ((v >> 8u64) & 0xffu64) as u8,
        (v & 0xffu64) as u8,
    ]
}

/// The integer whose big-endian bytes are the first eight of `s`.
pub open spec fn u64_of_be8(s: Seq<u8>) -> u64
    recommends
        s.len() >= 8,
{
    ((s[0] as u64) << 56u64) | ((s[1] as u64) << 48u64) | ((s[2] as u64) << 40u64) | ((s[3] as u64)
        << 32u64) | ((s[4] as u64) << 24u64) | ((s[5] as u64) << 16u64) | ((s[6] as u64) << 8u64)
        | (s[7] as u64)
}

pub proof fn lemma_be8_round_trip(v: u64)
    ensures
        u64_of_be8(be8(v)) == v,
        be8(v).len() == 8,
{
    let s = be8(v);
    assert(s[0] == ((v >> 56u64) & 0xffu64) as u8);
    assert(((((((v >> 56u64) & 0xffu64) as u8) as u64) << 56u64) | (((((v >> 48u64) & 0xffu64) as u8)
        as u64) << 48u64) | (((((v >> 40u64) & 0xffu64) as u8) as u64) << 40u64) | (((((v >> 32u64)
        & 0xffu64) as u8) as u64) << 32u64) | (((((v >> 24u64) & 0xffu64) as u8) as u64) << 24u64)
        | (((((v >> 16u64) & 0xffu64) as u8) as u64) << 16u64) | (((((v >> 8u64) & 0xffu64) as u8)
        as u64) << 8u64) | (((v & 0xffu64) as u8) as u64)) == v) by (bit_vector);
}

/// Appends the eight big-endian bytes of `v`.
pub fn push_be8(out: &mut Vec<u8>, v: u64)
    ensures
        final(out)@ == old(out)@ + be8(v),
{
    out.push(((v >> 56u64) & 0xffu64) as u8);
    out.push(((v >> 48u64) & 0xffu64) as u8);
    out.push(((v >> 40u64) & 0xffu64) as u8);
    out.push(((v >> 32u64) & 0xffu64) as u8);
    out.push(((v >> 24u64) & 0xffu64) as u8);
    out.push(((v >> 16u64) & 0xffu64) as u8);
    out.push(((v >> 8u64) & 0xffu64) as u8);
    out.push((v & 0xffu64) as u8);
    assert(out@ =~= old(out)@ + be8(v));
}

/// Reads eight big-endian bytes at `pos`.
pub fn read_be8(b: &Vec<u8>, pos: usize) -> (r: u64)
    requires
        pos + 8 <= b.len(),
    ensures
        r == u64_of_be8(b@.subrange(pos as int, pos + 8)),
{
    let s = Ghost(b@.subrange(pos as int, pos + 8));
    assert(s@[0] == b@[pos as int]);
    assert(s@[7] == b@[pos + 7]);
    ((b[pos] as u64) << 56u64) | ((b[pos + 1] as u64) << 48u64) | ((b[pos + 2] as u64) << 40u64)
        | ((b[pos + 3] as u64) << 32u64) | ((b[pos + 4] as u64) << 24u64) | ((b[pos + 5] as u64)
        << 16u64) | ((b[pos + 6] as u64) << 8u64) | (b[pos + 7] as u64)
}

} // verus!
