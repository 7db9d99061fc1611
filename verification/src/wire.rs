//! Big-endian fixed-width integer fields, the building blocks of the RFC 1035
//! wire format, plus small verified helpers over byte vectors.

use vstd::prelude::*;

verus! {

/// The 16-bit value held by two bytes in transmission (big-endian) order.
pub open spec fn concat16(hi: u8, lo: u8) -> u16 {
    (hi as u16 * 256 + lo as u16) as u16
}

/// The 32-bit value held by four bytes in transmission (big-endian) order.
pub open spec fn concat32(b0: u8, b1: u8, b2: u8, b3: u8) -> u32 {
    (b0 as u32 * 0x1000000 + b1 as u32 * 0x10000 + b2 as u32 * 256 + b3 as u32) as u32
}

/// The two transmission-order bytes of a 16-bit value.
pub open spec fn u16_bytes(v: u16) -> Seq<u8> {
    seq![(v / 256) as u8, (v % 256) as u8]
}

/// Reading back the two bytes of a 16-bit value yields the value.
pub proof fn lemma_u16_bytes_concat(v: u16)
    ensures
        concat16(u16_bytes(v)[0], u16_bytes(v)[1]) == v,
{
}

/// Read the big-endian 16-bit field stored at `at`.
pub fn read_u16_be(bytes: &Vec<u8>, at: usize) -> (r: u16)
    requires
        at + 2 <= bytes@.len(),
    ensures
        r == concat16(bytes@[at as int], bytes@[at + 1]),
{
    let _n: usize = bytes.len();
    bytes[at] as u16 * 256 + bytes[at + 1] as u16
}

/// Read the big-endian 32-bit field stored at `at`.
pub fn read_u32_be(bytes: &Vec<u8>, at: usize) -> (r: u32)
    requires
        at + 4 <= bytes@.len(),
    ensures
        r == concat32(bytes@[at as int], bytes@[at + 1], bytes@[at + 2], bytes@[at + 3]),
{
    let _n: usize = bytes.len();
    bytes[at] as u32 * 0x1000000 + bytes[at + 1] as u32 * 0x10000 + bytes[at + 2] as u32 * 256
        + bytes[at + 3] as u32
}

/// Append the two transmission-order bytes of a 16-bit field.
pub fn push_u16_be(out: &mut Vec<u8>, v: u16)
    ensures
        final(out)@ == old(out)@ + u16_bytes(v),
{
    out.push((v / 256) as u8);
    out.push((v % 256) as u8);
    proof {
        assert(out@ =~= old(out)@ + u16_bytes(v));
    }
}

/// Copy the bytes from `from` (inclusive) to `to` (exclusive).
pub fn byte_range(bytes: &Vec<u8>, from: usize, to: usize) -> (r: Vec<u8>)
    requires
        from <= to <= bytes@.len(),
    ensures
        r@ == bytes@.subrange(from as int, to as int),
{
    let mut r: Vec<u8> = Vec::new();
    let mut i: usize = from;
    while i < to
        invariant
            from <= i <= to <= bytes@.len(),
            r@ == bytes@.subrange(from as int, i as int),
        decreases to - i,
    {
        r.push(bytes[i]);
        i = i + 1;
        proof {
            assert(r@ =~= bytes@.subrange(from as int, i as int));
        }
    }
    r
}

/// Copy the bytes from `from` (inclusive) to the end.
pub fn byte_suffix(bytes: &Vec<u8>, from: usize) -> (r: Vec<u8>)
    requires
        from <= bytes@.len(),
    ensures
        r@ == bytes@.skip(from as int),
{
    let r = byte_range(bytes, from, bytes.len());
    proof {
        assert(r@ =~= bytes@.skip(from as int));
    }
    r
}

} // verus!
