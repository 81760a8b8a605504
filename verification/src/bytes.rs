//! Little-endian primitive codecs: fixed-width integer readers on a byte
//! slice at a position, and writers that append to a byte vector.

use vstd::prelude::*;

verus! {

use vstd::bytes::{
    spec_u16_from_le_bytes, spec_u16_to_le_bytes, spec_u32_from_le_bytes, spec_u32_to_le_bytes,
    u16_from_le_bytes, u32_from_le_bytes, u16_to_le_bytes, u32_to_le_bytes,
};
use vstd::slice::slice_subrange;

/// Little-endian reading of a 24-bit value from three bytes.
pub open spec fn spec_u24_from_le_bytes(s: Seq<u8>) -> u32
    recommends
        s.len() == 3,
{
    (s[0] as u32) | (s[1] as u32) << 8 | (s[2] as u32) << 16
}

/// Little-endian three-byte encoding of a 24-bit value.
pub open spec fn spec_u24_to_le_bytes(x: u32) -> Seq<u8>
    recommends
        x <= 0xffffff,
{
    seq![(x & 0xff) as u8, ((x >> 8) & 0xff) as u8, ((x >> 16) & 0xff) as u8]
}

pub proof fn lemma_u24_roundtrip(x: u32)
    requires
        x <= 0xffffff,
    ensures
        spec_u24_to_le_bytes(x).len() == 3,
        spec_u24_from_le_bytes(spec_u24_to_le_bytes(x)) == x,
{
    assert(((x & 0xff) as u8 as u32) | (((x >> 8) & 0xff) as u8 as u32) << 8 | (((x >> 16)
        & 0xff) as u8 as u32) << 16 == x) by (bit_vector)
        requires
            x <= 0xffffff,
    ;
}

/// The 32-bit field read from four consecutive bytes at position `i`.
pub open spec fn u32_at(b: Seq<u8>, i: int) -> u32
    recommends
        0 <= i,
        i + 4 <= b.len(),
{
    spec_u32_from_le_bytes(b.subrange(i, i + 4))
}

/// The 16-bit field read from two consecutive bytes at position `i`.
pub open spec fn u16_at(b: Seq<u8>, i: int) -> u16
    recommends
        0 <= i,
        i + 2 <= b.len(),
{
    spec_u16_from_le_bytes(b.subrange(i, i + 2))
}

/// The 24-bit field read from three consecutive bytes at position `i`.
pub open spec fn u24_at(b: Seq<u8>, i: int) -> u32
    recommends
        0 <= i,
        i + 3 <= b.len(),
{
    spec_u24_from_le_bytes(b.subrange(i, i + 3))
}

pub fn read_u32_at(b: &[u8], i: usize) -> (r: u32)
    requires
        i + 4 <= b@.len(),
    ensures
        r == u32_at(b@, i as int),
{
    let n = b.len();
    assert(i + 4 <= n);
    u32_from_le_bytes(slice_subrange(b, i, i + 4))
}

pub fn read_u16_at(b: &[u8], i: usize) -> (r: u16)
    requires
        i + 2 <= b@.len(),
    ensures
        r == u16_at(b@, i as int),
{
    let n = b.len();
    assert(i + 2 <= n);
    u16_from_le_bytes(slice_subrange(b, i, i + 2))
}

pub fn read_u24_at(b: &[u8], i: usize) -> (r: u32)
    requires
        i + 3 <= b@.len(),
    ensures
        r == u24_at(b@, i as int),
{
    let n = b.len();
    assert(i + 3 <= n);
    let b0 = b[i];
    let b1 = b[i + 1];
    let b2 = b[i + 2];
    let r = (b0 as u32) | (b1 as u32) << 8 | (b2 as u32) << 16;
    proof {
        let s = b@.subrange(i as int, i + 3);
        assert(s[0] == b0 && s[1] == b1 && s[2] == b2);
    }
    r
}

/// Appends a whole slice to a byte vector.
pub fn push_bytes(out: &mut Vec<u8>, s: &[u8])
    ensures
        final(out)@ == old(out)@ + s@,
{
    let ghost orig = out@;
    let mut i: usize = 0;
    while i < s.len()
        invariant
            i <= s@.len(),
            out@ == orig + s@.subrange(0, i as int),
        decreases s@.len() - i,
    {
        out.push(s[i]);
        proof {
            assert(s@.subrange(0, i + 1) =~= s@.subrange(0, i as int) + seq![s@[i as int]]);
            assert(out@ =~= orig + s@.subrange(0, i + 1));
        }
        i = i + 1;
    }
    proof {
        assert(s@.subrange(0, s@.len() as int) =~= s@);
    }
}

pub fn push_u32_le(out: &mut Vec<u8>, x: u32)
    ensures
        final(out)@ == old(out)@ + spec_u32_to_le_bytes(x),
{
    let bs = u32_to_le_bytes(x);
    push_bytes(out, bs.as_slice());
}

pub fn push_u16_le(out: &mut Vec<u8>, x: u16)
    ensures
        final(out)@ == old(out)@ + spec_u16_to_le_bytes(x),
{
    let bs = u16_to_le_bytes(x);
    push_bytes(out, bs.as_slice());
}

pub fn push_u24_le(out: &mut Vec<u8>, x: u32)
    requires
        x <= 0xffffff,
    ensures
        final(out)@ == old(out)@ + spec_u24_to_le_bytes(x),
{
    proof {
        assert(x & 0xff <= 0xff && (x >> 8) & 0xff <= 0xff && (x >> 16) & 0xff <= 0xff)
            by (bit_vector);
    }
    let b0 = (x & 0xff) as u8;
    let b1 = ((x >> 8) & 0xff) as u8;
    let b2 = ((x >> 16) & 0xff) as u8;
    let ghost orig = out@;
    out.push(b0);
    out.push(b1);
    out.push(b2);
    proof {
        assert(out@ =~= orig + spec_u24_to_le_bytes(x));
    }
}

} // verus!
