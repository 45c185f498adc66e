//! Little-endian integer fields inside byte buffers.

use vstd::bytes::*;
use vstd::prelude::*;

verus! {

/// The four little-endian bytes of `x`.
pub open spec fn le32(x: u32) -> Seq<u8> {
    spec_u32_to_le_bytes(x)
}

/// The eight little-endian bytes of `x`.
pub open spec fn le64(x: u64) -> Seq<u8> {
    spec_u64_to_le_bytes(x)
}

/// Encoding is a bijection between `u32` and four-byte sequences.
pub proof fn lemma_le32(x: u32, s: Seq<u8>)
    ensures
        le32(x).len() == 4,
        s.len() == 4 ==> (spec_u32_from_le_bytes(s) == x <==> le32(x) == s),
{
    lemma_auto_spec_u32_to_from_le_bytes();
}

/// Encoding is a bijection between `u64` and eight-byte sequences.
pub proof fn lemma_le64(x: u64, s: Seq<u8>)
    ensures
        le64(x).len() == 8,
        s.len() == 8 ==> (spec_u64_from_le_bytes(s) == x <==> le64(x) == s),
{
    lemma_auto_spec_u64_to_from_le_bytes();
}

/// Reads the `u32` stored little-endian at `at`.
pub fn read_u32(b: &[u8], at: usize) -> (r: u32)
    requires
        at + 4 <= b@.len() <= usize::MAX,
    ensures
        le32(r) == b@.subrange(at as int, at + 4),
{
    let r = u32_from_le_bytes(&b[at..at + 4]);
    proof {
        lemma_le32(r, b@.subrange(at as int, at + 4));
    }
    r
}

/// Reads the `u64` stored little-endian at `at`.
pub fn read_u64(b: &[u8], at: usize) -> (r: u64)
    requires
        at + 8 <= b@.len() <= usize::MAX,
    ensures
        le64(r) == b@.subrange(at as int, at + 8),
{
    let r = u64_from_le_bytes(&b[at..at + 8]);
    proof {
        lemma_le64(r, b@.subrange(at as int, at + 8));
    }
    r
}

/// Appends the little-endian bytes of `x`.
pub fn push_u32(out: &mut Vec<u8>, x: u32)
    ensures
        final(out)@ == old(out)@ + le32(x),
{
    let mut b = u32_to_le_bytes(x);
    out.append(&mut b);
}

/// Appends the little-endian bytes of `x`.
pub fn push_u64(out: &mut Vec<u8>, x: u64)
    ensures
        final(out)@ == old(out)@ + le64(x),
{
    let mut b = u64_to_le_bytes(x);
    out.append(&mut b);
}

/// Appends every byte of `src`.
pub fn push_bytes(out: &mut Vec<u8>, src: &[u8])
    ensures
        final(out)@ == old(out)@ + src@,
{
    let mut i: usize = 0;
    while i < src.len()
        invariant
            i <= src@.len(),
            out@ == old(out)@ + src@.subrange(0, i as int),
        decreases src@.len() - i,
    {
        out.push(src[i]);
        i = i + 1;
        assert(src@.subrange(0, i as int) == src@.subrange(0, i - 1).push(src@[i - 1]));
    }
    assert(src@.subrange(0, i as int) == src@);
}

/// A copy of `b[from..to]`.
pub fn copy_range(b: &[u8], from: usize, to: usize) -> (r: Vec<u8>)
    requires
        from <= to <= b@.len(),
    ensures
        r@ == b@.subrange(from as int, to as int),
{
    let mut r: Vec<u8> = Vec::new();
    push_bytes(&mut r, &b[from..to]);
    r
}

} // verus!
