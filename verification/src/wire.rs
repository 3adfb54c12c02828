//! Little-endian byte-level helpers shared by every codec in the crate.
//!
//! Reads are specified against windows (`subrange`s) of the source buffer;
//! writes are specified as appending the little-endian image of the value.

use vstd::bytes::*;
use vstd::prelude::*;
use vstd::slice::*;

verus! {

/// The 32-bit little-endian value stored at `off`.
pub open spec fn u32_at(s: Seq<u8>, off: int) -> u32 {
    spec_u32_from_le_bytes(s.subrange(off, off + 4))
}

/// The 64-bit little-endian value stored at `off`.
pub open spec fn u64_at(s: Seq<u8>, off: int) -> u64 {
    spec_u64_from_le_bytes(s.subrange(off, off + 8))
}

/// The little-endian bytes of each element of `vals`, concatenated.
pub open spec fn flat_u32s(vals: Seq<u32>) -> Seq<u8>
    decreases vals.len(),
{
    if vals.len() == 0 {
        Seq::empty()
    } else {
        flat_u32s(vals.drop_last()) + spec_u32_to_le_bytes(vals.last())
    }
}

pub proof fn lemma_flat_u32s_len(vals: Seq<u32>)
    ensures
        flat_u32s(vals).len() == 4 * vals.len(),
    decreases vals.len(),
{
    lemma_auto_spec_u32_to_from_le_bytes();
    if vals.len() > 0 {
        lemma_flat_u32s_len(vals.drop_last());
    }
}

pub proof fn lemma_flat_u32s_push(vals: Seq<u32>, x: u32)
    ensures
        flat_u32s(vals.push(x)) == flat_u32s(vals) + spec_u32_to_le_bytes(x),
{
    assert(vals.push(x).drop_last() =~= vals);
    assert(vals.push(x).last() == x);
}

/// Read a `u32` stored little-endian at `off`.
pub fn read_u32(v: &Vec<u8>, off: usize) -> (r: u32)
    requires
        off + 4 <= v@.len(),
    ensures
        r == u32_at(v@, off as int),
{
    // binding the length keeps its usize bound in scope for the offsets
    let len = v.len();
    u32_from_le_bytes(slice_subrange(v.as_slice(), off, off + 4))
}

/// Read a `u64` stored little-endian at `off`.
pub fn read_u64(v: &Vec<u8>, off: usize) -> (r: u64)
    requires
        off + 8 <= v@.len(),
    ensures
        r == u64_at(v@, off as int),
{
    let len = v.len();
    u64_from_le_bytes(slice_subrange(v.as_slice(), off, off + 8))
}

/// Append the little-endian bytes of `x`.
pub fn push_u32(out: &mut Vec<u8>, x: u32)
    ensures
        final(out)@ == old(out)@ + spec_u32_to_le_bytes(x),
{
    proof {
        lemma_auto_spec_u32_to_from_le_bytes();
    }
    let mut b = u32_to_le_bytes(x);
    out.append(&mut b);
}

/// Append the little-endian bytes of `x`.
pub fn push_u64(out: &mut Vec<u8>, x: u64)
    ensures
        final(out)@ == old(out)@ + spec_u64_to_le_bytes(x),
{
    proof {
        lemma_auto_spec_u64_to_from_le_bytes();
    }
    let mut b = u64_to_le_bytes(x);
    out.append(&mut b);
}

/// The little-endian bytes of `x` as a vector.
pub fn u32_to_le_vec(x: u32) -> (r: Vec<u8>)
    ensures
        r@ == spec_u32_to_le_bytes(x),
        r@.len() == 4,
{
    proof {
        lemma_auto_spec_u32_to_from_le_bytes();
    }
    u32_to_le_bytes(x)
}

/// Append a copy of `src`.
pub fn push_bytes(out: &mut Vec<u8>, src: &Vec<u8>)
    ensures
        final(out)@ == old(out)@ + src@,
{
    let mut i: usize = 0;
    while i < src.len()
        invariant
            i <= src@.len(),
            out@ == old(out)@ + src@.subrange(0, i as int),
        decreases src@.len() - i,
    {
        out.push(src[i]);
        proof {
            assert(old(out)@ + src@.subrange(0, i + 1 as int) =~= (old(out)@ + src@.subrange(
                0,
                i as int,
            )).push(src@[i as int]));
        }
        i = i + 1;
    }
    proof {
        assert(src@.subrange(0, src@.len() as int) =~= src@);
    }
}

/// Append the little-endian bytes of every element of `vals`.
pub fn push_u32s(out: &mut Vec<u8>, vals: &Vec<u32>)
    ensures
        final(out)@ == old(out)@ + flat_u32s(vals@),
{
    let mut i: usize = 0;
    while i < vals.len()
        invariant
            i <= vals@.len(),
            out@ == old(out)@ + flat_u32s(vals@.subrange(0, i as int)),
        decreases vals@.len() - i,
    {
        proof {
            assert(vals@.subrange(0, i + 1 as int) =~= vals@.subrange(0, i as int).push(
                vals@[i as int],
            ));
            lemma_flat_u32s_push(vals@.subrange(0, i as int), vals@[i as int]);
        }
        push_u32(out, vals[i]);
        i = i + 1;
    }
    proof {
        assert(vals@.subrange(0, vals@.len() as int) =~= vals@);
    }
}

/// `s` adjusted to length `n`: truncated, or padded with zero bytes.
pub open spec fn fixed_width(s: Seq<u8>, n: int) -> Seq<u8> {
    Seq::new(n as nat, |i: int| if i < s.len() { s[i] } else { 0u8 })
}

pub proof fn lemma_fixed_width_id(s: Seq<u8>, n: int)
    requires
        s.len() == n,
    ensures
        fixed_width(s, n) == s,
{
    assert(fixed_width(s, n) =~= s);
}

/// Compare two byte vectors for equality.
pub fn bytes_eq(a: &Vec<u8>, b: &Vec<u8>) -> (r: bool)
    ensures
        r == (a@ == b@),
{
    if a.len() != b.len() {
        return false;
    }
    let mut i: usize = 0;
    while i < a.len()
        invariant
            a@.len() == b@.len(),
            i <= a@.len(),
            forall|k: int| 0 <= k < i ==> a@[k] == b@[k],
        decreases a@.len() - i,
    {
        if a[i] != b[i] {
            return false;
        }
        i = i + 1;
    }
    proof {
        assert(a@ =~= b@);
    }
    true
}

/// Copy the window `[off, off + n)` of `v` into a fresh vector.
pub fn take_bytes(v: &Vec<u8>, off: usize, n: usize) -> (r: Vec<u8>)
    requires
        off + n <= v@.len(),
    ensures
        r@ == v@.subrange(off as int, off + n),
{
    let len = v.len();
    slice_to_vec(slice_subrange(v.as_slice(), off, off + n))
}

/// Read the `u32` values stored little-endian back to back in the window
/// `[off, off + 4 * count)`.
pub fn read_u32s(v: &Vec<u8>, off: usize, count: usize) -> (r: Vec<u32>)
    requires
        off + 4 * count <= v@.len(),
    ensures
        r@.len() == count,
        flat_u32s(r@) == v@.subrange(off as int, off + 4 * count),
        forall|k: int| 0 <= k < count ==> r@[k] == u32_at(v@, off + 4 * k),
{
    let len = v.len();
    let mut r: Vec<u32> = Vec::new();
    let mut i: usize = 0;
    while i < count
        invariant
            i <= count,
            len == v@.len(),
            off + 4 * count <= len,
            r@.len() == i,
            flat_u32s(r@) == v@.subrange(off as int, off + 4 * i),
            forall|k: int| 0 <= k < i ==> r@[k] == u32_at(v@, off + 4 * k),
        decreases count - i,
    {
        let x = read_u32(v, off + 4 * i);
        proof {
            lemma_flat_u32s_push(r@, x);
            lemma_auto_spec_u32_to_from_le_bytes();
            assert(spec_u32_to_le_bytes(x) =~= v@.subrange(
                off + 4 * i,
                off + 4 * (i + 1),
            ));
            assert(v@.subrange(off as int, off + 4 * i) + v@.subrange(
                off + 4 * i,
                off + 4 * (i + 1),
            ) =~= v@.subrange(off as int, off + 4 * (i + 1)));
        }
        r.push(x);
        i = i + 1;
    }
    r
}

} // verus!
