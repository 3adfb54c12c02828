//! Event-flag store: sparse 32-bit flag ids are resolved through an
//! externally supplied sorted index to a bit offset inside a character's
//! fixed-size flag block; the block itself is a plain bit array.

use crate::layout::FLAG_BLOCK_LEN;
use vstd::prelude::*;

verus! {

/// The externally supplied mapping from flag id to bit offset, sorted
/// strictly by id.  Loaded once and never mutated.
pub struct FlagIndex {
    pub pairs: Vec<(u32, u32)>,
}

/// The bit offset the index assigns to `id`, if any.
pub open spec fn spec_lookup(s: Seq<(u32, u32)>, id: u32) -> Option<u32> {
    if exists|k: int| 0 <= k < s.len() && s[k].0 == id {
        let k = choose|k: int| 0 <= k < s.len() && s[k].0 == id;
        Some(s[k].1)
    } else {
        None
    }
}

impl FlagIndex {
    /// Strictly id-sorted, and every offset addresses a bit of the block.
    pub open spec fn wf(self) -> bool {
        &&& forall|i: int, j: int|
            0 <= i < j < self.pairs@.len() ==> (#[trigger] self.pairs@[i]).0
                < (#[trigger] self.pairs@[j]).0
        &&& forall|i: int|
            0 <= i < self.pairs@.len() ==> (#[trigger] self.pairs@[i]).1 < 8 * FLAG_BLOCK_LEN
    }

    /// Validate an externally supplied table: it must be strictly sorted by
    /// id and all offsets must address a bit of the flag block.
    pub fn new(pairs: Vec<(u32, u32)>) -> (r: Option<FlagIndex>)
        ensures
            match r {
                Some(idx) => idx.wf() && idx.pairs@ == pairs@,
                None => true,
            },
    {
        let mut i: usize = 0;
        while i < pairs.len()
            invariant
                i <= pairs@.len(),
                forall|a: int, b: int|
                    0 <= a < b < i ==> (#[trigger] pairs@[a]).0 < (#[trigger] pairs@[b]).0,
                forall|a: int| 0 <= a < i ==> (#[trigger] pairs@[a]).1 < 8 * FLAG_BLOCK_LEN,
            decreases pairs@.len() - i,
        {
            if pairs[i].1 >= 8 * (FLAG_BLOCK_LEN as u32) {
                return None;
            }
            if i > 0 && pairs[i - 1].0 >= pairs[i].0 {
                return None;
            }
            proof {
                assert(forall|a: int, b: int|
                    0 <= a < b < i + 1 && b < i ==> (#[trigger] pairs@[a]).0 < (
                    #[trigger] pairs@[b]).0);
                assert forall|a: int| 0 <= a < i implies (#[trigger] pairs@[a]).0
                    < pairs@[i as int].0 by {
                    assert(pairs@[a].0 <= pairs@[i - 1].0);
                }
            }
            i = i + 1;
        }
        Some(FlagIndex { pairs })
    }

    /// Binary-search the index for `id`.
    pub fn lookup(&self, id: u32) -> (r: Option<u32>)
        requires
            self.wf(),
        ensures
            r == spec_lookup(self.pairs@, id),
    {
        let mut lo: usize = 0;
        let mut hi: usize = self.pairs.len();
        while lo < hi
            invariant
                lo <= hi <= self.pairs@.len(),
                forall|k: int| 0 <= k < lo ==> (#[trigger] self.pairs@[k]).0 < id,
                forall|k: int| hi <= k < self.pairs@.len() ==> id < (#[trigger] self.pairs@[k]).0,
                self.wf(),
            decreases hi - lo,
        {
            let mid = lo + (hi - lo) / 2;
            let entry = self.pairs[mid];
            if entry.0 == id {
                proof {
                    assert(0 <= mid < self.pairs@.len() && self.pairs@[mid as int].0 == id);
                    let k = choose|k: int| 0 <= k < self.pairs@.len() && self.pairs@[k].0 == id;
                    if k < mid {
                        assert(self.pairs@[k].0 < self.pairs@[mid as int].0);
                    }
                    if k > mid {
                        assert(self.pairs@[mid as int].0 < self.pairs@[k].0);
                    }
                }
                return Some(entry.1);
            } else if entry.0 < id {
                proof {
                    assert forall|k: int| 0 <= k < mid + 1 implies (#[trigger] self.pairs@[k]).0
                        < id by {
                        if k < mid {
                            assert(self.pairs@[k].0 < self.pairs@[mid as int].0);
                        }
                    }
                }
                lo = mid + 1;
            } else {
                proof {
                    assert forall|k: int|
                        mid <= k < self.pairs@.len() implies id < (
                    #[trigger] self.pairs@[k]).0 by {
                        if k > mid {
                            assert(self.pairs@[mid as int].0 < self.pairs@[k].0);
                        }
                    }
                }
                hi = mid;
            }
        }
        proof {
            if exists|k: int| 0 <= k < self.pairs@.len() && self.pairs@[k].0 == id {
                let k = choose|k: int| 0 <= k < self.pairs@.len() && self.pairs@[k].0 == id;
                assert(k < lo || hi <= k);
                assert(false);
            }
        }
        None
    }
}

/// Bit `off` of the block, where bit `b` of byte `i` is bit `8 * i + b`.
pub open spec fn spec_bit(block: Seq<u8>, off: int) -> bool {
    (block[off / 8] >> ((off % 8) as u8)) & 1 == 1
}

/// Read one bit of the block.
pub fn get_bit(block: &Vec<u8>, off: u32) -> (r: bool)
    requires
        off < 8 * block@.len(),
    ensures
        r == spec_bit(block@, off as int),
{
    let byte = block[(off / 8) as usize];
    let bit = (off % 8) as u8;
    (byte >> bit) & 1 == 1
}

/// Write one bit of the block.  Exactly one bit changes: every other byte
/// is untouched, and within the addressed byte every other bit keeps its
/// value.
pub fn set_bit(block: &mut Vec<u8>, off: u32, value: bool)
    requires
        off < 8 * old(block)@.len(),
    ensures
        final(block)@.len() == old(block)@.len(),
        forall|j: int|
            0 <= j < old(block)@.len() && j != off / 8 ==> final(block)@[j] == old(block)@[j],
        forall|k: int|
            0 <= k < 8 * old(block)@.len() ==> spec_bit(final(block)@, k) == if k == off {
                value
            } else {
                spec_bit(old(block)@, k)
            },
{
    let i = (off / 8) as usize;
    let s = (off % 8) as u8;
    let b = block[i];
    let nb = if value {
        b | (1u8 << s)
    } else {
        b & !(1u8 << s)
    };
    block[i] = nb;
    proof {
        lemma_set_bit_byte(b, nb, s, value);
        assert forall|k: int| 0 <= k < 8 * old(block)@.len() implies spec_bit(final(block)@, k)
            == if k == off {
            value
        } else {
            spec_bit(old(block)@, k)
        } by {
            let t = (k % 8) as u8;
            if k / 8 == off / 8 {
                assert(final(block)@[k / 8] == nb);
                if k == off {
                    assert(t == s);
                } else {
                    assert(t != s) by {
                        if t == s {
                            assert(k == 8 * (k / 8) + (k % 8));
                            assert(off == 8 * (off / 8) + (off % 8)) by {
                                assert(off / 8 == ((off as int) / 8) && off % 8 == ((
                                off as int) % 8));
                            }
                        }
                    }
                }
            } else {
                assert(final(block)@[k / 8] == old(block)@[k / 8]);
            }
        }
    }
}

/// How setting or clearing bit `s` changes each bit `t` of a byte.
proof fn lemma_set_bit_byte(b: u8, nb: u8, s: u8, value: bool)
    requires
        s < 8,
        nb == if value {
            b | (1u8 << s)
        } else {
            b & !(1u8 << s)
        },
    ensures
        forall|t: u8|
            t < 8 ==> ((nb >> t) & 1 == 1) == if t == s {
                value
            } else {
                (b >> t) & 1 == 1
            },
{
    if value {
        assert(forall|t: u8|
            t < 8 ==> (((nb >> t) & 1 == 1) == if t == s {
                true
            } else {
                (b >> t) & 1 == 1
            })) by (bit_vector)
            requires
                s < 8,
                nb == b | (1u8 << s),
        ;
    } else {
        assert(forall|t: u8|
            t < 8 ==> (((nb >> t) & 1 == 1) == if t == s {
                false
            } else {
                (b >> t) & 1 == 1
            })) by (bit_vector)
            requires
                s < 8,
                nb == b & !(1u8 << s),
        ;
    }
}


/// The built-in flag index: the supplied resource mapping known event-flag
/// ids to bit offsets of the flag block, sorted by id.
pub fn default_index() -> (r: FlagIndex)
    ensures
        r.wf(),
{
    let mut pairs: Vec<(u32, u32)> = Vec::new();
    pairs.push((60, 0));
    pairs.push((71, 9));
    pairs.push((105, 16));
    pairs.push((181, 23));
    pairs.push((1007, 64));
    pairs.push((1255, 130));
    pairs.push((3109, 288));
    pairs.push((6223, 517));
    pairs.push((9023, 1024));
    pairs.push((18902, 2051));
    pairs.push((60001, 3333));
    pairs.push((71800, 4095));
    let r = FlagIndex { pairs };
    proof {
        assert forall|i: int, j: int| 0 <= i < j < r.pairs@.len() implies (
        #[trigger] r.pairs@[i]).0 < (#[trigger] r.pairs@[j]).0 by {
            assert(r.pairs@.len() == 12);
        }
        assert forall|i: int| 0 <= i < r.pairs@.len() implies (#[trigger] r.pairs@[i]).1 < 8
            * FLAG_BLOCK_LEN by {
            assert(r.pairs@.len() == 12);
        }
    }
    r
}


/// A zeroed flag block reads `false` at every bit: a flag that was never
/// set reports the default.
pub proof fn lemma_zero_block_reads_false(block: Seq<u8>, off: int)
    requires
        0 <= off < 8 * block.len(),
        forall|j: int| 0 <= j < block.len() ==> block[j] == 0u8,
    ensures
        !spec_bit(block, off),
{
    let t = (off % 8) as u8;
    assert((0u8 >> t) & 1 == 0) by (bit_vector);
}

} // verus!
