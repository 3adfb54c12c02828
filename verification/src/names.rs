//! Helpers for the fixed-width, zero-padded name fields of the save format
//! and their conversion to and from Rust strings.

use vstd::prelude::*;
use vstd::seq_lib::*;
use vstd::slice::slice_to_vec;
use vstd::string::StringSliceAdditionalSpecFns;
use vstd::utf8::{decode_utf8, valid_utf8};

verus! {

/// The stored name up to (not including) its first zero byte.
pub open spec fn name_trim(bytes: Seq<u8>) -> Seq<u8> {
    match bytes.index_of_first(0u8) {
        Some(i) => bytes.subrange(0, i),
        None => bytes,
    }
}

/// The characters a stored name decodes to: the bytes before the first
/// zero, decoded as UTF-8, or the empty sequence when they are not valid
/// UTF-8.
pub open spec fn name_to_chars(bytes: Seq<u8>) -> Seq<char> {
    if valid_utf8(name_trim(bytes)) {
        decode_utf8(name_trim(bytes))
    } else {
        Seq::empty()
    }
}

/// `b` padded with zero bytes to width `w`.
pub open spec fn pad_zero(b: Seq<u8>, w: int) -> Seq<u8> {
    b + Seq::new((w - b.len()) as nat, |i: int| 0u8)
}

/// `needle` occurs as a contiguous run inside `hay`.
pub open spec fn contains_sub(hay: Seq<u8>, needle: Seq<u8>) -> bool {
    exists|k: int|
        0 <= k && k + needle.len() <= hay.len() && #[trigger] hay.subrange(k, k + needle.len())
            == needle
}

/// Relies on `String::from_utf8`: it succeeds exactly on valid UTF-8 and
/// returns the string of those bytes.
#[verifier::external_body]
pub(crate) fn string_from_bytes(bytes: Vec<u8>) -> (r: Option<String>)
    ensures
        match r {
            Some(s) => valid_utf8(bytes@) && s@ == decode_utf8(bytes@),
            None => !valid_utf8(bytes@),
        },
{
    String::from_utf8(bytes).ok()
}

/// The stored name, cut at its first zero byte.
pub fn trim_at_zero(v: &Vec<u8>) -> (r: Vec<u8>)
    ensures
        r@ == name_trim(v@),
{
    let mut i: usize = 0;
    while i < v.len()
        invariant
            i <= v@.len(),
            forall|k: int| 0 <= k < i ==> v@[k] != 0u8,
        decreases v@.len() - i,
    {
        if v[i] == 0 {
            proof {
                v@.index_of_first_ensures(0u8);
                assert(v@.index_of_first(0u8) == Some(i as int)) by {
                    match v@.index_of_first(0u8) {
                        Some(j) => {
                            if j < i {
                                assert(v@[j] != 0u8);
                            }
                            if j > i {
                                assert(v@[i as int] != 0u8);
                            }
                        },
                        None => {
                            assert(!v@.contains(0u8));
                            assert(v@[i as int] == 0u8);
                        },
                    }
                }
            }
            return crate::wire::take_bytes(v, 0, i);
        }
        i = i + 1;
    }
    proof {
        v@.index_of_first_ensures(0u8);
        if v@.index_of_first(0u8) is Some {
            let j = v@.index_of_first(0u8)->0;
            assert(v@[j] != 0u8);
        }
        assert(v@.subrange(0, v@.len() as int) =~= v@);
    }
    crate::wire::take_bytes(v, 0, v.len())
}


/// Whether `needle` occurs as a contiguous run inside `hay`.
pub fn contains_bytes(hay: &Vec<u8>, needle: &Vec<u8>) -> (r: bool)
    ensures
        r == contains_sub(hay@, needle@),
{
    let h = hay.len();
    let n = needle.len();
    if n > h {
        proof {
            assert(!contains_sub(hay@, needle@));
        }
        return false;
    }
    let mut k: usize = 0;
    while k <= h - n
        invariant
            n <= h,
            h == hay@.len(),
            n == needle@.len(),
            k <= h - n + 1,
            forall|k2: int|
                0 <= k2 < k ==> #[trigger] hay@.subrange(k2, k2 + needle@.len()) != needle@,
        decreases h + 1 - n - k,
    {
        let mut j: usize = 0;
        let mut matches = true;
        while j < n
            invariant
                n <= h,
                h == hay@.len(),
                n == needle@.len(),
                k + n <= h,
                j <= n,
                matches == (forall|j2: int|
                    0 <= j2 < j ==> hay@[k + j2] == needle@[j2]),
            decreases n - j,
        {
            if hay[k + j] != needle[j] {
                matches = false;
                proof {
                    assert(hay@[k + j] != needle@[j as int]);
                }
                j = n;
            } else {
                j = j + 1;
            }
        }
        if matches {
            proof {
                assert(hay@.subrange(k as int, k + needle@.len()) =~= needle@);
            }
            return true;
        }
        proof {
            assert(hay@.subrange(k as int, k + needle@.len()) != needle@) by {
                let j2 = choose|j2: int| 0 <= j2 < n && hay@[k + j2] != needle@[j2];
                assert(hay@.subrange(k as int, k + needle@.len())[j2] == hay@[k + j2]);
            }
        }
        k = k + 1;
    }
    proof {
        if contains_sub(hay@, needle@) {
            let k2 = choose|k2: int|
                0 <= k2 && k2 + needle@.len() <= hay@.len() && #[trigger] hay@.subrange(
                    k2,
                    k2 + needle@.len(),
                ) == needle@;
            assert(k2 < k);
        }
    }
    false
}

/// An ASCII string as a zero-padded fixed-width name field; `None` when it
/// does not fit or is not ASCII.
pub fn padded_name(s: &str, width: usize) -> (r: Option<Vec<u8>>)
    ensures
        match r {
            Some(b) => {
                &&& s.is_ascii()
                &&& s.spec_bytes().len() <= width
                &&& b@ == pad_zero(s.spec_bytes(), width as int)
                &&& b@.len() == width
            },
            None => !s.is_ascii() || s.spec_bytes().len() > width,
        },
{
    if !s.is_ascii() {
        return None;
    }
    let mut b = slice_to_vec(s.as_bytes());
    if b.len() > width {
        return None;
    }
    let ghost sb = s.spec_bytes();
    proof {
        assert(pad_zero(sb, sb.len() as int) =~= sb);
    }
    while b.len() < width
        invariant
            sb.len() <= width,
            sb.len() <= b@.len() <= width,
            b@ == pad_zero(sb, b@.len() as int),
        decreases width - b@.len(),
    {
        b.push(0);
        proof {
            assert(pad_zero(sb, b@.len() as int) =~= pad_zero(
                sb,
                (b@.len() - 1) as int,
            ).push(0u8));
        }
    }
    Some(b)
}

} // verus!
