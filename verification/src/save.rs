//! The outer save container: a header followed by the profile-summary
//! section, the regulation section, and ten character sections, in that
//! fixed order.
//!
//! Parsing decodes every section and keeps each section's on-disk image.
//! Serialization re-encodes only sections whose decoded state was edited;
//! every other section is emitted byte-for-byte as loaded, so a container
//! that was never edited serializes back to exactly its input bytes.

use crate::character::{parse_char_pt, UserDataX};
use crate::crypto::{aes_cbc_dec, save_key, spec_save_key};
use crate::layout::{
    CHAR_PT_LEN, CHAR_SLOTS, HEADER_LEN_PS, IV_LEN, PROFILE_PT_LEN, REGULATION_PT_LEN, SaveType,
    TOTAL_LEN_PC, TOTAL_LEN_PS,
};
use crate::profile::{parse_profile_pt, ser_profile_pt, UserData10};
use crate::regulation::UserData11;
use crate::section::{decode_section, encode_section, spec_encode_section};
use crate::wire::{push_bytes, take_bytes};
use vstd::prelude::*;
use vstd::slice::slice_to_vec;

verus! {

/// Fatal errors of the container codec: a load that fails structurally
/// returns one of these and no partial container.
#[derive(Debug, PartialEq, Eq, Structural, Clone, Copy)]
pub enum SaveParseError {
    /// The input is not one of the two known file lengths; the offending
    /// length is carried.
    InvalidLength(usize),
    /// The character record in the given slot has inconsistent
    /// variable-length counts.
    MalformedCharacterRecord(usize),
}

/// The decoded container.
pub struct Save {
    pub header: Vec<u8>,
    pub user_data_10: UserData10,
    pub user_data_11: UserData11,
    pub user_data_x: Vec<UserDataX>,
}

/// The variant a file of length `n` belongs to, if any.
pub open spec fn variant_of_len(n: int) -> Option<SaveType> {
    if n == TOTAL_LEN_PC {
        Some(SaveType::PC)
    } else if n == TOTAL_LEN_PS {
        Some(SaveType::Playstation)
    } else {
        None
    }
}

/// Offset of the profile-summary section.
pub open spec fn profile_off(v: SaveType) -> int {
    v.spec_header_len() as int
}

/// Offset of the regulation section.
pub open spec fn regulation_off(v: SaveType) -> int {
    profile_off(v) + v.spec_section_len(PROFILE_PT_LEN as int)
}

/// Offset of the first character section.
pub open spec fn chars_off(v: SaveType) -> int {
    regulation_off(v) + v.spec_section_len(REGULATION_PT_LEN as int)
}

/// On-disk length of one character section.
pub open spec fn char_section_len(v: SaveType) -> int {
    v.spec_section_len(CHAR_PT_LEN as int)
}

/// The decrypted plaintext of the section stored at `off` in file image
/// `b`, given its plaintext length.
pub open spec fn slot_pt(v: SaveType, b: Seq<u8>, off: int, pt_len: int) -> Seq<u8> {
    let ck = v.spec_checksum_len() as int;
    aes_cbc_dec(
        spec_save_key(),
        b.subrange(off + ck, off + ck + IV_LEN),
        b.subrange(off + ck + IV_LEN, off + ck + IV_LEN + pt_len),
    )
}

/// The decrypted plaintext of character slot `i` in file image `b`.
pub open spec fn char_slot_pt(v: SaveType, b: Seq<u8>, i: int) -> Seq<u8> {
    slot_pt(v, b, chars_off(v) + i * char_section_len(v), CHAR_PT_LEN as int)
}

/// The bytes the profile-summary section serializes to: its loaded image
/// if it is clean, or a re-encode of its current state with preserved IV.
pub open spec fn profile_section_bytes(v: SaveType, u: UserData10) -> Seq<u8> {
    if u.dirty {
        spec_encode_section(v, spec_save_key(), u.iv@, ser_profile_pt(u))
    } else {
        u.raw@
    }
}

/// The bytes a character section serializes to: its loaded image if it is
/// clean, or a re-encode of its current state with preserved IV.
pub open spec fn char_section_bytes(v: SaveType, u: UserDataX) -> Seq<u8> {
    if u.dirty {
        spec_encode_section(v, spec_save_key(), u.iv@, u.plaintext())
    } else {
        u.raw@
    }
}

/// The concatenated images of the first `n` character sections.
pub open spec fn char_sections_prefix(v: SaveType, uds: Seq<UserDataX>, n: int) -> Seq<u8>
    decreases n,
{
    if n <= 0 {
        Seq::empty()
    } else {
        char_sections_prefix(v, uds, n - 1) + char_section_bytes(v, uds[n - 1])
    }
}

/// The concatenated images of the character sections from `n` on.
pub open spec fn char_sections_from(v: SaveType, uds: Seq<UserDataX>, n: int) -> Seq<u8>
    decreases uds.len() - n,
{
    if n < 0 || n >= uds.len() {
        Seq::empty()
    } else {
        char_section_bytes(v, uds[n]) + char_sections_from(v, uds, n + 1)
    }
}

/// The bytes the whole container serializes to.
pub open spec fn save_bytes(s: Save) -> Seq<u8> {
    s.header@ + profile_section_bytes(s.spec_variant(), s.user_data_10) + s.user_data_11.raw@
        + char_sections_prefix(s.spec_variant(), s.user_data_x@, CHAR_SLOTS as int)
}

impl Save {
    /// The variant, read off the header length alone.
    pub open spec fn spec_variant(self) -> SaveType {
        if self.header@.len() == HEADER_LEN_PS {
            SaveType::Playstation
        } else {
            SaveType::PC
        }
    }

    /// The variant, read off the header length alone.
    pub fn variant(&self) -> (v: SaveType)
        ensures
            v == self.spec_variant(),
    {
        if self.header.len() == HEADER_LEN_PS {
            SaveType::Playstation
        } else {
            SaveType::PC
        }
    }

    /// Everything the rest of the crate may assume about a loaded
    /// container.
    pub open spec fn wf(self) -> bool {
        &&& self.header@.len() == self.spec_variant().spec_header_len()
        &&& self.user_data_10.wf(self.spec_variant())
        &&& self.user_data_11.wf(self.spec_variant())
        &&& self.user_data_x@.len() == CHAR_SLOTS
        &&& forall|i: int|
            0 <= i < CHAR_SLOTS ==> (#[trigger] self.user_data_x@[i]).wf(self.spec_variant())
    }

    /// No section was edited since load.
    pub open spec fn all_clean(self) -> bool {
        &&& !self.user_data_10.dirty
        &&& forall|i: int| 0 <= i < CHAR_SLOTS ==> !(#[trigger] self.user_data_x@[i]).dirty
    }
}

/// Multiplication is monotone in the left factor.
proof fn lemma_mul_le(a: int, b: int, c: int)
    requires
        a <= b,
        0 <= c,
    ensures
        a * c <= b * c,
{
    assert(a <= b && 0 <= c ==> a * c <= b * c) by (nonlinear_arith);
}

proof fn lemma_mul_step(a: int, c: int)
    ensures
        (a + 1) * c == a * c + c,
{
    assert((a + 1) * c == a * c + c) by (nonlinear_arith);
}

pub proof fn lemma_profile_section_bytes_len(v: SaveType, u: UserData10)
    requires
        u.wf(v),
    ensures
        profile_section_bytes(v, u).len() == v.spec_section_len(PROFILE_PT_LEN as int),
{
    if u.dirty {
        u.lemma_plaintext_len(v);
    }
}

pub proof fn lemma_char_section_bytes_len(v: SaveType, u: UserDataX)
    requires
        u.wf(v),
    ensures
        char_section_bytes(v, u).len() == char_section_len(v),
{
    if u.dirty {
        u.lemma_plaintext_len();
    }
}

pub proof fn lemma_char_prefix_len(v: SaveType, uds: Seq<UserDataX>, n: int)
    requires
        0 <= n <= uds.len(),
        forall|i: int| 0 <= i < uds.len() ==> (#[trigger] uds[i]).wf(v),
    ensures
        char_sections_prefix(v, uds, n).len() == n * char_section_len(v),
    decreases n,
{
    if n > 0 {
        lemma_char_prefix_len(v, uds, n - 1);
        lemma_char_section_bytes_len(v, uds[n - 1]);
        lemma_mul_step(n - 1, char_section_len(v));
    } else {
        assert(n * char_section_len(v) == 0) by (nonlinear_arith)
            requires
                n == 0,
        ;
    }
}

/// Splitting the full concatenation at slot `n`.
pub proof fn lemma_char_prefix_from(v: SaveType, uds: Seq<UserDataX>, n: int)
    requires
        0 <= n <= uds.len(),
    ensures
        char_sections_prefix(v, uds, uds.len() as int) == char_sections_prefix(v, uds, n)
            + char_sections_from(v, uds, n),
    decreases uds.len() - n,
{
    if n == uds.len() {
        assert(char_sections_from(v, uds, n) =~= Seq::<u8>::empty());
        assert(char_sections_prefix(v, uds, n) + Seq::<u8>::empty() =~= char_sections_prefix(
            v,
            uds,
            n,
        ));
    } else {
        lemma_char_prefix_from(v, uds, n + 1);
        assert(char_sections_prefix(v, uds, n + 1) =~= char_sections_prefix(v, uds, n)
            + char_section_bytes(v, uds[n]));
        assert((char_sections_prefix(v, uds, n) + char_section_bytes(v, uds[n]))
            + char_sections_from(v, uds, n + 1) =~= char_sections_prefix(v, uds, n) + (
        char_section_bytes(v, uds[n]) + char_sections_from(v, uds, n + 1)));
    }
}

/// The prefix depends only on the slots it covers.
pub proof fn lemma_char_prefix_congruence(
    v: SaveType,
    uds1: Seq<UserDataX>,
    uds2: Seq<UserDataX>,
    n: int,
)
    requires
        0 <= n <= uds1.len(),
        n <= uds2.len(),
        forall|i: int| 0 <= i < n ==> uds1[i] == uds2[i],
    ensures
        char_sections_prefix(v, uds1, n) == char_sections_prefix(v, uds2, n),
    decreases n,
{
    if n > 0 {
        lemma_char_prefix_congruence(v, uds1, uds2, n - 1);
    }
}

/// The suffix depends only on the slots it covers.
pub proof fn lemma_char_from_congruence(
    v: SaveType,
    uds1: Seq<UserDataX>,
    uds2: Seq<UserDataX>,
    n: int,
)
    requires
        0 <= n,
        uds1.len() == uds2.len(),
        forall|i: int| n <= i < uds1.len() ==> uds1[i] == uds2[i],
    ensures
        char_sections_from(v, uds1, n) == char_sections_from(v, uds2, n),
    decreases uds1.len() - n,
{
    if n < uds1.len() {
        lemma_char_from_congruence(v, uds1, uds2, n + 1);
    }
}

impl Save {
    /// Parse a whole save file.
    ///
    /// The input's length alone decides the variant; a length that is
    /// neither known total is a fatal error.  Character records with
    /// inconsistent variable-length counts are fatal errors naming the
    /// slot.  Checksum mismatches are not errors: they surface as
    /// `is_valid == false` on the affected section.
    ///
    /// On success the container is well-formed, clean, and serializes
    /// back to exactly the input bytes.
    pub fn from_slice(bytes: &[u8]) -> (r: Result<Save, SaveParseError>)
        ensures
            match r {
                Ok(s) => {
                    let v = s.spec_variant();
                    &&& variant_of_len(bytes@.len() as int) == Some(v)
                    &&& s.wf()
                    &&& s.all_clean()
                    &&& save_bytes(s) == bytes@
                    &&& s.header@ == bytes@.subrange(0, v.spec_header_len() as int)
                    &&& ser_profile_pt(s.user_data_10) == slot_pt(
                        v,
                        bytes@,
                        profile_off(v),
                        PROFILE_PT_LEN as int,
                    )
                    &&& s.user_data_10.steam_id == crate::wire::u64_at(
                        slot_pt(v, bytes@, profile_off(v), PROFILE_PT_LEN as int),
                        0,
                    )
                    &&& s.user_data_11.plaintext@ == slot_pt(
                        v,
                        bytes@,
                        regulation_off(v),
                        REGULATION_PT_LEN as int,
                    )
                    &&& forall|i: int|
                        0 <= i < CHAR_SLOTS ==> (#[trigger] s.user_data_x@[i]).plaintext()
                            == char_slot_pt(v, bytes@, i)
                },
                Err(SaveParseError::InvalidLength(n)) => {
                    &&& n == bytes@.len()
                    &&& variant_of_len(bytes@.len() as int) is None
                },
                Err(SaveParseError::MalformedCharacterRecord(i)) => {
                    &&& variant_of_len(bytes@.len() as int) is Some
                    &&& 0 <= i < CHAR_SLOTS
                    &&& !crate::character::char_counts_ok(
                        char_slot_pt(
                            variant_of_len(bytes@.len() as int)->0,
                            bytes@,
                            i as int,
                        ),
                    )
                },
            },
            r is Ok <==> {
                &&& variant_of_len(bytes@.len() as int) is Some
                &&& forall|i: int|
                    0 <= i < CHAR_SLOTS ==> crate::character::char_counts_ok(
                        char_slot_pt(variant_of_len(bytes@.len() as int)->0, bytes@, i),
                    )
            },
    {
        let b = slice_to_vec(bytes);
        let n = b.len();
        let variant = if n == TOTAL_LEN_PS {
            SaveType::Playstation
        } else if n == TOTAL_LEN_PC {
            SaveType::PC
        } else {
            return Err(SaveParseError::InvalidLength(n));
        };
        let key = save_key();
        let hl = variant.header_len();
        let ck = variant.checksum_len();
        let header = take_bytes(&b, 0, hl);
        let prof_sect = ck + IV_LEN + PROFILE_PT_LEN;
        let reg_sect = ck + IV_LEN + REGULATION_PT_LEN;
        let char_sect = ck + IV_LEN + CHAR_PT_LEN;
        let prof_start = hl;
        let reg_start = hl + prof_sect;
        let chars_start = reg_start + reg_sect;
        let raw10 = take_bytes(&b, prof_start, prof_sect);
        let s10 = decode_section(&raw10, variant, PROFILE_PT_LEN, &key);
        proof {
            assert(raw10@.subrange(ck as int, ck + IV_LEN) =~= b@.subrange(
                prof_start + ck,
                prof_start + ck + IV_LEN,
            ));
            assert(raw10@.subrange(ck + IV_LEN, raw10@.len() as int) =~= b@.subrange(
                prof_start + ck + IV_LEN,
                prof_start + ck + IV_LEN + PROFILE_PT_LEN,
            ));
        }
        let ud10 = parse_profile_pt(&s10.plaintext, raw10, s10.iv, s10.is_valid);
        let raw11 = take_bytes(&b, reg_start, reg_sect);
        let s11 = decode_section(&raw11, variant, REGULATION_PT_LEN, &key);
        proof {
            assert(raw11@.subrange(ck as int, ck + IV_LEN) =~= b@.subrange(
                reg_start + ck,
                reg_start + ck + IV_LEN,
            ));
            assert(raw11@.subrange(ck + IV_LEN, raw11@.len() as int) =~= b@.subrange(
                reg_start + ck + IV_LEN,
                reg_start + ck + IV_LEN + REGULATION_PT_LEN,
            ));
        }
        let ud11 = UserData11 {
            raw: raw11,
            iv: s11.iv,
            is_valid: s11.is_valid,
            plaintext: s11.plaintext,
        };
        let mut user_data_x: Vec<UserDataX> = Vec::new();
        proof {
            assert(char_sections_prefix(variant, user_data_x@, 0) =~= b@.subrange(
                chars_start as int,
                chars_start as int,
            ));
        }
        let mut i: usize = 0;
        while i < CHAR_SLOTS
            invariant
                i <= CHAR_SLOTS,
                b@ == bytes@,
                b@.len() == variant.spec_total_len(),
                variant_of_len(b@.len() as int) == Some(variant),
                key@ == spec_save_key(),
                ck == variant.spec_checksum_len(),
                char_sect == char_section_len(variant),
                chars_start == chars_off(variant),
                chars_start + CHAR_SLOTS * char_sect == b@.len(),
                user_data_x@.len() == i,
                forall|j: int|
                    0 <= j < i ==> (#[trigger] user_data_x@[j]).wf(variant),
                forall|j: int| 0 <= j < i ==> !(#[trigger] user_data_x@[j]).dirty,
                forall|j: int|
                    0 <= j < i ==> (#[trigger] user_data_x@[j]).plaintext() == char_slot_pt(
                        variant,
                        b@,
                        j,
                    ),
                forall|j: int|
                    0 <= j < i ==> crate::character::char_counts_ok(
                        char_slot_pt(variant, b@, j),
                    ),
                char_sections_prefix(variant, user_data_x@, i as int) == b@.subrange(
                    chars_start as int,
                    chars_start + i * char_sect,
                ),
            decreases CHAR_SLOTS - i,
        {
            proof {
                lemma_mul_le(i + 1, CHAR_SLOTS as int, char_sect as int);
                lemma_mul_step(i as int, char_sect as int);
            }
            let off = chars_start + i * char_sect;
            let rawx = take_bytes(&b, off, char_sect);
            let sx = decode_section(&rawx, variant, CHAR_PT_LEN, &key);
            proof {
                assert(rawx@.subrange(ck as int, ck + IV_LEN) =~= b@.subrange(
                    off + ck,
                    off + ck + IV_LEN,
                ));
                assert(rawx@.subrange(ck + IV_LEN, rawx@.len() as int) =~= b@.subrange(
                    off + ck + IV_LEN,
                    off + ck + IV_LEN + CHAR_PT_LEN,
                ));
            }
            let ghost prev = user_data_x@;
            match parse_char_pt(&sx.plaintext, rawx, sx.iv, sx.is_valid) {
                Some(u) => {
                    user_data_x.push(u);
                    proof {
                        assert(user_data_x@ =~= prev.push(u));
                        assert(char_sections_prefix(variant, user_data_x@, i as int)
                            == char_sections_prefix(variant, prev, i as int)) by {
                            lemma_char_prefix_congruence(
                                variant,
                                user_data_x@,
                                prev,
                                i as int,
                            );
                        }
                        assert(char_sections_prefix(variant, user_data_x@, i + 1 as int)
                            =~= b@.subrange(
                            chars_start as int,
                            chars_start + (i + 1) * char_sect,
                        ));
                    }
                },
                None => {
                    return Err(SaveParseError::MalformedCharacterRecord(i));
                },
            }
            i = i + 1;
        }
        let s = Save { header, user_data_10: ud10, user_data_11: ud11, user_data_x };
        proof {
            assert(s.spec_variant() == variant);
            assert(save_bytes(s) =~= b@);
        }
        Ok(s)
    }

    /// Serialize the whole container: the header verbatim, then every
    /// section in fixed order, each re-encoded only if it was edited.
    pub fn write_to_vec(&self) -> (r: Vec<u8>)
        requires
            self.wf(),
        ensures
            r@ == save_bytes(*self),
            r@.len() == self.spec_variant().spec_total_len(),
    {
        let variant = self.variant();
        let key = save_key();
        let mut out: Vec<u8> = Vec::new();
        push_bytes(&mut out, &self.header);
        if self.user_data_10.dirty {
            let pt = self.user_data_10.serialize_pt();
            proof {
                self.user_data_10.lemma_plaintext_len(variant);
            }
            let sec = encode_section(variant, &key, &self.user_data_10.iv, &pt);
            push_bytes(&mut out, &sec);
        } else {
            push_bytes(&mut out, &self.user_data_10.raw);
        }
        push_bytes(&mut out, &self.user_data_11.raw);
        let ghost front = out@;
        let mut i: usize = 0;
        while i < CHAR_SLOTS
            invariant
                i <= CHAR_SLOTS,
                self.wf(),
                variant == self.spec_variant(),
                key@ == spec_save_key(),
                out@ == front + char_sections_prefix(variant, self.user_data_x@, i as int),
            decreases CHAR_SLOTS - i,
        {
            proof {
                lemma_char_section_bytes_len(variant, self.user_data_x@[i as int]);
            }
            let u = &self.user_data_x[i];
            if u.dirty {
                let pt = u.serialize_pt();
                let sec = encode_section(variant, &key, &u.iv, &pt);
                push_bytes(&mut out, &sec);
            } else {
                push_bytes(&mut out, &u.raw);
            }
            i = i + 1;
        }
        proof {
            assert(out@ =~= save_bytes(*self));
            lemma_profile_section_bytes_len(variant, self.user_data_10);
            lemma_char_prefix_len(variant, self.user_data_x@, CHAR_SLOTS as int);
        }
        out
    }
}

/// Editing character slot `i` leaves every byte outside that slot's
/// section window unchanged in the serialized container: the bytes before
/// the window and the bytes after it are identical for any two
/// well-formed containers that differ only in slot `i`.
pub proof fn lemma_section_isolation(s1: Save, s2: Save, i: int)
    requires
        s1.wf(),
        s2.wf(),
        0 <= i < CHAR_SLOTS,
        s1.header == s2.header,
        s1.user_data_10 == s2.user_data_10,
        s1.user_data_11 == s2.user_data_11,
        forall|j: int| 0 <= j < CHAR_SLOTS && j != i ==> s1.user_data_x@[j] == s2.user_data_x@[j],
    ensures
        save_bytes(s1).len() == save_bytes(s2).len(),
        save_bytes(s1).subrange(0, chars_off(s1.spec_variant()) + i * char_section_len(
            s1.spec_variant(),
        )) == save_bytes(s2).subrange(
            0,
            chars_off(s1.spec_variant()) + i * char_section_len(s1.spec_variant()),
        ),
        save_bytes(s1).subrange(
            chars_off(s1.spec_variant()) + (i + 1) * char_section_len(s1.spec_variant()),
            save_bytes(s1).len() as int,
        ) == save_bytes(s2).subrange(
            chars_off(s1.spec_variant()) + (i + 1) * char_section_len(s1.spec_variant()),
            save_bytes(s2).len() as int,
        ),
{
    let v = s1.spec_variant();
    assert(s2.spec_variant() == v);
    lemma_profile_section_bytes_len(v, s1.user_data_10);
    lemma_char_prefix_len(v, s1.user_data_x@, CHAR_SLOTS as int);
    lemma_char_prefix_len(v, s2.user_data_x@, CHAR_SLOTS as int);
    lemma_char_prefix_len(v, s1.user_data_x@, i);
    lemma_char_prefix_len(v, s2.user_data_x@, i);
    lemma_char_prefix_from(v, s1.user_data_x@, i + 1);
    lemma_char_prefix_from(v, s2.user_data_x@, i + 1);
    lemma_char_prefix_congruence(v, s1.user_data_x@, s2.user_data_x@, i);
    lemma_char_from_congruence(v, s1.user_data_x@, s2.user_data_x@, i + 1);
    lemma_char_prefix_len(v, s1.user_data_x@, i + 1);
    lemma_char_prefix_len(v, s2.user_data_x@, i + 1);
    lemma_char_section_bytes_len(v, s1.user_data_x@[i]);
    lemma_char_section_bytes_len(v, s2.user_data_x@[i]);
    assert(char_sections_prefix(v, s1.user_data_x@, i + 1) == char_sections_prefix(
        v,
        s1.user_data_x@,
        i,
    ) + char_section_bytes(v, s1.user_data_x@[i]));
    assert(char_sections_prefix(v, s2.user_data_x@, i + 1) == char_sections_prefix(
        v,
        s2.user_data_x@,
        i,
    ) + char_section_bytes(v, s2.user_data_x@[i]));
    assert(save_bytes(s1).subrange(0, chars_off(v) + i * char_section_len(v)) =~= save_bytes(
        s2,
    ).subrange(0, chars_off(v) + i * char_section_len(v)));
    assert(save_bytes(s1).subrange(
        chars_off(v) + (i + 1) * char_section_len(v),
        save_bytes(s1).len() as int,
    ) =~= save_bytes(s2).subrange(
        chars_off(v) + (i + 1) * char_section_len(v),
        save_bytes(s2).len() as int,
    ));
}

} // verus!
