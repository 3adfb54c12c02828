//! Section codec: every section of the container is stored as
//! `checksum || IV || ciphertext`.
//!
//! The checksum is a digest of `IV || plaintext` (MD5 on PC, SHA-256 on
//! console); the ciphertext is the AES-128-CBC image of the plaintext under
//! the format's fixed key and the section's own IV.  A checksum mismatch is
//! not an error: it is surfaced as `is_valid == false` so that tooling can
//! still inspect and repair the decoded content.

use crate::crypto::{
    aes_cbc_dec, aes_cbc_decrypt, aes_cbc_enc, aes_cbc_encrypt, md5_digest, md5_of, sha256_digest,
    sha256_of,
};
use crate::layout::{SaveType, CHECKSUM_LEN_PC, CHECKSUM_LEN_PS, IV_LEN};
use crate::wire::{bytes_eq, fixed_width, lemma_fixed_width_id, push_bytes, take_bytes};
use vstd::prelude::*;

verus! {

/// One decoded section: the stored checksum, the stored IV, the decrypted
/// plaintext, and whether the stored checksum matches the plaintext.
pub struct Section {
    pub checksum: Vec<u8>,
    pub iv: Vec<u8>,
    pub plaintext: Vec<u8>,
    pub is_valid: bool,
}

/// The digest this variant checksums sections with, over `IV || plaintext`,
/// at the variant's checksum width.  The width adjustment is the identity
/// in practice (the digests have exactly that width); it is written out so
/// that the checksum's length is a fact of the specification.
pub open spec fn checksum_of(variant: SaveType, iv: Seq<u8>, pt: Seq<u8>) -> Seq<u8> {
    match variant {
        SaveType::PC => fixed_width(md5_of(iv + pt), CHECKSUM_LEN_PC as int),
        SaveType::Playstation => fixed_width(sha256_of(iv + pt), CHECKSUM_LEN_PS as int),
    }
}

/// The on-disk image of a section with the given IV and plaintext:
/// a fresh checksum, the IV, and the ciphertext.  The width adjustment on
/// the ciphertext is the identity in practice (CBC without padding keeps
/// the length); it is written out so that the image's length is a fact of
/// the specification.
pub open spec fn spec_encode_section(
    variant: SaveType,
    key: Seq<u8>,
    iv: Seq<u8>,
    pt: Seq<u8>,
) -> Seq<u8> {
    checksum_of(variant, iv, pt) + iv + fixed_width(aes_cbc_enc(key, iv, pt), pt.len() as int)
}

/// Compute this variant's checksum over `IV || plaintext`.
pub fn compute_checksum(variant: SaveType, iv: &Vec<u8>, pt: &Vec<u8>) -> (r: Vec<u8>)
    ensures
        r@ == checksum_of(variant, iv@, pt@),
        r@.len() == variant.spec_checksum_len(),
{
    let mut data: Vec<u8> = Vec::new();
    push_bytes(&mut data, iv);
    push_bytes(&mut data, pt);
    proof {
        assert(data@ =~= iv@ + pt@);
    }
    match variant {
        SaveType::PC => {
            let r = md5_digest(&data);
            proof {
                lemma_fixed_width_id(md5_of(iv@ + pt@), CHECKSUM_LEN_PC as int);
            }
            r
        },
        SaveType::Playstation => {
            let r = sha256_digest(&data);
            proof {
                lemma_fixed_width_id(sha256_of(iv@ + pt@), CHECKSUM_LEN_PS as int);
            }
            r
        },
    }
}

/// Split a raw section into its checksum, IV and ciphertext windows,
/// decrypt the ciphertext, and verify the checksum.
pub fn decode_section(raw: &Vec<u8>, variant: SaveType, pt_len: usize, key: &Vec<u8>) -> (s:
    Section)
    requires
        raw@.len() == variant.spec_section_len(pt_len as int),
        pt_len % 16 == 0,
        key@.len() == 16,
    ensures
        s.checksum@ == raw@.subrange(0, variant.spec_checksum_len() as int),
        s.iv@ == raw@.subrange(
            variant.spec_checksum_len() as int,
            variant.spec_checksum_len() + IV_LEN,
        ),
        s.iv@.len() == IV_LEN,
        s.plaintext@ == aes_cbc_dec(
            key@,
            s.iv@,
            raw@.subrange(variant.spec_checksum_len() + IV_LEN, raw@.len() as int),
        ),
        s.plaintext@.len() == pt_len,
        s.is_valid == (s.checksum@ == checksum_of(variant, s.iv@, s.plaintext@)),
{
    let ck_len = variant.checksum_len();
    let checksum = take_bytes(raw, 0, ck_len);
    let iv = take_bytes(raw, ck_len, IV_LEN);
    let ct = take_bytes(raw, ck_len + IV_LEN, pt_len);
    let plaintext = aes_cbc_decrypt(key, &iv, &ct);
    let expected = compute_checksum(variant, &iv, &plaintext);
    let is_valid = bytes_eq(&checksum, &expected);
    Section { checksum, iv, plaintext, is_valid }
}

/// Re-encode a section from its IV and plaintext: recompute the checksum
/// over the current plaintext, keep the IV, re-encrypt.
pub fn encode_section(variant: SaveType, key: &Vec<u8>, iv: &Vec<u8>, pt: &Vec<u8>) -> (r: Vec<
    u8,
>)
    requires
        key@.len() == 16,
        iv@.len() == IV_LEN,
        pt@.len() % 16 == 0,
    ensures
        r@ == spec_encode_section(variant, key@, iv@, pt@),
        r@.len() == variant.spec_section_len(pt@.len() as int),
{
    let checksum = compute_checksum(variant, iv, pt);
    let ct = aes_cbc_encrypt(key, iv, pt);
    proof {
        lemma_fixed_width_id(aes_cbc_enc(key@, iv@, pt@), pt@.len() as int);
    }
    let mut out: Vec<u8> = Vec::new();
    push_bytes(&mut out, &checksum);
    push_bytes(&mut out, iv);
    push_bytes(&mut out, &ct);
    out
}

} // verus!
