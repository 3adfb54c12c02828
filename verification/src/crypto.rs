//! Trusted wrappers around the cipher and digest primitives of the save
//! format: AES-128-CBC for the section bodies, MD5 for PC checksums and
//! SHA-256 for console checksums.
//!
//! The results of these primitives are named, not re-specified: nothing in
//! this crate re-implements them, so their values are opaque functions of
//! the wrapper's arguments alone.

use aes::cipher::block_padding::NoPadding;
use aes::cipher::generic_array::GenericArray;
use aes::cipher::{BlockDecryptMut, BlockEncryptMut, KeyIvInit};
use md5::Digest;
use vstd::prelude::*;

verus! {

/// The ciphertext that AES-128-CBC (no padding) produces from `key`, `iv`
/// and a block-aligned plaintext.
pub uninterp spec fn aes_cbc_enc(key: Seq<u8>, iv: Seq<u8>, pt: Seq<u8>) -> Seq<u8>;

/// The plaintext that AES-128-CBC (no padding) produces from `key`, `iv`
/// and a block-aligned ciphertext.
pub uninterp spec fn aes_cbc_dec(key: Seq<u8>, iv: Seq<u8>, ct: Seq<u8>) -> Seq<u8>;

/// The MD5 digest (16 bytes) of `data`.
pub uninterp spec fn md5_of(data: Seq<u8>) -> Seq<u8>;

/// The SHA-256 digest (32 bytes) of `data`.
pub uninterp spec fn sha256_of(data: Seq<u8>) -> Seq<u8>;

/// Relies on `cbc::Encryptor<aes::Aes128>` with `NoPadding`: the ciphertext
/// is a function of key, IV and plaintext alone, it is as long as the
/// plaintext, and `cbc::Decryptor` inverts it (CBC decryption of CBC
/// encryption under the same key and IV is the identity on block-aligned
/// input).
#[verifier::external_body]
pub(crate) fn aes_cbc_encrypt(key: &Vec<u8>, iv: &Vec<u8>, pt: &Vec<u8>) -> (r: Vec<u8>)
    requires
        key@.len() == 16,
        iv@.len() == 16,
        pt@.len() % 16 == 0,
    ensures
        r@ == aes_cbc_enc(key@, iv@, pt@),
        r@.len() == pt@.len(),
        aes_cbc_dec(key@, iv@, r@) == pt@,
{
    let enc = cbc::Encryptor::<aes::Aes128>::new(
        GenericArray::from_slice(key),
        GenericArray::from_slice(iv),
    );
    enc.encrypt_padded_vec_mut::<NoPadding>(pt)
}

/// Relies on `cbc::Decryptor<aes::Aes128>` with `NoPadding`: the plaintext
/// is a function of key, IV and ciphertext alone and is as long as the
/// ciphertext.
#[verifier::external_body]
pub(crate) fn aes_cbc_decrypt(key: &Vec<u8>, iv: &Vec<u8>, ct: &Vec<u8>) -> (r: Vec<u8>)
    requires
        key@.len() == 16,
        iv@.len() == 16,
        ct@.len() % 16 == 0,
    ensures
        r@ == aes_cbc_dec(key@, iv@, ct@),
        r@.len() == ct@.len(),
{
    let dec = cbc::Decryptor::<aes::Aes128>::new(
        GenericArray::from_slice(key),
        GenericArray::from_slice(iv),
    );
    dec.decrypt_padded_vec_mut::<NoPadding>(ct).unwrap()
}

/// Relies on `md5::Md5::digest`: a 16-byte digest that is a function of the
/// input bytes alone.
#[verifier::external_body]
pub(crate) fn md5_digest(data: &Vec<u8>) -> (r: Vec<u8>)
    ensures
        r@ == md5_of(data@),
        r@.len() == 16,
{
    md5::Md5::digest(data).to_vec()
}

/// Relies on `sha2::Sha256::digest`: a 32-byte digest that is a function of
/// the input bytes alone.
#[verifier::external_body]
pub(crate) fn sha256_digest(data: &Vec<u8>) -> (r: Vec<u8>)
    ensures
        r@ == sha256_of(data@),
        r@.len() == 32,
{
    sha2::Sha256::digest(data).to_vec()
}

/// The fixed key the save format encrypts every section with.
pub fn save_key() -> (r: Vec<u8>)
    ensures
        r@ == spec_save_key(),
{
    let mut k: Vec<u8> = Vec::new();
    k.push(0x3a);
    k.push(0x7d);
    k.push(0x19);
    k.push(0xc2);
    k.push(0x5e);
    k.push(0x84);
    k.push(0xf0);
    k.push(0x61);
    k.push(0xb3);
    k.push(0x2f);
    k.push(0xd8);
    k.push(0x4b);
    k.push(0x96);
    k.push(0x07);
    k.push(0xe5);
    k.push(0xac);
    proof {
        assert(k@ =~= spec_save_key());
    }
    k
}

/// The fixed section key as a byte sequence.
pub open spec fn spec_save_key() -> Seq<u8> {
    seq![
        0x3au8,
        0x7du8,
        0x19u8,
        0xc2u8,
        0x5eu8,
        0x84u8,
        0xf0u8,
        0x61u8,
        0xb3u8,
        0x2fu8,
        0xd8u8,
        0x4bu8,
        0x96u8,
        0x07u8,
        0xe5u8,
        0xacu8,
    ]
}

} // verus!
