//! Trusted wrappers around the zlib compression that frames the regulation
//! archive's body.

use vstd::prelude::*;

verus! {

/// The zlib decompression of `data`, if `data` is a well-formed stream.
pub uninterp spec fn zlib_inflate_of(data: Seq<u8>) -> Option<Seq<u8>>;

/// The zlib compression of `data` at compression level `level`.
pub uninterp spec fn zlib_deflate_of(data: Seq<u8>, level: u8) -> Seq<u8>;

/// Relies on `miniz_oxide::inflate::decompress_to_vec_zlib`: the result is
/// a function of the input bytes alone; malformed input is an error.
#[verifier::external_body]
pub(crate) fn zlib_decompress(data: &Vec<u8>) -> (r: Option<Vec<u8>>)
    ensures
        match r {
            Some(out) => zlib_inflate_of(data@) == Some(out@),
            None => zlib_inflate_of(data@) is None,
        },
{
    match miniz_oxide::inflate::decompress_to_vec_zlib(data) {
        Ok(out) => Some(out),
        Err(_) => None,
    }
}

/// Relies on `miniz_oxide::deflate::compress_to_vec_zlib`: the result is a
/// function of the input bytes and the level alone, and
/// `decompress_to_vec_zlib` restores the input from it.
#[verifier::external_body]
pub(crate) fn zlib_compress(data: &Vec<u8>, level: u8) -> (r: Vec<u8>)
    ensures
        r@ == zlib_deflate_of(data@, level),
        zlib_inflate_of(r@) == Some(data@),
{
    miniz_oxide::deflate::compress_to_vec_zlib(data, level)
}

} // verus!
