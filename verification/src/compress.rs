//! Compression boundary.
//!
//! Successful response payloads travel zstd-compressed; error payloads do
//! not.  The compressor is reached only through the two wrappers below.

use vstd::prelude::*;

verus! {

/// What zstd's `encode_all` produces from the given bytes at the given
/// level.
pub uninterp spec fn zstd_compress_of(data: Seq<u8>, level: int) -> Seq<u8>;

/// What zstd's `decode_all` returns on the given bytes; `None` stands for a
/// decoding error.
pub uninterp spec fn zstd_decompress_of(data: Seq<u8>) -> Option<Seq<u8>>;

/// Relies on zstd's `encode_all`: the compressed frame is a function of the
/// input bytes and the level, and `decode_all` restores the input from it.
#[verifier::external_body]
pub(crate) fn zstd_compress(data: &Vec<u8>, level: i32) -> (r: Option<Vec<u8>>)
    ensures
        r is Some ==> r->0@ == zstd_compress_of(data@, level as int),
        r is Some ==> zstd_decompress_of(r->0@) == Some(data@),
{
    match zstd::stream::encode_all(data.as_slice(), level) {
        Ok(v) => Some(v),
        Err(_) => None,
    }
}

/// Relies on zstd's `decode_all`: its outcome is a function of the
/// compressed bytes alone.
#[verifier::external_body]
pub(crate) fn zstd_decompress(data: &Vec<u8>) -> (r: Option<Vec<u8>>)
    ensures
        r is Some <==> zstd_decompress_of(data@) is Some,
        r is Some ==> r->0@ == zstd_decompress_of(data@)->0,
{
    match zstd::stream::decode_all(data.as_slice()) {
        Ok(v) => Some(v),
        Err(_) => None,
    }
}

} // verus!
