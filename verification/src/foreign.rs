//! The trusted boundary: the two outside calls the extractor relies on.
//! Everything else in the crate is verified against these contracts.
use vstd::prelude::*;

verus! {

/// Relies on `String::from_utf8` (std): it succeeds exactly on valid UTF-8
/// input and returns the decoded character sequence, per vstd's UTF-8 model.
#[verifier::external_body]
pub fn utf8_to_string(b: Vec<u8>) -> (r: Option<String>)
    ensures
        vstd::utf8::valid_utf8(b@) ==> match r {
            Some(s) => s@ == vstd::utf8::decode_utf8(b@),
            None => false,
        },
        !vstd::utf8::valid_utf8(b@) ==> r is None,
{
    String::from_utf8(b).ok()
}

/// What `miniz_oxide::inflate::decompress_to_vec_zlib` returns for a given
/// input: `None` where the stream is rejected, otherwise the inflated bytes.
pub uninterp spec fn zlib_inflate(s: Seq<u8>) -> Option<Seq<u8>>;

/// Relies on `miniz_oxide::inflate::decompress_to_vec_zlib`: the result is a
/// function of the input bytes alone; a malformed zlib stream yields an
/// error, which this wrapper maps to `None`.
#[verifier::external_body]
pub fn inflate_zlib(data: &[u8]) -> (r: Option<Vec<u8>>)
    ensures
        match r {
            Some(v) => zlib_inflate(data@) == Some(v@),
            None => zlib_inflate(data@) is None,
        },
{
    match miniz_oxide::inflate::decompress_to_vec_zlib(data) {
        Ok(v) => Some(v),
        Err(_) => None,
    }
}

} // verus!
