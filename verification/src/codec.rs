//! Trusted wrappers around the two decompression codecs.
//!
//! What each codec returns on given bytes takes pages to state, but it is
//! a function of those bytes alone, so each result is given a name; the
//! wrappers promise no more than that the call returns the named result.

use vstd::prelude::*;

use crate::manifest::PayloadError;

verus! {

/// The decompression of `data` as one xz-framed stream, or `None` where
/// the bytes do not decompress.
pub uninterp spec fn xz_decoded(data: Seq<u8>) -> Option<Seq<u8>>;

/// The decompression of `data` as one bzip2-framed stream, or `None`
/// where the bytes do not decompress.
pub uninterp spec fn bz_decoded(data: Seq<u8>) -> Option<Seq<u8>>;

/// Relies on xz2::read::XzDecoder (xz2 0.1): reading it to the end yields
/// the decompression of one xz stream of the input slice, a result that
/// depends on the input bytes alone; corrupt input yields an error.
#[verifier::external_body]
pub(crate) fn xz_decompress(data: &[u8]) -> (r: Result<Vec<u8>, PayloadError>)
    ensures
        match r {
            Ok(v) => xz_decoded(data@) == Some(v@),
            Err(e) => xz_decoded(data@) is None && e == PayloadError::CodecError,
        },
{
    let mut out: Vec<u8> = Vec::new();
    match std::io::Read::read_to_end(&mut xz2::read::XzDecoder::new(data), &mut out) {
        Ok(_) => Ok(out),
        Err(_) => Err(PayloadError::CodecError),
    }
}

/// Relies on bzip2::read::BzDecoder (bzip2 0.6): reading it to the end
/// yields the decompression of one bzip2 stream of the input slice, a
/// result that depends on the input bytes alone; corrupt input yields an
/// error.
#[verifier::external_body]
pub(crate) fn bz_decompress(data: &[u8]) -> (r: Result<Vec<u8>, PayloadError>)
    ensures
        match r {
            Ok(v) => bz_decoded(data@) == Some(v@),
            Err(e) => bz_decoded(data@) is None && e == PayloadError::CodecError,
        },
{
    let mut out: Vec<u8> = Vec::new();
    match std::io::Read::read_to_end(&mut bzip2::read::BzDecoder::new(data), &mut out) {
        Ok(_) => Ok(out),
        Err(_) => Err(PayloadError::CodecError),
    }
}

} // verus!
