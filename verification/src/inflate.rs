//! Deflate streams, with and without the zlib wrapper.
//!
//! The streams are inflated by the `flate2` crate. What it gives for a
//! sequence of bytes is named here and not described further.

use crate::error::Error;
use vstd::prelude::*;

verus! {

/// What inflating `data` as a zlib stream gives: the bytes, or `None` where
/// the stream is damaged.
pub uninterp spec fn zlib_inflated(data: Seq<u8>) -> Option<Seq<u8>>;

/// What inflating `data` as a deflate stream without a wrapper gives: the
/// bytes, or `None` where the stream is damaged.
pub uninterp spec fn deflate_inflated(data: Seq<u8>) -> Option<Seq<u8>>;

/// The error type of `std::io`.
#[verifier::external_type_specification]
#[verifier::external_body]
pub struct ExIoError(std::io::Error);

/// Inflates a zlib stream.
///
/// Trusted: this reads `flate2::read::ZlibDecoder` over the slice to its
/// end. The result depends on the bytes alone.
#[verifier::external_body]
fn read_zlib(data: &[u8]) -> (r: Result<Vec<u8>, std::io::Error>)
    ensures
        r is Ok == zlib_inflated(data@) is Some,
        r is Ok ==> r->Ok_0@ == zlib_inflated(data@)->Some_0,
{
    let mut out = Vec::new();
    let mut decoder = flate2::read::ZlibDecoder::new(data);
    match std::io::Read::read_to_end(&mut decoder, &mut out) {
        Ok(_) => Ok(out),
        Err(e) => Err(e),
    }
}

/// Inflates a deflate stream that has no wrapper.
///
/// Trusted: this reads `flate2::read::DeflateDecoder` over the slice to its
/// end. The result depends on the bytes alone.
#[verifier::external_body]
fn read_deflate(data: &[u8]) -> (r: Result<Vec<u8>, std::io::Error>)
    ensures
        r is Ok == deflate_inflated(data@) is Some,
        r is Ok ==> r->Ok_0@ == deflate_inflated(data@)->Some_0,
{
    let mut out = Vec::new();
    let mut decoder = flate2::read::DeflateDecoder::new(data);
    match std::io::Read::read_to_end(&mut decoder, &mut out) {
        Ok(_) => Ok(out),
        Err(e) => Err(e),
    }
}

/// The outcome of inflating, with the error of this crate.
pub open spec fn inflated_or_error(inflated: Option<Seq<u8>>) -> Result<Seq<u8>, Error> {
    match inflated {
        Some(bytes) => Ok(bytes),
        None => Err(Error::Inflate),
    }
}

/// Whether `r` holds the bytes, or the error, of `expected`.
pub open spec fn gives(r: Result<Vec<u8>, Error>, expected: Result<Seq<u8>, Error>) -> bool {
    match r {
        Ok(bytes) => expected == Ok::<Seq<u8>, Error>(bytes@),
        Err(e) => expected == Err::<Seq<u8>, Error>(e),
    }
}

/// Inflates a zlib stream.
pub fn inflate_zlib(data: &[u8]) -> (r: Result<Vec<u8>, Error>)
    ensures
        gives(r, inflated_or_error(zlib_inflated(data@))),
{
    match read_zlib(data) {
        Ok(bytes) => Ok(bytes),
        Err(_) => Err(Error::Inflate),
    }
}

/// Inflates a deflate stream that has no wrapper.
pub fn inflate_raw(data: &[u8]) -> (r: Result<Vec<u8>, Error>)
    ensures
        gives(r, inflated_or_error(deflate_inflated(data@))),
{
    match read_deflate(data) {
        Ok(bytes) => Ok(bytes),
        Err(_) => Err(Error::Inflate),
    }
}

} // verus!
