//! The self-describing compressed container that may wrap a decoded entry.
//!
//! A container is the signature `AZCS`, a big-endian compressor id, a
//! big-endian uncompressed size, and the compressed data. For the zlib
//! compressor the data is a big-endian count of seek points, the zlib
//! stream, and sixteen bytes for each seek point.

use crate::bytes::{read_u32_be, spec_u32_be, spec_u64_be, u32_be_at, u64_be_at};
use crate::error::Error;
use crate::inflate::{gives, inflate_zlib, inflated_or_error, zlib_inflated};
use vstd::prelude::*;
use vstd::slice::slice_subrange;

verus! {

/// The compressor id of zlib.
pub const COMPRESSOR_ZLIB: u32 = 0x73887d3a;

/// The compressor id of zstd, which is not implemented.
pub const COMPRESSOR_ZSTD: u32 = 0x72fd505e;

/// The length of the header of a container.
pub const HEADER_SIZE: usize = 16;

/// The four bytes `AZCS` that open a compressed container.
pub open spec fn signature() -> Seq<u8> {
    seq![0x41u8, 0x5au8, 0x43u8, 0x53u8]
}

/// Whether `data` starts with the container signature.
pub open spec fn spec_is_compressed(data: Seq<u8>) -> bool {
    data.len() >= 4 && data.subrange(0, 4) == signature()
}

/// Whether `data` starts with four zero bytes and a byte that is 1, 2 or 3:
/// the start of an object stream that is not compressed.
pub open spec fn spec_is_uncompressed(data: Seq<u8>) -> bool {
    data.len() >= 5 && data[0] == 0 && data[1] == 0 && data[2] == 0 && data[3] == 0 && (data[4]
        == 3 || data[4] == 2 || data[4] == 1)
}

/// The header of a container.
#[derive(Debug, Clone, Copy)]
pub struct Header {
    pub signature: [u8; 4],
    pub compressor_id: u32,
    pub uncompressed_size: u64,
}

/// Tells whether `data` opens with the container signature.
pub fn is_compressed(data: &[u8]) -> (r: bool)
    ensures
        r == spec_is_compressed(data@),
{
    if data.len() < 4 {
        return false;
    }
    let r = data[0] == 0x41 && data[1] == 0x5a && data[2] == 0x43 && data[3] == 0x53;
    proof {
        let s = data@.subrange(0, 4);
        if r {
            assert(s =~= signature());
        } else {
            assert(s[0] == data@[0] && s[1] == data@[1] && s[2] == data@[2] && s[3] == data@[3]);
        }
    }
    r
}

/// Tells whether `data` opens like an object stream that is not compressed.
pub fn is_uncompressed(data: &[u8]) -> (r: bool)
    ensures
        r == spec_is_uncompressed(data@),
{
    if data.len() < 5 {
        return false;
    }
    data[0] == 0 && data[1] == 0 && data[2] == 0 && data[3] == 0 && (data[4] == 3 || data[4] == 2
        || data[4] == 1)
}

/// Tells whether `sig` opens a container: only the signature does.
pub fn is_azcs(sig: &[u8]) -> (r: bool)
    ensures
        r == spec_is_compressed(sig@),
{
    (is_compressed(sig) || is_uncompressed(sig)) && is_compressed(sig)
}

/// The header that the first sixteen bytes of `data` hold.
pub open spec fn parse_header(data: Seq<u8>) -> Result<Header, Error> {
    if data.len() < 16 {
        Err(Error::UnexpectedEof)
    } else {
        Ok(
            Header {
                signature: [data[0], data[1], data[2], data[3]],
                compressor_id: spec_u32_be(data, 4),
                uncompressed_size: spec_u64_be(data, 8),
            },
        )
    }
}

/// What the zlib compressor's data unpacks to: the stream ends where the
/// seek points start, sixteen bytes for each of the `count` that the first
/// four bytes announce.
pub open spec fn zlib_unpacked(data: Seq<u8>) -> Result<Seq<u8>, Error> {
    if data.len() < 4 {
        Err(Error::UnexpectedEof)
    } else if data.len() - 4 < spec_u32_be(data, 0) * 16 {
        Err(Error::InvalidCompressedSize)
    } else {
        inflated_or_error(zlib_inflated(data.subrange(4, data.len() - spec_u32_be(data, 0) * 16)))
    }
}

/// What the data behind a header unpacks to.
pub open spec fn unpacked(data: Seq<u8>, compressor_id: u32) -> Result<Seq<u8>, Error> {
    if compressor_id == COMPRESSOR_ZLIB {
        zlib_unpacked(data)
    } else if compressor_id == COMPRESSOR_ZSTD {
        Err(Error::ZstdNotImplemented)
    } else {
        Err(Error::UnsupportedCompressor(compressor_id))
    }
}

/// What a buffer is once a container around it is taken off: the buffer
/// itself where it does not open with the signature, else what the data
/// behind the header unpacks to.
pub open spec fn unwrapped(data: Seq<u8>) -> Result<Seq<u8>, Error> {
    if !spec_is_compressed(data) {
        Ok(data)
    } else {
        match parse_header(data) {
            Err(e) => Err(e),
            Ok(header) => unpacked(data.subrange(16, data.len() as int), header.compressor_id),
        }
    }
}

impl Header {
    /// Reads the header at the start of `data`.
    pub fn from_reader(data: &[u8]) -> (r: Result<Header, Error>)
        ensures
            r == parse_header(data@),
    {
        if data.len() < 16 {
            return Err(Error::UnexpectedEof);
        }
        Ok(
            Header {
                signature: [data[0], data[1], data[2], data[3]],
                compressor_id: u32_be_at(data, 4),
                uncompressed_size: u64_be_at(data, 8),
            },
        )
    }
}

/// Inflates the data of the zlib compressor, leaving out the seek points
/// that follow the stream.
pub fn handle_zlib(reader: &[u8]) -> (r: Result<Vec<u8>, Error>)
    ensures
        gives(r, zlib_unpacked(reader@)),
{
    let count = match read_u32_be(reader, 0) {
        Some(count) => count,
        None => {
            return Err(Error::UnexpectedEof);
        },
    };
    let table: u64 = count as u64 * 16;
    let rest: u64 = (reader.len() - 4) as u64;
    if rest < table {
        return Err(Error::InvalidCompressedSize);
    }
    let end: usize = reader.len() - (table as usize);
    let payload = slice_subrange(reader, 4, end);
    inflate_zlib(payload)
}

/// Unpacks the data behind `header` with the compressor that it names.
pub fn decompress(reader: &[u8], header: &Header) -> (r: Result<Vec<u8>, Error>)
    ensures
        gives(r, unpacked(reader@, header.compressor_id)),
{
    if header.compressor_id == COMPRESSOR_ZLIB {
        handle_zlib(reader)
    } else if header.compressor_id == COMPRESSOR_ZSTD {
        Err(Error::ZstdNotImplemented)
    } else {
        Err(Error::UnsupportedCompressor(header.compressor_id))
    }
}

/// Takes a container off a buffer: gives the buffer back where it is none,
/// and else what the container holds.
pub fn unwrap_container(data: Vec<u8>) -> (r: Result<Vec<u8>, Error>)
    ensures
        gives(r, unwrapped(data@)),
{
    if !is_azcs(data.as_slice()) {
        return Ok(data);
    }
    let header = match Header::from_reader(data.as_slice()) {
        Ok(header) => header,
        Err(e) => {
            return Err(e);
        },
    };
    let rest = slice_subrange(data.as_slice(), 16, data.len());
    decompress(rest, &header)
}

/// A buffer that opens like an object stream is no container: it is
/// handed on as it is.
pub proof fn lemma_uncompressed_passes(data: Seq<u8>)
    requires
        spec_is_uncompressed(data),
    ensures
        !spec_is_compressed(data),
        unwrapped(data) == Ok::<Seq<u8>, Error>(data),
{
    if spec_is_compressed(data) {
        assert(data.subrange(0, 4)[0] == data[0]);
        assert(signature()[0] == 0x41u8);
    }
}

/// The seek points do not reach the inflater: two zlib containers of the same
/// length that agree on everything before the seek points unpack to the
/// same.
pub proof fn lemma_seek_points_excluded(first: Seq<u8>, second: Seq<u8>)
    requires
        first.len() == second.len(),
        first.len() >= 20,
        spec_is_compressed(first),
        spec_u32_be(first, 4) == COMPRESSOR_ZLIB,
        first.len() - 20 >= spec_u32_be(first, 16) * 16,
        first.subrange(0, first.len() - spec_u32_be(first, 16) * 16) == second.subrange(
            0,
            first.len() - spec_u32_be(first, 16) * 16,
        ),
    ensures
        unwrapped(first) == unwrapped(second),
        unwrapped(first) == inflated_or_error(
            zlib_inflated(first.subrange(20, first.len() - spec_u32_be(first, 16) * 16)),
        ),
{
    let len = first.len() as int;
    let cut = len - spec_u32_be(first, 16) * 16;
    assert forall|i: int| 0 <= i < cut implies first[i] == second[i] by {
        assert(first.subrange(0, cut)[i] == second.subrange(0, cut)[i]);
    }
    assert(second.subrange(0, 4) =~= first.subrange(0, 4));
    let a = first.subrange(16, len);
    let b = second.subrange(16, len);
    assert(spec_u32_be(a, 0) == spec_u32_be(first, 16));
    assert(spec_u32_be(b, 0) == spec_u32_be(first, 16));
    assert(a.subrange(4, a.len() - spec_u32_be(a, 0) * 16) =~= first.subrange(20, cut));
    assert(b.subrange(4, b.len() - spec_u32_be(b, 0) * 16) =~= first.subrange(20, cut));
}

} // verus!
