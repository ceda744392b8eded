//! The one error type that every decoder in this crate returns.

use crate::bytes::{spec_u32_be_bytes, write_u32_be};
use crate::utils::text::{decimal, hex_lower, push_decimal, push_hex_lower};
use vstd::prelude::*;
use vstd::string::StringExecFns;

verus! {

/// Why a buffer could not be decoded.
#[derive(Clone, Copy, Debug, PartialEq, Eq, Structural)]
pub enum Error {
    /// The buffer ends before a field that the format demands.
    UnexpectedEof,
    /// The first byte of an object stream is not the binary stream tag.
    InvalidObjectStream,
    /// An element announces a separate size field whose width is not 1, 2 or 4.
    UnsupportedDataSize(u8),
    /// The container names the block compressor that is not implemented.
    ZstdNotImplemented,
    /// The container names a compressor that is not known.
    UnsupportedCompressor(u32),
    /// The seek-point table of a container is larger than what follows it.
    InvalidCompressedSize,
    /// The deflate or zlib stream is damaged.
    Inflate,
    /// The archive entry uses a compression method that is not handled.
    UnsupportedMethod,
    /// The proprietary block decompressor failed; carries the expected size.
    BlockDecode(u64),
    /// The two size fields of a datasheet disagree.
    SizeMismatch,
    /// A datasheet column has a type tag other than 1, 2 or 3.
    UnknownCellType(u32),
    /// Bytes that must be text are not UTF-8.
    InvalidUtf8,
    /// A value has not the length that its type demands.
    InvalidValueSize,
    /// The kind of file cannot be written in the form that was chosen.
    UnsupportedFormat,
}

impl Error {
    /// What the error says.
    pub open spec fn spec_message(self) -> Seq<char> {
        match self {
            Error::UnexpectedEof => "failed to fill whole buffer"@,
            Error::InvalidObjectStream => "Not valid ObjectStream"@,
            Error::UnsupportedDataSize(_) => "Unsupported DataSize Value Byte"@,
            Error::ZstdNotImplemented => "zstd is not implemented"@,
            Error::UnsupportedCompressor(id) => "Unsupported compressor_id: 0x"@ + hex_lower(
                spec_u32_be_bytes(id),
            ),
            Error::InvalidCompressedSize => "Invalid compressed data size"@,
            Error::Inflate => "corrupt deflate stream"@,
            Error::UnsupportedMethod => "CompressionMethod not supported"@,
            Error::BlockDecode(size) => "Error with the block decompressor. Size: "@ + decimal(
                size as nat,
            ),
            Error::SizeMismatch => "The two sizes of the data disagree"@,
            Error::UnknownCellType(_) => "Unknown cell type"@,
            Error::InvalidUtf8 => "invalid utf-8 sequence"@,
            Error::InvalidValueSize => "could not convert slice to array"@,
            Error::UnsupportedFormat => "The form is not supported for this kind of file"@,
        }
    }

    /// What the error says.
    pub fn message(&self) -> (r: String)
        ensures
            r@ == self.spec_message(),
    {
        match self {
            Error::UnexpectedEof => String::from_str("failed to fill whole buffer"),
            Error::InvalidObjectStream => String::from_str("Not valid ObjectStream"),
            Error::UnsupportedDataSize(_) => String::from_str("Unsupported DataSize Value Byte"),
            Error::ZstdNotImplemented => String::from_str("zstd is not implemented"),
            Error::UnsupportedCompressor(id) => {
                let mut bytes: Vec<u8> = Vec::new();
                write_u32_be(&mut bytes, *id);
                assert(bytes@ =~= spec_u32_be_bytes(*id));
                let mut out = String::from_str("Unsupported compressor_id: 0x");
                push_hex_lower(&mut out, bytes.as_slice());
                out
            },
            Error::InvalidCompressedSize => String::from_str("Invalid compressed data size"),
            Error::Inflate => String::from_str("corrupt deflate stream"),
            Error::UnsupportedMethod => String::from_str("CompressionMethod not supported"),
            Error::BlockDecode(size) => {
                let mut out = String::from_str("Error with the block decompressor. Size: ");
                push_decimal(&mut out, *size);
                out
            },
            Error::SizeMismatch => String::from_str("The two sizes of the data disagree"),
            Error::UnknownCellType(_) => String::from_str("Unknown cell type"),
            Error::InvalidUtf8 => String::from_str("invalid utf-8 sequence"),
            Error::InvalidValueSize => String::from_str("could not convert slice to array"),
            Error::UnsupportedFormat => String::from_str(
                "The form is not supported for this kind of file",
            ),
        }
    }
}

} // verus!
