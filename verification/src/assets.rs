//! The forms in which an asset is stored.

use vstd::prelude::*;

verus! {

/// The encoding of a stored asset.
#[derive(Debug, Clone, Copy, PartialEq, Eq, Structural)]
pub enum EDataType {
    XML,
    JSON,
    BINARY,
}

/// An asset that holds a whole number.
#[derive(Debug, Clone, Copy, PartialEq, Eq, Structural)]
pub struct IntAsset {}

/// What can store assets: it takes the bytes of an asset in the encoding
/// that is named, and tells how many of them it took.
pub trait SerializeContext {
    fn serialize(data: &[u8], kind: EDataType) -> usize;
}

impl EDataType {
    /// The encoding that a stream with the first byte `tag` has: binary for
    /// zero, XML for `<`, JSON for `{`.
    pub open spec fn spec_of_tag(tag: u8) -> Option<EDataType> {
        if tag == 0 {
            Some(EDataType::BINARY)
        } else if tag == 0x3c {
            Some(EDataType::XML)
        } else if tag == 0x7b {
            Some(EDataType::JSON)
        } else {
            None
        }
    }

    /// Tells the encoding of a stream from its first byte.
    pub fn of_tag(tag: u8) -> (r: Option<EDataType>)
        ensures
            r == Self::spec_of_tag(tag),
    {
        if tag == 0 {
            Some(EDataType::BINARY)
        } else if tag == 0x3c {
            Some(EDataType::XML)
        } else if tag == 0x7b {
            Some(EDataType::JSON)
        } else {
            None
        }
    }
}

} // verus!
