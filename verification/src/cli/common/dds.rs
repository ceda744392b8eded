//! The form in which DDS textures are written.

use vstd::prelude::*;

verus! {

/// The form in which DDS textures are written.
#[derive(Debug, Clone, Copy, PartialEq, Eq, Structural)]
pub enum DDSFormat {
    BYTES,
    PNG,
    JPEG,
    WEBP,
    FLAT,
}

impl Default for DDSFormat {
    /// The bytes as they are.
    fn default() -> (r: Self)
        ensures
            r == DDSFormat::BYTES,
    {
        DDSFormat::BYTES
    }
}

/// The choice of the form in which DDS textures are written.
#[derive(Debug)]
pub struct DDSConfig {
    pub dds: DDSFormat,
}

} // verus!
