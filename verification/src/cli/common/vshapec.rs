//! The form in which shape files are written.

use vstd::prelude::*;

verus! {

/// The form in which shape files are written.
#[derive(Debug, Clone, Copy, PartialEq, Eq, Structural)]
pub enum VShapeFormat {
    BYTES,
    MINI,
    PRETTY,
    YAML,
}

impl Default for VShapeFormat {
    /// The bytes as they are.
    fn default() -> (r: Self)
        ensures
            r == VShapeFormat::BYTES,
    {
        VShapeFormat::BYTES
    }
}

/// The choice of the form in which shape files are written.
#[derive(Debug)]
pub struct VShapeConfig {
    pub vshapec: VShapeFormat,
}

} // verus!
