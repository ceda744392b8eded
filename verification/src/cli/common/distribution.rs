//! The form in which distribution files are written.

use vstd::prelude::*;

verus! {

/// The form in which distribution files are written.
#[derive(Debug, Clone, Copy, PartialEq, Eq, Structural)]
pub enum DistributionFormat {
    BYTES,
    MINI,
    PRETTY,
}

impl Default for DistributionFormat {
    /// The bytes as they are.
    fn default() -> (r: Self)
        ensures
            r == DistributionFormat::BYTES,
    {
        DistributionFormat::BYTES
    }
}

/// The choice of the form in which distribution files are written.
#[derive(Debug)]
pub struct DistributionConfig {
    pub distribution: DistributionFormat,
}

} // verus!
