//! What every group of arguments can do.

use crate::error::Error;
use vstd::prelude::*;

verus! {

/// A group of arguments that completes itself from a value of the caller.
pub trait IArgs {
    /// What the caller hands in.
    type Value;

    /// Completes the arguments.
    fn configure(&mut self, value: Self::Value) -> Result<(), Error>;
}

} // verus!
