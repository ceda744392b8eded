//! The directory that files are extracted to.

use vstd::prelude::*;

verus! {

/// The directory that files are extracted to.
#[derive(Debug, Clone)]
pub struct Output {
    pub output: Option<String>,
}

} // verus!
