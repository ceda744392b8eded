//! The commands of the program.

pub mod extract;
pub mod test;

use crate::cli::commands::extract::Extract;
use crate::cli::commands::test::Test;
use vstd::prelude::*;

verus! {

/// What the program is asked to do.
#[derive(Debug)]
pub enum Commands {
    Extract(Extract),
    Test(Test),
}

} // verus!
