//! The arguments of the test commands.

use crate::cli::common::filter::Filter;
use crate::cli::common::input::Input;
use vstd::prelude::*;

verus! {

/// A test run.
#[derive(Debug)]
pub struct Test {
    pub commands: TestCommands,
}

/// What a test run tries.
#[derive(Debug)]
pub enum TestCommands {
    /// Lists the files that a filter lets through.
    Filter { input: Input, filter: Filter },
    /// Decodes every distribution file.
    Distribution { input: Input },
}

} // verus!
