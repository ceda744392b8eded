//! What the user chose: where to read, where to write, and in which form
//! each kind of file is written.

pub mod commands;
pub mod common;
pub mod traits;

use crate::cli::commands::Commands;
use vstd::prelude::*;

verus! {

/// The name of the output form that keeps the bytes.
pub const BYTES: &'static str = "bytes";

/// The name of the output form of indented JSON.
pub const PRETTY: &'static str = "json";

/// The name of the output form of JSON without white space.
pub const MINI: &'static str = "mini";

/// The name of the XML output form.
pub const XML: &'static str = "xml";

/// The name of the CSV output form.
pub const CSV: &'static str = "csv";

/// The name of the SQL output form.
pub const SQL: &'static str = "sql";

/// The name of the YAML output form.
pub const YAML: &'static str = "yaml";

/// The arguments of a run.
#[derive(Debug)]
pub struct Args {
    pub command: Commands,
}

} // verus!
