//! The arguments that every command shares.

pub mod datasheet;
pub mod dds;
pub mod distribution;
pub mod filter;
pub mod input;
pub mod lua;
pub mod objectstream;
pub mod output;
pub mod vshapec;

use crate::cli::common::filter::Filter;
use crate::cli::common::input::Input;
use crate::cli::common::output::Output;
use crate::utils::text::{contains, lowercase_of, spec_contains, to_lowercase};
use vstd::prelude::*;
use vstd::string::StringExecFns;

verus! {

/// Where to read, where to write, and which files.
#[derive(Debug, Clone)]
pub struct CommonConfig {
    pub input: Input,
    pub output: Output,
    pub filter: Filter,
}

/// What is known of a path that is offered as the directory of the game.
#[derive(Debug, Clone, Copy, PartialEq, Eq, Structural)]
pub struct PathFacts {
    /// The path exists.
    pub exists: bool,
    /// The path holds the program of the game.
    pub has_program: bool,
    /// The path holds the directory of assets.
    pub has_assets: bool,
}

/// What `validate_path` answers for a path of which `facts` hold.
pub open spec fn spec_validate_path(path: Seq<char>, facts: PathFacts) -> Result<
    Seq<char>,
    Seq<char>,
> {
    if facts.has_program && facts.has_assets {
        Ok(path)
    } else if facts.exists {
        Err("New World does not exist in that path."@)
    } else {
        Err("Not a valid path"@)
    }
}

/// Accepts a path as the directory of the game where it holds the program
/// and the assets, and says why it does not.
pub fn validate_path(path: &str, facts: PathFacts) -> (r: Result<String, String>)
    ensures
        match r {
            Ok(p) => spec_validate_path(path@, facts) == Ok::<Seq<char>, Seq<char>>(p@),
            Err(e) => spec_validate_path(path@, facts) == Err::<Seq<char>, Seq<char>>(e@),
        },
{
    if facts.has_program && facts.has_assets {
        Ok(String::from_str(path))
    } else if facts.exists {
        Err(String::from_str("New World does not exist in that path."))
    } else {
        Err(String::from_str("Not a valid path"))
    }
}

/// The edition of the game that a directory holds, by its lower-case name:
/// `marketing`, `ptr` for the public test realm, and else `live`.
pub open spec fn spec_nw_type(lower: Seq<char>) -> Seq<char> {
    if spec_contains(lower, "new world marketing"@) {
        "marketing"@
    } else if spec_contains(lower, "new world public test realm"@) {
        "ptr"@
    } else {
        "live"@
    }
}

/// The edition of the game that a directory with the lower-case name `lower` holds.
pub fn edition_of(lower: &str) -> (r: &'static str)
    ensures
        r@ == spec_nw_type(lower@),
{
    if contains(lower, "new world marketing") {
        "marketing"
    } else if contains(lower, "new world public test realm") {
        "ptr"
    } else {
        "live"
    }
}

/// The edition of the game that the directory `input` holds.
pub fn nw_type(input: &str) -> (r: &'static str)
    ensures
        r@ == spec_nw_type(lowercase_of(input@)),
{
    let lower = to_lowercase(input);
    edition_of(lower.as_str())
}

} // verus!
