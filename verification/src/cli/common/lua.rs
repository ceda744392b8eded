//! The form in which compiled scripts are written.

use vstd::prelude::*;

verus! {

/// The form in which compiled scripts are written.
#[derive(Debug, Clone, Copy, PartialEq, Eq, Structural)]
pub enum LuaFormat {
    BYTES,
    LUA,
}

impl Default for LuaFormat {
    /// The bytes as they are.
    fn default() -> (r: Self)
        ensures
            r == LuaFormat::BYTES,
    {
        LuaFormat::BYTES
    }
}

/// The choice of the form in which compiled scripts are written.
#[derive(Debug)]
pub struct LuaConfig {
    pub distribution: LuaFormat,
}

} // verus!
