//! The directory of the game.

use vstd::prelude::*;

verus! {

/// The root directory of the game, which holds `Bin64` and `assets`.
#[derive(Debug, Clone)]
pub struct Input {
    pub input: Option<String>,
}

} // verus!
