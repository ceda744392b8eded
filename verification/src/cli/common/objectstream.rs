//! The form in which object streams are written.

use vstd::prelude::*;

verus! {

/// The form in which object streams are written.
#[derive(Debug, Clone, Copy, PartialEq, Eq, Structural)]
pub enum ObjectStreamFormat {
    BYTES,
    XML,
    JSON,
    PRETTY,
}

impl Default for ObjectStreamFormat {
    /// The bytes as they are.
    fn default() -> (r: Self)
        ensures
            r == ObjectStreamFormat::BYTES,
    {
        ObjectStreamFormat::BYTES
    }
}

/// The choice of the form in which object streams are written.
#[derive(Debug)]
pub struct ObjectStreamConfig {
    pub objectstream: ObjectStreamFormat,
}

} // verus!
