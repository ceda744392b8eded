//! Helpers for reading the entries of a package.

pub mod buffers;
