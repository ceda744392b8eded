//! Decoders for packaged game assets: compression cascade, container
//! unwrapping, format sniffing, and the object-stream and datasheet codecs.

pub mod assets;
pub mod azcs;
pub mod bytes;
pub mod cli;
pub mod datasheet;
pub mod decompressor;
pub mod distribution;
pub mod error;
pub mod inflate;
pub mod localization;
pub mod object_stream;
pub mod pak;
pub mod utils;
pub mod vshapec;
