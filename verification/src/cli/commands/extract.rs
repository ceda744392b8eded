//! The arguments of an extraction.

use crate::cli::common::datasheet::DatasheetConfig;
use crate::cli::common::dds::DDSConfig;
use crate::cli::common::distribution::DistributionConfig;
use crate::cli::common::lua::LuaConfig;
use crate::cli::common::objectstream::ObjectStreamConfig;
use crate::cli::common::vshapec::VShapeConfig;
use crate::cli::common::CommonConfig;
use vstd::prelude::*;

verus! {

/// Where to extract from and to, and the form of each kind of file.
#[derive(Debug)]
pub struct Extract {
    pub common: CommonConfig,
    pub datasheet: DatasheetConfig,
    pub objectstream: ObjectStreamConfig,
    pub distribution: DistributionConfig,
    pub vshapec: VShapeConfig,
    pub dds: DDSConfig,
    pub lua: LuaConfig,
}

} // verus!
