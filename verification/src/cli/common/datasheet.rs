//! The form in which datasheets are written.

use crate::cli::{BYTES, CSV, MINI, PRETTY, SQL, XML, YAML};
use vstd::prelude::*;

verus! {

/// A language of the game's texts.
#[derive(Debug, Clone, Copy, PartialEq, Eq, Structural)]
pub enum Localization {
    EN,
    ES,
    IT,
    DE,
    MX,
    FR,
    PL,
    BR,
}

impl Default for Localization {
    /// English.
    fn default() -> (r: Self)
        ensures
            r == Localization::EN,
    {
        Localization::EN
    }
}

impl Localization {
    /// The name of the directory that holds the texts of the language.
    pub open spec fn spec_text(self) -> Seq<char> {
        match self {
            Localization::EN => "en-us"@,
            Localization::ES => "en-es"@,
            Localization::IT => "it-it"@,
            Localization::DE => "de-de"@,
            Localization::MX => "es-mx"@,
            Localization::FR => "fr-fr"@,
            Localization::PL => "pl-pl"@,
            Localization::BR => "pt-br"@,
        }
    }

    /// The name of the directory that holds the texts of the language.
    pub fn text(&self) -> (r: &'static str)
        ensures
            r@ == self.spec_text(),
    {
        match self {
            Localization::EN => "en-us",
            Localization::ES => "en-es",
            Localization::IT => "it-it",
            Localization::DE => "de-de",
            Localization::MX => "es-mx",
            Localization::FR => "fr-fr",
            Localization::PL => "pl-pl",
            Localization::BR => "pt-br",
        }
    }
}

/// The form in which datasheets are written.
#[derive(Debug, Clone, Copy, PartialEq, Eq, Structural)]
pub enum DatasheetFormat {
    BYTES,
    XML,
    /// JSON without white space.
    MINI,
    /// Indented JSON.
    PRETTY,
    CSV,
    YAML,
    SQL,
}

impl Default for DatasheetFormat {
    /// The bytes as they are.
    fn default() -> (r: Self)
        ensures
            r == DatasheetFormat::BYTES,
    {
        DatasheetFormat::BYTES
    }
}

impl DatasheetFormat {
    /// The name of the form.
    pub open spec fn spec_text(self) -> Seq<char> {
        match self {
            DatasheetFormat::BYTES => BYTES@,
            DatasheetFormat::XML => XML@,
            DatasheetFormat::MINI => MINI@,
            DatasheetFormat::PRETTY => PRETTY@,
            DatasheetFormat::CSV => CSV@,
            DatasheetFormat::YAML => YAML@,
            DatasheetFormat::SQL => SQL@,
        }
    }

    /// The name of the form.
    pub fn text(&self) -> (r: &'static str)
        ensures
            r@ == self.spec_text(),
    {
        match self {
            DatasheetFormat::BYTES => BYTES,
            DatasheetFormat::XML => XML,
            DatasheetFormat::MINI => MINI,
            DatasheetFormat::PRETTY => PRETTY,
            DatasheetFormat::CSV => CSV,
            DatasheetFormat::YAML => YAML,
            DatasheetFormat::SQL => SQL,
        }
    }
}

/// How the files of datasheets are named.
#[derive(Debug, Clone, Copy, PartialEq, Eq, Structural)]
pub enum DatasheetOutputMode {
    /// As in the archive.
    ORIGINAL,
    /// By the type and the name of the table.
    TYPENAME,
}

impl Default for DatasheetOutputMode {
    /// As in the archive.
    fn default() -> (r: Self)
        ensures
            r == DatasheetOutputMode::ORIGINAL,
    {
        DatasheetOutputMode::ORIGINAL
    }
}

/// The choices on how datasheets are written.
#[derive(Debug)]
pub struct DatasheetConfig {
    pub datasheet: DatasheetFormat,
    pub datasheet_filenames: DatasheetOutputMode,
    pub with_meta: bool,
    pub inline_locale: Option<Localization>,
}

} // verus!
