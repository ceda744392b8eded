//! From an archive entry to what is written for it.
//!
//! An entry is inflated by the method that the archive names, a container
//! around the result is taken off, the kind of file is told from the first
//! bytes or from the name, and the file is decoded where the user asked for
//! another form than the bytes.

pub mod texture;

use crate::azcs::{unwrap_container, unwrapped};
use crate::bytes::{spec_starts_with, starts_with};
use crate::cli::commands::extract::Extract;
use crate::cli::common::datasheet::{DatasheetConfig, DatasheetFormat, DatasheetOutputMode};
use crate::cli::common::dds::DDSFormat;
use crate::cli::common::distribution::DistributionFormat;
use crate::cli::common::lua::LuaFormat;
use crate::cli::common::objectstream::ObjectStreamFormat;
use crate::cli::common::vshapec::VShapeFormat;
use crate::datasheet::{parse_datasheet, Datasheet, DatasheetModel};
use crate::distribution::{parse_distribution, Distribution, DistributionModel, MyError};
use crate::error::Error;
use crate::inflate::{
    deflate_inflated, gives, inflate_raw, inflate_zlib, inflated_or_error, zlib_inflated,
};
use crate::object_stream::projection::{
    json_models, json_of, xml_models, xml_of, JSONObjectStream, XMLObjectStream,
};
use crate::object_stream::de::from_reader;
use crate::object_stream::{parse_stream, StreamModel};
use crate::utils::lumberyard::{names_of, LumberyardSource};
use crate::utils::text::{ends_with, spec_ends_with};
use crate::vshapec::{parse_vshapec, VShapeC, VShapeModel};
use vstd::prelude::*;
use vstd::slice::slice_subrange;
use vstd::string::StringExecFns;

verus! {

/// The method number of the proprietary block compressor.
pub const BLOCK_METHOD: u16 = 15;

/// How an archive entry is compressed.
#[derive(Debug, Clone, Copy, PartialEq, Eq, Structural)]
pub enum CompressionMethod {
    /// Not at all.
    Stored,
    /// As a deflate stream, with or without the zlib wrapper.
    Deflated,
    /// By a method with this number, which the archive format does not know.
    Unsupported(u16),
}

/// The kind of a file, with the form that the user chose for the kind.
#[derive(Debug, Clone, Copy, PartialEq, Eq, Structural)]
pub enum FileType {
    /// A compiled script; `true` where it is to be written as a script.
    Luac(bool),
    ObjectStream(ObjectStreamFormat),
    Datasheet(DatasheetFormat),
    Distribution(DistributionFormat),
    VShapeC(VShapeFormat),
    DDS(DDSFormat),
    /// Anything else, which is written as it is.
    Other,
}

impl Default for FileType {
    fn default() -> (r: Self)
        ensures
            r == FileType::Other,
    {
        FileType::Other
    }
}

impl CompressionMethod {
    /// Whether the method is that of the proprietary block compressor.
    pub fn is_block(&self) -> (r: bool)
        ensures
            r == (*self == CompressionMethod::Unsupported(BLOCK_METHOD)),
    {
        match self {
            CompressionMethod::Unsupported(n) => *n == BLOCK_METHOD,
            _ => false,
        }
    }
}

/// Whether a deflated entry starts with the two bytes of a zlib header.
pub open spec fn has_zlib_header(raw: Seq<u8>) -> bool {
    raw.len() >= 2 && raw[0] == 0x78 && raw[1] == 0xda
}

/// What an entry inflates to; the method decides, whatever the declared
/// size is. A stored entry is its bytes. A deflated entry is inflated as a
/// zlib stream where its first two bytes are `78 DA`, and else as a stream
/// without a wrapper; the two bytes are part of the stream either way. An
/// entry of the block compressor is what that compressor gave, `block`, and
/// an error with the declared size where it gave nothing. Any other method
/// is an error.
pub open spec fn inflated(
    method: CompressionMethod,
    raw: Seq<u8>,
    size: u64,
    block: Option<Seq<u8>>,
) -> Result<Seq<u8>, Error> {
    match method {
        CompressionMethod::Stored => Ok(raw),
        CompressionMethod::Deflated => if raw.len() < 2 {
            Err(Error::UnexpectedEof)
        } else if has_zlib_header(raw) {
            inflated_or_error(zlib_inflated(raw))
        } else {
            inflated_or_error(deflate_inflated(raw))
        },
        CompressionMethod::Unsupported(n) => if n == BLOCK_METHOD {
            match block {
                Some(bytes) => Ok(bytes),
                None => Err(Error::BlockDecode(size)),
            }
        } else {
            Err(Error::UnsupportedMethod)
        },
    }
}

/// What an entry decodes to: what it inflates to, without the container
/// that may be around it.
pub open spec fn decoded(
    method: CompressionMethod,
    raw: Seq<u8>,
    size: u64,
    block: Option<Seq<u8>>,
) -> Result<Seq<u8>, Error> {
    match inflated(method, raw, size, block) {
        Err(e) => Err(e),
        Ok(bytes) => unwrapped(bytes),
    }
}

/// The bytes that an optional buffer holds.
pub open spec fn block_of(block: Option<Vec<u8>>) -> Option<Seq<u8>> {
    match block {
        Some(b) => Some(b@),
        None => None,
    }
}

/// The first bytes of a compiled script.
pub open spec fn script_magic() -> Seq<u8> {
    seq![0x04u8, 0x00u8, 0x1bu8, 0x4cu8, 0x75u8]
}

/// The first bytes of a binary object stream of version 3.
pub open spec fn stream_magic() -> Seq<u8> {
    seq![0x00u8, 0x00u8, 0x00u8, 0x00u8, 0x03u8]
}

/// The first bytes of a datasheet.
pub open spec fn sheet_magic() -> Seq<u8> {
    seq![0x11u8, 0x00u8, 0x00u8, 0x00u8]
}

/// The kind of a file: told from its first bytes where these are known, and
/// else from the end of its name.
pub open spec fn sniffed(buf: Seq<u8>, name: Seq<char>, config: Extract) -> FileType {
    if spec_starts_with(buf, script_magic()) {
        FileType::Luac(config.lua.distribution == LuaFormat::LUA)
    } else if spec_starts_with(buf, stream_magic()) {
        FileType::ObjectStream(config.objectstream.objectstream)
    } else if spec_starts_with(buf, sheet_magic()) {
        FileType::Datasheet(config.datasheet.datasheet)
    } else if spec_ends_with(name, ".distribution"@) {
        FileType::Distribution(config.distribution.distribution)
    } else if spec_ends_with(name, ".vshapec"@) {
        FileType::VShapeC(config.vshapec.vshapec)
    } else if spec_ends_with(name, ".dds"@) {
        FileType::DDS(config.dds.dds)
    } else {
        FileType::Other
    }
}

/// What is written for a file.
#[derive(Debug)]
pub enum Rendered {
    /// These bytes.
    Bytes(Vec<u8>),
    /// An object stream as XML.
    StreamXml(XMLObjectStream),
    /// An object stream as JSON, indented where the flag is set.
    StreamJson(JSONObjectStream, bool),
    /// A datasheet, and the form in which it is written.
    Sheet(Datasheet, DatasheetFormat),
    /// A distribution, and the form in which it is written.
    Distribution(Distribution, DistributionFormat),
    /// A shape, and the form in which it is written.
    Shape(VShapeC, VShapeFormat),
    /// A texture made of these bytes and of the files beside it, and the
    /// form in which it is written.
    Texture(Vec<u8>, DDSFormat),
}

/// What a [`Rendered`] holds.
pub enum RenderedModel {
    Bytes(Seq<u8>),
    StreamXml(StreamModel),
    StreamJson(StreamModel, bool),
    Sheet(DatasheetModel, DatasheetFormat),
    Distribution(DistributionModel, DistributionFormat),
    Shape(VShapeModel, VShapeFormat),
    Texture(Seq<u8>, DDSFormat),
}

/// Whether `rendered` shows `expected`: the same bytes, the same decoded
/// value, or the projection of the same stream.
pub open spec fn shows(rendered: Rendered, expected: RenderedModel) -> bool {
    match (rendered, expected) {
        (Rendered::Bytes(a), RenderedModel::Bytes(b)) => a@ == b,
        (Rendered::StreamXml(x), RenderedModel::StreamXml(stream)) => x.version == stream.version
            && xml_models(x.elements@) == Seq::new(
            stream.elements.len(),
            |i: int| xml_of(stream.elements[i]),
        ),
        (Rendered::StreamJson(j, p), RenderedModel::StreamJson(stream, pretty)) => j.name@
            == "ObjectStream"@ && j.version == stream.version && p == pretty && json_models(
            j.elements@,
        ) == Seq::new(stream.elements.len(), |i: int| json_of(stream.elements[i])),
        (Rendered::Sheet(a, f), RenderedModel::Sheet(sheet, format)) => a@ == sheet && f == format,
        (Rendered::Distribution(a, f), RenderedModel::Distribution(value, format)) => a@ == value && f
            == format,
        (Rendered::Shape(a, f), RenderedModel::Shape(value, format)) => a@ == value && f == format,
        (Rendered::Texture(a, f), RenderedModel::Texture(bytes, format)) => a@ == bytes && f
            == format,
        _ => false,
    }
}

/// What is written for a file of the kind `kind` that holds `buf`. The
/// bytes are written as they are where the user chose so, where the kind is
/// not known, and where an object stream does not decode. A compiled script
/// is written without its first two bytes. A file that is to be decoded and
/// does not decode is an error, but for the object stream.
pub open spec fn rendering(buf: Seq<u8>, kind: FileType, names: crate::utils::lumberyard::Names) -> Result<
    RenderedModel,
    Error,
> {
    match kind {
        FileType::Luac(_) => if buf.len() >= 2 {
            Ok(RenderedModel::Bytes(buf.subrange(2, buf.len() as int)))
        } else {
            Ok(RenderedModel::Bytes(Seq::empty()))
        },
        FileType::DDS(format) => if format == DDSFormat::BYTES {
            Ok(RenderedModel::Bytes(buf))
        } else {
            Ok(RenderedModel::Texture(buf, format))
        },
        FileType::Distribution(format) => if format == DistributionFormat::BYTES {
            Ok(RenderedModel::Bytes(buf))
        } else {
            match parse_distribution(buf) {
                Ok(value) => Ok(RenderedModel::Distribution(value, format)),
                Err(MyError::IO(e)) => Err(e),
                Err(MyError::TryFromSliceError) => Err(Error::InvalidValueSize),
            }
        },
        FileType::VShapeC(format) => if format == VShapeFormat::BYTES {
            Ok(RenderedModel::Bytes(buf))
        } else {
            match parse_vshapec(buf) {
                Ok(value) => Ok(RenderedModel::Shape(value, format)),
                Err(e) => Err(e),
            }
        },
        FileType::ObjectStream(format) => if format == ObjectStreamFormat::BYTES {
            Ok(RenderedModel::Bytes(buf))
        } else {
            match parse_stream(buf, names) {
                Err(_) => Ok(RenderedModel::Bytes(buf)),
                Ok((stream, _)) => if format == ObjectStreamFormat::XML {
                    Ok(RenderedModel::StreamXml(stream))
                } else {
                    Ok(RenderedModel::StreamJson(stream, format == ObjectStreamFormat::PRETTY))
                },
            }
        },
        FileType::Datasheet(format) => if format == DatasheetFormat::BYTES {
            Ok(RenderedModel::Bytes(buf))
        } else if format == DatasheetFormat::XML {
            Err(Error::UnsupportedFormat)
        } else {
            match parse_datasheet(buf) {
                Ok(sheet) => Ok(RenderedModel::Sheet(sheet, format)),
                Err(e) => Err(e),
            }
        },
        FileType::Other => Ok(RenderedModel::Bytes(buf)),
    }
}

/// Where a file goes and how it is named.
#[derive(Debug, Clone, Copy, PartialEq, Eq, Structural)]
pub struct Naming {
    /// The file goes to the directory of its table type, under the name of
    /// its table, and keeps its extension.
    pub by_table: bool,
    /// The extension is replaced by `lua`.
    pub as_script: bool,
    /// The name of the form is appended as one more extension.
    pub appended: Option<Extension>,
    /// A file with the schema of the table is written beside it.
    pub with_meta: bool,
}

/// An extension that is appended to a name.
#[derive(Debug, Clone, Copy, PartialEq, Eq, Structural)]
pub enum Extension {
    Json,
    Yaml,
    Xml,
    Csv,
    Sql,
}

impl Extension {
    /// The extension, without the dot.
    pub open spec fn spec_text(self) -> Seq<char> {
        match self {
            Extension::Json => "json"@,
            Extension::Yaml => "yaml"@,
            Extension::Xml => "xml"@,
            Extension::Csv => "csv"@,
            Extension::Sql => "sql"@,
        }
    }

    /// The extension, without the dot.
    pub fn text(&self) -> (r: &'static str)
        ensures
            r@ == self.spec_text(),
    {
        match self {
            Extension::Json => "json",
            Extension::Yaml => "yaml",
            Extension::Xml => "xml",
            Extension::Csv => "csv",
            Extension::Sql => "sql",
        }
    }
}

/// The extension that the form of a file calls for, if it calls for one.
pub open spec fn wanted_extension(file_type: FileType) -> Option<Extension> {
    match file_type {
        FileType::VShapeC(VShapeFormat::PRETTY) | FileType::VShapeC(VShapeFormat::MINI) => Some(
            Extension::Json,
        ),
        FileType::VShapeC(VShapeFormat::YAML) => Some(Extension::Yaml),
        FileType::ObjectStream(ObjectStreamFormat::XML) => Some(Extension::Xml),
        FileType::ObjectStream(ObjectStreamFormat::JSON) | FileType::ObjectStream(
            ObjectStreamFormat::PRETTY,
        ) => Some(Extension::Json),
        FileType::Datasheet(DatasheetFormat::XML) => Some(Extension::Xml),
        FileType::Datasheet(DatasheetFormat::MINI) | FileType::Datasheet(
            DatasheetFormat::PRETTY,
        ) => Some(Extension::Json),
        FileType::Datasheet(DatasheetFormat::CSV) => Some(Extension::Csv),
        FileType::Datasheet(DatasheetFormat::YAML) => Some(Extension::Yaml),
        FileType::Datasheet(DatasheetFormat::SQL) => Some(Extension::Sql),
        _ => None,
    }
}

/// How a file of the kind `file_type` with the extension `extension` is
/// named. The extension of the form is appended unless the file has it
/// already; a script that is written as a script gets the extension `lua`; a
/// datasheet goes by its table where the user chose so and the table is
/// known; the schema is written for a datasheet as JSON where the user asked
/// for it and the table is known.
pub open spec fn naming(
    file_type: FileType,
    extension: Seq<char>,
    config: DatasheetConfig,
    has_meta: bool,
) -> Naming {
    let is_sheet = file_type is Datasheet;
    let wanted = wanted_extension(file_type);
    Naming {
        by_table: is_sheet && config.datasheet_filenames == DatasheetOutputMode::TYPENAME
            && has_meta,
        as_script: file_type == FileType::Luac(true),
        appended: match wanted {
            Some(e) => if extension == e.spec_text() {
                None
            } else {
                Some(e)
            },
            None => None,
        },
        with_meta: (file_type == FileType::Datasheet(DatasheetFormat::MINI) || file_type
            == FileType::Datasheet(DatasheetFormat::PRETTY)) && has_meta && config.with_meta,
    }
}

/// Whether two texts are the same.
fn same_text(a: &str, b: &str) -> (r: bool)
    ensures
        r == (a@ == b@),
{
    String::from_str(a) == String::from_str(b)
}

/// Decides how a file of the kind `file_type` with the extension
/// `extension` is named.
pub fn handle_extension(
    file_type: &FileType,
    extension: &str,
    config: &DatasheetConfig,
    has_meta: bool,
) -> (r: Naming)
    ensures
        r == naming(*file_type, extension@, *config, has_meta),
{
    let wanted: Option<Extension> = match file_type {
        FileType::VShapeC(format) => match format {
            VShapeFormat::PRETTY => Some(Extension::Json),
            VShapeFormat::MINI => Some(Extension::Json),
            VShapeFormat::YAML => Some(Extension::Yaml),
            VShapeFormat::BYTES => None,
        },
        FileType::ObjectStream(format) => match format {
            ObjectStreamFormat::XML => Some(Extension::Xml),
            ObjectStreamFormat::JSON => Some(Extension::Json),
            ObjectStreamFormat::PRETTY => Some(Extension::Json),
            ObjectStreamFormat::BYTES => None,
        },
        FileType::Datasheet(format) => match format {
            DatasheetFormat::BYTES => None,
            DatasheetFormat::XML => Some(Extension::Xml),
            DatasheetFormat::MINI => Some(Extension::Json),
            DatasheetFormat::PRETTY => Some(Extension::Json),
            DatasheetFormat::CSV => Some(Extension::Csv),
            DatasheetFormat::YAML => Some(Extension::Yaml),
            DatasheetFormat::SQL => Some(Extension::Sql),
        },
        _ => None,
    };
    let appended = match wanted {
        Some(e) => if same_text(extension, e.text()) {
            None
        } else {
            Some(e)
        },
        None => None,
    };
    let is_sheet = match file_type {
        FileType::Datasheet(_) => true,
        _ => false,
    };
    let is_json_sheet = match file_type {
        FileType::Datasheet(format) => match format {
            DatasheetFormat::MINI => true,
            DatasheetFormat::PRETTY => true,
            _ => false,
        },
        _ => false,
    };
    let as_script = match file_type {
        FileType::Luac(b) => *b,
        _ => false,
    };
    let by_name = match config.datasheet_filenames {
        DatasheetOutputMode::TYPENAME => true,
        DatasheetOutputMode::ORIGINAL => false,
    };
    Naming {
        by_table: is_sheet && by_name && has_meta,
        as_script,
        appended,
        with_meta: is_json_sheet && has_meta && config.with_meta,
    }
}

/// A decoded archive entry.
#[derive(Debug)]
pub struct Decompressor {
    /// The name of the entry in the archive.
    pub name: String,
    /// The bytes of the entry, inflated and without a container.
    pub buf: Vec<u8>,
}

impl Decompressor {
    /// Inflates the bytes `raw` of an entry by `method`, and takes the
    /// container off that may be around the result. The method decides
    /// first: a method that is not known is an error whatever the size.
    /// `size` is the size that the archive declares for the inflated entry;
    /// it is told in the error of the block compressor and decides nothing
    /// else. `block` is what the block compressor gave for the entry, where
    /// it was asked.
    pub fn decompress(
        method: CompressionMethod,
        raw: &[u8],
        size: u64,
        block: Option<Vec<u8>>,
    ) -> (r: Result<Vec<u8>, Error>)
        ensures
            gives(r, decoded(method, raw@, size, block_of(block))),
    {
        let bytes = match method {
            CompressionMethod::Stored => {
                let mut copy: Vec<u8> = Vec::new();
                crate::bytes::write_bytes(&mut copy, raw);
                assert(copy@ =~= raw@);
                copy
            },
            CompressionMethod::Deflated => {
                if raw.len() < 2 {
                    return Err(Error::UnexpectedEof);
                }
                let inflated = if raw[0] == 0x78 && raw[1] == 0xda {
                    inflate_zlib(raw)
                } else {
                    inflate_raw(raw)
                };
                match inflated {
                    Ok(bytes) => bytes,
                    Err(e) => {
                        return Err(e);
                    },
                }
            },
            CompressionMethod::Unsupported(n) => {
                if n != BLOCK_METHOD {
                    return Err(Error::UnsupportedMethod);
                }
                match block {
                    Some(bytes) => bytes,
                    None => {
                        return Err(Error::BlockDecode(size));
                    },
                }
            },
        };
        unwrap_container(bytes)
    }

    /// Decodes an entry of the name `name`.
    pub fn try_new(
        name: String,
        method: CompressionMethod,
        raw: &[u8],
        size: u64,
        block: Option<Vec<u8>>,
    ) -> (r: Result<Decompressor, Error>)
        ensures
            match r {
                Ok(d) => decoded(method, raw@, size, block_of(block)) == Ok::<Seq<u8>, Error>(
                    d.buf@,
                ) && d.name@ == name@,
                Err(e) => decoded(method, raw@, size, block_of(block)) == Err::<Seq<u8>, Error>(e),
            },
    {
        match Decompressor::decompress(method, raw, size, block) {
            Ok(buf) => Ok(Decompressor { name, buf }),
            Err(e) => Err(e),
        }
    }

    /// The number of bytes of the decoded entry.
    pub fn size(&self) -> (r: usize)
        ensures
            r == self.buf@.len(),
    {
        self.buf.len()
    }

    /// Tells the kind of the file from its first bytes, or else from its name.
    pub fn file_type(&self, config: &Extract) -> (r: FileType)
        ensures
            r == sniffed(self.buf@, self.name@, *config),
    {
        let script: [u8; 5] = [0x04, 0x00, 0x1b, 0x4c, 0x75];
        let stream: [u8; 5] = [0x00, 0x00, 0x00, 0x00, 0x03];
        let sheet: [u8; 4] = [0x11, 0x00, 0x00, 0x00];
        assert(script@ =~= script_magic());
        assert(stream@ =~= stream_magic());
        assert(sheet@ =~= sheet_magic());
        let buf = self.buf.as_slice();
        let name = self.name.as_str();
        if starts_with(buf, script.as_slice()) {
            FileType::Luac(
                match config.lua.distribution {
                    LuaFormat::LUA => true,
                    LuaFormat::BYTES => false,
                },
            )
        } else if starts_with(buf, stream.as_slice()) {
            FileType::ObjectStream(config.objectstream.objectstream)
        } else if starts_with(buf, sheet.as_slice()) {
            FileType::Datasheet(config.datasheet.datasheet)
        } else if ends_with(name, ".distribution") {
            FileType::Distribution(config.distribution.distribution)
        } else if ends_with(name, ".vshapec") {
            FileType::VShapeC(config.vshapec.vshapec)
        } else if ends_with(name, ".dds") {
            FileType::DDS(config.dds.dds)
        } else {
            FileType::Other
        }
    }

    /// A copy of the decoded bytes from `from` on.
    fn bytes_from(&self, from: usize) -> (r: Vec<u8>)
        requires
            from <= self.buf@.len(),
        ensures
            r@ == self.buf@.subrange(from as int, self.buf@.len() as int),
    {
        let mut copy: Vec<u8> = Vec::new();
        crate::bytes::write_bytes(&mut copy, slice_subrange(self.buf.as_slice(), from, self.buf.len()));
        assert(copy@ =~= self.buf@.subrange(from as int, self.buf@.len() as int));
        copy
    }

    /// Tells what is written for the entry: its bytes, or what it decodes
    /// to in the form that the user chose for its kind.
    pub fn to_writer(&self, config: &Extract, hashes: Option<&LumberyardSource>) -> (r: Result<
        Rendered,
        Error,
    >)
        ensures
            match r {
                Ok(rendered) => rendering(
                    self.buf@,
                    sniffed(self.buf@, self.name@, *config),
                    names_of(hashes),
                ) is Ok && shows(
                    rendered,
                    rendering(
                        self.buf@,
                        sniffed(self.buf@, self.name@, *config),
                        names_of(hashes),
                    )->Ok_0,
                ),
                Err(e) => rendering(
                    self.buf@,
                    sniffed(self.buf@, self.name@, *config),
                    names_of(hashes),
                ) == Err::<RenderedModel, Error>(e),
            },
    {
        let kind = self.file_type(config);
        assert(self.buf@.subrange(0, self.buf@.len() as int) =~= self.buf@);
        match kind {
            FileType::Luac(_) => {
                if self.buf.len() >= 2 {
                    Ok(Rendered::Bytes(self.bytes_from(2)))
                } else {
                    Ok(Rendered::Bytes(Vec::new()))
                }
            },
            FileType::DDS(format) => match format {
                DDSFormat::BYTES => Ok(Rendered::Bytes(self.bytes_from(0))),
                _ => Ok(Rendered::Texture(self.bytes_from(0), format)),
            },
            FileType::Distribution(format) => match format {
                DistributionFormat::BYTES => Ok(Rendered::Bytes(self.bytes_from(0))),
                _ => match Distribution::from_reader(self.buf.as_slice()) {
                    Ok(value) => Ok(Rendered::Distribution(value, format)),
                    Err(MyError::IO(e)) => Err(e),
                    Err(MyError::TryFromSliceError) => Err(Error::InvalidValueSize),
                },
            },
            FileType::VShapeC(format) => match format {
                VShapeFormat::BYTES => Ok(Rendered::Bytes(self.bytes_from(0))),
                _ => match VShapeC::from_reader(self.buf.as_slice()) {
                    Ok(value) => Ok(Rendered::Shape(value, format)),
                    Err(e) => Err(e),
                },
            },
            FileType::ObjectStream(format) => match format {
                ObjectStreamFormat::BYTES => Ok(Rendered::Bytes(self.bytes_from(0))),
                _ => match from_reader(self.buf.as_slice(), hashes) {
                    Err(_) => Ok(Rendered::Bytes(self.bytes_from(0))),
                    Ok(stream) => match format {
                        ObjectStreamFormat::XML => Ok(
                            Rendered::StreamXml(XMLObjectStream::from_stream(&stream)),
                        ),
                        ObjectStreamFormat::PRETTY => Ok(
                            Rendered::StreamJson(JSONObjectStream::from_stream(&stream), true),
                        ),
                        _ => Ok(
                            Rendered::StreamJson(JSONObjectStream::from_stream(&stream), false),
                        ),
                    },
                },
            },
            FileType::Datasheet(format) => match format {
                DatasheetFormat::BYTES => Ok(Rendered::Bytes(self.bytes_from(0))),
                DatasheetFormat::XML => Err(Error::UnsupportedFormat),
                _ => match crate::datasheet::from_reader(self.buf.as_slice()) {
                    Ok(sheet) => Ok(Rendered::Sheet(sheet, format)),
                    Err(e) => Err(e),
                },
            },
            FileType::Other => Ok(Rendered::Bytes(self.bytes_from(0))),
        }
    }
}

} // verus!
