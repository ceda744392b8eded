use flate2::write::{DeflateEncoder, ZlibEncoder};
use flate2::Compression;
use nw_tools::azcs::{
    decompress, handle_zlib, is_azcs, is_compressed, is_uncompressed, unwrap_container, Header,
};
use nw_tools::cli::commands::extract::Extract;
use nw_tools::cli::common::datasheet::{DatasheetConfig, DatasheetFormat, DatasheetOutputMode};
use nw_tools::cli::common::dds::{DDSConfig, DDSFormat};
use nw_tools::cli::common::distribution::{DistributionConfig, DistributionFormat};
use nw_tools::cli::common::filter::Filter;
use nw_tools::cli::common::input::Input;
use nw_tools::cli::common::lua::{LuaConfig, LuaFormat};
use nw_tools::cli::common::objectstream::{ObjectStreamConfig, ObjectStreamFormat};
use nw_tools::cli::common::output::Output;
use nw_tools::cli::common::vshapec::{VShapeConfig, VShapeFormat};
use nw_tools::cli::common::CommonConfig;
use nw_tools::decompressor::texture::{is_before, order_parts, sort_parts};
use nw_tools::decompressor::{
    handle_extension, CompressionMethod, Decompressor, Extension, FileType, Naming, Rendered,
};
use nw_tools::error::Error;
use nw_tools::inflate::{inflate_raw, inflate_zlib};
use std::io::Write;

fn zlib(data: &[u8]) -> Vec<u8> {
    let mut encoder = ZlibEncoder::new(Vec::new(), Compression::best());
    encoder.write_all(data).unwrap();
    encoder.finish().unwrap()
}

fn deflate(data: &[u8]) -> Vec<u8> {
    let mut encoder = DeflateEncoder::new(Vec::new(), Compression::best());
    encoder.write_all(data).unwrap();
    encoder.finish().unwrap()
}

fn container(id: u32, points: u32, payload: &[u8], tail: &[u8]) -> Vec<u8> {
    let mut out = b"AZCS".to_vec();
    out.extend_from_slice(&id.to_be_bytes());
    out.extend_from_slice(&(payload.len() as u64).to_be_bytes());
    out.extend_from_slice(&points.to_be_bytes());
    out.extend_from_slice(payload);
    out.extend_from_slice(tail);
    out
}

fn text() -> Vec<u8> {
    b"the quick brown fox jumps over the lazy dog, the quick brown fox".to_vec()
}

#[test]
fn signatures() {
    assert!(is_compressed(b"AZCS"));
    assert!(is_compressed(b"AZCSmore"));
    assert!(!is_compressed(b"AZC"));
    assert!(!is_compressed(b"azcs"));
    assert!(!is_compressed(b""));
    for last in [1u8, 2, 3] {
        assert!(is_uncompressed(&[0, 0, 0, 0, last]));
        assert!(is_uncompressed(&[0, 0, 0, 0, last, 9]));
        assert!(!is_azcs(&[0, 0, 0, 0, last]));
    }
    assert!(!is_uncompressed(&[0, 0, 0, 0, 0]));
    assert!(!is_uncompressed(&[0, 0, 0, 0, 4]));
    assert!(!is_uncompressed(&[0, 0, 0, 0]));
    assert!(is_azcs(b"AZCS\0"));
    assert!(!is_azcs(b"\x11\0\0\0\0"));
}

#[test]
fn what_is_no_container_passes_unchanged() {
    for last in [1u8, 2, 3] {
        let data = vec![0, 0, 0, 0, last, 0];
        assert_eq!(unwrap_container(data.clone()), Ok(data));
    }
    for data in [vec![], vec![1u8], b"AZC".to_vec(), b"hello world".to_vec()] {
        assert_eq!(unwrap_container(data.clone()), Ok(data));
    }
}

#[test]
fn the_header_of_a_container() {
    let bytes = container(0x73887d3a, 0, b"", b"");
    let header = Header::from_reader(&bytes).unwrap();
    assert_eq!(&header.signature, b"AZCS");
    assert_eq!(header.compressor_id, 0x73887d3a);
    assert_eq!(header.uncompressed_size, 0);
    let mut sized = bytes.clone();
    sized[8..16].copy_from_slice(&0x0102030405060708u64.to_be_bytes());
    assert_eq!(Header::from_reader(&sized).unwrap().uncompressed_size, 0x0102030405060708);
    assert_eq!(Header::from_reader(&bytes[..15]).err(), Some(Error::UnexpectedEof));
}

#[test]
fn seek_points_do_not_reach_the_inflater() {
    let packed = zlib(&text());
    for points in [0u32, 1, 3] {
        let tail = vec![0xAB; 16 * points as usize];
        let bytes = container(0x73887d3a, points, &packed, &tail);
        assert_eq!(unwrap_container(bytes.clone()), Ok(text()));
        let other_tail = vec![0x11; 16 * points as usize];
        assert_eq!(unwrap_container(container(0x73887d3a, points, &packed, &other_tail)), Ok(text()));
        assert_eq!(handle_zlib(&bytes[16..]), Ok(text()));
        let header = Header::from_reader(&bytes).unwrap();
        assert_eq!(decompress(&bytes[16..], &header), Ok(text()));
    }
}

#[test]
fn a_table_of_seek_points_that_is_too_large_is_an_error() {
    let packed = zlib(&text());
    let bytes = container(0x73887d3a, 1000, &packed, b"");
    assert_eq!(unwrap_container(bytes), Err(Error::InvalidCompressedSize));
    let bytes = container(0x73887d3a, u32::MAX, &packed, b"");
    assert_eq!(unwrap_container(bytes), Err(Error::InvalidCompressedSize));
}

#[test]
fn compressors_that_are_not_handled() {
    assert_eq!(unwrap_container(container(0x72fd505e, 0, b"x", b"")), Err(Error::ZstdNotImplemented));
    assert_eq!(
        unwrap_container(container(0x12345678, 0, b"x", b"")),
        Err(Error::UnsupportedCompressor(0x12345678))
    );
    assert_eq!(Error::UnsupportedCompressor(0x0234abcd).message(), "Unsupported compressor_id: 0x0234abcd");
    assert_eq!(Error::ZstdNotImplemented.message(), "zstd is not implemented");
    assert_eq!(Error::BlockDecode(1234).message(), "Error with the block decompressor. Size: 1234");
}

#[test]
fn a_container_that_is_cut_short_is_an_error() {
    let bytes = container(0x73887d3a, 0, &zlib(&text()), b"");
    for len in 4..20 {
        assert_eq!(unwrap_container(bytes[..len].to_vec()), Err(Error::UnexpectedEof), "{}", len);
    }
    for len in 20..bytes.len() {
        assert_eq!(unwrap_container(bytes[..len].to_vec()), Err(Error::Inflate), "{}", len);
    }
}

#[test]
fn inflating() {
    assert_eq!(inflate_zlib(&zlib(&text())), Ok(text()));
    assert_eq!(inflate_raw(&deflate(&text())), Ok(text()));
    assert_eq!(inflate_zlib(&deflate(&text())), Err(Error::Inflate));
    assert_eq!(inflate_zlib(b"nonsense"), Err(Error::Inflate));
}

#[test]
fn the_cascade() {
    let raw = text();
    let size = raw.len() as u64;
    assert_eq!(Decompressor::decompress(CompressionMethod::Stored, &raw, size, None), Ok(text()));
    let packed = zlib(&raw);
    assert_eq!(&packed[..2], &[0x78, 0xDA]);
    assert_eq!(Decompressor::decompress(CompressionMethod::Deflated, &packed, size, None), Ok(text()));
    assert_eq!(
        Decompressor::decompress(CompressionMethod::Deflated, &deflate(&raw), size, None),
        Ok(text())
    );
    assert_eq!(
        Decompressor::decompress(CompressionMethod::Deflated, &[0x78], size, None),
        Err(Error::UnexpectedEof)
    );
    assert_eq!(
        Decompressor::decompress(CompressionMethod::Deflated, b"garbage", size, None),
        Err(Error::Inflate)
    );
    assert_eq!(
        Decompressor::decompress(CompressionMethod::Deflated, b"garbage", 0, None),
        Err(Error::Inflate)
    );
    assert_eq!(Decompressor::decompress(CompressionMethod::Stored, &raw, 0, None), Ok(text()));
    assert_eq!(
        Decompressor::decompress(CompressionMethod::Unsupported(99), &[], 0, None),
        Err(Error::UnsupportedMethod)
    );
    assert_eq!(
        Decompressor::decompress(CompressionMethod::Unsupported(15), &[], 0, None),
        Err(Error::BlockDecode(0))
    );
    assert_eq!(
        Decompressor::decompress(CompressionMethod::Unsupported(15), b"??", size, Some(text())),
        Ok(text())
    );
    assert_eq!(
        Decompressor::decompress(CompressionMethod::Unsupported(15), b"??", size, None),
        Err(Error::BlockDecode(size))
    );
    assert_eq!(
        Decompressor::decompress(CompressionMethod::Unsupported(14), b"??", size, Some(text())),
        Err(Error::UnsupportedMethod)
    );
    assert!(CompressionMethod::Unsupported(15).is_block());
    assert!(!CompressionMethod::Unsupported(14).is_block());
    assert!(!CompressionMethod::Deflated.is_block());
}

#[test]
fn a_container_inside_an_entry_is_taken_off() {
    let inner = container(0x73887d3a, 2, &zlib(&text()), &[0; 32]);
    let size = inner.len() as u64;
    assert_eq!(Decompressor::decompress(CompressionMethod::Stored, &inner, size, None), Ok(text()));
    assert_eq!(
        Decompressor::decompress(CompressionMethod::Deflated, &deflate(&inner), size, None),
        Ok(text())
    );
    let unknown = container(7, 0, b"", b"");
    assert_eq!(
        Decompressor::decompress(CompressionMethod::Stored, &unknown, 20, None),
        Err(Error::UnsupportedCompressor(7))
    );
}

fn config() -> Extract {
    Extract {
        common: CommonConfig {
            input: Input { input: None },
            output: Output { output: None },
            filter: Filter { filter: None },
        },
        datasheet: DatasheetConfig {
            datasheet: DatasheetFormat::CSV,
            datasheet_filenames: DatasheetOutputMode::ORIGINAL,
            with_meta: false,
            inline_locale: None,
        },
        objectstream: ObjectStreamConfig { objectstream: ObjectStreamFormat::XML },
        distribution: DistributionConfig { distribution: DistributionFormat::MINI },
        vshapec: VShapeConfig { vshapec: VShapeFormat::YAML },
        dds: DDSConfig { dds: DDSFormat::PNG },
        lua: LuaConfig { distribution: LuaFormat::LUA },
    }
}

fn entry(name: &str, bytes: &[u8]) -> Decompressor {
    Decompressor::try_new(name.to_string(), CompressionMethod::Stored, bytes, bytes.len() as u64, None)
        .unwrap()
}

#[test]
fn the_kind_of_a_file() {
    let config = config();
    assert_eq!(entry("a.luac", &[4, 0, 0x1B, 0x4C, 0x75, 0x61]).file_type(&config), FileType::Luac(true));
    assert_eq!(
        entry("a.dds", &[0, 0, 0, 0, 3, 0]).file_type(&config),
        FileType::ObjectStream(ObjectStreamFormat::XML)
    );
    assert_eq!(
        entry("a.bin", &[0x11, 0, 0, 0]).file_type(&config),
        FileType::Datasheet(DatasheetFormat::CSV)
    );
    assert_eq!(
        entry("a.bin", &[0x11, 0, 0, 0, 9]).file_type(&config),
        FileType::Datasheet(DatasheetFormat::CSV)
    );
    assert_eq!(entry("a.bin", &[0x11, 0, 0]).file_type(&config), FileType::Other);
    assert_eq!(entry("a.bin", &[0, 0, 0, 0, 2, 0]).file_type(&config), FileType::Other);
    assert_eq!(
        entry("x/y.distribution", b"12345").file_type(&config),
        FileType::Distribution(DistributionFormat::MINI)
    );
    assert_eq!(entry("x/y.vshapec", b"").file_type(&config), FileType::VShapeC(VShapeFormat::YAML));
    assert_eq!(entry("x/y.dds", b"DDS ").file_type(&config), FileType::DDS(DDSFormat::PNG));
    assert_eq!(entry("x/y.dds.1", b"DDS ").file_type(&config), FileType::Other);
    assert_eq!(entry("dds", b"").file_type(&config), FileType::Other);
    assert_eq!(FileType::default(), FileType::Other);
    assert_eq!(entry("a", b"abc").size(), 3);
}

#[test]
fn what_is_written() {
    let mut config = config();
    match entry("a.luac", &[4, 0, 0x1B, 0x4C, 0x75, 0x61]).to_writer(&config, None) {
        Ok(Rendered::Bytes(bytes)) => assert_eq!(bytes, vec![0x1B, 0x4C, 0x75, 0x61]),
        other => panic!("{:?}", other),
    }
    match entry("a", &[0, 0, 0, 0, 3, 0]).to_writer(&config, None) {
        Ok(Rendered::StreamXml(stream)) => {
            assert_eq!(stream.version, 3);
            assert!(stream.elements.is_empty());
        }
        other => panic!("{:?}", other),
    }
    // an object stream that does not decode is written as it is
    match entry("a", &[0, 0, 0, 0, 3, 9]).to_writer(&config, None) {
        Ok(Rendered::Bytes(bytes)) => assert_eq!(bytes, vec![0, 0, 0, 0, 3, 9]),
        other => panic!("{:?}", other),
    }
    config.objectstream.objectstream = ObjectStreamFormat::PRETTY;
    match entry("a", &[0, 0, 0, 0, 3, 0]).to_writer(&config, None) {
        Ok(Rendered::StreamJson(stream, pretty)) => {
            assert_eq!(stream.name, "ObjectStream");
            assert!(pretty);
        }
        other => panic!("{:?}", other),
    }
    config.objectstream.objectstream = ObjectStreamFormat::JSON;
    assert!(matches!(
        entry("a", &[0, 0, 0, 0, 3, 0]).to_writer(&config, None),
        Ok(Rendered::StreamJson(_, false))
    ));
    config.objectstream.objectstream = ObjectStreamFormat::BYTES;
    assert!(matches!(entry("a", &[0, 0, 0, 0, 3, 0]).to_writer(&config, None), Ok(Rendered::Bytes(_))));

    assert_eq!(entry("a", &[0x11, 0, 0, 0]).to_writer(&config, None).err(), Some(Error::UnexpectedEof));
    config.datasheet.datasheet = DatasheetFormat::XML;
    assert_eq!(entry("a", &[0x11, 0, 0, 0]).to_writer(&config, None).err(), Some(Error::UnsupportedFormat));
    config.datasheet.datasheet = DatasheetFormat::BYTES;
    assert!(matches!(entry("a", &[0x11, 0, 0, 0]).to_writer(&config, None), Ok(Rendered::Bytes(_))));

    assert!(matches!(
        entry("a.dds", b"DDS ").to_writer(&config, None),
        Ok(Rendered::Texture(_, DDSFormat::PNG))
    ));
    assert_eq!(entry("a.vshapec", b"1234").to_writer(&config, None).err(), Some(Error::UnexpectedEof));
    assert_eq!(entry("a.distribution", b"").to_writer(&config, None).err(), Some(Error::UnexpectedEof));
    match entry("a.txt", b"plain").to_writer(&config, None) {
        Ok(Rendered::Bytes(bytes)) => assert_eq!(bytes, b"plain".to_vec()),
        other => panic!("{:?}", other),
    }
}

#[test]
fn how_a_file_is_named() {
    let keep = Naming { by_table: false, as_script: false, appended: None, with_meta: false };
    let mut sheets = DatasheetConfig {
        datasheet: DatasheetFormat::MINI,
        datasheet_filenames: DatasheetOutputMode::ORIGINAL,
        with_meta: false,
        inline_locale: None,
    };
    assert_eq!(handle_extension(&FileType::Other, "bin", &sheets, false), keep);
    assert_eq!(handle_extension(&FileType::Luac(false), "luac", &sheets, false), keep);
    assert_eq!(
        handle_extension(&FileType::Luac(true), "luac", &sheets, false),
        Naming { as_script: true, ..keep }
    );
    for (kind, extension) in [
        (FileType::ObjectStream(ObjectStreamFormat::XML), Extension::Xml),
        (FileType::ObjectStream(ObjectStreamFormat::JSON), Extension::Json),
        (FileType::ObjectStream(ObjectStreamFormat::PRETTY), Extension::Json),
        (FileType::VShapeC(VShapeFormat::MINI), Extension::Json),
        (FileType::VShapeC(VShapeFormat::PRETTY), Extension::Json),
        (FileType::VShapeC(VShapeFormat::YAML), Extension::Yaml),
        (FileType::Datasheet(DatasheetFormat::XML), Extension::Xml),
        (FileType::Datasheet(DatasheetFormat::MINI), Extension::Json),
        (FileType::Datasheet(DatasheetFormat::PRETTY), Extension::Json),
        (FileType::Datasheet(DatasheetFormat::CSV), Extension::Csv),
        (FileType::Datasheet(DatasheetFormat::YAML), Extension::Yaml),
        (FileType::Datasheet(DatasheetFormat::SQL), Extension::Sql),
    ] {
        assert_eq!(
            handle_extension(&kind, "datasheet", &sheets, false),
            Naming { appended: Some(extension), ..keep }
        );
        assert_eq!(handle_extension(&kind, extension.text(), &sheets, false), keep);
    }
    for kind in [
        FileType::ObjectStream(ObjectStreamFormat::BYTES),
        FileType::VShapeC(VShapeFormat::BYTES),
        FileType::Datasheet(DatasheetFormat::BYTES),
        FileType::Distribution(DistributionFormat::PRETTY),
        FileType::DDS(DDSFormat::PNG),
    ] {
        assert_eq!(handle_extension(&kind, "json", &sheets, false), keep);
    }
    sheets.with_meta = true;
    sheets.datasheet_filenames = DatasheetOutputMode::TYPENAME;
    assert_eq!(
        handle_extension(&FileType::Datasheet(DatasheetFormat::PRETTY), "json", &sheets, true),
        Naming { by_table: true, with_meta: true, ..keep }
    );
    assert_eq!(
        handle_extension(&FileType::Datasheet(DatasheetFormat::PRETTY), "json", &sheets, false),
        keep
    );
    assert_eq!(
        handle_extension(&FileType::Datasheet(DatasheetFormat::CSV), "csv", &sheets, true),
        Naming { by_table: true, ..keep }
    );
    assert_eq!(
        handle_extension(&FileType::ObjectStream(ObjectStreamFormat::XML), "xml", &sheets, true),
        keep
    );
    assert_eq!(Extension::Json.text(), "json");
    assert_eq!(Extension::Sql.text(), "sql");
}

#[test]
fn the_order_of_the_parts_of_a_texture() {
    let names = |list: &[&str]| -> Vec<String> { list.iter().map(|n| n.to_string()).collect() };
    let parts = names(&["t.dds.10", "t.dds.2", "t.dds.a", "t.dds.1", "t.dds.1a"]);
    assert_eq!(order_parts(&parts, false), names(&["t.dds.a", "t.dds.1", "t.dds.1a", "t.dds.2", "t.dds.10"]));
    assert_eq!(order_parts(&parts, true), names(&["t.dds.10", "t.dds.2", "t.dds.1a", "t.dds.1", "t.dds.a"]));
    assert_eq!(sort_parts(&parts), order_parts(&parts, false));
    assert_eq!(order_parts(&names(&["x.a", "b.a", "a"]), false), names(&["b.a", "x.a", "a"]));
    assert!(order_parts(&vec![], true).is_empty());
    assert!(is_before("t.a", "a"));
    assert!(!is_before("a", "t.a"));
    assert!(is_before("a2", "a10"));
    assert!(!is_before("a10", "a2"));
    assert!(!is_before("a", "a"));
}
