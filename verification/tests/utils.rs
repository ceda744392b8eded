use nw_tools::assets::EDataType;
use nw_tools::cli::common::datasheet::{DatasheetFormat, DatasheetOutputMode, Localization};
use nw_tools::cli::common::filter::{Filter, Pattern};
use nw_tools::cli::common::{edition_of, nw_type, validate_path, PathFacts};
use nw_tools::error::Error;
use nw_tools::object_stream::ser::{FieldAction, Serializer};
use nw_tools::utils::types::{
    asset_string, data_of_value, uuid_braced_upper, uuid_data_to_serialize, Value, ASSET, AZ_S64,
    AZ_U64, AZ_UUID, BOOL, CHAR, COLOR, DOUBLE, FLOAT, INT, LONG, SHORT, UNSIGNED_CHAR,
    UNSIGNED_INT, UNSIGNED_LONG, UNSIGNED_SHORT, VECTOR3, VOID,
};
use nw_tools::utils::{crc32, format_duration, format_seconds};
use std::time::Duration;

fn bit_by_bit(bytes: &[u8]) -> u32 {
    let mut register: u32 = 0xFFFF_FFFF;
    for b in bytes {
        register ^= *b as u32;
        for _ in 0..8 {
            register = if register & 1 == 1 { (register >> 1) ^ 0xEDB8_8320 } else { register >> 1 };
        }
    }
    register ^ 0xFFFF_FFFF
}

#[test]
fn the_checksum_is_the_one_that_is_made_bit_by_bit() {
    for text in ["", "a", "test", "123456789", "m_position", "héllo wörld", "\u{0}\u{ff}"] {
        assert_eq!(crc32(text), bit_by_bit(text.as_bytes()), "{:?}", text);
    }
    let long: String = (0..1000u32).map(|i| char::from(b'a' + (i % 26) as u8)).collect();
    assert_eq!(crc32(&long), bit_by_bit(long.as_bytes()));
}

#[test]
fn checksums() {
    assert_eq!(crc32(""), 0);
    assert_eq!(crc32("test"), 0xD87F7E0C);
    assert_eq!(crc32("123456789"), 0xCBF43926);
}

#[test]
fn durations() {
    assert_eq!(format_seconds(0), "00s");
    assert_eq!(format_seconds(9), "09s");
    assert_eq!(format_seconds(59), "59s");
    assert_eq!(format_seconds(60), "01m:00s");
    assert_eq!(format_seconds(61), "01m:01s");
    assert_eq!(format_seconds(3599), "59m:59s");
    assert_eq!(format_seconds(3600), "01h:00m:00s");
    assert_eq!(format_seconds(3661), "01h:01m:01s");
    assert_eq!(format_seconds(360000), "100h:00m:00s");
    assert_eq!(format_duration(Duration::from_millis(61_999)), "01m:01s");
    assert_eq!(format_duration(Duration::from_secs(7322)), "02h:02m:02s");
}

#[test]
fn editions_of_the_game() {
    assert_eq!(nw_type(r"C:\Steam\New World"), "live");
    assert_eq!(nw_type(r"C:\Steam\New World Marketing"), "marketing");
    assert_eq!(nw_type(r"C:\Steam\NEW WORLD PUBLIC TEST REALM\x"), "ptr");
    assert_eq!(nw_type(""), "live");
    assert_eq!(edition_of("new world marketing new world public test realm"), "marketing");
    assert_eq!(edition_of("New World Marketing"), "live");
}

#[test]
fn paths_of_the_game() {
    let all = PathFacts { exists: true, has_program: true, has_assets: true };
    assert_eq!(validate_path("C:/nw", all), Ok("C:/nw".to_string()));
    assert_eq!(
        validate_path("C:/nw", PathFacts { has_assets: false, ..all }),
        Err("New World does not exist in that path.".to_string())
    );
    assert_eq!(
        validate_path("C:/nw", PathFacts { exists: false, has_program: false, has_assets: false }),
        Err("Not a valid path".to_string())
    );
}

#[test]
fn names_of_forms() {
    assert_eq!(DatasheetFormat::BYTES.text(), "bytes");
    assert_eq!(DatasheetFormat::XML.text(), "xml");
    assert_eq!(DatasheetFormat::MINI.text(), "mini");
    assert_eq!(DatasheetFormat::PRETTY.text(), "json");
    assert_eq!(DatasheetFormat::CSV.text(), "csv");
    assert_eq!(DatasheetFormat::YAML.text(), "yaml");
    assert_eq!(DatasheetFormat::SQL.text(), "sql");
    assert_eq!(DatasheetFormat::default(), DatasheetFormat::BYTES);
    assert_eq!(DatasheetOutputMode::default(), DatasheetOutputMode::ORIGINAL);
    assert_eq!(Localization::default(), Localization::EN);
    let names: Vec<&str> = [
        Localization::EN,
        Localization::ES,
        Localization::IT,
        Localization::DE,
        Localization::MX,
        Localization::FR,
        Localization::PL,
        Localization::BR,
    ]
    .iter()
    .map(|l| l.text())
    .collect();
    assert_eq!(names, vec!["en-us", "en-es", "it-it", "de-de", "es-mx", "fr-fr", "pl-pl", "pt-br"]);
    assert_eq!(EDataType::of_tag(0), Some(EDataType::BINARY));
    assert_eq!(EDataType::of_tag(b'<'), Some(EDataType::XML));
    assert_eq!(EDataType::of_tag(b'{'), Some(EDataType::JSON));
    assert_eq!(EDataType::of_tag(1), None);
}

#[test]
fn ids_as_text() {
    assert_eq!(uuid_braced_upper(INT), "{72039442-EB38-4D42-A1AD-CB68F7E0EEF6}");
    assert_eq!(uuid_braced_upper(0), "{00000000-0000-0000-0000-000000000000}");
    assert_eq!(uuid_braced_upper(u128::MAX), "{FFFFFFFF-FFFF-FFFF-FFFF-FFFFFFFFFFFF}");
    assert_eq!(
        uuid_braced_upper(0x0123456789abcdef0123456789abcdef),
        "{01234567-89AB-CDEF-0123-456789ABCDEF}"
    );
}

fn signed(id: u128, data: &[u8]) -> Option<i64> {
    match uuid_data_to_serialize(id, data, false) {
        Ok(Value::Signed(v)) => Some(v),
        _ => None,
    }
}

fn unsigned(id: u128, data: &[u8]) -> Option<u64> {
    match uuid_data_to_serialize(id, data, true) {
        Ok(Value::Unsigned(v)) => Some(v),
        _ => None,
    }
}

fn text(id: u128, data: &[u8], is_json: bool) -> Option<String> {
    match uuid_data_to_serialize(id, data, is_json) {
        Ok(Value::Text(v)) => Some(v),
        _ => None,
    }
}

#[test]
fn values_of_the_known_types() {
    assert_eq!(signed(CHAR, &[0xFF]), Some(-1));
    assert_eq!(signed(CHAR, &[0x7F]), Some(127));
    assert_eq!(signed(SHORT, &[0x80, 0x00]), Some(-32768));
    assert_eq!(signed(SHORT, &[0x01, 0x02]), Some(0x0102));
    assert_eq!(signed(INT, &[0, 0, 0, 2]), Some(2));
    assert_eq!(signed(INT, &[0xFF, 0xFF, 0xFF, 0xFE]), Some(-2));
    assert_eq!(signed(LONG, &[0x80, 0, 0, 0, 0, 0, 0, 0]), Some(i64::MIN));
    assert_eq!(signed(AZ_S64, &[0x7F, 0xFF, 0xFF, 0xFF, 0xFF, 0xFF, 0xFF, 0xFF]), Some(i64::MAX));
    assert_eq!(unsigned(UNSIGNED_CHAR, &[0xFF]), Some(255));
    assert_eq!(unsigned(UNSIGNED_SHORT, &[0xFF, 0xFE]), Some(0xFFFE));
    assert_eq!(unsigned(UNSIGNED_INT, &[0xFF, 0xFF, 0xFF, 0xFE]), Some(0xFFFFFFFE));
    assert_eq!(unsigned(UNSIGNED_LONG, &[0xFF; 8]), Some(u64::MAX));
    assert_eq!(unsigned(AZ_U64, &[0, 0, 0, 0, 0, 0, 1, 0]), Some(256));
    assert!(matches!(uuid_data_to_serialize(FLOAT, &1.5f32.to_be_bytes(), false), Ok(Value::Single(b)) if b == 1.5f32.to_bits()));
    assert!(matches!(uuid_data_to_serialize(DOUBLE, &1.5f64.to_be_bytes(), false), Ok(Value::Double(b)) if b == 1.5f64.to_bits()));
    assert!(matches!(uuid_data_to_serialize(BOOL, &[0], false), Ok(Value::Bool(false))));
    assert!(matches!(uuid_data_to_serialize(BOOL, &[2], false), Ok(Value::Bool(true))));
    assert_eq!(
        text(AZ_UUID, &INT.to_be_bytes(), false).as_deref(),
        Some("{72039442-EB38-4D42-A1AD-CB68F7E0EEF6}")
    );
    for (id, data) in [
        (CHAR, &[][..]),
        (CHAR, &[1, 2][..]),
        (SHORT, &[1][..]),
        (INT, &[1, 2, 3][..]),
        (LONG, &[1, 2, 3, 4][..]),
        (UNSIGNED_INT, &[1, 2, 3, 4, 5][..]),
        (FLOAT, &[1, 2][..]),
        (DOUBLE, &[1, 2, 3, 4][..]),
        (BOOL, &[][..]),
        (AZ_UUID, &[0; 15][..]),
        (VECTOR3, &[0; 11][..]),
        (ASSET, &[0; 55][..]),
    ] {
        assert_eq!(uuid_data_to_serialize(id, data, false).err(), Some(Error::InvalidValueSize));
    }
}

#[test]
fn lists_of_singles() {
    let mut data = Vec::new();
    for v in [1.0f32, -2.5, 0.0] {
        data.extend_from_slice(&v.to_be_bytes());
    }
    let bits = vec![1.0f32.to_bits(), (-2.5f32).to_bits(), 0];
    assert!(matches!(uuid_data_to_serialize(VECTOR3, &data, true), Ok(Value::Singles(v)) if v == bits));
    assert!(matches!(uuid_data_to_serialize(VECTOR3, &data, false), Ok(Value::SinglesJoined(v)) if v == bits));
    assert!(matches!(uuid_data_to_serialize(COLOR, &[], true), Ok(Value::Singles(v)) if v.is_empty()));
}

#[test]
fn a_type_that_is_not_known_is_text() {
    assert_eq!(text(VOID, b"hello", false).as_deref(), Some("hello"));
    assert_eq!(text(12345, "é".as_bytes(), true).as_deref(), Some("é"));
    assert_eq!(text(12345, &[0xFF, 0xFE], true).as_deref(), Some(""));
    assert_eq!(text(12345, &[], false).as_deref(), Some(""));
}

fn asset_bytes(hint: &[u8], announced: u64) -> Vec<u8> {
    let mut data = Vec::new();
    data.extend_from_slice(&INT.to_be_bytes());
    data.extend_from_slice(&77u128.to_be_bytes());
    data.extend_from_slice(&FLOAT.to_be_bytes());
    data.extend_from_slice(&announced.to_be_bytes());
    data.extend_from_slice(hint);
    data
}

#[test]
fn asset_references() {
    let data = asset_bytes(b"a/b.dds", 7);
    match uuid_data_to_serialize(ASSET, &data, true) {
        Ok(Value::Asset(asset)) => {
            assert_eq!(asset.guid, "{72039442-EB38-4D42-A1AD-CB68F7E0EEF6}");
            assert_eq!(asset.sub_id, 77);
            assert_eq!(asset.kind, "{EA2C3E90-AFBE-44D4-A90D-FAAF79BAF93D}");
            assert_eq!(asset.hint, "a/b.dds");
            assert_eq!(
                asset_string(&asset),
                "id={72039442-EB38-4D42-A1AD-CB68F7E0EEF6}:77,type={EA2C3E90-AFBE-44D4-A90D-FAAF79BAF93D},hint={a/b.dds}"
            );
        }
        other => panic!("{:?}", other),
    }
    assert_eq!(
        text(ASSET, &data, false).as_deref(),
        Some("id={72039442-EB38-4D42-A1AD-CB68F7E0EEF6}:77,type={EA2C3E90-AFBE-44D4-A90D-FAAF79BAF93D},hint={a/b.dds}")
    );
    assert_eq!(
        uuid_data_to_serialize(ASSET, &asset_bytes(b"a/b.dds", 8), true).err(),
        Some(Error::InvalidValueSize)
    );
    // what is not UTF-8 is replaced, and the length that counts is that of the text
    match uuid_data_to_serialize(ASSET, &asset_bytes(&[b'a', 0xFF], 4), true) {
        Ok(Value::Asset(asset)) => assert_eq!(asset.hint, "a\u{FFFD}"),
        other => panic!("{:?}", other),
    }
    assert_eq!(
        uuid_data_to_serialize(ASSET, &asset_bytes(&[b'a', 0xFF], 2), true).err(),
        Some(Error::InvalidValueSize)
    );
    assert!(matches!(uuid_data_to_serialize(ASSET, &asset_bytes(b"", 0), true), Ok(Value::Asset(_))));
}

#[test]
fn values_as_bytes() {
    assert_eq!(data_of_value(INT, &Value::Signed(2)), Some(vec![0, 0, 0, 2]));
    assert_eq!(data_of_value(INT, &Value::Signed(-2)), Some(vec![0xFF, 0xFF, 0xFF, 0xFE]));
    assert_eq!(data_of_value(INT, &Value::Signed(1 << 31)), None);
    assert_eq!(data_of_value(INT, &Value::Signed(-(1 << 31))), Some(vec![0x80, 0, 0, 0]));
    assert_eq!(data_of_value(CHAR, &Value::Signed(-128)), Some(vec![0x80]));
    assert_eq!(data_of_value(CHAR, &Value::Signed(128)), None);
    assert_eq!(data_of_value(SHORT, &Value::Signed(-1)), Some(vec![0xFF, 0xFF]));
    assert_eq!(data_of_value(LONG, &Value::Signed(i64::MIN)), Some(vec![0x80, 0, 0, 0, 0, 0, 0, 0]));
    assert_eq!(data_of_value(LONG, &Value::Signed(-1)), Some(vec![0xFF; 8]));
    assert_eq!(data_of_value(UNSIGNED_SHORT, &Value::Unsigned(0x1234)), Some(vec![0x12, 0x34]));
    assert_eq!(data_of_value(UNSIGNED_SHORT, &Value::Unsigned(0x12345)), None);
    assert_eq!(data_of_value(UNSIGNED_LONG, &Value::Unsigned(u64::MAX)), Some(vec![0xFF; 8]));
    assert_eq!(data_of_value(INT, &Value::Unsigned(2)), None);
    assert_eq!(data_of_value(BOOL, &Value::Bool(true)), Some(vec![1]));
    assert_eq!(data_of_value(BOOL, &Value::Bool(false)), Some(vec![0]));
    assert_eq!(data_of_value(FLOAT, &Value::Single(1.5f32.to_bits())), Some(1.5f32.to_be_bytes().to_vec()));
    assert_eq!(data_of_value(DOUBLE, &Value::Double(1.5f64.to_bits())), Some(1.5f64.to_be_bytes().to_vec()));
    assert_eq!(data_of_value(VOID, &Value::Text("é".to_string())), Some("é".as_bytes().to_vec()));
    assert_eq!(data_of_value(INT, &Value::Text("2".to_string())), None);
    assert_eq!(data_of_value(VECTOR3, &Value::Singles(vec![1])), None);
    for (id, value) in [(INT, Value::Signed(-7)), (AZ_U64, Value::Unsigned(9)), (BOOL, Value::Bool(true))] {
        let bytes = data_of_value(id, &value).unwrap();
        let back = uuid_data_to_serialize(id, &bytes, false).unwrap();
        assert_eq!(format!("{:?}", back), format!("{:?}", value));
    }
}

#[test]
fn the_writer_that_is_driven_by_fields() {
    let mut writer = Serializer::new();
    assert!(writer.writer.is_empty());
    writer.serialize_u8(0);
    writer.serialize_u32(3);
    assert_eq!(writer.version, Some(3));
    assert_eq!(writer.flags, None);
    writer.serialize_struct();
    assert_eq!(writer.serialize_field("flags"), FieldAction::Write);
    writer.serialize_u8(0x39);
    assert_eq!(writer.flags, Some(0x39));
    assert_eq!(writer.serialize_field("id"), FieldAction::Write);
    writer.serialize_bytes(&[0xAA; 16]);
    assert_eq!(writer.serialize_field("data_size"), FieldAction::Write);
    assert_eq!(writer.serialize_u64(2), Ok(()));
    assert_eq!(writer.serialize_field("data"), FieldAction::Write);
    writer.serialize_bytes(&[5, 6]);
    assert_eq!(writer.serialize_field("elements"), FieldAction::WriteThenEnd);
    writer.serialize_u8(0);
    writer.serialize_u32(9);
    assert_eq!(writer.version, Some(3));
    let mut expected = vec![0, 0, 0, 0, 3, 0x39];
    expected.extend_from_slice(&[0xAA; 16]);
    expected.extend_from_slice(&[2, 5, 6, 0, 0, 0, 0, 9]);
    assert_eq!(writer.writer, expected);

    let mut wide = Serializer::new();
    wide.serialize_field("flags");
    wide.serialize_u8(0x3A);
    assert_eq!(wide.serialize_field("data_size"), FieldAction::Write);
    assert_eq!(wide.serialize_u64(0x0102), Ok(()));
    wide.serialize_struct();
    wide.serialize_field("flags");
    wide.serialize_u8(0x3C);
    wide.serialize_field("data_size");
    assert_eq!(wide.serialize_u64(0x01020304), Ok(()));
    assert_eq!(wide.serialize_u64(0x0102030405060708), Ok(()));
    assert_eq!(wide.writer, vec![0x3A, 1, 2, 0x3C, 1, 2, 3, 4, 1, 2, 3, 4, 5, 6, 7, 8]);

    let mut none = Serializer::new();
    none.serialize_field("flags");
    none.serialize_u8(0x08);
    assert_eq!(none.serialize_field("data_size"), FieldAction::Skip);
    assert!(!none.write_size);
    assert_eq!(none.writer, vec![0x08]);
    let mut odd = Serializer::new();
    odd.serialize_field("flags");
    odd.serialize_u8(0x33);
    assert_eq!(odd.serialize_field("data_size"), FieldAction::Skip);
    let mut unset = Serializer::new();
    unset.write_size = true;
    assert_eq!(unset.serialize_u64(1), Err(Error::InvalidValueSize));
    assert!(unset.writer.is_empty());
}

#[test]
fn flags_that_hold_the_size_themselves_get_no_size_field() {
    let mut writer = Serializer::new();
    writer.serialize_struct();
    assert_eq!(writer.serialize_field("flags"), FieldAction::Write);
    writer.serialize_u8(0x14);
    assert_eq!(writer.serialize_field("id"), FieldAction::Write);
    writer.serialize_bytes(&[0xAA; 16]);
    assert_eq!(writer.serialize_field("data_size"), FieldAction::Skip);
    assert!(!writer.write_size);
    assert_eq!(writer.size, None);
    assert_eq!(writer.serialize_field("data"), FieldAction::Write);
    writer.serialize_bytes(b"ABCD");
    assert_eq!(writer.serialize_field("elements"), FieldAction::WriteThenEnd);
    writer.serialize_u8(0);
    let mut expected = vec![0x14];
    expected.extend_from_slice(&[0xAA; 16]);
    expected.extend_from_slice(b"ABCD");
    expected.push(0);
    assert_eq!(writer.writer, expected);
    for flags in [0x11u8, 0x12, 0x14, 0x91, 0xD4, 0x10, 0x21, 0x24] {
        let mut writer = Serializer::new();
        writer.serialize_field("flags");
        writer.serialize_u8(flags);
        assert_eq!(writer.serialize_field("data_size"), FieldAction::Skip, "{:#x}", flags);
    }
    for flags in [0x31u8, 0x32, 0x34, 0xB1, 0xF4] {
        let mut writer = Serializer::new();
        writer.serialize_field("flags");
        writer.serialize_u8(flags);
        assert_eq!(writer.serialize_field("data_size"), FieldAction::Write, "{:#x}", flags);
        assert_eq!(writer.size, Some(flags & 7));
    }
}

#[test]
fn the_patterns_of_a_filter() {
    let list = |text: &str| -> Vec<(String, bool)> {
        Filter { filter: Some(text.to_string()) }
            .patterns()
            .into_iter()
            .map(|p| (p.text, p.exclude))
            .collect()
    };
    assert_eq!(list("**/*.dds"), vec![("**/*.dds".to_string(), false)]);
    assert_eq!(
        list(" a/* , !b/** ,,! c"),
        vec![
            ("a/*".to_string(), false),
            ("b/**".to_string(), true),
            ("".to_string(), false),
            (" c".to_string(), true)
        ]
    );
    assert_eq!(list(""), vec![("".to_string(), false)]);
    assert!(Filter { filter: None }.patterns().is_empty());
    let patterns = vec![
        Pattern { text: "a".to_string(), exclude: false },
        Pattern { text: "b".to_string(), exclude: true },
    ];
    assert!(Filter::admits(&patterns, &vec![true, false]));
    assert!(!Filter::admits(&patterns, &vec![true, true]));
    assert!(!Filter::admits(&patterns, &vec![false, false]));
    assert!(Filter::admits(&vec![], &vec![]));
}

#[test]
fn what_the_errors_say() {
    assert_eq!(Error::UnexpectedEof.message(), "failed to fill whole buffer");
    assert_eq!(Error::InvalidObjectStream.message(), "Not valid ObjectStream");
    assert_eq!(Error::UnsupportedDataSize(3).message(), "Unsupported DataSize Value Byte");
    assert_eq!(Error::ZstdNotImplemented.message(), "zstd is not implemented");
    assert_eq!(Error::UnsupportedCompressor(0xab).message(), "Unsupported compressor_id: 0x000000ab");
    assert_eq!(Error::InvalidCompressedSize.message(), "Invalid compressed data size");
    assert_eq!(Error::Inflate.message(), "corrupt deflate stream");
    assert_eq!(Error::UnsupportedMethod.message(), "CompressionMethod not supported");
    assert_eq!(Error::BlockDecode(0).message(), "Error with the block decompressor. Size: 0");
    assert_eq!(
        Error::BlockDecode(u64::MAX).message(),
        "Error with the block decompressor. Size: 18446744073709551615"
    );
    assert_eq!(Error::SizeMismatch.message(), "The two sizes of the data disagree");
    assert_eq!(Error::UnknownCellType(9).message(), "Unknown cell type");
    assert_eq!(Error::InvalidUtf8.message(), "invalid utf-8 sequence");
    assert_eq!(Error::InvalidValueSize.message(), "could not convert slice to array");
    assert_eq!(Error::UnsupportedFormat.message(), "The form is not supported for this kind of file");
}
