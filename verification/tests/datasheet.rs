use nw_tools::datasheet::number::integral;
use nw_tools::datasheet::{from_reader, read_string, Datasheet, DatasheetCell, HeaderCell};
use nw_tools::error::Error;
use std::collections::HashMap;

struct Sheet {
    columns: Vec<(&'static str, u32)>,
    rows: Vec<Vec<Cell>>,
}

enum Cell {
    Text(&'static str),
    Number(f32),
    Flag(u32),
}

fn build(sheet: &Sheet) -> Vec<u8> {
    let mut strings: Vec<u8> = Vec::new();
    let mut intern = |text: &str| -> u32 {
        let at = strings.len() as u32;
        strings.extend_from_slice(text.as_bytes());
        strings.push(0);
        at
    };
    let name = intern("Table");
    let kind = intern("Kind");
    let mut header = Vec::new();
    for (text, tag) in &sheet.columns {
        header.extend_from_slice(&0u32.to_le_bytes());
        header.extend_from_slice(&intern(text).to_le_bytes());
        header.extend_from_slice(&tag.to_le_bytes());
    }
    let mut rows = Vec::new();
    for row in &sheet.rows {
        for cell in row {
            rows.extend_from_slice(&0u32.to_le_bytes());
            match cell {
                Cell::Text(text) => rows.extend_from_slice(&intern(text).to_le_bytes()),
                Cell::Number(v) => rows.extend_from_slice(&v.to_le_bytes()),
                Cell::Flag(v) => rows.extend_from_slice(&v.to_le_bytes()),
            }
        }
    }
    let strings_at = 92 + header.len() + rows.len();
    let data_end = (strings_at - 60) as u32;
    let mut out = vec![0u8; 92];
    out[0..4].copy_from_slice(&0x11u32.to_le_bytes());
    out[8..12].copy_from_slice(&name.to_le_bytes());
    out[16..20].copy_from_slice(&kind.to_le_bytes());
    out[56..60].copy_from_slice(&data_end.to_le_bytes());
    out[60..64].copy_from_slice(&data_end.to_le_bytes());
    out[68..72].copy_from_slice(&(sheet.columns.len() as u32).to_le_bytes());
    out[72..76].copy_from_slice(&(sheet.rows.len() as u32).to_le_bytes());
    out.extend_from_slice(&header);
    out.extend_from_slice(&rows);
    out.extend_from_slice(&strings);
    out
}

fn scenario() -> Vec<u8> {
    build(&Sheet { columns: vec![("Name", 1)], rows: vec![vec![Cell::Text("A")]] })
}

fn mixed() -> Sheet {
    Sheet {
        columns: vec![("Id", 1), ("Weight", 2), ("Heavy", 3)],
        rows: vec![
            vec![Cell::Text("a\"b"), Cell::Number(3.0), Cell::Flag(0)],
            vec![Cell::Text("c"), Cell::Number(3.5), Cell::Flag(7)],
            vec![Cell::Text(""), Cell::Number(-12.0), Cell::Flag(1)],
        ],
    }
}

fn fractions() -> HashMap<u32, String> {
    let mut table = HashMap::new();
    table.insert(3.5f32.to_bits(), "3.5".to_string());
    table
}

#[test]
fn one_cell_as_json_and_csv() {
    let sheet = from_reader(&scenario()).unwrap();
    assert_eq!(sheet.version, 0x11);
    assert_eq!(sheet.name, "Table");
    assert_eq!(sheet._type, "Kind");
    assert_eq!(sheet.column_count, 1);
    assert_eq!(sheet.row_count, 1);
    assert_eq!(sheet.header.len(), 1);
    assert_eq!(sheet.header[0].text, "Name");
    assert_eq!(sheet.header[0]._type, 1);
    assert_eq!(sheet.to_json(&HashMap::new()).unwrap(), r#"[{"Name":"A"}]"#);
    assert_eq!(sheet.to_csv(&HashMap::new()).unwrap(), "Name\nA\n");
    assert_eq!(sheet.to_json_pretty(&HashMap::new()).unwrap(), "[\n  {\n    \"Name\": \"A\"\n  }\n]");
    assert_eq!(
        sheet.to_sql(&HashMap::new()).unwrap(),
        "CREATE TABLE 'Table'(\n\t'Name' TEXT PRIMARY KEY\n);\n\n\nINSERT INTO 'Table' ('Name') VALUES\n\t(A);\n"
    );
}

#[test]
fn whole_numbers_have_no_decimal_point_in_any_form() {
    let sheet = from_reader(&build(&mixed())).unwrap();
    let table = fractions();
    assert_eq!(sheet.to_csv(&table).unwrap(), "Id,Weight,Heavy\na\"b,3,false\nc,3.5,true\n,-12,true\n");
    assert_eq!(
        sheet.to_json(&table).unwrap(),
        r#"[{"Id":"a\"b","Weight":3,"Heavy":false},{"Id":"c","Weight":3.5,"Heavy":true},{"Id":"","Weight":-12,"Heavy":true}]"#
    );
    assert_eq!(
        sheet.to_sql(&table).unwrap(),
        "CREATE TABLE 'Table'(\n\t'Id' TEXT PRIMARY KEY,\n\t'Weight' REAL,\n\t'Heavy' INT\n);\n\n\n\
         INSERT INTO 'Table' ('Id','Weight','Heavy') VALUES\n\t(a\"b,3,0),\n\t(c,3.5,1),\n\t(,-12,1);\n"
    );
    assert_eq!(
        sheet.to_json_pretty(&table).unwrap(),
        "[\n  {\n    \"Id\": \"a\\\"b\",\n    \"Weight\": 3,\n    \"Heavy\": false\n  },\n  {\n    \"Id\": \"c\",\n    \
         \"Weight\": 3.5,\n    \"Heavy\": true\n  },\n  {\n    \"Id\": \"\",\n    \"Weight\": -12,\n    \"Heavy\": true\n  }\n]"
    );
}

#[test]
fn both_forms_of_json_are_what_the_json_crate_writes_for_the_same_value() {
    let sheets = vec![
        mixed(),
        Sheet { columns: vec![], rows: vec![] },
        Sheet { columns: vec![], rows: vec![vec![], vec![]] },
        Sheet { columns: vec![("A", 1)], rows: vec![] },
        Sheet {
            columns: vec![("A", 1), ("B", 1), ("A", 1)],
            rows: vec![vec![Cell::Text("x"), Cell::Text("y\n\t\u{1}\\"), Cell::Text("z")]],
        },
        Sheet {
            columns: vec![("n", 2), ("m", 2)],
            rows: vec![vec![Cell::Number(-0.0), Cell::Number(16777216.0)], vec![Cell::Number(1e10), Cell::Number(-3.5)]],
        },
    ];
    let mut table = fractions();
    table.insert((-3.5f32).to_bits(), "-3.5".to_string());
    for sheet in &sheets {
        let sheet = from_reader(&build(sheet)).unwrap();
        let compact = sheet.to_json(&table).unwrap();
        let value: serde_json::Value = serde_json::from_str(&compact).unwrap();
        assert_eq!(serde_json::to_string(&value).unwrap(), compact);
        assert_eq!(serde_json::to_string_pretty(&value).unwrap(), sheet.to_json_pretty(&table).unwrap());
    }
}

#[test]
fn a_fraction_without_a_text_gives_nothing() {
    let sheet = from_reader(&build(&mixed())).unwrap();
    let empty = HashMap::new();
    assert_eq!(sheet.to_csv(&empty), None);
    assert_eq!(sheet.to_sql(&empty), None);
    assert_eq!(sheet.to_json(&empty), None);
    assert_eq!(sheet.to_json_pretty(&empty), None);
}

#[test]
fn an_empty_sheet() {
    let sheet = from_reader(&build(&Sheet { columns: vec![], rows: vec![] })).unwrap();
    assert_eq!(sheet.to_json(&HashMap::new()).unwrap(), "[]");
    assert_eq!(sheet.to_json_pretty(&HashMap::new()).unwrap(), "[]");
    assert_eq!(sheet.to_csv(&HashMap::new()).unwrap(), "\n");
    let rows_only = from_reader(&build(&Sheet { columns: vec![], rows: vec![vec![], vec![]] })).unwrap();
    assert_eq!(rows_only.rows.len(), 2);
    assert_eq!(rows_only.to_json(&HashMap::new()).unwrap(), "[{},{}]");
    assert_eq!(rows_only.to_json_pretty(&HashMap::new()).unwrap(), "[\n  {},\n  {}\n]");
    assert_eq!(rows_only.to_csv(&HashMap::new()).unwrap(), "\n\n\n");
}

#[test]
fn columns_of_the_same_name_share_a_key() {
    let sheet = from_reader(&build(&Sheet {
        columns: vec![("A", 1), ("B", 1), ("A", 1)],
        rows: vec![vec![Cell::Text("x"), Cell::Text("y"), Cell::Text("z")]],
    }))
    .unwrap();
    assert_eq!(sheet.column_plan(), vec![("A".to_string(), 2), ("B".to_string(), 1)]);
    assert_eq!(sheet.to_json(&HashMap::new()).unwrap(), r#"[{"A":"z","B":"y"}]"#);
    assert_eq!(sheet.to_csv(&HashMap::new()).unwrap(), "A,B,A\nx,y,z\n");
}

#[test]
fn a_sheet_that_is_cut_short_is_an_error() {
    let bytes = build(&mixed());
    for len in 0..bytes.len() {
        let result = from_reader(&bytes[..len]);
        assert_eq!(result.err(), Some(Error::UnexpectedEof), "{}", len);
    }
    let bytes = scenario();
    for len in 0..bytes.len() {
        assert_eq!(from_reader(&bytes[..len]).err(), Some(Error::UnexpectedEof), "{}", len);
    }
}

#[test]
fn sizes_that_disagree_are_an_error() {
    let mut bytes = scenario();
    bytes[60] ^= 1;
    assert_eq!(from_reader(&bytes).err(), Some(Error::SizeMismatch));
}

#[test]
fn a_column_type_that_is_not_known_is_an_error() {
    let bytes = build(&Sheet { columns: vec![("Name", 4)], rows: vec![] });
    assert_eq!(from_reader(&bytes).err(), Some(Error::UnknownCellType(4)));
    let bytes = build(&Sheet { columns: vec![("Name", 0)], rows: vec![] });
    assert_eq!(from_reader(&bytes).err(), Some(Error::UnknownCellType(0)));
}

#[test]
fn a_text_that_is_not_utf8_is_an_error() {
    let mut bytes = scenario();
    let at = bytes.len() - 2;
    assert_eq!(bytes[at], b'A');
    bytes[at] = 0xFF;
    assert_eq!(from_reader(&bytes).err(), Some(Error::InvalidUtf8));
}

#[test]
fn counts_beyond_the_buffer_are_an_error() {
    let mut bytes = scenario();
    bytes[72..76].copy_from_slice(&u32::MAX.to_le_bytes());
    assert_eq!(from_reader(&bytes).err(), Some(Error::UnexpectedEof));
    let mut bytes = scenario();
    bytes[68..72].copy_from_slice(&u32::MAX.to_le_bytes());
    assert!(from_reader(&bytes).is_err());
    let mut bytes = build(&Sheet { columns: vec![], rows: vec![] });
    bytes[72..76].copy_from_slice(&u32::MAX.to_le_bytes());
    assert_eq!(from_reader(&bytes).err(), Some(Error::UnexpectedEof));
}

#[test]
fn reads_a_string_up_to_the_nul() {
    assert_eq!(read_string(b"ab\0cd\0", 0).unwrap(), "ab");
    assert_eq!(read_string(b"ab\0cd\0", 3).unwrap(), "cd");
    assert_eq!(read_string(b"ab\0cd\0", 2).unwrap(), "");
    assert_eq!(read_string(b"ab\0cd", 3).err(), Some(Error::UnexpectedEof));
    assert_eq!(read_string(b"ab\0", 7).err(), Some(Error::UnexpectedEof));
    assert_eq!(read_string(b"\xC3\x28\0", 0).err(), Some(Error::InvalidUtf8));
    assert_eq!(read_string("é\0".as_bytes(), 0).unwrap(), "é");
}

fn expected(value: f32) -> Option<(bool, u128)> {
    let wide = value as f64;
    if wide.is_finite() && wide.fract() == 0.0 {
        Some((wide < 0.0, wide.abs() as u128))
    } else {
        None
    }
}

#[test]
fn whole_numbers_are_told_as_floating_point_arithmetic_tells_them() {
    for value in [
        0.0f32,
        -0.0,
        1.0,
        -1.0,
        3.0,
        3.5,
        0.5,
        -0.25,
        8388608.0,
        8388607.5,
        16777216.0,
        1e10,
        -1e10,
        9.2e18,
        9.3e18,
        -9.3e18,
        f32::MAX,
        f32::MIN,
        f32::MIN_POSITIVE,
        f32::EPSILON,
        f32::INFINITY,
        f32::NEG_INFINITY,
        f32::NAN,
    ] {
        assert_eq!(integral(value.to_bits()), expected(value), "{}", value);
    }
    assert_eq!(integral(3.0f32.to_bits()), Some((false, 3)));
    assert_eq!(integral((-3.0f32).to_bits()), Some((true, 3)));
    assert_eq!(integral(3.5f32.to_bits()), None);
    assert_eq!(integral(0x5F00_0000), Some((false, 1 << 63)));
    assert_eq!(
        integral(f32::MAX.to_bits()),
        Some((false, 340282346638528859811704183484516925440))
    );
    assert_eq!(
        integral(f32::MIN.to_bits()),
        Some((true, 340282346638528859811704183484516925440))
    );
    assert_eq!(integral(0x8000_0000), Some((false, 0)));
    assert_eq!(integral(1), None);
    let mut bits: u32 = 0;
    loop {
        assert_eq!(integral(bits), expected(f32::from_bits(bits)), "{:#x}", bits);
        match bits.checked_add(0x0001_0007) {
            Some(next) => bits = next,
            None => break,
        }
    }
}

#[test]
fn a_text_is_escaped_as_json_demands() {
    let text = "q\"b\\s/\u{8}\t\n\u{c}\r\u{0}\u{1}\u{1f} \u{7f}é\u{2028}";
    let sheet = Datasheet {
        version: 1,
        name: "T".to_string(),
        _type: "X".to_string(),
        column_count: 1,
        row_count: 1,
        header: vec![HeaderCell { text: "a\"\u{b}".to_string(), _type: 1 }],
        rows: vec![vec![DatasheetCell::String(text.to_string())]],
    };
    let expected = "[{\"a\\\"\\u000b\":\"q\\\"b\\\\s/\\b\\t\\n\\f\\r\\u0000\\u0001\\u001f \u{7f}é\u{2028}\"}]";
    assert_eq!(sheet.to_json(&HashMap::new()).unwrap(), expected);
}

fn one_number(bits: u32) -> Datasheet {
    Datasheet {
        version: 1,
        name: "T".to_string(),
        _type: "X".to_string(),
        column_count: 1,
        row_count: 1,
        header: vec![HeaderCell { text: "Name".to_string(), _type: 2 }],
        rows: vec![vec![DatasheetCell::Number(bits)]],
    }
}

#[test]
fn a_whole_number_beyond_sixty_three_bits_is_written_in_full() {
    let none = HashMap::new();
    let sheet = one_number(0x5F00_0000);
    assert_eq!(sheet.to_csv(&none).unwrap(), "Name\n9223372036854775808\n");
    assert_eq!(
        sheet.to_json(&none).unwrap(),
        "[{\"Name\":9223372036854775808}]"
    );
    assert_eq!(
        sheet.to_json_pretty(&none).unwrap(),
        "[\n  {\n    \"Name\": 9223372036854775808\n  }\n]"
    );
    let read = from_reader(&build(&Sheet {
        columns: vec![("Name", 2)],
        rows: vec![vec![Cell::Number(9223372036854775808.0)]],
    }))
    .unwrap();
    assert_eq!(read.to_csv(&none).unwrap(), "Name\n9223372036854775808\n");
    let sheet = one_number(0xDF80_0000);
    assert_eq!(sheet.to_csv(&none).unwrap(), "Name\n-18446744073709551616\n");
    let sheet = one_number(f32::MAX.to_bits());
    assert_eq!(
        sheet.to_csv(&none).unwrap(),
        "Name\n340282346638528859811704183484516925440\n"
    );
    assert!(sheet.to_sql(&none).unwrap().contains("340282346638528859811704183484516925440"));
    let sheet = one_number(0x8000_0000);
    assert_eq!(sheet.to_csv(&none).unwrap(), "Name\n0\n");
}

#[test]
fn a_sheet_that_was_built_by_hand() {
    let sheet = Datasheet {
        version: 1,
        name: "T".to_string(),
        _type: "K".to_string(),
        column_count: 2,
        row_count: 1,
        header: vec![
            HeaderCell { text: "a".to_string(), _type: 2 },
            HeaderCell { text: "b".to_string(), _type: 3 },
        ],
        rows: vec![vec![DatasheetCell::Number(2.0f32.to_bits()), DatasheetCell::Boolean(true)]],
    };
    assert_eq!(sheet.to_csv(&HashMap::new()).unwrap(), "a,b\n2,true\n");
}

#[test]
fn the_schema_and_the_objects_of_a_sheet() {
    let sheet = from_reader(&build(&mixed())).unwrap();
    let schema = sheet.meta();
    assert_eq!(schema.kind, "Kind");
    assert_eq!(schema.name, "Table");
    assert_eq!(
        schema.fields,
        vec![("Id".to_string(), "string"), ("Weight".to_string(), "number"), ("Heavy".to_string(), "boolean")]
    );
    let objects = sheet.json_value();
    assert_eq!(objects.len(), 3);
    assert_eq!(objects[1].len(), 3);
    assert_eq!(objects[1][0].0, "Id");
    assert!(matches!(&objects[1][0].1, DatasheetCell::String(s) if s == "c"));
    assert!(matches!(&objects[1][1].1, DatasheetCell::Number(b) if *b == 3.5f32.to_bits()));
    assert!(matches!(&objects[1][2].1, DatasheetCell::Boolean(true)));

    let doubled = from_reader(&build(&Sheet {
        columns: vec![("A", 1), ("B", 2), ("A", 3)],
        rows: vec![vec![Cell::Text("x"), Cell::Number(1.0), Cell::Flag(1)]],
    }))
    .unwrap();
    assert_eq!(doubled.meta().fields, vec![("A".to_string(), "boolean"), ("B".to_string(), "number")]);
    let objects = doubled.json_value();
    assert_eq!(objects[0].len(), 2);
    assert!(matches!(&objects[0][0].1, DatasheetCell::Boolean(true)));
}

#[test]
fn a_sheet_as_yaml() {
    let sheet = from_reader(&scenario()).unwrap();
    assert_eq!(sheet.to_yaml(&HashMap::new()).unwrap(), "- Name: A");
    let sheet = from_reader(&build(&mixed())).unwrap();
    assert_eq!(sheet.to_yaml(&HashMap::new()), None);
    assert_eq!(
        sheet.to_yaml(&fractions()).unwrap(),
        "- Id: a\"b\n  Weight: 3\n  Heavy: false\n- Id: c\n  Weight: 3.5\n  Heavy: true\n- Id: \"\"\n  Weight: -12\n  Heavy: true"
    );
    let mut broken = fractions();
    broken.insert(3.5f32.to_bits(), "three and a half".to_string());
    assert_eq!(sheet.to_yaml(&broken), None);
    let none = HashMap::new();
    assert_eq!(one_number(0x5E80_0000).to_yaml(&none).unwrap(), "- Name: 4611686018427387904");
    assert_eq!(one_number(0xDF00_0000).to_yaml(&none).unwrap(), "- Name: -9223372036854775808");
    assert_eq!(one_number(0x5F00_0000).to_yaml(&none), None);
    assert_eq!(one_number(0xDF00_0001).to_yaml(&none), None);
    assert_eq!(one_number(f32::MAX.to_bits()).to_yaml(&none), None);
    assert!(!one_number(f32::MAX.to_bits()).fits_yaml());
    assert!(one_number(0xDF00_0000).fits_yaml());
    assert!(one_number(3.5f32.to_bits()).fits_yaml());
}
