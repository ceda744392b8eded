use nw_tools::error::Error;
use nw_tools::object_stream::flags::build_flags;
use nw_tools::object_stream::projection::{
    hash_field, JSONElement, JSONObjectStream, XMLElement, XMLObjectStream,
};
use nw_tools::object_stream::{
    from_reader, read_element, read_stream, Element, ObjectStream, StreamTag,
};
use nw_tools::utils::lumberyard::LumberyardSource;
use nw_tools::utils::types::{uuid_braced_upper, Value, INT};
use quick_xml::events::{BytesStart, Event};
use quick_xml::{Reader, Writer};
use uuid::Uuid;

const ID: [u8; 16] = [
    0x72, 0x03, 0x94, 0x42, 0xEB, 0x38, 0x4D, 0x42, 0xA1, 0xAD, 0xCB, 0x68, 0xF7, 0xE0, 0xEE, 0xF6,
];

fn stream(version: u32, body: &[u8]) -> Vec<u8> {
    let mut out = vec![0u8];
    out.extend_from_slice(&version.to_be_bytes());
    out.extend_from_slice(body);
    out
}

fn encode(stream: &ObjectStream) -> Vec<u8> {
    let mut out = Vec::new();
    stream.to_writer(&mut out);
    out
}

fn nested() -> Vec<u8> {
    let mut body = Vec::new();
    // name, version, value of three bytes, one child, then a sibling
    body.push(0xD3);
    body.extend_from_slice(&[0xDE, 0xAD, 0xBE, 0xEF]);
    body.push(7);
    body.extend_from_slice(&ID);
    body.extend_from_slice(&[1, 2, 3]);
    body.push(0x1A);
    body.extend_from_slice(&ID);
    body.extend_from_slice(&[9, 8]);
    body.push(0);
    body.push(0);
    body.push(0x08);
    body.extend_from_slice(&ID);
    body.push(0);
    body.push(0);
    stream(3, &body)
}

#[test]
fn the_writer_that_is_driven_by_fields_writes_the_binary_form() {
    let mut small = vec![0x14u8];
    small.extend_from_slice(&ID);
    small.extend_from_slice(b"ABCD");
    small.push(0);
    small.push(0);
    let mut sized = vec![0x39u8];
    sized.extend_from_slice(&ID);
    sized.extend_from_slice(&[2, 5, 6, 0, 0]);
    let mut inline = vec![0x14u8];
    inline.extend_from_slice(&ID);
    inline.extend_from_slice(&[0, 0, 0, 2, 0, 0]);
    assert_eq!(stream(3, &inline).len(), 28);
    for bytes in [nested(), stream(3, &small), stream(3, &inline), stream(1, &sized), stream(3, &[0])] {
        let decoded = from_reader(&bytes, None).unwrap();
        let mut out = vec![0xEE];
        assert_eq!(nw_tools::object_stream::ser::to_writer(&decoded, &mut out), Ok(()));
        assert_eq!(out[0], 0xEE);
        assert_eq!(&out[1..], &bytes[..]);
        assert_eq!(encode(&decoded), bytes);
    }
}

fn with_ids(element: &Element, next: &mut u128) -> Element {
    *next += 1;
    let id = *next;
    Element {
        specialization: Some(id),
        elements: element.elements.iter().map(|child| with_ids(child, next)).collect(),
        flags: element.flags,
        name_crc: element.name_crc,
        version: element.version,
        id: element.id,
        name: element.name.clone(),
        data_size: element.data_size,
        data: element.data.clone(),
        field: element.field.clone(),
    }
}

fn count(elements: &[Element]) -> usize {
    elements.iter().map(|e| 1 + count(&e.elements)).sum()
}

#[test]
fn sixteen_bytes_behind_every_type_id_make_a_stream_of_version_two() {
    let three = nested();
    let decoded = from_reader(&three, None).unwrap();
    let mut next = 0xA0u128;
    let two = ObjectStream {
        tag: decoded.tag,
        version: 2,
        elements: decoded.elements.iter().map(|e| with_ids(e, &mut next)).collect(),
    };
    assert_eq!(count(&two.elements), 3);
    let bytes = encode(&two);
    assert_eq!(bytes.len(), three.len() + 16 * 3);
    // the first element: flags, hash, version, type id, and then the specialisation id
    assert_eq!(&bytes[..5], &[0, 0, 0, 0, 2]);
    assert_eq!(&bytes[5..27], &three[5..27]);
    assert_eq!(&bytes[27..43], &0xA1u128.to_be_bytes());
    assert_eq!(&bytes[43..46], &[1, 2, 3]);
    let again = from_reader(&bytes, None).unwrap();
    assert_eq!(again.version, 2);
    assert_eq!(encode(&again), bytes);
    assert_eq!(again.elements[0].specialization, Some(0xA1));
    assert_eq!(again.elements[0].elements[0].specialization, Some(0xA2));
    assert_eq!(again.elements[1].specialization, Some(0xA3));
    assert_eq!(again.elements[0].data, decoded.elements[0].data);
}

#[test]
fn one_element_takes_the_bytes_that_its_flags_call_for() {
    let bytes = nested();
    // flags D3: hash, version, type id, and a value of three bytes
    let (first, end) = read_element(&bytes, 3, None, 5).unwrap();
    let first = first.unwrap();
    assert_eq!(first.flags, 0xD3);
    assert_eq!(first.data_size, Some(3));
    let head = 1 + 4 + 1 + 16 + 0 + 0 + 3;
    let (child, child_end) = read_element(&bytes, 3, None, 5 + head).unwrap();
    let child = child.unwrap();
    assert_eq!(child.flags, 0x1A);
    assert_eq!(first.elements.len(), 1);
    assert_eq!(first.elements[0].flags, child.flags);
    assert_eq!(first.elements[0].data, child.data);
    assert_eq!(child_end, 5 + head + 1 + 16 + 2 + 1);
    let (none, after) = read_element(&bytes, 3, None, child_end).unwrap();
    assert!(none.is_none());
    assert_eq!(after, child_end + 1);
    assert_eq!(end, child_end + 1);
    let (second, last) = read_element(&bytes, 3, None, end).unwrap();
    assert_eq!(second.unwrap().flags, 0x08);
    assert_eq!(last, end + 1 + 16 + 1);
    let (none, after) = read_element(&bytes, 3, None, last).unwrap();
    assert!(none.is_none());
    assert_eq!(after, bytes.len());
    assert_eq!(read_element(&bytes, 3, None, bytes.len()).err(), Some(Error::UnexpectedEof));
    // the same element in a stream of version 2 takes sixteen bytes more
    let mut two = vec![0x12u8];
    two.extend_from_slice(&ID);
    two.extend_from_slice(&[7; 16]);
    two.extend_from_slice(&[1, 2, 0]);
    let (element, end) = read_element(&two, 2, None, 0).unwrap();
    assert_eq!(element.unwrap().data, Some(vec![1, 2]));
    assert_eq!(end, 1 + 16 + 16 + 2 + 1);
}

#[test]
fn binary() {
    let bytes = [0u8, 0, 0, 0, 3, 0];
    let stream = from_reader(&bytes, None).unwrap();
    assert_eq!(stream.version, 3);
    assert_eq!(stream.tag, StreamTag::binary());
    assert!(stream.elements.is_empty());
    assert_eq!(encode(&stream), bytes.to_vec());
}

#[test]
fn test_struct() {
    let bytes = nested();
    let stream = from_reader(&bytes, None).unwrap();
    let first = encode(&stream);
    let again = from_reader(&first, None).unwrap();
    let second = encode(&again);
    assert_eq!(first, bytes);
    assert_eq!(second, bytes);
}

#[test]
fn decodes_nested_elements_in_order() {
    let stream = from_reader(&nested(), None).unwrap();
    assert_eq!(stream.elements.len(), 2);
    let first = &stream.elements[0];
    assert_eq!(first.flags, 0xD3);
    assert_eq!(first.name_crc, Some(0xDEADBEEF));
    assert_eq!(first.version, Some(7));
    assert_eq!(first.id, INT);
    assert_eq!(first.specialization, None);
    assert_eq!(first.data_size, Some(3));
    assert_eq!(first.data, Some(vec![1, 2, 3]));
    assert_eq!(first.elements.len(), 1);
    let child = &first.elements[0];
    assert_eq!(child.flags, 0x1A);
    assert_eq!(child.name_crc, None);
    assert_eq!(child.version, None);
    assert_eq!(child.data_size, Some(2));
    assert_eq!(child.data, Some(vec![9, 8]));
    assert!(child.elements.is_empty());
    let second = &stream.elements[1];
    assert_eq!(second.flags, 0x08);
    assert_eq!(second.data, None);
    assert_eq!(second.data_size, None);
}

#[test]
fn flags_with_name_and_empty_inline_value() {
    let mut body = vec![0x50];
    body.extend_from_slice(&[0, 0, 0, 42]);
    body.extend_from_slice(&ID);
    body.push(0);
    body.push(0);
    let bytes = stream(3, &body);
    let (decoded, end) = read_stream(&bytes, None).unwrap();
    assert_eq!(end, bytes.len());
    let element = &decoded.elements[0];
    assert_eq!(element.name_crc, Some(42));
    assert_eq!(element.version, None);
    assert_eq!(element.id, INT);
    assert_eq!(element.data_size, Some(0));
    assert_eq!(element.data, Some(vec![]));
}

#[test]
fn flags_with_name_version_and_empty_inline_value() {
    let mut body = vec![0xD0];
    body.extend_from_slice(&[0, 0, 1, 0]);
    body.push(9);
    body.extend_from_slice(&ID);
    body.push(0);
    body.push(0);
    let decoded = from_reader(&stream(3, &body), None).unwrap();
    let element = &decoded.elements[0];
    assert_eq!(element.name_crc, Some(256));
    assert_eq!(element.version, Some(9));
    assert_eq!(element.data, Some(vec![]));
}

#[test]
fn size_field_of_each_width() {
    for (selector, size_bytes) in [(1u8, vec![3u8]), (2, vec![0, 3]), (4, vec![0, 0, 0, 3])] {
        let mut body = vec![0x30 | selector];
        body.extend_from_slice(&ID);
        body.extend_from_slice(&size_bytes);
        body.extend_from_slice(&[7, 8, 9]);
        body.push(0);
        body.push(0);
        let bytes = stream(1, &body);
        let decoded = from_reader(&bytes, None).unwrap();
        assert_eq!(decoded.elements[0].data_size, Some(3));
        assert_eq!(decoded.elements[0].data, Some(vec![7, 8, 9]));
        assert_eq!(encode(&decoded), bytes);
    }
}

#[test]
fn size_field_of_a_width_that_is_not_known() {
    for selector in [0u8, 3, 5, 6, 7] {
        let mut body = vec![0x30 | selector];
        body.extend_from_slice(&ID);
        body.extend_from_slice(&[0; 8]);
        let result = from_reader(&stream(3, &body), None);
        assert_eq!(result.err(), Some(Error::UnsupportedDataSize(selector)));
    }
}

#[test]
fn specialization_is_read_in_version_two_only() {
    let mut body = vec![0x08];
    body.extend_from_slice(&ID);
    let tail: Vec<u8> = (1..=16).collect();
    let mut with = body.clone();
    with.extend_from_slice(&tail);
    with.extend_from_slice(&[0, 0]);
    let mut without = body.clone();
    without.extend_from_slice(&[0, 0]);

    let (two, end_two) = read_stream(&stream(2, &with), None).unwrap();
    let (three, end_three) = read_stream(&stream(3, &without), None).unwrap();
    let (one, end_one) = read_stream(&stream(1, &without), None).unwrap();
    assert_eq!(two.elements[0].specialization, Some(0x0102030405060708090A0B0C0D0E0F10));
    assert_eq!(three.elements[0].specialization, None);
    assert_eq!(one.elements[0].specialization, None);
    assert_eq!(end_two, end_three + 16);
    assert_eq!(end_one, end_three);
    assert_eq!(encode(&two), stream(2, &with));
}

#[test]
fn bytes_behind_the_stream_are_left_alone() {
    let mut bytes = nested();
    let len = bytes.len();
    bytes.extend_from_slice(&[0xFF, 0xFF]);
    let (decoded, end) = read_stream(&bytes, None).unwrap();
    assert_eq!(end, len);
    assert_eq!(encode(&decoded), bytes[..len].to_vec());
}

#[test]
fn a_stream_that_is_cut_short_is_an_error() {
    let bytes = nested();
    for len in 0..bytes.len() {
        assert_eq!(from_reader(&bytes[..len], None).err(), Some(Error::UnexpectedEof), "{}", len);
    }
}

#[test]
fn a_tag_that_is_not_binary_is_an_error() {
    assert_eq!(from_reader(b"<ObjectStream", None).err(), Some(Error::InvalidObjectStream));
    assert_eq!(from_reader(b"{", None).err(), Some(Error::InvalidObjectStream));
    assert_eq!(from_reader(&[], None).err(), Some(Error::UnexpectedEof));
}

#[test]
fn decoding_twice_gives_the_same() {
    let bytes = nested();
    let a = from_reader(&bytes, None).unwrap();
    let b = from_reader(&bytes, None).unwrap();
    assert_eq!(format!("{:?}", a), format!("{:?}", b));
}

#[test]
fn names_come_from_the_table_and_change_nothing_else() {
    let mut table = LumberyardSource::new();
    table.crcs.insert(0xDEADBEEF, "m_test".to_string());
    table.uuids.insert(INT, "int".to_string());
    let bytes = nested();
    let named = from_reader(&bytes, Some(&table)).unwrap();
    let plain = from_reader(&bytes, None).unwrap();
    assert_eq!(named.elements[0].field.as_deref(), Some("m_test"));
    assert_eq!(named.elements[0].name, "int");
    assert_eq!(named.elements[0].elements[0].field, None);
    assert_eq!(plain.elements[0].field, None);
    assert_eq!(plain.elements[0].name, "");
    assert_eq!(encode(&named), encode(&plain));
}

#[test]
fn built_flags() {
    assert_eq!(build_flags(false, false, None), Some(0x08));
    assert_eq!(build_flags(true, false, None), Some(0x48));
    assert_eq!(build_flags(true, true, None), Some(0xC8));
    assert_eq!(build_flags(false, false, Some(0)), Some(0x18));
    assert_eq!(build_flags(false, false, Some(4)), Some(0x1C));
    assert_eq!(build_flags(false, false, Some(7)), Some(0x1F));
    assert_eq!(build_flags(false, false, Some(8)), Some(0x39));
    assert_eq!(build_flags(false, false, Some(255)), Some(0x39));
    assert_eq!(build_flags(false, true, Some(256)), Some(0xBA));
    assert_eq!(build_flags(true, false, Some(65536)), Some(0x7C));
}

#[test]
fn hash_of_a_field_name_is_the_crc_of_its_lower_case() {
    assert_eq!(hash_field("test"), 0xD87F7E0C);
    assert_eq!(hash_field("Test"), 0xD87F7E0C);
    assert_eq!(hash_field("TEST"), 0xD87F7E0C);
}

/// The element that a start tag shows: a value is read as a whole number.
fn element_of_tag(tag: &BytesStart) -> XMLElement {
    let mut element = XMLElement {
        name: String::new(),
        field: None,
        value: None,
        version: None,
        id: 0,
        elements: vec![],
    };
    for attribute in tag.attributes() {
        let attribute = attribute.unwrap();
        let value = attribute.unescape_value().unwrap().to_string();
        match attribute.key.into_inner() {
            "name" => element.name = value,
            "field" => element.field = Some(value),
            "value" => element.value = Some(Value::Signed(value.parse().unwrap())),
            "version" => element.version = Some(value.parse().unwrap()),
            "type" => element.id = Uuid::parse_str(&value).unwrap().as_u128(),
            other => panic!("{:?}", other),
        }
    }
    element
}

fn attach(stack: &mut Vec<XMLElement>, top: &mut Vec<XMLElement>, element: XMLElement) {
    match stack.last_mut() {
        Some(parent) => parent.elements.push(element),
        None => top.push(element),
    }
}

fn read_xml(text: &str) -> XMLObjectStream {
    let mut reader = Reader::from_str(text);
    let mut version = 0;
    let mut stack: Vec<XMLElement> = Vec::new();
    let mut top: Vec<XMLElement> = Vec::new();
    loop {
        match reader.read_event().unwrap() {
            Event::Start(tag) if tag.name().into_inner() == "ObjectStream" => {
                for attribute in tag.attributes() {
                    let attribute = attribute.unwrap();
                    assert_eq!(attribute.key.into_inner(), "version");
                    version = attribute.unescape_value().unwrap().parse().unwrap();
                }
            }
            Event::Start(tag) => stack.push(element_of_tag(&tag)),
            Event::Empty(tag) => attach(&mut stack, &mut top, element_of_tag(&tag)),
            Event::End(tag) if tag.name().into_inner() == "Class" => {
                let element = stack.pop().unwrap();
                attach(&mut stack, &mut top, element);
            }
            Event::End(_) => {}
            Event::Eof => break,
            other => panic!("{:?}", other),
        }
    }
    XMLObjectStream { version, elements: top }
}

fn write_element(writer: &mut Writer<Vec<u8>>, element: &XMLElement) {
    let mut tag = writer.create_element("Class").with_attribute(("name", element.name.as_str()));
    if let Some(field) = &element.field {
        tag = tag.with_attribute(("field", field.as_str()));
    }
    match &element.value {
        Some(Value::Signed(value)) => tag = tag.with_attribute(("value", value.to_string().as_str())),
        Some(other) => panic!("{:?}", other),
        None => {}
    }
    if let Some(version) = element.version {
        tag = tag.with_attribute(("version", version.to_string().as_str()));
    }
    tag = tag.with_attribute(("type", uuid_braced_upper(element.id).as_str()));
    if element.elements.is_empty() {
        tag.write_empty().unwrap();
    } else {
        tag.write_inner_content(|writer| {
            for child in &element.elements {
                write_element(writer, child);
            }
            Ok(())
        })
        .unwrap();
    }
}

fn write_xml(stream: &XMLObjectStream) -> String {
    let mut writer = Writer::new(Vec::new());
    writer
        .create_element("ObjectStream")
        .with_attribute(("version", stream.version.to_string().as_str()))
        .write_inner_content(|writer| {
            for element in &stream.elements {
                write_element(writer, element);
            }
            Ok(())
        })
        .unwrap();
    String::from_utf8(writer.into_inner()).unwrap()
}

#[test]
fn xml() {
    let xml = r#"<ObjectStream version="3"><Class name="int" field="test" value="2" type="{72039442-EB38-4D42-A1AD-CB68F7E0EEF6}"/><Class name="Asset" type="{72039442-EB38-4D42-A1AD-CB68F7E0EEF6}"><Class name="int" field="element" value="100" type="{72039442-EB38-4D42-A1AD-CB68F7E0EEF6}"/></Class></ObjectStream>"#;

    let xml_object_stream = read_xml(xml);
    assert_eq!(write_xml(&xml_object_stream).as_str(), xml);

    // to the binary model and back
    let binary = ObjectStream::from_xml(&xml_object_stream);
    assert_eq!(binary.version, 3);
    let first = &binary.elements[0];
    assert_eq!(first.flags, 0x5C);
    assert_eq!(first.name_crc, Some(0xD87F7E0C));
    assert_eq!(first.data, Some(vec![0, 0, 0, 2]));
    assert_eq!(first.data_size, Some(4));
    assert_eq!(binary.elements[1].flags, 0x08);
    assert_eq!(binary.elements[1].elements[0].data, Some(vec![0, 0, 0, 100]));
    assert_eq!(write_xml(&XMLObjectStream::from_stream(&binary)).as_str(), xml);
}

#[test]
fn one_element_through_the_bytes_and_back_to_xml() {
    let xml = r#"<ObjectStream version="3"><Class name="int" field="test" value="2" type="{72039442-EB38-4D42-A1AD-CB68F7E0EEF6}"/></ObjectStream>"#;
    let binary = ObjectStream::from_xml(&read_xml(xml));
    let bytes = encode(&binary);
    let mut expected = vec![0, 0, 0, 0, 3, 0x5C, 0xD8, 0x7F, 0x7E, 0x0C];
    expected.extend_from_slice(&ID);
    expected.extend_from_slice(&[0, 0, 0, 2, 0, 0]);
    assert_eq!(bytes, expected);

    let mut table = LumberyardSource::new();
    table.crcs.insert(0xD87F7E0C, "test".to_string());
    table.uuids.insert(INT, "int".to_string());
    let decoded = from_reader(&bytes, Some(&table)).unwrap();
    assert_eq!(encode(&decoded), bytes);
    assert_eq!(write_xml(&XMLObjectStream::from_stream(&decoded)).as_str(), xml);

    // without the table the names are not known, and nothing else changes
    let plain = XMLObjectStream::from_stream(&from_reader(&bytes, None).unwrap());
    assert_eq!(plain.elements[0].name, "");
    assert_eq!(plain.elements[0].field, None);
    assert!(matches!(plain.elements[0].value, Some(Value::Signed(2))));
}

fn read_json(text: &str) -> JSONObjectStream {
    let value: serde_json::Value = serde_json::from_str(text).unwrap();
    let objects = value["Objects"].as_array().unwrap();
    assert!(objects.is_empty());
    JSONObjectStream {
        name: value["name"].as_str().unwrap().to_string(),
        version: value["version"].as_u64().unwrap() as u32,
        elements: vec![],
    }
}

fn write_json(stream: &JSONObjectStream) -> String {
    assert!(stream.elements.is_empty());
    let mut object = serde_json::Map::new();
    object.insert("name".to_string(), serde_json::Value::String(stream.name.clone()));
    object.insert("version".to_string(), serde_json::Value::from(stream.version));
    object.insert("Objects".to_string(), serde_json::Value::Array(vec![]));
    serde_json::to_string(&serde_json::Value::Object(object)).unwrap()
}

#[test]
fn json() {
    let json = r#"{"name":"ObjectStream","version":3,"Objects":[]}"#;
    let json_object_stream = read_json(json);
    assert_eq!(&write_json(&json_object_stream), &json);

    let binary = ObjectStream::from_json(&json_object_stream);
    assert_eq!(encode(&binary), vec![0, 0, 0, 0, 3, 0]);
    let back = JSONObjectStream::from_stream(&from_reader(&encode(&binary), None).unwrap());
    assert_eq!(back.name, "ObjectStream");
    assert_eq!(back.version, 3);
    assert!(back.elements.is_empty());
    assert_eq!(&write_json(&back), &json);
}

#[test]
fn json_shows_values_as_texts() {
    let element = Element {
        flags: 0x1C,
        name_crc: None,
        version: Some(1),
        id: INT,
        specialization: None,
        name: String::new(),
        data_size: Some(4),
        data: Some(vec![0xFF, 0xFF, 0xFF, 0xFE]),
        elements: vec![],
        field: None,
    };
    let shown = JSONElement::from_element(&element);
    match shown.value {
        Some(Value::Text(text)) => assert_eq!(text, "-2"),
        other => panic!("{:?}", other),
    }
    assert!(shown.elements.is_none());
    assert_eq!(shown.version, Some(1));

    let empty = Element { data: Some(vec![]), data_size: Some(0), flags: 0x18, ..element_without_value() };
    let shown = JSONElement::from_element(&empty);
    match shown.value {
        Some(Value::Text(text)) => assert_eq!(text, ""),
        other => panic!("{:?}", other),
    }

    let parent = Element { elements: vec![element_without_value()], ..element_without_value() };
    let shown = JSONElement::from_element(&parent);
    assert!(shown.value.is_none());
    assert_eq!(shown.elements.map(|e| e.len()), Some(1));
}

fn element_without_value() -> Element {
    Element {
        flags: 0x08,
        name_crc: None,
        version: None,
        id: INT,
        specialization: None,
        name: String::new(),
        data_size: None,
        data: None,
        elements: vec![],
        field: None,
    }
}

#[test]
fn xml_leaves_out_a_value_that_does_not_fit_the_type() {
    let element = Element { data: Some(vec![1, 2]), data_size: Some(2), flags: 0x1A, ..element_without_value() };
    assert!(XMLElement::from_element(&element).value.is_none());
    let parent = Element {
        data: Some(vec![]),
        data_size: Some(0),
        elements: vec![element_without_value()],
        ..element_without_value()
    };
    assert!(XMLElement::from_element(&parent).value.is_none());
}

#[test]
fn the_first_element_that_is_asked_for() {
    let stream = from_reader(&nested(), None).unwrap();
    let with_value = stream.query_elements(|e: &Element| e.data.is_some()).unwrap();
    assert_eq!(with_value.flags, 0xD3);
    let small = stream.query_elements(|e: &Element| e.data_size == Some(2)).unwrap();
    assert_eq!(small.flags, 0x1A);
    let last = stream.query_elements(|e: &Element| e.flags == 0x08).unwrap();
    assert!(last.elements.is_empty());
    assert!(stream.query_elements(|e: &Element| e.version == Some(99)).is_none());
    let asked = std::cell::RefCell::new(Vec::new());
    let none = stream.query_elements(|e: &Element| {
        asked.borrow_mut().push(e.flags);
        false
    });
    assert!(none.is_none());
    assert_eq!(asked.into_inner(), vec![0xD3, 0x1A, 0x08]);
    let first = &stream.elements[0];
    assert_eq!(first.query_elements(&|e: &Element| e.flags == 0x1A).map(|e| e.flags), Some(0x1A));
    assert!(first.query_elements(&|e: &Element| e.flags == 0x08).is_none());
}
