use nw_tools::distribution::{Distribution, MyError, Position};
use nw_tools::error::Error;
use nw_tools::localization::{KeyValue, Localization};
use nw_tools::pak::buffers::BufferPool;
use nw_tools::vshapec::{MetaData, VShapeC, Vector3};

#[test]
fn it_works() {
    let bytes = [
        0x00, 0x00, 0x00, 0x00, 0x10, 0x00, 0x00, 0x00, 0x65, 0xC0, 0xBD, 0x42, 0x31, 0x51, 0xAB,
        0xC2, 0x00, 0x00, 0x00, 0x00, 0x83, 0x05, 0xBD, 0x42, 0x50, 0x2B, 0x2F, 0x42, 0x00, 0x00,
        0x00, 0x00, 0xBA, 0xCF, 0x43, 0x42, 0xB5, 0x5E, 0xCD, 0x42, 0x00, 0x00, 0x00, 0x00, 0xD1,
        0x10, 0xBD, 0xC2, 0xA1, 0xAC, 0xC5, 0x42, 0x00, 0x00, 0x00, 0x00, 0x2F, 0x0F, 0xF3, 0xC2,
        0x0B, 0x39, 0x80, 0x41, 0x00, 0x00, 0x00, 0x00, 0xBA, 0x5D, 0xF2, 0xC2, 0xDD, 0x30, 0x01,
        0xC2, 0x00, 0x00, 0x00, 0x00, 0xD1, 0x43, 0x18, 0xC3, 0xB6, 0xDB, 0x84, 0xC2, 0x00, 0x00,
        0x00, 0x00, 0x27, 0x61, 0x16, 0xC3, 0x65, 0xF6, 0xD4, 0xC2, 0x00, 0x00, 0x00, 0x00, 0x62,
        0x59, 0xFD, 0xC2, 0xF2, 0xA5, 0xE6, 0xC2, 0x00, 0x00, 0x00, 0x00, 0xA4, 0x26, 0xE0, 0xC2,
        0x4A, 0xCA, 0xED, 0xC2, 0x00, 0x00, 0x00, 0x00, 0x4F, 0x3E, 0xC5, 0xC2, 0xD3, 0x5F, 0xEC,
        0xC2, 0x00, 0x00, 0x00, 0x00, 0x70, 0x8D, 0x9C, 0xC2, 0x40, 0x05, 0xF8, 0xC2, 0x00, 0x00,
        0x00, 0x00, 0x32, 0x37, 0x46, 0xC2, 0x5B, 0xA9, 0x08, 0xC3, 0x00, 0x00, 0x00, 0x00, 0x5A,
        0xD2, 0xC6, 0xC1, 0x99, 0x94, 0x08, 0xC3, 0x00, 0x00, 0x00, 0x00, 0x0A, 0xDB, 0x05, 0xC1,
        0x2D, 0x38, 0xFB, 0xC2, 0x00, 0x00, 0x00, 0x00, 0x7D, 0xA5, 0xF2, 0x41, 0x7B, 0x9D, 0xE7,
        0xC2, 0x00, 0x00, 0x00, 0x00, 0x00, 0x00, 0x00, 0x00, 0x00, 0x00, 0x00, 0x00, 0x00, 0x00,
        0x00, 0x00, 0x00, 0x00, 0x96, 0x43, 0x00, 0x00, 0x00, 0x00,
    ];
    let vshapec = VShapeC::from_reader(bytes.as_slice());
    assert!(vshapec.is_ok());

    if let Ok(vshapec) = vshapec {
        assert_eq!(vshapec.version, 0);
        assert_eq!(vshapec.vertices.len(), 16);
        assert_eq!(f32::from_bits(vshapec.vertices[0].0), 94.87577);
        assert_eq!(vshapec.vertices[0], Vector3(0x42BDC065, 0xC2AB5131, 0));
        assert!(vshapec.metadata.is_empty());
        assert_eq!(vshapec.field, 0);
        assert_eq!(vshapec.field2, 0);
        assert_eq!(vshapec.flags, [0x00, 0x00, 0x96, 0x43]);
        assert_eq!(vshapec.field3, 0);
    };
}

#[test]
fn a_shape_with_metadata() {
    let mut bytes = Vec::new();
    bytes.extend_from_slice(&7u32.to_le_bytes());
    bytes.extend_from_slice(&1u32.to_le_bytes());
    for v in [1.5f32, -2.0, 0.25] {
        bytes.extend_from_slice(&v.to_le_bytes());
    }
    bytes.extend_from_slice(&2u32.to_le_bytes());
    for v in [10u32, 11, 20, 21] {
        bytes.extend_from_slice(&v.to_le_bytes());
    }
    bytes.extend_from_slice(&100u32.to_le_bytes());
    bytes.extend_from_slice(&200u32.to_le_bytes());
    bytes.extend_from_slice(&[1, 2, 3, 4]);
    bytes.extend_from_slice(&300u32.to_le_bytes());
    let shape = VShapeC::from_reader(&bytes).unwrap();
    assert_eq!(shape.version, 7);
    assert_eq!(shape.vertices, vec![Vector3(1.5f32.to_bits(), (-2.0f32).to_bits(), 0.25f32.to_bits())]);
    assert_eq!(shape.metadata, vec![MetaData { key: 10, value: 11 }, MetaData { key: 20, value: 21 }]);
    assert_eq!((shape.field, shape.field2, shape.flags, shape.field3), (100, 200, [1, 2, 3, 4], 300));
    for len in 0..bytes.len() {
        assert_eq!(VShapeC::from_reader(&bytes[..len]).err(), Some(Error::UnexpectedEof));
    }
}

fn distribution_bytes() -> Vec<u8> {
    let mut bytes = Vec::new();
    bytes.extend_from_slice(&2u16.to_le_bytes());
    for name in ["ab", "", "x", "yz"] {
        bytes.push(name.len() as u8);
        bytes.extend_from_slice(name.as_bytes());
    }
    bytes.extend_from_slice(&2u32.to_le_bytes());
    for v in [1u16, 2] {
        bytes.extend_from_slice(&v.to_le_bytes());
    }
    for v in [10u16, 11, 12, 13] {
        bytes.extend_from_slice(&v.to_le_bytes());
    }
    for v in [21u16, 22, 31, 32] {
        bytes.extend_from_slice(&v.to_le_bytes());
    }
    bytes.extend_from_slice(&[41, 42]);
    bytes.extend_from_slice(&1u32.to_le_bytes());
    bytes.extend_from_slice(&[5, 0, 6, 0, 7]);
    bytes.extend_from_slice(&0u32.to_le_bytes());
    bytes
}

#[test]
fn a_distribution_is_decoded_part_by_part() {
    let bytes = distribution_bytes();
    let d = Distribution::from_reader(&bytes).unwrap();
    assert_eq!(d.slices.slices, vec!["ab", ""]);
    assert_eq!(d.slices.variants, vec!["x", "yz"]);
    assert_eq!(d.gatherables.indices, vec![1, 2]);
    assert_eq!(d.gatherables.positions, vec![Position(10, 11), Position(12, 13)]);
    assert_eq!(d.gatherables.extra1, vec![21, 22]);
    assert_eq!(d.gatherables.extra2, vec![31, 32]);
    assert_eq!(d.gatherables.extra3, vec![41, 42]);
    assert_eq!(d.unknown1.positions, vec![Position(5, 6)]);
    assert_eq!(d.unknown1.extra, vec![7]);
    assert!(d.unknown2.positions.is_empty());
    assert!(d.unknown2.extra.is_empty());
}

#[test]
fn a_distribution_that_is_cut_short_is_an_error() {
    let bytes = distribution_bytes();
    for len in 0..bytes.len() {
        assert_eq!(
            Distribution::from_reader(&bytes[..len]).err(),
            Some(MyError::IO(Error::UnexpectedEof)),
            "{}",
            len
        );
    }
    let mut bad = bytes.clone();
    bad[3] = 0xFF;
    assert_eq!(Distribution::from_reader(&bad).err(), Some(MyError::IO(Error::InvalidUtf8)));
    let mut huge = bytes.clone();
    huge[11..15].copy_from_slice(&u32::MAX.to_le_bytes());
    assert_eq!(Distribution::from_reader(&huge).err(), Some(MyError::IO(Error::UnexpectedEof)));
}

#[test]
fn the_entries_of_a_localization() {
    let item = |key: Option<&str>, value: Option<&str>| KeyValue {
        key: key.map(str::to_string),
        value: value.map(str::to_string),
        ..KeyValue::default()
    };
    let texts = Localization {
        xmlns: None,
        string: vec![item(Some("UI_Ok"), Some("OK")), item(None, Some("lost")), item(Some("ui_no"), None)],
    };
    assert_eq!(
        texts.entries(true),
        vec![("ui_ok".to_string(), Some("OK".to_string())), ("ui_no".to_string(), None)]
    );
    assert_eq!(
        texts.entries(false),
        vec![("UI_Ok".to_string(), Some("OK".to_string())), ("ui_no".to_string(), None)]
    );
}

#[test]
fn the_pool_keeps_what_was_read() {
    let mut pool = BufferPool::new();
    let data = [1u8, 2, 3, 4, 5, 6, 7, 8, 9];
    assert_eq!(pool.get(&data, 1, 3).unwrap(), vec![2, 3, 4]);
    assert_eq!(pool.buffers.get(&3), Some(&vec![2, 3, 4]));
    assert_eq!(pool.get(&data, 4, 3).unwrap(), vec![5, 6, 7]);
    assert_eq!(pool.buffers.get(&3), Some(&vec![5, 6, 7]));
    assert_eq!(pool.get(&data, 8, 3).err(), Some(Error::UnexpectedEof));
    assert_eq!(pool.buffers.get(&3), Some(&vec![5, 6, 7]));
    assert_eq!(pool.get_as::<u8>(&data, 0).unwrap(), 1);
    assert_eq!(pool.get_as::<u16>(&data, 0).unwrap(), 0x0102);
    assert_eq!(pool.get_as::<u32>(&data, 1).unwrap(), 0x02030405);
    assert_eq!(pool.get_as::<u64>(&data, 1).unwrap(), 0x0203040506070809);
    assert_eq!(pool.get_as::<u64>(&data, 2).err(), Some(Error::UnexpectedEof));
    assert_eq!(pool.buffers.len(), 5);
}
