//! A writer of object streams that is driven field by field.
//!
//! The writer is told the name of each field before the field's value is
//! handed to it. It remembers the flags byte of the element it is in, and
//! writes the size of a value in the width that the flags call for.

use crate::bytes::{
    spec_u128_be_bytes, spec_u16_be_bytes, spec_u32_be_bytes, write_bytes, write_u128_be,
    write_u16_be, write_u32_be,
};
use crate::error::Error;
use crate::object_stream::encode::{
    encode_element, encode_elements, encode_head, encode_optional_bytes, encode_optional_u128,
    encode_optional_u32, encode_optional_u8, encode_size, encode_stream, lemma_append_twice,
    lemma_encode_push,
};
use crate::object_stream::{
    bytes_of, has_flag, lemma_view_elements, models, Element, ObjectStream, BINARY_STREAM_TAG,
    ST_BINARYFLAG_ELEMENT_END, ST_BINARYFLAG_EXTRA_SIZE_FIELD, ST_BINARYFLAG_HAS_VALUE,
    ST_BINARY_VALUE_SIZE_MASK,
};
use vstd::prelude::*;

verus! {

/// The state of the writer.
#[derive(Debug)]
pub struct Serializer {
    /// What was written so far.
    pub writer: Vec<u8>,
    /// The first `u32` that was written: the version of the stream.
    pub version: Option<u32>,
    /// The flags byte of the element that is being written.
    pub flags: Option<u8>,
    /// The next byte is a flags byte.
    pub capture: bool,
    /// The next `u64` is the size of a value.
    pub write_size: bool,
    /// The width in which the size of the value is written.
    pub size: Option<u8>,
}

/// What a [`Serializer`] holds.
pub struct SerializerModel {
    pub writer: Seq<u8>,
    pub version: Option<u32>,
    pub flags: Option<u8>,
    pub capture: bool,
    pub write_size: bool,
    pub size: Option<u8>,
}

impl View for Serializer {
    type V = SerializerModel;

    open spec fn view(&self) -> SerializerModel {
        SerializerModel {
            writer: self.writer@,
            version: self.version,
            flags: self.flags,
            capture: self.capture,
            write_size: self.write_size,
            size: self.size,
        }
    }
}

/// What is to be done with the value of a field.
#[derive(Debug, Clone, Copy, PartialEq, Eq, Structural)]
pub enum FieldAction {
    /// The value is written.
    Write,
    /// The value is not written.
    Skip,
    /// The value is written, and behind it the byte that ends a list.
    WriteThenEnd,
}

/// The writer after a byte was written: a byte that is awaited as flags is
/// remembered.
pub open spec fn after_u8(s: SerializerModel, v: u8) -> SerializerModel {
    SerializerModel {
        writer: s.writer.push(v),
        flags: if s.capture {
            Some(v)
        } else {
            s.flags
        },
        capture: false,
        ..s
    }
}

/// The writer after a `u32` was written: the first one is remembered as the
/// version.
pub open spec fn after_u32(s: SerializerModel, v: u32) -> SerializerModel {
    SerializerModel {
        writer: s.writer + spec_u32_be_bytes(v),
        version: if s.version is None {
            Some(v)
        } else {
            s.version
        },
        ..s
    }
}

/// The width of the size field that the flags of the element call for: the
/// three low bits where these are 1, 2 or 4 and the flags announce a value
/// with a size field of its own. Flags that announce a value without such a
/// field hold the size themselves, and no size is written.
pub open spec fn size_width(flags: Option<u8>) -> Option<u8> {
    match flags {
        Some(f) => if has_flag(f, ST_BINARYFLAG_HAS_VALUE) && has_flag(
            f,
            ST_BINARYFLAG_EXTRA_SIZE_FIELD,
        ) && (f & ST_BINARY_VALUE_SIZE_MASK == 1 || f & ST_BINARY_VALUE_SIZE_MASK == 2 || f
            & ST_BINARY_VALUE_SIZE_MASK == 4) {
            Some(f & ST_BINARY_VALUE_SIZE_MASK)
        } else {
            None
        },
        None => None,
    }
}

/// The writer after the name of a field was announced, and what is to be
/// done with the field's value. A size that is not written leaves the
/// writer as it was.
pub open spec fn after_field(s: SerializerModel, key: Seq<char>) -> (SerializerModel, FieldAction) {
    if key == "flags"@ {
        (SerializerModel { capture: true, ..s }, FieldAction::Write)
    } else if key == "data_size"@ {
        match size_width(s.flags) {
            Some(width) => (
                SerializerModel { write_size: true, size: Some(width), ..s },
                FieldAction::Write,
            ),
            None => (s, FieldAction::Skip),
        }
    } else if key == "elements"@ {
        (s, FieldAction::WriteThenEnd)
    } else {
        (s, FieldAction::Write)
    }
}

/// The bytes of a size in the width `width`.
pub open spec fn size_bytes(width: u8, v: u64) -> Seq<u8> {
    if width == 1 {
        seq![(v as int % 0x100) as u8]
    } else if width == 2 {
        spec_u16_be_bytes((v as int % 0x1_0000) as u16)
    } else {
        spec_u32_be_bytes((v as int % 0x1_0000_0000) as u32)
    }
}

impl Serializer {
    /// A writer that has written nothing.
    pub fn new() -> (r: Self)
        ensures
            r@ == (SerializerModel {
                writer: Seq::empty(),
                version: None,
                flags: None,
                capture: false,
                write_size: false,
                size: None,
            }),
    {
        Serializer {
            writer: Vec::new(),
            version: None,
            flags: None,
            capture: false,
            write_size: false,
            size: None,
        }
    }

    /// Starts an element: forgets the flags of the one before.
    pub fn serialize_struct(&mut self)
        ensures
            final(self)@ == (SerializerModel { flags: None, ..old(self)@ }),
    {
        self.flags = None;
    }

    /// Writes a byte, and remembers it where it is awaited as a flags byte.
    pub fn serialize_u8(&mut self, v: u8)
        ensures
            final(self)@ == after_u8(old(self)@, v),
    {
        if self.capture {
            self.flags = Some(v);
            self.capture = false;
        }
        self.writer.push(v);
    }

    /// Writes a `u32`, most significant byte first, and remembers the first
    /// one as the version.
    pub fn serialize_u32(&mut self, v: u32)
        ensures
            final(self)@ == after_u32(old(self)@, v),
    {
        if self.version.is_none() {
            self.version = Some(v);
        }
        write_u32_be(&mut self.writer, v);
    }

    /// Writes bytes as they are.
    pub fn serialize_bytes(&mut self, v: &[u8])
        ensures
            final(self)@ == (SerializerModel { writer: old(self)@.writer + v@, ..old(self)@ }),
    {
        write_bytes(&mut self.writer, v);
    }

    /// Writes a `u64`: as a size in the width that was chosen where a size
    /// is awaited, and else in eight bytes, most significant first. A size
    /// that is awaited without a width is an error, and nothing is written.
    pub fn serialize_u64(&mut self, v: u64) -> (r: Result<(), Error>)
        ensures
            match r {
                Ok(_) => if old(self).write_size {
                    old(self).size is Some && final(self)@ == (SerializerModel {
                        write_size: false,
                        ..(if old(self).size->Some_0 == 1 {
                            after_u8(old(self)@, (v as int % 0x100) as u8)
                        } else if old(self).size->Some_0 == 4 {
                            after_u32(old(self)@, (v as int % 0x1_0000_0000) as u32)
                        } else {
                            SerializerModel {
                                writer: old(self)@.writer + size_bytes(2, v),
                                ..old(self)@
                            }
                        })
                    })
                } else {
                    final(self)@ == (SerializerModel {
                        writer: old(self)@.writer + spec_u32_be_bytes(
                            (v as int / 0x1_0000_0000) as u32,
                        ) + spec_u32_be_bytes((v as int % 0x1_0000_0000) as u32),
                        ..old(self)@
                    })
                },
                Err(e) => e == Error::InvalidValueSize && old(self).write_size && !(old(self).size
                    == Some(1u8) || old(self).size == Some(2u8) || old(self).size == Some(4u8))
                    && final(self)@ == (SerializerModel { write_size: false, ..old(self)@ }),
            },
    {
        if self.write_size {
            self.write_size = false;
            match self.size {
                Some(width) => {
                    if width == 1 {
                        self.serialize_u8((v % 0x100) as u8);
                        Ok(())
                    } else if width == 2 {
                        write_u16_be(&mut self.writer, (v % 0x1_0000) as u16);
                        Ok(())
                    } else if width == 4 {
                        self.serialize_u32((v % 0x1_0000_0000) as u32);
                        Ok(())
                    } else {
                        Err(Error::InvalidValueSize)
                    }
                },
                None => Err(Error::InvalidValueSize),
            }
        } else {
            write_u32_be(&mut self.writer, (v / 0x1_0000_0000) as u32);
            write_u32_be(&mut self.writer, (v % 0x1_0000_0000) as u32);
            Ok(())
        }
    }

    /// Takes the name of the field whose value comes next, and tells what is
    /// to be done with the value.
    pub fn serialize_field(&mut self, key: &str) -> (r: FieldAction)
        ensures
            (final(self)@, r) == after_field(old(self)@, key@),
    {
        let name = key.to_owned();
        if name == "flags".to_owned() {
            self.capture = true;
            FieldAction::Write
        } else if name == "data_size".to_owned() {
            match self.flags {
                Some(flags) => {
                    if flags & ST_BINARYFLAG_HAS_VALUE != 0 && flags
                        & ST_BINARYFLAG_EXTRA_SIZE_FIELD != 0 {
                        let size = flags & ST_BINARY_VALUE_SIZE_MASK;
                        if size == 1 || size == 2 || size == 4 {
                            self.write_size = true;
                            self.size = Some(size);
                            FieldAction::Write
                        } else {
                            FieldAction::Skip
                        }
                    } else {
                        FieldAction::Skip
                    }
                },
                None => FieldAction::Skip,
            }
        } else if name == "elements".to_owned() {
            FieldAction::WriteThenEnd
        } else {
            FieldAction::Write
        }
    }
}

/// The names of the fields are told apart.
proof fn lemma_field_names()
    ensures
        "name_crc"@ != "flags"@ && "name_crc"@ != "data_size"@ && "name_crc"@ != "elements"@,
        "version"@ != "flags"@ && "version"@ != "data_size"@ && "version"@ != "elements"@,
        "id"@ != "flags"@ && "id"@ != "data_size"@ && "id"@ != "elements"@,
        "specialization"@ != "flags"@ && "specialization"@ != "data_size"@ && "specialization"@
            != "elements"@,
        "data"@ != "flags"@ && "data"@ != "data_size"@ && "data"@ != "elements"@,
        "data_size"@ != "flags"@,
        "elements"@ != "flags"@ && "elements"@ != "data_size"@,
{
    reveal_strlit("flags");
    reveal_strlit("name_crc");
    reveal_strlit("version");
    reveal_strlit("id");
    reveal_strlit("specialization");
    reveal_strlit("data_size");
    reveal_strlit("data");
    reveal_strlit("elements");
    assert("flags"@.len() == 5);
    assert("name_crc"@.len() == 8);
    assert("version"@.len() == 7);
    assert("id"@.len() == 2);
    assert("specialization"@.len() == 14);
    assert("data_size"@.len() == 9);
    assert("data"@.len() == 4);
    assert("elements"@.len() == 8);
    assert("name_crc"@[0] != "elements"@[0]);
}

impl Serializer {
    /// Hands an id to the writer as a field of the name `key`.
    fn id_field(&mut self, key: &str, id: u128)
        requires
            key@ != "flags"@,
            key@ != "data_size"@,
            key@ != "elements"@,
        ensures
            final(self)@ == (SerializerModel {
                writer: old(self)@.writer + spec_u128_be_bytes(id),
                ..old(self)@
            }),
    {
        let _ = self.serialize_field(key);
        let mut bytes: Vec<u8> = Vec::new();
        write_u128_be(&mut bytes, id);
        assert(bytes@ =~= spec_u128_be_bytes(id));
        self.serialize_bytes(bytes.as_slice());
    }

    /// Hands the fields of `e` before its size to the writer, each under
    /// its name.
    fn fields_before_size(&mut self, e: &Element)
        ensures
            final(self).writer@ == old(self).writer@ + seq![e.flags] + encode_optional_u32(
                e.name_crc,
            ) + encode_optional_u8(e.version) + spec_u128_be_bytes(e.id) + encode_optional_u128(
                e.specialization,
            ),
            final(self).flags == Some(e.flags),
    {
        proof {
            lemma_field_names();
        }
        self.serialize_struct();
        let _ = self.serialize_field("flags");
        self.serialize_u8(e.flags);
        let _ = self.serialize_field("name_crc");
        match e.name_crc {
            Some(v) => self.serialize_u32(v),
            None => {
                assert(self.writer@ =~= self.writer@ + encode_optional_u32(e.name_crc));
            },
        }
        let _ = self.serialize_field("version");
        let ghost before = self.writer@;
        match e.version {
            Some(v) => self.serialize_u8(v),
            None => {},
        }
        assert(self.writer@ =~= before + encode_optional_u8(e.version));
        self.id_field("id", e.id);
        let ghost before = self.writer@;
        match e.specialization {
            Some(v) => self.id_field("specialization", v),
            None => {
                let _ = self.serialize_field("specialization");
            },
        }
        assert(self.writer@ =~= before + encode_optional_u128(e.specialization));
    }

    /// Hands the size and the value of `e` to the writer, each under its
    /// name.
    fn size_and_value(&mut self, e: &Element) -> (r: Result<(), Error>)
        requires
            old(self).flags == Some(e.flags),
        ensures
            r is Ok,
            final(self).writer@ == old(self).writer@ + encode_size(e.flags, e.data_size)
                + encode_optional_bytes(bytes_of(e.data)),
    {
        proof {
            lemma_field_names();
        }
        let ghost start = self.writer@;
        let action = self.serialize_field("data_size");
        match action {
            FieldAction::Skip => {},
            _ => match e.data_size {
                Some(v) => {
                    let size: u64 = v as u64;
                    match self.serialize_u64(size) {
                        Ok(_) => {},
                        Err(e) => {
                            return Err(e);
                        },
                    }
                },
                None => {},
            },
        }
        assert(self.writer@ =~= start + encode_size(e.flags, e.data_size));
        let _ = self.serialize_field("data");
        let ghost before = self.writer@;
        match &e.data {
            Some(v) => self.serialize_bytes(v.as_slice()),
            None => {},
        }
        assert(self.writer@ =~= before + encode_optional_bytes(bytes_of(e.data)));
        Ok(())
    }

    /// Hands the element `e` to the writer field by field, as the fields
    /// stand in an element, and its children in the same way. What is
    /// written is the binary form of the element.
    pub fn serialize_element(&mut self, e: &Element) -> (r: Result<(), Error>)
        ensures
            r is Ok,
            final(self).writer@ == old(self).writer@ + encode_element(e@),
        decreases e,
    {
        let ghost start = self.writer@;
        self.fields_before_size(e);
        let ghost before = self.writer@;
        match self.size_and_value(e) {
            Ok(_) => {},
            Err(e) => {
                return Err(e);
            },
        }
        proof {
            lemma_field_names();
            lemma_view_elements(*e);
            assert(self.writer@ =~= start + encode_head(e@));
        }
        let ghost head = self.writer@;
        let _ = self.serialize_field("elements");
        let mut i: usize = 0;
        assert(models(e.elements@).subrange(0, 0) =~= Seq::empty());
        assert(head =~= head + encode_elements(Seq::empty()));
        while i < e.elements.len()
            invariant
                i <= e.elements@.len(),
                self.writer@ == head + encode_elements(models(e.elements@).subrange(0, i as int)),
            decreases e.elements@.len() - i,
        {
            let ghost done = models(e.elements@).subrange(0, i as int);
            match self.serialize_element(&e.elements[i]) {
                Ok(_) => {},
                Err(e) => {
                    return Err(e);
                },
            }
            proof {
                lemma_encode_push(done, e.elements@[i as int]@);
                assert(models(e.elements@).subrange(0, i + 1) =~= done.push(
                    e.elements@[i as int]@,
                ));
                lemma_append_twice(head, encode_elements(done), encode_element(
                    e.elements@[i as int]@,
                ));
            }
            i += 1;
        }
        proof {
            assert(models(e.elements@).subrange(0, i as int) =~= models(e.elements@));
        }
        self.serialize_u8(ST_BINARYFLAG_ELEMENT_END);
        proof {
            assert(self.writer@ =~= start + encode_element(e@));
        }
        Ok(())
    }
}

/// Writes `stream` with a writer that is driven field by field: the tag of
/// the binary form, the version, and every element with the fields that its
/// flags call for. The bytes are those of the binary form of the stream.
pub fn to_writer(stream: &ObjectStream, writer: &mut Vec<u8>) -> (r: Result<(), Error>)
    ensures
        r is Ok,
        final(writer)@ == old(writer)@ + encode_stream(stream@),
{
    let mut s = Serializer::new();
    s.serialize_struct();
    s.serialize_u8(BINARY_STREAM_TAG);
    s.serialize_u32(stream.version);
    let ghost head = s.writer@;
    let mut i: usize = 0;
    assert(models(stream.elements@).subrange(0, 0) =~= Seq::empty());
    assert(head =~= head + encode_elements(Seq::empty()));
    while i < stream.elements.len()
        invariant
            i <= stream.elements@.len(),
            s.writer@ == head + encode_elements(models(stream.elements@).subrange(0, i as int)),
        decreases stream.elements@.len() - i,
    {
        let ghost done = models(stream.elements@).subrange(0, i as int);
        match s.serialize_element(&stream.elements[i]) {
            Ok(_) => {},
            Err(e) => {
                return Err(e);
            },
        }
        proof {
            lemma_encode_push(done, stream.elements@[i as int]@);
            assert(models(stream.elements@).subrange(0, i + 1) =~= done.push(
                stream.elements@[i as int]@,
            ));
            lemma_append_twice(head, encode_elements(done), encode_element(
                stream.elements@[i as int]@,
            ));
        }
        i += 1;
    }
    proof {
        assert(models(stream.elements@).subrange(0, i as int) =~= models(stream.elements@));
    }
    s.serialize_u8(ST_BINARYFLAG_ELEMENT_END);
    assert(s.writer@ =~= encode_stream(stream@));
    write_bytes(writer, s.writer.as_slice());
    Ok(())
}

} // verus!
