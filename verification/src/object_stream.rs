//! The binary object stream: a tree of flag-encoded elements.
//!
//! A stream is one tag byte, a big-endian version and a list of elements that
//! a zero byte closes. Each element is a flags byte, the fields that the
//! flags announce, and its own list of children, closed in the same way.

pub mod built;
pub mod de;
pub mod encode;
pub mod flags;
pub mod laws;
pub mod projection;
pub mod query;
pub mod ser;
pub mod shape;
pub mod specialization;

pub use crate::object_stream::de::{from_reader, read_element, read_stream};
use crate::bytes::{spec_u128_be, spec_u16_be, spec_u32_be};
use crate::error::Error;
use crate::utils::lumberyard::Names;
use vstd::prelude::*;

verus! {

/// The bits of a flags byte that are flags; the other three hold a size.
pub const ST_BINARYFLAG_MASK: u8 = 0xF8;

/// The bits of a flags byte that hold the value size or the width of its field.
pub const ST_BINARY_VALUE_SIZE_MASK: u8 = 0x07;

/// Set on every element that a writer produces.
pub const ST_BINARYFLAG_ELEMENT_HEADER: u8 = 0x08;

/// The element carries a value.
pub const ST_BINARYFLAG_HAS_VALUE: u8 = 0x10;

/// The value size stands in a field of its own.
pub const ST_BINARYFLAG_EXTRA_SIZE_FIELD: u8 = 0x20;

/// The element carries the hash of its field name.
pub const ST_BINARYFLAG_HAS_NAME: u8 = 0x40;

/// The element carries a version byte.
pub const ST_BINARYFLAG_HAS_VERSION: u8 = 0x80;

/// The flags byte that closes a list of elements.
pub const ST_BINARYFLAG_ELEMENT_END: u8 = 0;

/// The tag of a binary stream.
pub const BINARY_STREAM_TAG: u8 = 0;

/// The first byte of a stream written as XML, `<`.
pub const XML_STREAM_TAG: u8 = 0x3c;

/// The first byte of a stream written as JSON, `{`.
pub const JSON_STREAM_TAG: u8 = 0x7b;

/// The first byte of a stream, which tells its encoding.
#[derive(Clone, Copy, Debug, PartialEq, Eq, Structural)]
pub struct StreamTag(pub u8);

impl StreamTag {
    /// The tag of a binary stream.
    pub fn binary() -> (r: Self)
        ensures
            r == StreamTag(BINARY_STREAM_TAG),
    {
        StreamTag(BINARY_STREAM_TAG)
    }

    /// The tag of a stream written as XML.
    pub fn xml() -> (r: Self)
        ensures
            r == StreamTag(XML_STREAM_TAG),
    {
        StreamTag(XML_STREAM_TAG)
    }

    /// The tag of a stream written as JSON.
    pub fn json() -> (r: Self)
        ensures
            r == StreamTag(JSON_STREAM_TAG),
    {
        StreamTag(JSON_STREAM_TAG)
    }

    /// Whether the tag is the byte `other`.
    pub fn is(&self, other: u8) -> (r: bool)
        ensures
            r == (self.0 == other),
    {
        self.0 == other
    }
}

impl Default for StreamTag {
    fn default() -> (r: Self)
        ensures
            r == StreamTag(BINARY_STREAM_TAG),
    {
        StreamTag(BINARY_STREAM_TAG)
    }
}

/// One node of the tree.
#[derive(Debug)]
pub struct Element {
    /// The flags byte as it stood in the stream.
    pub flags: u8,
    /// CRC32 of the field name, where the flags announce it.
    pub name_crc: Option<u32>,
    /// The element's version, where the flags announce it.
    pub version: Option<u8>,
    /// The id of the element's type.
    pub id: u128,
    /// The id of the specialisation, in streams of version 2.
    pub specialization: Option<u128>,
    /// The name of the type, empty when no table gave one.
    pub name: String,
    /// The length of the value, where the flags announce one.
    pub data_size: Option<usize>,
    /// The value.
    pub data: Option<Vec<u8>>,
    /// The children, in stream order.
    pub elements: Vec<Element>,
    /// The name of the field, when a table gave one.
    pub field: Option<String>,
}

/// A decoded stream.
#[derive(Debug)]
pub struct ObjectStream {
    /// The stream tag; always binary for a decoded stream.
    pub tag: StreamTag,
    /// The stream version.
    pub version: u32,
    /// The top-level elements, in stream order.
    pub elements: Vec<Element>,
}

/// What an [`Element`] holds.
pub struct ElementModel {
    pub flags: u8,
    pub name_crc: Option<u32>,
    pub version: Option<u8>,
    pub id: u128,
    pub specialization: Option<u128>,
    pub name: Seq<char>,
    pub data_size: Option<usize>,
    pub data: Option<Seq<u8>>,
    pub elements: Seq<ElementModel>,
    pub field: Option<Seq<char>>,
}

/// What an [`ObjectStream`] holds.
pub struct StreamModel {
    pub tag: u8,
    pub version: u32,
    pub elements: Seq<ElementModel>,
}

/// The text that an optional string holds.
pub open spec fn text_of(s: Option<String>) -> Option<Seq<char>> {
    match s {
        Some(s) => Some(s@),
        None => None,
    }
}

/// The bytes that an optional buffer holds.
pub open spec fn bytes_of(v: Option<Vec<u8>>) -> Option<Seq<u8>> {
    match v {
        Some(v) => Some(v@),
        None => None,
    }
}

/// What `element` holds: its own fields, and what each child holds.
pub open spec fn model_of(element: Element) -> ElementModel
    decreases element,
{
    ElementModel {
        flags: element.flags,
        name_crc: element.name_crc,
        version: element.version,
        id: element.id,
        specialization: element.specialization,
        name: element.name@,
        data_size: element.data_size,
        data: bytes_of(element.data),
        elements: Seq::new(
            element.elements@.len(),
            |i: int|
                if 0 <= i < element.elements@.len() {
                    model_of(element.elements@[i])
                } else {
                    arbitrary()
                },
        ),
        field: text_of(element.field),
    }
}

impl View for Element {
    type V = ElementModel;

    open spec fn view(&self) -> ElementModel {
        model_of(*self)
    }
}

/// The models of a list of elements, in order.
pub open spec fn models(elements: Seq<Element>) -> Seq<ElementModel> {
    Seq::new(elements.len(), |i: int| elements[i]@)
}

impl View for ObjectStream {
    type V = StreamModel;

    open spec fn view(&self) -> StreamModel {
        StreamModel { tag: self.tag.0, version: self.version, elements: models(self.elements@) }
    }
}

/// The fields of an element that stand before its children.
pub struct HeadModel {
    pub flags: u8,
    pub name_crc: Option<u32>,
    pub version: Option<u8>,
    pub id: u128,
    pub specialization: Option<u128>,
    pub data_size: Option<usize>,
    pub data: Option<Seq<u8>>,
}

/// Whether `flags` has the bit `bit`.
pub open spec fn has_flag(flags: u8, bit: u8) -> bool {
    flags & bit != 0
}

/// The field-name hash of an element whose flags byte stands at `pos`, and
/// where the next field starts.
pub open spec fn parse_name(bytes: Seq<u8>, pos: int) -> Result<(Option<u32>, int), Error> {
    if has_flag(bytes[pos], ST_BINARYFLAG_HAS_NAME) {
        if pos + 5 <= bytes.len() {
            Ok((Some(spec_u32_be(bytes, pos + 1)), pos + 5))
        } else {
            Err(Error::UnexpectedEof)
        }
    } else {
        Ok((None, pos + 1))
    }
}

/// The version byte that `flags` announces at `pos`, and where the next
/// field starts.
pub open spec fn parse_version(bytes: Seq<u8>, flags: u8, pos: int) -> Result<
    (Option<u8>, int),
    Error,
> {
    if has_flag(flags, ST_BINARYFLAG_HAS_VERSION) {
        if pos + 1 <= bytes.len() {
            Ok((Some(bytes[pos]), pos + 1))
        } else {
            Err(Error::UnexpectedEof)
        }
    } else {
        Ok((None, pos))
    }
}

/// The specialisation id at `pos`, which only streams of version 2 hold.
pub open spec fn parse_specialization(bytes: Seq<u8>, stream_version: u32, pos: int) -> Result<
    (Option<u128>, int),
    Error,
> {
    if stream_version == 2 {
        if pos + 16 <= bytes.len() {
            Ok((Some(spec_u128_be(bytes, pos)), pos + 16))
        } else {
            Err(Error::UnexpectedEof)
        }
    } else {
        Ok((None, pos))
    }
}

/// The value size that `flags` announces, read at `pos` where it stands in a
/// field of its own.
pub open spec fn parse_size(bytes: Seq<u8>, flags: u8, pos: int) -> Result<
    (Option<usize>, int),
    Error,
> {
    let selector = flags & ST_BINARY_VALUE_SIZE_MASK;
    if !has_flag(flags, ST_BINARYFLAG_HAS_VALUE) {
        Ok((None, pos))
    } else if !has_flag(flags, ST_BINARYFLAG_EXTRA_SIZE_FIELD) {
        Ok((Some(selector as usize), pos))
    } else if selector == 1 {
        if pos + 1 <= bytes.len() {
            Ok((Some(bytes[pos] as usize), pos + 1))
        } else {
            Err(Error::UnexpectedEof)
        }
    } else if selector == 2 {
        if pos + 2 <= bytes.len() {
            Ok((Some(spec_u16_be(bytes, pos) as usize), pos + 2))
        } else {
            Err(Error::UnexpectedEof)
        }
    } else if selector == 4 {
        if pos + 4 <= bytes.len() {
            Ok((Some(spec_u32_be(bytes, pos) as usize), pos + 4))
        } else {
            Err(Error::UnexpectedEof)
        }
    } else {
        Err(Error::UnsupportedDataSize(selector))
    }
}

/// The value of `size` bytes at `pos`, where a size was announced.
pub open spec fn parse_data(bytes: Seq<u8>, size: Option<usize>, pos: int) -> Result<
    (Option<Seq<u8>>, int),
    Error,
> {
    match size {
        Some(n) => if pos + n <= bytes.len() {
            Ok((Some(bytes.subrange(pos, pos + n)), pos + n))
        } else {
            Err(Error::UnexpectedEof)
        },
        None => Ok((None, pos)),
    }
}

/// The head of the element whose flags byte stands at `pos`, and where its
/// children start. The fields come in this order: field-name hash, version,
/// type id, specialisation id, value size, value.
pub open spec fn parse_head(bytes: Seq<u8>, stream_version: u32, pos: int) -> Result<
    (HeadModel, int),
    Error,
> {
    let flags = bytes[pos];
    match parse_name(bytes, pos) {
        Err(e) => Err(e),
        Ok((name_crc, after_name)) => match parse_version(bytes, flags, after_name) {
            Err(e) => Err(e),
            Ok((version, at_id)) => if at_id + 16 > bytes.len() {
                Err(Error::UnexpectedEof)
            } else {
                match parse_specialization(bytes, stream_version, at_id + 16) {
                    Err(e) => Err(e),
                    Ok((specialization, at_size)) => match parse_size(bytes, flags, at_size) {
                        Err(e) => Err(e),
                        Ok((data_size, at_data)) => match parse_data(bytes, data_size, at_data) {
                            Err(e) => Err(e),
                            Ok((data, after_data)) => Ok(
                                (
                                    HeadModel {
                                        flags,
                                        name_crc,
                                        version,
                                        id: spec_u128_be(bytes, at_id),
                                        specialization,
                                        data_size,
                                        data,
                                    },
                                    after_data,
                                ),
                            ),
                        },
                    },
                }
            },
        },
    }
}

/// The element made of a head, the names a table gives it, and its children.
pub open spec fn element_of(head: HeadModel, names: Names, children: Seq<ElementModel>) -> ElementModel {
    ElementModel {
        flags: head.flags,
        name_crc: head.name_crc,
        version: head.version,
        id: head.id,
        specialization: head.specialization,
        name: names.class(head.id),
        data_size: head.data_size,
        data: head.data,
        elements: children,
        field: match head.name_crc {
            Some(crc) => names.field(crc),
            None => None,
        },
    }
}

/// The list of elements that starts at `pos` and ends with the first zero
/// flags byte at its own depth; and the position behind that byte. Each
/// element is its head, then the list of its children, read in the same way.
///
/// The two comparisons of positions in the definition show that it ends.
/// Neither ever fails: a head ends behind its flags byte, and a list ends
/// behind its first byte and inside the buffer (`lemma_head_advances`,
/// `lemma_elements_advance`), so that a list is the element at its start
/// followed by the list behind that element (`lemma_head_then_children`).
pub open spec fn parse_elements(bytes: Seq<u8>, stream_version: u32, names: Names, pos: int) -> Result<
    (Seq<ElementModel>, int),
    Error,
>
    decreases bytes.len() - pos,
{
    if pos < 0 || pos >= bytes.len() {
        Err(Error::UnexpectedEof)
    } else if bytes[pos] == ST_BINARYFLAG_ELEMENT_END {
        Ok((Seq::empty(), pos + 1))
    } else {
        match parse_head(bytes, stream_version, pos) {
            Err(e) => Err(e),
            Ok((head, p)) => if p <= pos {
                Err(Error::UnexpectedEof)
            } else {
                match parse_elements(bytes, stream_version, names, p) {
                    Err(e) => Err(e),
                    Ok((children, q)) => if q <= pos || q > bytes.len() {
                        Err(Error::UnexpectedEof)
                    } else {
                        match parse_elements(bytes, stream_version, names, q) {
                            Err(e) => Err(e),
                            Ok((rest, r)) => Ok(
                                (seq![element_of(head, names, children)] + rest, r),
                            ),
                        }
                    },
                }
            },
        }
    }
}

/// The element whose flags byte stands at `pos`, with all its descendants,
/// and the position behind the zero byte that closes its children.
pub open spec fn parse_element(bytes: Seq<u8>, stream_version: u32, names: Names, pos: int) -> Result<
    (ElementModel, int),
    Error,
> {
    match parse_head(bytes, stream_version, pos) {
        Err(e) => Err(e),
        Ok((head, p)) => match parse_elements(bytes, stream_version, names, p) {
            Err(e) => Err(e),
            Ok((children, q)) => Ok((element_of(head, names, children), q)),
        },
    }
}

/// The stream that `bytes` start with, and how many bytes it takes.
pub open spec fn parse_stream(bytes: Seq<u8>, names: Names) -> Result<(StreamModel, int), Error> {
    if bytes.len() < 1 {
        Err(Error::UnexpectedEof)
    } else if bytes[0] != BINARY_STREAM_TAG {
        Err(Error::InvalidObjectStream)
    } else if bytes.len() < 5 {
        Err(Error::UnexpectedEof)
    } else {
        match parse_elements(bytes, spec_u32_be(bytes, 1), names, 5) {
            Err(e) => Err(e),
            Ok((elements, end)) => Ok(
                (
                    StreamModel {
                        tag: BINARY_STREAM_TAG,
                        version: spec_u32_be(bytes, 1),
                        elements,
                    },
                    end,
                ),
            ),
        }
    }
}

/// A result with `front` put before the elements that were parsed.
pub open spec fn prepend(front: Seq<ElementModel>, r: Result<(Seq<ElementModel>, int), Error>) -> Result<
    (Seq<ElementModel>, int),
    Error,
> {
    match r {
        Ok((rest, end)) => Ok((front + rest, end)),
        Err(e) => Err(e),
    }
}

/// The children of an element's model are the models of its children.
pub proof fn lemma_view_elements(e: Element)
    ensures
        e@.elements == models(e.elements@),
{
    assert forall|i: int| 0 <= i < e.elements@.len() implies e@.elements[i] == models(
        e.elements@,
    )[i] by {}
    assert(e@.elements =~= models(e.elements@));
}

/// A head that parses ends behind the flags byte and inside the buffer.
pub proof fn lemma_head_advances(bytes: Seq<u8>, stream_version: u32, pos: int)
    requires
        0 <= pos < bytes.len(),
        parse_head(bytes, stream_version, pos) is Ok,
    ensures
        pos + 17 <= parse_head(bytes, stream_version, pos)->Ok_0.1 <= bytes.len(),
{
}

/// A list that parses ends behind its first byte and inside the buffer.
pub proof fn lemma_elements_advance(bytes: Seq<u8>, stream_version: u32, names: Names, pos: int)
    requires
        parse_elements(bytes, stream_version, names, pos) is Ok,
    ensures
        0 <= pos < parse_elements(bytes, stream_version, names, pos)->Ok_0.1 <= bytes.len(),
    decreases bytes.len() - pos,
{
    if bytes[pos] != ST_BINARYFLAG_ELEMENT_END {
        lemma_head_advances(bytes, stream_version, pos);
        let p = parse_head(bytes, stream_version, pos)->Ok_0.1;
        lemma_elements_advance(bytes, stream_version, names, p);
        let q = parse_elements(bytes, stream_version, names, p)->Ok_0.1;
        lemma_elements_advance(bytes, stream_version, names, q);
    }
}

} // verus!
