//! What every decoded element looks like: the flags of an element say what
//! the element holds, at every depth of the tree.

use crate::error::Error;
use crate::object_stream::laws::{size_field_width, value_offset};
use crate::object_stream::{
    element_of, has_flag, lemma_elements_advance, lemma_head_advances, parse_element,
    parse_elements, parse_head, parse_stream, ElementModel,
    ST_BINARYFLAG_ELEMENT_END, ST_BINARYFLAG_EXTRA_SIZE_FIELD, ST_BINARYFLAG_HAS_NAME,
    ST_BINARYFLAG_HAS_VALUE, ST_BINARYFLAG_HAS_VERSION, ST_BINARY_VALUE_SIZE_MASK,
};
use crate::bytes::spec_u32_be;
use crate::utils::lumberyard::Names;
use vstd::prelude::*;

verus! {

/// The largest size that a size field of `width` bytes holds, and one more.
pub open spec fn size_limit(width: u8) -> int {
    if width == 1 {
        0x100
    } else if width == 2 {
        0x1_0000
    } else {
        0x1_0000_0000
    }
}

/// Whether the flags of an element say what its head holds in a stream of
/// the version `stream_version`: the flags byte is not the zero byte that
/// closes a list; the hash of the field name, the version and the value are
/// there exactly where their flags are set; the specialisation id is there
/// exactly in a stream of version 2; the value has the size that is given
/// for it; and that size is the three low bits of the flags, or fits the
/// size field whose width (1, 2 or 4) those bits give.
pub open spec fn head_follows_flags(e: ElementModel, stream_version: u32) -> bool {
    let selector = e.flags & ST_BINARY_VALUE_SIZE_MASK;
    &&& e.flags != ST_BINARYFLAG_ELEMENT_END
    &&& e.name_crc is Some == has_flag(e.flags, ST_BINARYFLAG_HAS_NAME)
    &&& e.version is Some == has_flag(e.flags, ST_BINARYFLAG_HAS_VERSION)
    &&& e.specialization is Some == (stream_version == 2)
    &&& e.data_size is Some == has_flag(e.flags, ST_BINARYFLAG_HAS_VALUE)
    &&& e.data is Some == e.data_size is Some
    &&& e.data is Some ==> e.data->Some_0.len() == e.data_size->Some_0
    &&& e.data_size is Some ==> if has_flag(e.flags, ST_BINARYFLAG_EXTRA_SIZE_FIELD) {
        (selector == 1 || selector == 2 || selector == 4) && e.data_size->Some_0 < size_limit(
            selector,
        )
    } else {
        e.data_size->Some_0 == selector
    }
}

/// Whether the flags of an element and of all its descendants say what
/// their heads hold.
pub open spec fn follows_flags(e: ElementModel, stream_version: u32) -> bool
    decreases e,
{
    head_follows_flags(e, stream_version) && forall|i: int|
        0 <= i < e.elements.len() ==> follows_flags(#[trigger] e.elements[i], stream_version)
}

/// Whether all elements of a list, at every depth, follow their flags.
pub open spec fn all_follow_flags(elements: Seq<ElementModel>, stream_version: u32) -> bool {
    forall|i: int| 0 <= i < elements.len() ==> follows_flags(#[trigger] elements[i], stream_version)
}

/// A head that was parsed follows its flags, whatever its children are.
pub proof fn lemma_decoded_head_follows_flags(
    bytes: Seq<u8>,
    stream_version: u32,
    names: Names,
    pos: int,
    children: Seq<ElementModel>,
)
    requires
        0 <= pos < bytes.len(),
        bytes[pos] != ST_BINARYFLAG_ELEMENT_END,
        parse_head(bytes, stream_version, pos) is Ok,
    ensures
        head_follows_flags(
            element_of(parse_head(bytes, stream_version, pos)->Ok_0.0, names, children),
            stream_version,
        ),
{
}

/// Every element of a list that was parsed follows its flags, and so does
/// every descendant of it: no element has the flags byte zero, each holds
/// the hash of its field name, its version and its value exactly where the
/// flags say so, the specialisation id exactly in a stream of version 2,
/// and a value of the size that is given for it.
pub proof fn lemma_decoded_elements_follow_flags(
    bytes: Seq<u8>,
    stream_version: u32,
    names: Names,
    pos: int,
)
    requires
        parse_elements(bytes, stream_version, names, pos) is Ok,
    ensures
        all_follow_flags(parse_elements(bytes, stream_version, names, pos)->Ok_0.0, stream_version),
    decreases bytes.len() - pos,
{
    lemma_elements_advance(bytes, stream_version, names, pos);
    if bytes[pos] != ST_BINARYFLAG_ELEMENT_END {
        lemma_head_advances(bytes, stream_version, pos);
        let head = parse_head(bytes, stream_version, pos)->Ok_0.0;
        let p = parse_head(bytes, stream_version, pos)->Ok_0.1;
        lemma_elements_advance(bytes, stream_version, names, p);
        let children = parse_elements(bytes, stream_version, names, p)->Ok_0.0;
        let q = parse_elements(bytes, stream_version, names, p)->Ok_0.1;
        lemma_elements_advance(bytes, stream_version, names, q);
        let rest = parse_elements(bytes, stream_version, names, q)->Ok_0.0;
        let first = element_of(head, names, children);
        lemma_decoded_head_follows_flags(bytes, stream_version, names, pos, children);
        lemma_decoded_elements_follow_flags(bytes, stream_version, names, p);
        lemma_decoded_elements_follow_flags(bytes, stream_version, names, q);
        assert(follows_flags(first, stream_version));
        let all = seq![first] + rest;
        assert forall|i: int| 0 <= i < all.len() implies follows_flags(
            #[trigger] all[i],
            stream_version,
        ) by {
            if i > 0 {
                assert(all[i] == rest[i - 1]);
            }
        }
    }
}

/// An element that was decoded follows its flags, and so does every
/// descendant of it.
pub proof fn lemma_decoded_element_follows_flags(
    bytes: Seq<u8>,
    stream_version: u32,
    names: Names,
    pos: int,
)
    requires
        0 <= pos < bytes.len(),
        bytes[pos] != ST_BINARYFLAG_ELEMENT_END,
        parse_element(bytes, stream_version, names, pos) is Ok,
    ensures
        follows_flags(parse_element(bytes, stream_version, names, pos)->Ok_0.0, stream_version),
{
    lemma_head_advances(bytes, stream_version, pos);
    let p = parse_head(bytes, stream_version, pos)->Ok_0.1;
    let children = parse_elements(bytes, stream_version, names, p)->Ok_0.0;
    lemma_decoded_head_follows_flags(bytes, stream_version, names, pos, children);
    lemma_decoded_elements_follow_flags(bytes, stream_version, names, p);
}

/// Every element of a stream that was decoded follows its flags, at every
/// depth of the tree.
pub proof fn lemma_decoded_stream_follows_flags(bytes: Seq<u8>, names: Names)
    requires
        parse_stream(bytes, names) is Ok,
    ensures
        all_follow_flags(
            parse_stream(bytes, names)->Ok_0.0.elements,
            parse_stream(bytes, names)->Ok_0.0.version,
        ),
{
    lemma_decoded_elements_follow_flags(bytes, spec_u32_be(bytes, 1), names, 5);
}

/// How many bytes the head of an element takes: the flags byte, four bytes
/// for the hash of the field name and one for the version where the flags
/// announce them, sixteen for the type id, sixteen more for the
/// specialisation id in a stream of version 2, the size field where the
/// flags announce one, and the value.
pub open spec fn head_length(flags: u8, stream_version: u32, data_size: Option<usize>) -> int {
    value_offset(flags, stream_version) + size_field_width(flags) + (match data_size {
        Some(size) => size as int,
        None => 0,
    })
}

/// An element that is decoded takes, before its first child, the bytes that
/// its flags, the version of the stream and the size of its value call for,
/// and no other: its children are the list that is read from there, and the
/// element ends where that list ends.
pub proof fn lemma_element_takes(bytes: Seq<u8>, stream_version: u32, names: Names, pos: int)
    requires
        0 <= pos < bytes.len(),
        parse_element(bytes, stream_version, names, pos) is Ok,
    ensures
        ({
            let element = parse_element(bytes, stream_version, names, pos)->Ok_0.0;
            let end = parse_element(bytes, stream_version, names, pos)->Ok_0.1;
            let children_at = pos + head_length(bytes[pos], stream_version, element.data_size);
            &&& element.flags == bytes[pos]
            &&& pos + 17 <= children_at < end <= bytes.len()
            &&& parse_elements(bytes, stream_version, names, children_at) == Ok::<
                (Seq<ElementModel>, int),
                Error,
            >((element.elements, end))
        }),
{
    lemma_head_advances(bytes, stream_version, pos);
    let p = parse_head(bytes, stream_version, pos)->Ok_0.1;
    lemma_elements_advance(bytes, stream_version, names, p);
}

} // verus!
