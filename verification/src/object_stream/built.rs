//! What makes elements decode again from the bytes that are written for
//! them: that their flags say what they hold. Elements that are built with
//! the flags that are made from what they hold are of that kind.

use crate::bytes::{
    lemma_u16_be_of_bytes, lemma_u32_be_of_bytes, lemma_u64_be_of_bytes, spec_u128_be,
    spec_u128_be_bytes, spec_u16_be, spec_u16_be_bytes, spec_u32_be, spec_u32_be_bytes,
    spec_u64_be, spec_u64_be_bytes,
};
use crate::error::Error;
use crate::object_stream::flags::{built_flags, lemma_built_flags_tell};
use crate::object_stream::encode::{
    encode_element, encode_elements, encode_head, encode_optional_bytes, encode_optional_u128,
    encode_optional_u32, encode_optional_u8, encode_size, encode_stream, lemma_append_twice,
    lemma_encode_first,
};
use crate::object_stream::laws::{all_unnamed, unnamed};
use crate::object_stream::shape::{all_follow_flags, follows_flags, head_follows_flags};
use crate::object_stream::{
    element_of, has_flag, parse_data, parse_elements, parse_head, parse_name, parse_size,
    parse_specialization, parse_stream, parse_version, ElementModel, HeadModel, StreamModel,
    BINARY_STREAM_TAG, ST_BINARYFLAG_ELEMENT_END, ST_BINARYFLAG_EXTRA_SIZE_FIELD,
    ST_BINARYFLAG_HAS_NAME, ST_BINARYFLAG_HAS_VERSION, ST_BINARY_VALUE_SIZE_MASK,
};
use crate::utils::lumberyard::no_names;
use vstd::prelude::*;

verus! {

/// Whether the head of an element says what the element holds: the flags
/// are those built from what is present, the value has the size that is
/// given for it, and the specialisation id is there in a stream of version 2
/// and in no other.
pub open spec fn head_is_consistent(e: ElementModel, stream_version: u32) -> bool {
    &&& built_flags(e.name_crc is Some, e.version is Some, e.data_size) == Some(e.flags)
    &&& e.data is Some == e.data_size is Some
    &&& e.data is Some ==> e.data->Some_0.len() == e.data_size->Some_0
    &&& e.specialization is Some == (stream_version == 2)
}

/// Whether an element and all its descendants have heads that say what
/// they hold.
pub open spec fn is_consistent(e: ElementModel, stream_version: u32) -> bool
    decreases e,
{
    head_is_consistent(e, stream_version) && forall|i: int|
        0 <= i < e.elements.len() ==> is_consistent(#[trigger] e.elements[i], stream_version)
}

/// Whether all elements of a list are consistent.
pub open spec fn all_consistent(elements: Seq<ElementModel>, stream_version: u32) -> bool {
    forall|i: int| 0 <= i < elements.len() ==> is_consistent(#[trigger] elements[i], stream_version)
}

/// The head of an element, as the parser gives it.
pub open spec fn head_of(e: ElementModel) -> HeadModel {
    HeadModel {
        flags: e.flags,
        name_crc: e.name_crc,
        version: e.version,
        id: e.id,
        specialization: e.specialization,
        data_size: e.data_size,
        data: e.data,
    }
}

/// Whether `part` stands in `bytes` at `at`.
pub open spec fn stands_at(bytes: Seq<u8>, at: int, part: Seq<u8>) -> bool {
    0 <= at && at + part.len() <= bytes.len() && bytes.subrange(at, at + part.len()) == part
}

/// Two parts in a row stand in a buffer where each of them stands.
proof fn lemma_stands_apart(bytes: Seq<u8>, at: int, first: Seq<u8>, second: Seq<u8>)
    requires
        stands_at(bytes, at, first + second),
    ensures
        stands_at(bytes, at, first),
        stands_at(bytes, at + first.len(), second),
{
    let whole = bytes.subrange(at, at + first.len() + second.len());
    assert forall|i: int| 0 <= i < first.len() implies bytes[at + i] == first[i] by {
        assert(whole[i] == (first + second)[i]);
    }
    assert forall|i: int| 0 <= i < second.len() implies bytes[at + first.len() + i] == second[i] by {
        assert(whole[first.len() + i] == (first + second)[first.len() + i]);
    }
    assert(bytes.subrange(at, at + first.len()) =~= first);
    assert(bytes.subrange(at + first.len(), at + first.len() + second.len()) =~= second);
}

/// A byte that stands in a buffer is the byte at its place.
proof fn lemma_u8_stands(bytes: Seq<u8>, at: int, v: u8)
    requires
        stands_at(bytes, at, seq![v]),
    ensures
        at < bytes.len(),
        bytes[at] == v,
{
    assert(bytes[at] == bytes.subrange(at, at + 1)[0]);
}

/// A `u16` that stands in a buffer is read at its place.
proof fn lemma_u16_stands(bytes: Seq<u8>, at: int, v: u16)
    requires
        stands_at(bytes, at, spec_u16_be_bytes(v)),
    ensures
        at + 2 <= bytes.len(),
        spec_u16_be(bytes, at) == v,
{
    lemma_u16_be_of_bytes(v);
    let part = bytes.subrange(at, at + 2);
    assert(part[0] == bytes[at] && part[1] == bytes[at + 1]);
}

/// A `u32` that stands in a buffer is read at its place.
proof fn lemma_u32_stands(bytes: Seq<u8>, at: int, v: u32)
    requires
        stands_at(bytes, at, spec_u32_be_bytes(v)),
    ensures
        at + 4 <= bytes.len(),
        spec_u32_be(bytes, at) == v,
{
    lemma_u32_be_of_bytes(v);
    let part = bytes.subrange(at, at + 4);
    assert(part[0] == bytes[at] && part[1] == bytes[at + 1] && part[2] == bytes[at + 2] && part[3]
        == bytes[at + 3]);
}

/// A `u64` that stands in a buffer is read at its place.
proof fn lemma_u64_stands(bytes: Seq<u8>, at: int, v: u64)
    requires
        stands_at(bytes, at, spec_u64_be_bytes(v)),
    ensures
        at + 8 <= bytes.len(),
        spec_u64_be(bytes, at) == v,
{
    let hi = (v as int / 0x1_0000_0000) as u32;
    let lo = (v as int % 0x1_0000_0000) as u32;
    lemma_u32_be_of_bytes(hi);
    lemma_u32_be_of_bytes(lo);
    lemma_stands_apart(bytes, at, spec_u32_be_bytes(hi), spec_u32_be_bytes(lo));
    lemma_u32_stands(bytes, at, hi);
    lemma_u32_stands(bytes, at + 4, lo);
}

/// An id that stands in a buffer is read at its place.
proof fn lemma_u128_stands(bytes: Seq<u8>, at: int, v: u128)
    requires
        stands_at(bytes, at, spec_u128_be_bytes(v)),
    ensures
        at + 16 <= bytes.len(),
        spec_u128_be(bytes, at) == v,
{
    let hi = (v as int / 0x1_0000_0000_0000_0000) as u64;
    let lo = (v as int % 0x1_0000_0000_0000_0000) as u64;
    lemma_u64_be_of_bytes(hi);
    lemma_u64_be_of_bytes(lo);
    lemma_stands_apart(bytes, at, spec_u64_be_bytes(hi), spec_u64_be_bytes(lo));
    lemma_u64_stands(bytes, at, hi);
    lemma_u64_stands(bytes, at + 8, lo);
}

/// The hash of the field name of a consistent element is read as it was
/// written.
proof fn lemma_name_decodes(bytes: Seq<u8>, pos: int, e: ElementModel)
    requires
        0 <= pos < bytes.len(),
        bytes[pos] == e.flags,
        has_flag(e.flags, ST_BINARYFLAG_HAS_NAME) == e.name_crc is Some,
        stands_at(bytes, pos + 1, encode_optional_u32(e.name_crc)),
    ensures
        parse_name(bytes, pos) == Ok::<(Option<u32>, int), Error>(
            (e.name_crc, pos + 1 + encode_optional_u32(e.name_crc).len()),
        ),
{
    if e.name_crc is Some {
        lemma_u32_stands(bytes, pos + 1, e.name_crc->Some_0);
    }
}

/// The version of a consistent element is read as it was written.
proof fn lemma_version_decodes(bytes: Seq<u8>, at: int, e: ElementModel)
    requires
        has_flag(e.flags, ST_BINARYFLAG_HAS_VERSION) == e.version is Some,
        stands_at(bytes, at, encode_optional_u8(e.version)),
    ensures
        parse_version(bytes, e.flags, at) == Ok::<(Option<u8>, int), Error>(
            (e.version, at + encode_optional_u8(e.version).len()),
        ),
{
    if e.version is Some {
        lemma_u8_stands(bytes, at, e.version->Some_0);
    }
}

/// The specialisation id of a consistent element is read as it was written.
proof fn lemma_specialization_decodes(bytes: Seq<u8>, stream_version: u32, at: int, e: ElementModel)
    requires
        e.specialization is Some == (stream_version == 2),
        stands_at(bytes, at, encode_optional_u128(e.specialization)),
    ensures
        parse_specialization(bytes, stream_version, at) == Ok::<(Option<u128>, int), Error>(
            (e.specialization, at + encode_optional_u128(e.specialization).len()),
        ),
{
    if e.specialization is Some {
        lemma_u128_stands(bytes, at, e.specialization->Some_0);
        lemma_u128_be_of_bytes(e.specialization->Some_0);
    }
}

/// The sixteen bytes of an id are sixteen.
proof fn lemma_u128_be_of_bytes(v: u128)
    ensures
        spec_u128_be_bytes(v).len() == 16,
{
}

/// The size field of an element that follows its flags is read as it was
/// written.
proof fn lemma_size_decodes(bytes: Seq<u8>, stream_version: u32, at: int, e: ElementModel)
    requires
        stands_at(bytes, at, encode_size(e.flags, e.data_size)),
        head_follows_flags(e, stream_version),
    ensures
        parse_size(bytes, e.flags, at) == Ok::<(Option<usize>, int), Error>(
            (e.data_size, at + encode_size(e.flags, e.data_size).len()),
        ),
{
    let selector = e.flags & ST_BINARY_VALUE_SIZE_MASK;
    match e.data_size {
        None => {},
        Some(size) => {
            if !has_flag(e.flags, ST_BINARYFLAG_EXTRA_SIZE_FIELD) {
                assert(selector as usize == size);
            } else if selector == 1 {
                lemma_u8_stands(bytes, at, (size as int % 0x100) as u8);
            } else if selector == 2 {
                lemma_u16_stands(bytes, at, (size as int % 0x1_0000) as u16);
            } else {
                lemma_u32_stands(bytes, at, (size as int % 0x1_0000_0000) as u32);
            }
        },
    }
}

/// The value of a consistent element is read as it was written.
proof fn lemma_data_decodes(bytes: Seq<u8>, at: int, e: ElementModel)
    requires
        stands_at(bytes, at, encode_optional_bytes(e.data)),
        e.data is Some == e.data_size is Some,
        e.data is Some ==> e.data->Some_0.len() == e.data_size->Some_0,
    ensures
        parse_data(bytes, e.data_size, at) == Ok::<(Option<Seq<u8>>, int), Error>(
            (e.data, at + encode_optional_bytes(e.data).len()),
        ),
{
}

/// The parts of the head of an element, one after the other.
pub open spec fn head_parts(e: ElementModel) -> Seq<Seq<u8>> {
    seq![
        seq![e.flags],
        encode_optional_u32(e.name_crc),
        encode_optional_u8(e.version),
        spec_u128_be_bytes(e.id),
        encode_optional_u128(e.specialization),
        encode_size(e.flags, e.data_size),
        encode_optional_bytes(e.data),
    ]
}

/// The head of an element that follows its flags, where it stands in a
/// buffer, is read as it was written.
pub proof fn lemma_head_decodes(bytes: Seq<u8>, stream_version: u32, pos: int, e: ElementModel)
    requires
        stands_at(bytes, pos, encode_head(e)),
        head_follows_flags(e, stream_version),
    ensures
        parse_head(bytes, stream_version, pos) == Ok::<(HeadModel, int), Error>(
            (head_of(e), pos + encode_head(e).len()),
        ),
        pos < bytes.len(),
        bytes[pos] != ST_BINARYFLAG_ELEMENT_END,
{
    let parts = head_parts(e);
    let s1 = parts[0] + parts[1];
    let s2 = s1 + parts[2];
    let s3 = s2 + parts[3];
    let s4 = s3 + parts[4];
    let s5 = s4 + parts[5];
    let s6 = s5 + parts[6];
    assert(encode_head(e) == s6);
    lemma_stands_apart(bytes, pos, s5, parts[6]);
    lemma_stands_apart(bytes, pos, s4, parts[5]);
    lemma_stands_apart(bytes, pos, s3, parts[4]);
    lemma_stands_apart(bytes, pos, s2, parts[3]);
    lemma_stands_apart(bytes, pos, s1, parts[2]);
    lemma_stands_apart(bytes, pos, parts[0], parts[1]);
    lemma_u8_stands(bytes, pos, e.flags);
    let after_name = pos + 1 + parts[1].len();
    let at_id = after_name + parts[2].len();
    let after_id = at_id + parts[3].len();
    let at_size = after_id + parts[4].len();
    let at_data = at_size + parts[5].len();
    lemma_name_decodes(bytes, pos, e);
    lemma_version_decodes(bytes, after_name, e);
    lemma_u128_stands(bytes, at_id, e.id);
    lemma_u128_be_of_bytes(e.id);
    lemma_specialization_decodes(bytes, stream_version, after_id, e);
    lemma_size_decodes(bytes, stream_version, at_size, e);
    lemma_data_decodes(bytes, at_data, e);
}

/// An element without names is the element that its head and its children
/// without names make where no table gives names.
proof fn lemma_unnamed_is_bare(first: ElementModel)
    ensures
        unnamed(first) == element_of(
            head_of(first),
            no_names(),
            all_unnamed(first.elements),
        ),
{
    assert(unnamed(first).elements =~= all_unnamed(first.elements));
}

/// The bytes of a list with the byte that closes it: the head of the first
/// element, its children with the byte that closes them, and the rest of the
/// list with the byte that closes it.
proof fn lemma_list_layout(first: ElementModel, rest: Seq<ElementModel>)
    ensures
        encode_elements(seq![first] + rest) + seq![ST_BINARYFLAG_ELEMENT_END] == encode_head(first)
            + ((encode_elements(first.elements) + seq![ST_BINARYFLAG_ELEMENT_END]) + (
        encode_elements(rest) + seq![ST_BINARYFLAG_ELEMENT_END])),
{
    let zero = seq![ST_BINARYFLAG_ELEMENT_END];
    let head = encode_head(first);
    let children = encode_elements(first.elements) + zero;
    let tail = encode_elements(rest) + zero;
    lemma_encode_first(first, rest);
    lemma_append_twice(head, encode_elements(first.elements), zero);
    lemma_append_twice(encode_element(first), encode_elements(rest), zero);
    lemma_append_twice(head, children, tail);
}

/// A list is read as its first element and the rest, where the head of the
/// first, its children and the rest are read one behind the other.
proof fn lemma_list_is_read(
    bytes: Seq<u8>,
    stream_version: u32,
    pos: int,
    first: ElementModel,
    rest: Seq<ElementModel>,
    at_children: int,
    at_rest: int,
    end: int,
)
    requires
        0 <= pos < at_children < at_rest < end <= bytes.len(),
        bytes[pos] != ST_BINARYFLAG_ELEMENT_END,
        parse_head(bytes, stream_version, pos) == Ok::<(HeadModel, int), Error>(
            (head_of(first), at_children),
        ),
        parse_elements(bytes, stream_version, no_names(), at_children) == Ok::<
            (Seq<ElementModel>, int),
            Error,
        >((all_unnamed(first.elements), at_rest)),
        parse_elements(bytes, stream_version, no_names(), at_rest) == Ok::<
            (Seq<ElementModel>, int),
            Error,
        >((all_unnamed(rest), end)),
    ensures
        parse_elements(bytes, stream_version, no_names(), pos) == Ok::<
            (Seq<ElementModel>, int),
            Error,
        >((all_unnamed(seq![first] + rest), end)),
{
    lemma_unnamed_is_bare(first);
    assert(all_unnamed(seq![first] + rest) =~= seq![unnamed(first)] + all_unnamed(rest));
}

/// The parts of a list of elements that follow their flags do so too.
proof fn lemma_following_parts(elements: Seq<ElementModel>, stream_version: u32)
    requires
        elements.len() > 0,
        all_follow_flags(elements, stream_version),
    ensures
        head_follows_flags(elements[0], stream_version),
        all_follow_flags(elements[0].elements, stream_version),
        all_follow_flags(elements.drop_first(), stream_version),
{
    let first = elements[0];
    let rest = elements.drop_first();
    assert(follows_flags(first, stream_version));
    assert forall|i: int| 0 <= i < rest.len() implies follows_flags(
        #[trigger] rest[i],
        stream_version,
    ) by {
        assert(rest[i] == elements[i + 1]);
    }
}

/// A head with the flags that are built from what it holds follows its
/// flags.
pub proof fn lemma_consistent_head_follows_flags(e: ElementModel, stream_version: u32)
    requires
        head_is_consistent(e, stream_version),
    ensures
        head_follows_flags(e, stream_version),
{
    lemma_built_flags_tell(e.name_crc is Some, e.version is Some, e.data_size);
}

/// An element that is consistent follows its flags, at every depth.
pub proof fn lemma_consistent_follows_flags(e: ElementModel, stream_version: u32)
    requires
        is_consistent(e, stream_version),
    ensures
        follows_flags(e, stream_version),
    decreases e,
{
    lemma_consistent_head_follows_flags(e, stream_version);
    assert forall|i: int| 0 <= i < e.elements.len() implies follows_flags(
        #[trigger] e.elements[i],
        stream_version,
    ) by {
        lemma_consistent_follows_flags(e.elements[i], stream_version);
    }
}

/// A list of elements that follow their flags, where it stands in a buffer
/// with the byte that closes it, is read as it was written, but for the
/// names, which come from the table.
pub proof fn lemma_elements_decode(
    bytes: Seq<u8>,
    stream_version: u32,
    pos: int,
    elements: Seq<ElementModel>,
)
    requires
        stands_at(bytes, pos, encode_elements(elements) + seq![ST_BINARYFLAG_ELEMENT_END]),
        all_follow_flags(elements, stream_version),
    ensures
        parse_elements(bytes, stream_version, no_names(), pos) == Ok::<
            (Seq<ElementModel>, int),
            Error,
        >((all_unnamed(elements), pos + encode_elements(elements).len() + 1)),
    decreases elements,
{
    let zero = seq![ST_BINARYFLAG_ELEMENT_END];
    if elements.len() == 0 {
        lemma_u8_stands(bytes, pos, ST_BINARYFLAG_ELEMENT_END);
        assert(all_unnamed(elements) =~= Seq::<ElementModel>::empty());
    } else {
        let first = elements[0];
        let rest = elements.drop_first();
        assert(elements =~= seq![first] + rest);
        lemma_following_parts(elements, stream_version);
        lemma_list_layout(first, rest);
        let head = encode_head(first);
        let children = encode_elements(first.elements) + zero;
        let tail = encode_elements(rest) + zero;
        lemma_stands_apart(bytes, pos, head, children + tail);
        let at_children = pos + head.len();
        lemma_stands_apart(bytes, at_children, children, tail);
        let at_rest = at_children + children.len();
        lemma_head_decodes(bytes, stream_version, pos, first);
        lemma_elements_decode(bytes, stream_version, at_children, first.elements);
        lemma_elements_decode(bytes, stream_version, at_rest, rest);
        lemma_list_is_read(
            bytes,
            stream_version,
            pos,
            first,
            rest,
            at_children,
            at_rest,
            at_rest + tail.len(),
        );
    }
}

/// A stream of elements that follow their flags decodes from its bytes:
/// decoding the encoding of the stream gives the stream back, but for the
/// names, and takes all the bytes. Every stream that was decoded is of that
/// kind.
pub proof fn lemma_stream_decodes(stream: StreamModel)
    requires
        all_follow_flags(stream.elements, stream.version),
    ensures
        parse_stream(encode_stream(stream), no_names()) == Ok::<(StreamModel, int), Error>(
            (
                StreamModel {
                    tag: BINARY_STREAM_TAG,
                    version: stream.version,
                    elements: all_unnamed(stream.elements),
                },
                encode_stream(stream).len() as int,
            ),
        ),
{
    let bytes = encode_stream(stream);
    let zero = seq![ST_BINARYFLAG_ELEMENT_END];
    let body = encode_elements(stream.elements);
    let front = seq![BINARY_STREAM_TAG] + spec_u32_be_bytes(stream.version);
    lemma_u32_be_of_bytes(stream.version);
    lemma_append_twice(front, body, zero);
    assert(bytes == front + (body + zero));
    assert(bytes.subrange(0, bytes.len() as int) =~= bytes);
    lemma_stands_apart(bytes, 0, front, body + zero);
    lemma_stands_apart(bytes, 0, seq![BINARY_STREAM_TAG], spec_u32_be_bytes(stream.version));
    lemma_u8_stands(bytes, 0, BINARY_STREAM_TAG);
    lemma_u32_stands(bytes, 1, stream.version);
    lemma_elements_decode(bytes, stream.version, 5, stream.elements);
}

/// A stream of consistent elements decodes from its bytes: decoding the
/// encoding of the stream gives the stream back, but for the names, and
/// takes all the bytes.
pub proof fn lemma_encode_then_decode(stream: StreamModel)
    requires
        all_consistent(stream.elements, stream.version),
    ensures
        parse_stream(encode_stream(stream), no_names()) == Ok::<(StreamModel, int), Error>(
            (
                StreamModel {
                    tag: BINARY_STREAM_TAG,
                    version: stream.version,
                    elements: all_unnamed(stream.elements),
                },
                encode_stream(stream).len() as int,
            ),
        ),
{
    assert forall|i: int| 0 <= i < stream.elements.len() implies follows_flags(
        #[trigger] stream.elements[i],
        stream.version,
    ) by {
        lemma_consistent_follows_flags(stream.elements[i], stream.version);
    }
    lemma_stream_decodes(stream);
}

} // verus!
