//! What holds of decoding and encoding, for every buffer and every stream.

use crate::bytes::{
    lemma_u128_be_round_trip, lemma_u16_be_round_trip, lemma_u32_be_round_trip, spec_u128_be,
    spec_u16_be, spec_u32_be, spec_u32_be_bytes,
};
use crate::error::Error;
use crate::object_stream::de::decodes_to;
use crate::object_stream::encode::{
    encode_element, encode_elements, encode_head, encode_optional_bytes, encode_optional_u128,
    encode_optional_u32, encode_optional_u8, encode_size, encode_stream, lemma_append_twice,
    lemma_encode_first,
};
use crate::object_stream::{
    element_of, has_flag, lemma_elements_advance, lemma_head_advances, parse_data,
    parse_elements, parse_head, parse_name, parse_size, parse_specialization, parse_stream,
    parse_version, ElementModel, HeadModel, ObjectStream, StreamModel, BINARY_STREAM_TAG,
    ST_BINARYFLAG_ELEMENT_END, ST_BINARYFLAG_EXTRA_SIZE_FIELD, ST_BINARYFLAG_HAS_NAME,
    ST_BINARYFLAG_HAS_VALUE, ST_BINARYFLAG_HAS_VERSION, ST_BINARY_VALUE_SIZE_MASK,
};
use crate::utils::lumberyard::{no_names, Names};
use vstd::prelude::*;

verus! {

/// Two pieces of a buffer that touch make one piece.
proof fn lemma_join(bytes: Seq<u8>, a: int, b: int, c: int)
    requires
        0 <= a <= b <= c <= bytes.len(),
    ensures
        bytes.subrange(a, b) + bytes.subrange(b, c) == bytes.subrange(a, c),
{
    assert(bytes.subrange(a, b) + bytes.subrange(b, c) =~= bytes.subrange(a, c));
}

/// The field-name hash that was parsed is written as the bytes it came from.
proof fn lemma_name_round_trip(bytes: Seq<u8>, pos: int)
    requires
        0 <= pos < bytes.len(),
        parse_name(bytes, pos) is Ok,
    ensures
        pos + 1 <= parse_name(bytes, pos)->Ok_0.1 <= bytes.len(),
        encode_optional_u32(parse_name(bytes, pos)->Ok_0.0) == bytes.subrange(
            pos + 1,
            parse_name(bytes, pos)->Ok_0.1,
        ),
{
    if has_flag(bytes[pos], ST_BINARYFLAG_HAS_NAME) {
        lemma_u32_be_round_trip(bytes, pos + 1);
    } else {
        assert(bytes.subrange(pos + 1, pos + 1) =~= Seq::<u8>::empty());
    }
}

/// The version byte that was parsed is written as the byte it came from.
proof fn lemma_version_round_trip(bytes: Seq<u8>, flags: u8, pos: int)
    requires
        0 <= pos <= bytes.len(),
        parse_version(bytes, flags, pos) is Ok,
    ensures
        pos <= parse_version(bytes, flags, pos)->Ok_0.1 <= bytes.len(),
        encode_optional_u8(parse_version(bytes, flags, pos)->Ok_0.0) == bytes.subrange(
            pos,
            parse_version(bytes, flags, pos)->Ok_0.1,
        ),
{
    if has_flag(flags, ST_BINARYFLAG_HAS_VERSION) {
        assert(seq![bytes[pos]] =~= bytes.subrange(pos, pos + 1));
    } else {
        assert(bytes.subrange(pos, pos) =~= Seq::<u8>::empty());
    }
}

/// The specialisation id that was parsed is written as the bytes it came from.
proof fn lemma_specialization_round_trip(bytes: Seq<u8>, stream_version: u32, pos: int)
    requires
        0 <= pos <= bytes.len(),
        parse_specialization(bytes, stream_version, pos) is Ok,
    ensures
        pos <= parse_specialization(bytes, stream_version, pos)->Ok_0.1 <= bytes.len(),
        encode_optional_u128(parse_specialization(bytes, stream_version, pos)->Ok_0.0)
            == bytes.subrange(pos, parse_specialization(bytes, stream_version, pos)->Ok_0.1),
{
    if stream_version == 2 {
        lemma_u128_be_round_trip(bytes, pos);
    } else {
        assert(bytes.subrange(pos, pos) =~= Seq::<u8>::empty());
    }
}

/// The size that was parsed is written as the bytes it came from.
proof fn lemma_size_round_trip(bytes: Seq<u8>, flags: u8, pos: int)
    requires
        0 <= pos <= bytes.len(),
        parse_size(bytes, flags, pos) is Ok,
    ensures
        pos <= parse_size(bytes, flags, pos)->Ok_0.1 <= bytes.len(),
        encode_size(flags, parse_size(bytes, flags, pos)->Ok_0.0) == bytes.subrange(
            pos,
            parse_size(bytes, flags, pos)->Ok_0.1,
        ),
{
    let selector = flags & ST_BINARY_VALUE_SIZE_MASK;
    if has_flag(flags, ST_BINARYFLAG_HAS_VALUE) && has_flag(flags, ST_BINARYFLAG_EXTRA_SIZE_FIELD) {
        if selector == 1 {
            assert(seq![bytes[pos]] =~= bytes.subrange(pos, pos + 1));
        } else if selector == 2 {
            lemma_u16_be_round_trip(bytes, pos);
        } else if selector == 4 {
            lemma_u32_be_round_trip(bytes, pos);
        }
    } else {
        assert(bytes.subrange(pos, pos) =~= Seq::<u8>::empty());
    }
}

/// The value that was parsed is written as the bytes it came from.
proof fn lemma_data_round_trip(bytes: Seq<u8>, size: Option<usize>, pos: int)
    requires
        0 <= pos <= bytes.len(),
        parse_data(bytes, size, pos) is Ok,
    ensures
        pos <= parse_data(bytes, size, pos)->Ok_0.1 <= bytes.len(),
        encode_optional_bytes(parse_data(bytes, size, pos)->Ok_0.0) == bytes.subrange(
            pos,
            parse_data(bytes, size, pos)->Ok_0.1,
        ),
{
    if size is None {
        assert(bytes.subrange(pos, pos) =~= Seq::<u8>::empty());
    }
}

/// The head of an element that was parsed is written as the bytes it came from.
pub proof fn lemma_head_round_trip(
    bytes: Seq<u8>,
    stream_version: u32,
    names: Names,
    pos: int,
    children: Seq<ElementModel>,
)
    requires
        0 <= pos < bytes.len(),
        parse_head(bytes, stream_version, pos) is Ok,
    ensures
        encode_head(element_of(parse_head(bytes, stream_version, pos)->Ok_0.0, names, children))
            == bytes.subrange(pos, parse_head(bytes, stream_version, pos)->Ok_0.1),
{
    let flags = bytes[pos];
    let head = parse_head(bytes, stream_version, pos)->Ok_0.0;
    let after_name = parse_name(bytes, pos)->Ok_0.1;
    let at_id = parse_version(bytes, flags, after_name)->Ok_0.1;
    let after_id = at_id + 16;
    let at_size = parse_specialization(bytes, stream_version, after_id)->Ok_0.1;
    let at_data = parse_size(bytes, flags, at_size)->Ok_0.1;
    let after_data = parse_data(bytes, head.data_size, at_data)->Ok_0.1;
    lemma_name_round_trip(bytes, pos);
    lemma_version_round_trip(bytes, flags, after_name);
    lemma_u128_be_round_trip(bytes, at_id);
    lemma_specialization_round_trip(bytes, stream_version, after_id);
    lemma_size_round_trip(bytes, flags, at_size);
    lemma_data_round_trip(bytes, head.data_size, at_data);
    assert(seq![flags] =~= bytes.subrange(pos, pos + 1));
    lemma_join(bytes, pos, pos + 1, after_name);
    lemma_join(bytes, pos, after_name, at_id);
    lemma_join(bytes, pos, at_id, after_id);
    lemma_join(bytes, pos, after_id, at_size);
    lemma_join(bytes, pos, at_size, at_data);
    lemma_join(bytes, pos, at_data, after_data);
}

/// A list of elements that was parsed is written, with the zero byte that
/// closes it, as the bytes it came from.
pub proof fn lemma_elements_round_trip(bytes: Seq<u8>, stream_version: u32, names: Names, pos: int)
    requires
        parse_elements(bytes, stream_version, names, pos) is Ok,
    ensures
        0 <= pos < parse_elements(bytes, stream_version, names, pos)->Ok_0.1 <= bytes.len(),
        encode_elements(parse_elements(bytes, stream_version, names, pos)->Ok_0.0)
            + seq![ST_BINARYFLAG_ELEMENT_END] == bytes.subrange(
            pos,
            parse_elements(bytes, stream_version, names, pos)->Ok_0.1,
        ),
    decreases bytes.len() - pos,
{
    lemma_elements_advance(bytes, stream_version, names, pos);
    if bytes[pos] == ST_BINARYFLAG_ELEMENT_END {
        assert(Seq::<u8>::empty() + seq![ST_BINARYFLAG_ELEMENT_END] =~= bytes.subrange(
            pos,
            pos + 1,
        ));
    } else {
        lemma_head_advances(bytes, stream_version, pos);
        let head = parse_head(bytes, stream_version, pos)->Ok_0.0;
        let p = parse_head(bytes, stream_version, pos)->Ok_0.1;
        lemma_elements_advance(bytes, stream_version, names, p);
        let children = parse_elements(bytes, stream_version, names, p)->Ok_0.0;
        let q = parse_elements(bytes, stream_version, names, p)->Ok_0.1;
        lemma_elements_advance(bytes, stream_version, names, q);
        let rest = parse_elements(bytes, stream_version, names, q)->Ok_0.0;
        let r = parse_elements(bytes, stream_version, names, q)->Ok_0.1;
        let first = element_of(head, names, children);
        lemma_head_round_trip(bytes, stream_version, names, pos, children);
        lemma_elements_round_trip(bytes, stream_version, names, p);
        lemma_elements_round_trip(bytes, stream_version, names, q);
        lemma_encode_first(first, rest);
        let zero = seq![ST_BINARYFLAG_ELEMENT_END];
        lemma_append_twice(encode_head(first), encode_elements(children), zero);
        lemma_join(bytes, pos, p, q);
        assert(encode_element(first) == bytes.subrange(pos, q));
        lemma_append_twice(encode_element(first), encode_elements(rest), zero);
        lemma_join(bytes, pos, q, r);
    }
}

/// Decoding and then encoding gives back the bytes of the stream: for every
/// buffer that decodes, the encoding of the decoded stream is the buffer up
/// to where the stream ends, and the whole buffer when nothing follows the
/// stream.
pub proof fn lemma_decode_then_encode(bytes: Seq<u8>, names: Names)
    requires
        parse_stream(bytes, names) is Ok,
    ensures
        5 < parse_stream(bytes, names)->Ok_0.1 <= bytes.len(),
        encode_stream(parse_stream(bytes, names)->Ok_0.0) == bytes.subrange(
            0,
            parse_stream(bytes, names)->Ok_0.1,
        ),
        parse_stream(bytes, names)->Ok_0.1 == bytes.len() ==> encode_stream(
            parse_stream(bytes, names)->Ok_0.0,
        ) == bytes,
{
    let version = spec_u32_be(bytes, 1);
    let end = parse_stream(bytes, names)->Ok_0.1;
    let elements = parse_elements(bytes, version, names, 5)->Ok_0.0;
    lemma_elements_round_trip(bytes, version, names, 5);
    lemma_u32_be_round_trip(bytes, 1);
    assert(seq![BINARY_STREAM_TAG] =~= bytes.subrange(0, 1));
    lemma_join(bytes, 0, 1, 5);
    lemma_append_twice(
        seq![BINARY_STREAM_TAG] + spec_u32_be_bytes(version),
        encode_elements(elements),
        seq![ST_BINARYFLAG_ELEMENT_END],
    );
    lemma_join(bytes, 0, 5, end);
    if end == bytes.len() {
        assert(bytes.subrange(0, end) =~= bytes);
    }
}

/// Decoding is a function of the buffer and the names: two results of
/// decoding the same buffer hold the same stream, or are the same error.
pub proof fn lemma_decoding_is_deterministic(
    bytes: Seq<u8>,
    names: Names,
    first: Result<ObjectStream, Error>,
    second: Result<ObjectStream, Error>,
)
    requires
        decodes_to(bytes, names, first),
        decodes_to(bytes, names, second),
    ensures
        match (first, second) {
            (Ok(a), Ok(b)) => a@ == b@,
            (Err(a), Err(b)) => a == b,
            _ => false,
        },
{
}

/// How many bytes the size field of an element with these flags takes.
pub open spec fn size_field_width(flags: u8) -> int {
    if has_flag(flags, ST_BINARYFLAG_HAS_VALUE) && has_flag(flags, ST_BINARYFLAG_EXTRA_SIZE_FIELD) {
        (flags & ST_BINARY_VALUE_SIZE_MASK) as int
    } else {
        0
    }
}

/// How far behind the flags byte the type id stands.
pub open spec fn id_offset(flags: u8) -> int {
    1 + (if has_flag(flags, ST_BINARYFLAG_HAS_NAME) {
        4int
    } else {
        0int
    }) + (if has_flag(flags, ST_BINARYFLAG_HAS_VERSION) {
        1int
    } else {
        0int
    })
}

/// How far behind the flags byte the size field, or else the value, stands.
pub open spec fn value_offset(flags: u8, stream_version: u32) -> int {
    id_offset(flags) + 16 + (if stream_version == 2 {
        16int
    } else {
        0int
    })
}

/// The flags decide which fields are read, and in which order: the hash of
/// the field name if `HAS_NAME` is set, the version if `HAS_VERSION` is set,
/// the type id always, the specialisation id in a stream of version 2 and in
/// no other, then the value if `HAS_VALUE` is set. The value's size is the
/// three low bits of the flags, unless `EXTRA_SIZE_FIELD` is set: then those
/// bits are 1, 2 or 4 and count the bytes of a size field. Nothing else is
/// read.
pub proof fn lemma_fields_follow_flags(bytes: Seq<u8>, stream_version: u32, pos: int)
    requires
        0 <= pos < bytes.len(),
        parse_head(bytes, stream_version, pos) is Ok,
    ensures
        ({
            let flags = bytes[pos];
            let head = parse_head(bytes, stream_version, pos)->Ok_0.0;
            let end = parse_head(bytes, stream_version, pos)->Ok_0.1;
            let selector = flags & ST_BINARY_VALUE_SIZE_MASK;
            let size_at = pos + value_offset(flags, stream_version);
            &&& head.flags == flags
            &&& head.name_crc == (if has_flag(flags, ST_BINARYFLAG_HAS_NAME) {
                Some(spec_u32_be(bytes, pos + 1))
            } else {
                None
            })
            &&& head.version == (if has_flag(flags, ST_BINARYFLAG_HAS_VERSION) {
                Some(bytes[pos + id_offset(flags) - 1])
            } else {
                None
            })
            &&& head.id == spec_u128_be(bytes, pos + id_offset(flags))
            &&& head.specialization == (if stream_version == 2 {
                Some(spec_u128_be(bytes, pos + id_offset(flags) + 16))
            } else {
                None
            })
            &&& head.data_size is Some == has_flag(flags, ST_BINARYFLAG_HAS_VALUE)
            &&& head.data is Some == has_flag(flags, ST_BINARYFLAG_HAS_VALUE)
            &&& has_flag(flags, ST_BINARYFLAG_HAS_VALUE) && !has_flag(
                flags,
                ST_BINARYFLAG_EXTRA_SIZE_FIELD,
            ) ==> head.data_size == Some(selector as usize)
            &&& has_flag(flags, ST_BINARYFLAG_HAS_VALUE) && has_flag(
                flags,
                ST_BINARYFLAG_EXTRA_SIZE_FIELD,
            ) ==> {
                &&& selector == 1 || selector == 2 || selector == 4
                &&& selector == 1 ==> head.data_size == Some(bytes[size_at] as usize)
                &&& selector == 2 ==> head.data_size == Some(spec_u16_be(bytes, size_at) as usize)
                &&& selector == 4 ==> head.data_size == Some(spec_u32_be(bytes, size_at) as usize)
            }
            &&& has_flag(flags, ST_BINARYFLAG_HAS_VALUE) ==> {
                &&& head.data->Some_0 == bytes.subrange(
                    size_at + size_field_width(flags),
                    size_at + size_field_width(flags) + head.data_size->Some_0,
                )
                &&& end == size_at + size_field_width(flags) + head.data_size->Some_0
            }
            &&& !has_flag(flags, ST_BINARYFLAG_HAS_VALUE) ==> end == size_at
            &&& end <= bytes.len()
        }),
{
}

/// The specialisation id belongs to streams of version 2 alone: where the
/// head of an element parses in a stream of version 2, the same bytes parse
/// in a stream of any other version, give the same fields but for the
/// specialisation id, which is not read, and end sixteen bytes earlier. The
/// value, where there is one, has the same size and starts sixteen bytes
/// earlier. This is so for every element whose value size does not stand in
/// a field of its own: such a field would be read from other bytes.
pub proof fn lemma_version_gates_specialization(bytes: Seq<u8>, other_version: u32, pos: int)
    requires
        0 <= pos < bytes.len(),
        other_version != 2,
        !(has_flag(bytes[pos], ST_BINARYFLAG_HAS_VALUE) && has_flag(
            bytes[pos],
            ST_BINARYFLAG_EXTRA_SIZE_FIELD,
        )),
        parse_head(bytes, 2, pos) is Ok,
    ensures
        parse_head(bytes, other_version, pos) is Ok,
        ({
            let two = parse_head(bytes, 2, pos)->Ok_0;
            let other = parse_head(bytes, other_version, pos)->Ok_0;
            &&& two.1 == other.1 + 16
            &&& two.0.specialization == Some(
                spec_u128_be(bytes, pos + value_offset(bytes[pos], other_version)),
            )
            &&& other.0.specialization is None
            &&& other.0.flags == two.0.flags
            &&& other.0.name_crc == two.0.name_crc
            &&& other.0.version == two.0.version
            &&& other.0.id == two.0.id
            &&& other.0.data_size == two.0.data_size
            &&& other.0.data is Some == two.0.data is Some
            &&& other.0.data is Some ==> other.0.data->Some_0 == bytes.subrange(
                pos + value_offset(bytes[pos], other_version),
                other.1,
            )
        }),
        forall|flags: u8| #[trigger]
            value_offset(flags, 2) == value_offset(flags, other_version) + 16,
{
    lemma_fields_follow_flags(bytes, 2, pos);
    let flags = bytes[pos];
    let after_name = parse_name(bytes, pos)->Ok_0.1;
    let at_id = parse_version(bytes, flags, after_name)->Ok_0.1;
    assert(parse_specialization(bytes, other_version, at_id + 16) == Ok::<
        (Option<u128>, int),
        Error,
    >((None, at_id + 16)));
    assert(parse_size(bytes, flags, at_id + 16) is Ok);
    lemma_fields_follow_flags(bytes, other_version, pos);
}

/// What a part of a head is in a buffer that is cut at `cut`: the same
/// where the part ends before the cut, and else the error of a buffer that
/// ends too early.
pub open spec fn cut_off<T>(r: Result<(T, int), Error>, cut: int) -> Result<(T, int), Error> {
    match r {
        Ok((v, end)) => if end <= cut {
            Ok((v, end))
        } else {
            Err(Error::UnexpectedEof)
        },
        Err(e) => Err(e),
    }
}

/// A `u32` before the cut is the same in the buffer that is cut.
proof fn lemma_u32_before_cut(bytes: Seq<u8>, at: int, cut: int)
    requires
        0 <= at,
        at + 4 <= cut <= bytes.len(),
    ensures
        spec_u32_be(bytes.subrange(0, cut), at) == spec_u32_be(bytes, at),
{
    let short = bytes.subrange(0, cut);
    assert(short[at] == bytes[at] && short[at + 1] == bytes[at + 1] && short[at + 2] == bytes[at
        + 2] && short[at + 3] == bytes[at + 3]);
}

/// An id before the cut is the same in the buffer that is cut.
proof fn lemma_u128_before_cut(bytes: Seq<u8>, at: int, cut: int)
    requires
        0 <= at,
        at + 16 <= cut <= bytes.len(),
    ensures
        spec_u128_be(bytes.subrange(0, cut), at) == spec_u128_be(bytes, at),
{
    lemma_u32_before_cut(bytes, at, cut);
    lemma_u32_before_cut(bytes, at + 4, cut);
    lemma_u32_before_cut(bytes, at + 8, cut);
    lemma_u32_before_cut(bytes, at + 12, cut);
}

/// The hash of the field name in a buffer that is cut.
proof fn lemma_name_of_prefix(bytes: Seq<u8>, pos: int, cut: int)
    requires
        0 <= pos < cut <= bytes.len(),
        parse_name(bytes, pos) is Ok,
    ensures
        parse_name(bytes.subrange(0, cut), pos) == cut_off(parse_name(bytes, pos), cut),
{
    let short = bytes.subrange(0, cut);
    assert(short[pos] == bytes[pos]);
    if has_flag(bytes[pos], ST_BINARYFLAG_HAS_NAME) && pos + 5 <= cut {
        lemma_u32_before_cut(bytes, pos + 1, cut);
    }
}

/// The version byte in a buffer that is cut.
proof fn lemma_version_of_prefix(bytes: Seq<u8>, flags: u8, at: int, cut: int)
    requires
        0 <= at <= cut <= bytes.len(),
        parse_version(bytes, flags, at) is Ok,
    ensures
        parse_version(bytes.subrange(0, cut), flags, at) == cut_off(
            parse_version(bytes, flags, at),
            cut,
        ),
{
    let short = bytes.subrange(0, cut);
    if has_flag(flags, ST_BINARYFLAG_HAS_VERSION) && at + 1 <= cut {
        assert(short[at] == bytes[at]);
    }
}

/// The specialisation id in a buffer that is cut.
proof fn lemma_specialization_of_prefix(bytes: Seq<u8>, stream_version: u32, at: int, cut: int)
    requires
        0 <= at <= cut <= bytes.len(),
        parse_specialization(bytes, stream_version, at) is Ok,
    ensures
        parse_specialization(bytes.subrange(0, cut), stream_version, at) == cut_off(
            parse_specialization(bytes, stream_version, at),
            cut,
        ),
{
    if stream_version == 2 && at + 16 <= cut {
        lemma_u128_before_cut(bytes, at, cut);
    }
}

/// The size of the value in a buffer that is cut.
proof fn lemma_size_of_prefix(bytes: Seq<u8>, flags: u8, at: int, cut: int)
    requires
        0 <= at <= cut <= bytes.len(),
        parse_size(bytes, flags, at) is Ok,
    ensures
        parse_size(bytes.subrange(0, cut), flags, at) == cut_off(parse_size(bytes, flags, at), cut),
{
    let short = bytes.subrange(0, cut);
    let selector = flags & ST_BINARY_VALUE_SIZE_MASK;
    if has_flag(flags, ST_BINARYFLAG_HAS_VALUE) && has_flag(flags, ST_BINARYFLAG_EXTRA_SIZE_FIELD) {
        if selector == 1 && at + 1 <= cut {
            assert(short[at] == bytes[at]);
        } else if selector == 2 && at + 2 <= cut {
            assert(short[at] == bytes[at] && short[at + 1] == bytes[at + 1]);
        } else if selector == 4 && at + 4 <= cut {
            lemma_u32_before_cut(bytes, at, cut);
        }
    }
}

/// The value in a buffer that is cut.
proof fn lemma_data_of_prefix(bytes: Seq<u8>, size: Option<usize>, at: int, cut: int)
    requires
        0 <= at <= cut <= bytes.len(),
        parse_data(bytes, size, at) is Ok,
    ensures
        parse_data(bytes.subrange(0, cut), size, at) == cut_off(parse_data(bytes, size, at), cut),
{
    let short = bytes.subrange(0, cut);
    match size {
        Some(n) => {
            if at + n <= cut {
                assert(short.subrange(at, at + n) =~= bytes.subrange(at, at + n));
            }
        },
        None => {},
    }
}

/// The head of an element in a buffer that is cut at `cut`: the same head
/// where the head ends before the cut, and else the error of a buffer that
/// ends too early.
pub proof fn lemma_head_of_prefix(bytes: Seq<u8>, stream_version: u32, pos: int, cut: int)
    requires
        0 <= pos < cut <= bytes.len(),
        parse_head(bytes, stream_version, pos) is Ok,
    ensures
        parse_head(bytes.subrange(0, cut), stream_version, pos) == cut_off(
            parse_head(bytes, stream_version, pos),
            cut,
        ),
{
    let short = bytes.subrange(0, cut);
    let flags = bytes[pos];
    assert(short[pos] == flags);
    lemma_name_of_prefix(bytes, pos, cut);
    let after_name = parse_name(bytes, pos)->Ok_0.1;
    if after_name <= cut {
        lemma_version_of_prefix(bytes, flags, after_name, cut);
        let at_id = parse_version(bytes, flags, after_name)->Ok_0.1;
        if at_id + 16 <= cut {
            lemma_u128_before_cut(bytes, at_id, cut);
            lemma_specialization_of_prefix(bytes, stream_version, at_id + 16, cut);
            let at_size = parse_specialization(bytes, stream_version, at_id + 16)->Ok_0.1;
            if at_size <= cut {
                lemma_size_of_prefix(bytes, flags, at_size, cut);
                let size = parse_size(bytes, flags, at_size)->Ok_0.0;
                let at_data = parse_size(bytes, flags, at_size)->Ok_0.1;
                if at_data <= cut {
                    lemma_data_of_prefix(bytes, size, at_data, cut);
                }
            }
        }
    }
}

/// A list of elements in a buffer that is cut at `cut`: the same list where
/// the list ends before the cut, and else the error of a buffer that ends
/// too early.
pub proof fn lemma_elements_of_prefix(
    bytes: Seq<u8>,
    stream_version: u32,
    names: Names,
    pos: int,
    cut: int,
)
    requires
        0 <= pos,
        0 <= cut <= bytes.len(),
        parse_elements(bytes, stream_version, names, pos) is Ok,
    ensures
        parse_elements(bytes.subrange(0, cut), stream_version, names, pos) == cut_off(
            parse_elements(bytes, stream_version, names, pos),
            cut,
        ),
    decreases bytes.len() - pos,
{
    let short = bytes.subrange(0, cut);
    lemma_elements_advance(bytes, stream_version, names, pos);
    if pos < cut {
        assert(short[pos] == bytes[pos]);
        if bytes[pos] != ST_BINARYFLAG_ELEMENT_END {
            lemma_head_advances(bytes, stream_version, pos);
            lemma_head_of_prefix(bytes, stream_version, pos, cut);
            let p = parse_head(bytes, stream_version, pos)->Ok_0.1;
            lemma_elements_advance(bytes, stream_version, names, p);
            let q = parse_elements(bytes, stream_version, names, p)->Ok_0.1;
            lemma_elements_advance(bytes, stream_version, names, q);
            if p <= cut {
                lemma_elements_of_prefix(bytes, stream_version, names, p, cut);
                if q <= cut {
                    lemma_elements_of_prefix(bytes, stream_version, names, q, cut);
                }
            }
        }
    }
}

/// A stream that is cut short does not decode: every buffer that holds less
/// than the whole of a stream that decodes gives the error of a buffer that
/// ends too early, whatever the place of the cut.
pub proof fn lemma_truncated_stream_fails(bytes: Seq<u8>, names: Names, cut: int)
    requires
        parse_stream(bytes, names) is Ok,
        0 <= cut < parse_stream(bytes, names)->Ok_0.1,
    ensures
        parse_stream(bytes.subrange(0, cut), names) == Err::<(StreamModel, int), Error>(
            Error::UnexpectedEof,
        ),
{
    let short = bytes.subrange(0, cut);
    let version = spec_u32_be(bytes, 1);
    lemma_elements_advance(bytes, version, names, 5);
    if cut >= 1 {
        assert(short[0] == bytes[0]);
    }
    if cut >= 5 {
        assert(spec_u32_be(short, 1) == version);
        lemma_elements_of_prefix(bytes, version, names, 5, cut);
    }
}

/// An element without the names that a table gave it and its descendants.
pub open spec fn unnamed(e: ElementModel) -> ElementModel
    decreases e,
{
    ElementModel {
        name: Seq::empty(),
        field: None,
        elements: Seq::new(
            e.elements.len(),
            |i: int|
                if 0 <= i < e.elements.len() {
                    unnamed(e.elements[i])
                } else {
                    arbitrary()
                },
        ),
        ..e
    }
}

/// A list of elements without the names that a table gave them.
pub open spec fn all_unnamed(elements: Seq<ElementModel>) -> Seq<ElementModel> {
    Seq::new(elements.len(), |i: int| unnamed(elements[i]))
}

/// What a list decodes to without its names.
pub open spec fn without_names(r: Result<(Seq<ElementModel>, int), Error>) -> Result<
    (Seq<ElementModel>, int),
    Error,
> {
    match r {
        Ok((elements, end)) => Ok((all_unnamed(elements), end)),
        Err(e) => Err(e),
    }
}

/// The table of names changes the names and nothing else: what a list
/// decodes to with a table is, but for the names, what it decodes to
/// without one; it ends at the same place, or fails with the same error.
pub proof fn lemma_names_change_names_only(
    bytes: Seq<u8>,
    stream_version: u32,
    names: Names,
    pos: int,
)
    ensures
        without_names(parse_elements(bytes, stream_version, names, pos)) == parse_elements(
            bytes,
            stream_version,
            no_names(),
            pos,
        ),
    decreases bytes.len() - pos,
{
    if 0 <= pos < bytes.len() && bytes[pos] != ST_BINARYFLAG_ELEMENT_END {
        match parse_head(bytes, stream_version, pos) {
            Err(_) => {},
            Ok((head, p)) => {
                if p > pos {
                    lemma_names_change_names_only(bytes, stream_version, names, p);
                    match parse_elements(bytes, stream_version, names, p) {
                        Err(_) => {},
                        Ok((children, q)) => {
                            let bare_children = parse_elements(
                                bytes,
                                stream_version,
                                no_names(),
                                p,
                            )->Ok_0.0;
                            if q > pos && q <= bytes.len() {
                                lemma_names_change_names_only(bytes, stream_version, names, q);
                                match parse_elements(bytes, stream_version, names, q) {
                                    Err(_) => {},
                                    Ok((rest, r)) => {
                                        let bare_rest = parse_elements(
                                            bytes,
                                            stream_version,
                                            no_names(),
                                            q,
                                        )->Ok_0.0;
                                        let first = element_of(head, names, children);
                                        let bare = element_of(head, no_names(), bare_children);
                                        assert(unnamed(first).elements =~= bare.elements);
                                        assert(unnamed(first) == bare);
                                        assert(all_unnamed(seq![first] + rest) =~= seq![bare]
                                            + bare_rest);
                                    },
                                }
                            }
                        },
                    }
                }
            },
        }
    } else if 0 <= pos < bytes.len() {
        assert(all_unnamed(Seq::<ElementModel>::empty()) =~= Seq::<ElementModel>::empty());
    }
}

} // verus!
