//! Decoding a binary object stream.

use crate::bytes::{read_bytes, read_u128_be, read_u16_be, read_u32_be, read_u8};
use crate::error::Error;
use crate::object_stream::{
    bytes_of, element_of, lemma_elements_advance, lemma_head_advances, lemma_view_elements,
    models, parse_data, parse_element, parse_elements, parse_head, parse_name, parse_size,
    parse_specialization, parse_stream, parse_version, prepend, Element, ElementModel, HeadModel,
    ObjectStream, StreamModel, StreamTag, BINARY_STREAM_TAG, ST_BINARYFLAG_ELEMENT_END,
    ST_BINARYFLAG_EXTRA_SIZE_FIELD, ST_BINARYFLAG_HAS_NAME, ST_BINARYFLAG_HAS_VALUE,
    ST_BINARYFLAG_HAS_VERSION, ST_BINARY_VALUE_SIZE_MASK,
};
use crate::object_stream::shape::{
    all_follow_flags, follows_flags, lemma_decoded_element_follows_flags,
    lemma_decoded_stream_follows_flags,
};
use crate::utils::lumberyard::{names_of, resolve_field, resolve_type, LumberyardSource, Names};
use vstd::prelude::*;

verus! {

/// The head of an element as the decoder holds it before the children are read.
struct Head {
    flags: u8,
    name_crc: Option<u32>,
    version: Option<u8>,
    id: u128,
    specialization: Option<u128>,
    data_size: Option<usize>,
    data: Option<Vec<u8>>,
}

impl View for Head {
    type V = HeadModel;

    closed spec fn view(&self) -> HeadModel {
        HeadModel {
            flags: self.flags,
            name_crc: self.name_crc,
            version: self.version,
            id: self.id,
            specialization: self.specialization,
            data_size: self.data_size,
            data: bytes_of(self.data),
        }
    }
}

/// Reads the field-name hash of the element whose flags byte stands at `pos`.
fn read_name(data: &[u8], pos: usize) -> (r: Result<(Option<u32>, usize), Error>)
    requires
        pos < data@.len(),
    ensures
        match r {
            Ok((v, p)) => parse_name(data@, pos as int) == Ok::<(Option<u32>, int), Error>(
                (v, p as int),
            ) && pos < p <= data@.len(),
            Err(e) => parse_name(data@, pos as int) == Err::<(Option<u32>, int), Error>(e),
        },
{
    assert(pos < data.len());
    if data[pos] & ST_BINARYFLAG_HAS_NAME != 0 {
        match read_u32_be(data, pos + 1) {
            Some(crc) => Ok((Some(crc), pos + 5)),
            None => Err(Error::UnexpectedEof),
        }
    } else {
        Ok((None, pos + 1))
    }
}

/// Reads the version byte that `flags` announce at `pos`.
fn read_version(data: &[u8], flags: u8, pos: usize) -> (r: Result<(Option<u8>, usize), Error>)
    requires
        pos <= data@.len(),
    ensures
        match r {
            Ok((v, p)) => parse_version(data@, flags, pos as int) == Ok::<(Option<u8>, int), Error>(
                (v, p as int),
            ) && pos <= p <= data@.len(),
            Err(e) => parse_version(data@, flags, pos as int) == Err::<(Option<u8>, int), Error>(e),
        },
{
    if flags & ST_BINARYFLAG_HAS_VERSION != 0 {
        match read_u8(data, pos) {
            Some(v) => {
                assert(pos < data.len());
                Ok((Some(v), pos + 1))
            },
            None => Err(Error::UnexpectedEof),
        }
    } else {
        Ok((None, pos))
    }
}

/// Reads the specialisation id at `pos`, in a stream of version 2.
fn read_specialization(data: &[u8], stream_version: u32, pos: usize) -> (r: Result<
    (Option<u128>, usize),
    Error,
>)
    requires
        pos <= data@.len(),
    ensures
        match r {
            Ok((v, p)) => parse_specialization(data@, stream_version, pos as int) == Ok::<
                (Option<u128>, int),
                Error,
            >((v, p as int)) && pos <= p <= data@.len(),
            Err(e) => parse_specialization(data@, stream_version, pos as int) == Err::<
                (Option<u128>, int),
                Error,
            >(e),
        },
{
    if stream_version == 2 {
        match read_u128_be(data, pos) {
            Some(id) => {
                assert(pos + 16 <= data.len());
                Ok((Some(id), pos + 16))
            },
            None => Err(Error::UnexpectedEof),
        }
    } else {
        Ok((None, pos))
    }
}

/// Reads the value size that `flags` announce, at `pos` where it stands in
/// a field of its own.
fn read_size(data: &[u8], flags: u8, pos: usize) -> (r: Result<(Option<usize>, usize), Error>)
    requires
        pos <= data@.len(),
    ensures
        match r {
            Ok((v, p)) => parse_size(data@, flags, pos as int) == Ok::<(Option<usize>, int), Error>(
                (v, p as int),
            ) && pos <= p <= data@.len(),
            Err(e) => parse_size(data@, flags, pos as int) == Err::<(Option<usize>, int), Error>(e),
        },
{
    let selector = flags & ST_BINARY_VALUE_SIZE_MASK;
    assert(pos <= data.len());
    if flags & ST_BINARYFLAG_HAS_VALUE == 0 {
        Ok((None, pos))
    } else if flags & ST_BINARYFLAG_EXTRA_SIZE_FIELD == 0 {
        Ok((Some(selector as usize), pos))
    } else if selector == 1 {
        match read_u8(data, pos) {
            Some(n) => Ok((Some(n as usize), pos + 1)),
            None => Err(Error::UnexpectedEof),
        }
    } else if selector == 2 {
        match read_u16_be(data, pos) {
            Some(n) => Ok((Some(n as usize), pos + 2)),
            None => Err(Error::UnexpectedEof),
        }
    } else if selector == 4 {
        match read_u32_be(data, pos) {
            Some(n) => Ok((Some(n as usize), pos + 4)),
            None => Err(Error::UnexpectedEof),
        }
    } else {
        Err(Error::UnsupportedDataSize(selector))
    }
}

/// Reads the value of `size` bytes at `pos`, where a size was announced.
fn read_data(data: &[u8], size: Option<usize>, pos: usize) -> (r: Result<
    (Option<Vec<u8>>, usize),
    Error,
>)
    requires
        pos <= data@.len(),
    ensures
        match r {
            Ok((v, p)) => parse_data(data@, size, pos as int) == Ok::<
                (Option<Seq<u8>>, int),
                Error,
            >((bytes_of(v), p as int)) && pos <= p <= data@.len(),
            Err(e) => parse_data(data@, size, pos as int) == Err::<(Option<Seq<u8>>, int), Error>(
                e,
            ),
        },
{
    match size {
        Some(n) => match read_bytes(data, pos, n) {
            Some(v) => {
                assert(pos + n <= data.len());
                Ok((Some(v), pos + n))
            },
            None => Err(Error::UnexpectedEof),
        },
        None => Ok((None, pos)),
    }
}

/// Reads the fields of the element whose flags byte stands at `pos`.
fn read_head(data: &[u8], stream_version: u32, pos: usize) -> (r: Result<(Head, usize), Error>)
    requires
        pos < data@.len(),
    ensures
        match r {
            Ok((head, p)) => parse_head(data@, stream_version, pos as int) == Ok::<
                (HeadModel, int),
                Error,
            >((head@, p as int)) && pos < p <= data@.len(),
            Err(e) => parse_head(data@, stream_version, pos as int) == Err::<
                (HeadModel, int),
                Error,
            >(e),
        },
{
    assert(pos < data.len());
    let flags = data[pos];
    let (name_crc, after_name) = match read_name(data, pos) {
        Ok(r) => r,
        Err(e) => {
            return Err(e);
        },
    };
    let (version, at_id) = match read_version(data, flags, after_name) {
        Ok(r) => r,
        Err(e) => {
            return Err(e);
        },
    };
    let id = match read_u128_be(data, at_id) {
        Some(id) => id,
        None => {
            return Err(Error::UnexpectedEof);
        },
    };
    let (specialization, at_size) = match read_specialization(data, stream_version, at_id + 16) {
        Ok(r) => r,
        Err(e) => {
            return Err(e);
        },
    };
    let (data_size, at_data) = match read_size(data, flags, at_size) {
        Ok(r) => r,
        Err(e) => {
            return Err(e);
        },
    };
    let (value, after_data) = match read_data(data, data_size, at_data) {
        Ok(r) => r,
        Err(e) => {
            return Err(e);
        },
    };
    Ok((Head { flags, name_crc, version, id, specialization, data_size, data: value }, after_data))
}

/// Reads what stands at `pos`: the byte that ends a list, or one element
/// with all its descendants. The position that is returned is the one
/// behind what was read. An element that is read follows its flags, and so
/// do its descendants.
pub fn read_element(
    data: &[u8],
    stream_version: u32,
    hashes: Option<&LumberyardSource>,
    pos: usize,
) -> (r: Result<(Option<Element>, usize), Error>)
    ensures
        match r {
            Ok((Some(element), end)) => {
                &&& pos < data@.len()
                &&& data@[pos as int] != ST_BINARYFLAG_ELEMENT_END
                &&& parse_element(data@, stream_version, names_of(hashes), pos as int) == Ok::<
                    (ElementModel, int),
                    Error,
                >((element@, end as int))
                &&& pos < end <= data@.len()
                &&& follows_flags(element@, stream_version)
            },
            Ok((None, end)) => {
                &&& pos < data@.len()
                &&& data@[pos as int] == ST_BINARYFLAG_ELEMENT_END
                &&& end == pos + 1
            },
            Err(e) => if pos < data@.len() {
                &&& data@[pos as int] != ST_BINARYFLAG_ELEMENT_END
                &&& parse_element(data@, stream_version, names_of(hashes), pos as int) == Err::<
                    (ElementModel, int),
                    Error,
                >(e)
            } else {
                e == Error::UnexpectedEof
            },
        },
    decreases data@.len() - pos, 0int,
{
    let flags = match read_u8(data, pos) {
        Some(flags) => flags,
        None => {
            return Err(Error::UnexpectedEof);
        },
    };
    assert(pos < data.len());
    if flags == ST_BINARYFLAG_ELEMENT_END {
        return Ok((None, pos + 1));
    }
    let (head, p) = match read_head(data, stream_version, pos) {
        Ok(r) => r,
        Err(e) => {
            return Err(e);
        },
    };
    let (children, end) = match read_elements(data, stream_version, hashes, p) {
        Ok(r) => r,
        Err(e) => {
            return Err(e);
        },
    };
    let field = match head.name_crc {
        Some(crc) => resolve_field(hashes, crc),
        None => None,
    };
    let name = resolve_type(hashes, head.id);
    let element = Element {
        flags: head.flags,
        name_crc: head.name_crc,
        version: head.version,
        id: head.id,
        specialization: head.specialization,
        name,
        data_size: head.data_size,
        data: head.data,
        elements: children,
        field,
    };
    proof {
        lemma_view_elements(element);
        assert(element@ == element_of(head@, names_of(hashes), models(children@)));
        lemma_decoded_element_follows_flags(data@, stream_version, names_of(hashes), pos as int);
    }
    Ok((Some(element), end))
}

/// Reads elements from `pos` up to the byte that ends their list.
fn read_elements(
    data: &[u8],
    stream_version: u32,
    hashes: Option<&LumberyardSource>,
    pos: usize,
) -> (r: Result<(Vec<Element>, usize), Error>)
    ensures
        match r {
            Ok((elements, end)) => parse_elements(
                data@,
                stream_version,
                names_of(hashes),
                pos as int,
            ) == Ok::<(Seq<ElementModel>, int), Error>((models(elements@), end as int)) && pos
                < end <= data@.len(),
            Err(e) => parse_elements(data@, stream_version, names_of(hashes), pos as int) == Err::<
                (Seq<ElementModel>, int),
                Error,
            >(e),
        },
    decreases data@.len() - pos, 1int,
{
    let ghost names = names_of(hashes);
    if pos >= data.len() {
        return Err(Error::UnexpectedEof);
    }
    let mut elements: Vec<Element> = Vec::new();
    let mut cur: usize = pos;
    proof {
        assert(models(elements@) =~= Seq::<ElementModel>::empty());
        lemma_prepend_nothing(parse_elements(data@, stream_version, names, pos as int));
    }
    loop
        invariant
            names == names_of(hashes),
            pos <= cur <= data@.len(),
            pos < cur || elements@.len() == 0,
            parse_elements(data@, stream_version, names, pos as int) == prepend(
                models(elements@),
                parse_elements(data@, stream_version, names, cur as int),
            ),
        decreases data@.len() - cur,
    {
        let ghost before = models(elements@);
        match read_element(data, stream_version, hashes, cur) {
            Err(e) => {
                proof {
                    if cur < data@.len() {
                        lemma_head_then_children(data@, stream_version, names, cur as int);
                    }
                }
                return Err(e);
            },
            Ok((None, end)) => {
                proof {
                    assert(before + Seq::<ElementModel>::empty() =~= before);
                }
                return Ok((elements, end));
            },
            Ok((Some(element), end)) => {
                proof {
                    lemma_head_then_children(data@, stream_version, names, cur as int);
                    lemma_prepend_one(
                        before,
                        element@,
                        parse_elements(data@, stream_version, names, end as int),
                    );
                }
                elements.push(element);
                proof {
                    assert(models(elements@) =~= before + seq![element@]);
                }
                cur = end;
            },
        }
    }
}

/// Putting nothing before a result leaves it as it is.
proof fn lemma_prepend_nothing(r: Result<(Seq<ElementModel>, int), Error>)
    ensures
        prepend(Seq::empty(), r) == r,
{
    match r {
        Ok((rest, end)) => {
            assert(Seq::<ElementModel>::empty() + rest =~= rest);
        },
        Err(_) => {},
    }
}

/// Putting `front` and then `one` before a result is putting both at once.
proof fn lemma_prepend_one(
    front: Seq<ElementModel>,
    one: ElementModel,
    r: Result<(Seq<ElementModel>, int), Error>,
)
    ensures
        prepend(front, prepend(seq![one], r)) == prepend(front + seq![one], r),
{
    match r {
        Ok((rest, end)) => {
            assert(front + (seq![one] + rest) =~= (front + seq![one]) + rest);
        },
        Err(_) => {},
    }
}

/// A list that does not end at `pos` is the element at `pos` followed by the
/// list behind it.
pub proof fn lemma_head_then_children(bytes: Seq<u8>, stream_version: u32, names: Names, pos: int)
    requires
        0 <= pos < bytes.len(),
        bytes[pos] != ST_BINARYFLAG_ELEMENT_END,
    ensures
        parse_elements(bytes, stream_version, names, pos) == (match parse_element(
            bytes,
            stream_version,
            names,
            pos,
        ) {
            Err(e) => Err(e),
            Ok((first, end)) => prepend(
                seq![first],
                parse_elements(bytes, stream_version, names, end),
            ),
        }),
{
    if parse_head(bytes, stream_version, pos) is Ok {
        lemma_head_advances(bytes, stream_version, pos);
        let p = parse_head(bytes, stream_version, pos)->Ok_0.1;
        if parse_elements(bytes, stream_version, names, p) is Ok {
            lemma_elements_advance(bytes, stream_version, names, p);
        }
    }
}

/// Decodes the stream that `data` starts with, and tells where it ends.
pub fn read_stream(data: &[u8], hashes: Option<&LumberyardSource>) -> (r: Result<
    (ObjectStream, usize),
    Error,
>)
    ensures
        match r {
            Ok((stream, end)) => parse_stream(data@, names_of(hashes)) == Ok::<
                (StreamModel, int),
                Error,
            >((stream@, end as int)) && 5 < end <= data@.len() && all_follow_flags(
                stream@.elements,
                stream@.version,
            ),
            Err(e) => parse_stream(data@, names_of(hashes)) == Err::<(StreamModel, int), Error>(e),
        },
{
    proof {
        if parse_stream(data@, names_of(hashes)) is Ok {
            lemma_decoded_stream_follows_flags(data@, names_of(hashes));
        }
    }
    let tag = match read_u8(data, 0) {
        Some(tag) => tag,
        None => {
            return Err(Error::UnexpectedEof);
        },
    };
    if tag != BINARY_STREAM_TAG {
        return Err(Error::InvalidObjectStream);
    }
    let version = match read_u32_be(data, 1) {
        Some(version) => version,
        None => {
            return Err(Error::UnexpectedEof);
        },
    };
    match read_elements(data, version, hashes, 5) {
        Ok((elements, end)) => Ok(
            (ObjectStream { tag: StreamTag(BINARY_STREAM_TAG), version, elements }, end),
        ),
        Err(e) => Err(e),
    }
}

/// Whether `r` is what decoding `bytes` with the names `names` gives: the
/// stream that the bytes start with, or the error that stops the decoder.
pub open spec fn decodes_to(bytes: Seq<u8>, names: Names, r: Result<ObjectStream, Error>) -> bool {
    match r {
        Ok(stream) => parse_stream(bytes, names) is Ok && parse_stream(bytes, names)->Ok_0.0
            == stream@,
        Err(e) => parse_stream(bytes, names) == Err::<(StreamModel, int), Error>(e),
    }
}

/// Decodes a binary object stream. Bytes behind the end of the stream are
/// not looked at. The table of names, where there is one, fills in the names
/// of fields and types and changes nothing else. Every element of the
/// stream follows its flags, at every depth: none has the flags byte zero,
/// and each holds what its flags announce.
pub fn from_reader(reader: &[u8], hashes: Option<&LumberyardSource>) -> (r: Result<
    ObjectStream,
    Error,
>)
    ensures
        decodes_to(reader@, names_of(hashes), r),
        r is Ok ==> all_follow_flags(r->Ok_0@.elements, r->Ok_0@.version),
{
    match read_stream(reader, hashes) {
        Ok((stream, _)) => Ok(stream),
        Err(e) => Err(e),
    }
}

} // verus!
