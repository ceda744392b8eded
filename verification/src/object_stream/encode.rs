//! Encoding a binary object stream.

use crate::bytes::{
    spec_u128_be_bytes, spec_u16_be_bytes, spec_u32_be_bytes, write_bytes, write_u128_be,
    write_u16_be, write_u32_be,
};
use crate::object_stream::{
    bytes_of, has_flag, lemma_view_elements, models, Element, ElementModel, ObjectStream,
    StreamModel, BINARY_STREAM_TAG, ST_BINARYFLAG_ELEMENT_END, ST_BINARYFLAG_EXTRA_SIZE_FIELD,
    ST_BINARYFLAG_HAS_VALUE, ST_BINARY_VALUE_SIZE_MASK,
};
use vstd::prelude::*;

verus! {

/// The bytes of the size field that `flags` call for: the low bytes of
/// `data_size`, as many as the selector says, most significant first; nothing
/// unless the flags announce a value with a size field of width 1, 2 or 4.
pub open spec fn encode_size(flags: u8, data_size: Option<usize>) -> Seq<u8> {
    let selector = flags & ST_BINARY_VALUE_SIZE_MASK;
    if has_flag(flags, ST_BINARYFLAG_HAS_VALUE) && has_flag(flags, ST_BINARYFLAG_EXTRA_SIZE_FIELD) {
        match data_size {
            Some(size) => if selector == 1 {
                seq![(size as int % 0x100) as u8]
            } else if selector == 2 {
                spec_u16_be_bytes((size as int % 0x1_0000) as u16)
            } else if selector == 4 {
                spec_u32_be_bytes((size as int % 0x1_0000_0000) as u32)
            } else {
                Seq::empty()
            },
            None => Seq::empty(),
        }
    } else {
        Seq::empty()
    }
}

/// The four bytes of a `u32` that is present, most significant first.
pub open spec fn encode_optional_u32(v: Option<u32>) -> Seq<u8> {
    match v {
        Some(v) => spec_u32_be_bytes(v),
        None => Seq::empty(),
    }
}

/// The byte that is present.
pub open spec fn encode_optional_u8(v: Option<u8>) -> Seq<u8> {
    match v {
        Some(v) => seq![v],
        None => Seq::empty(),
    }
}

/// The sixteen bytes of an id that is present, most significant first.
pub open spec fn encode_optional_u128(v: Option<u128>) -> Seq<u8> {
    match v {
        Some(v) => spec_u128_be_bytes(v),
        None => Seq::empty(),
    }
}

/// The bytes of a value that is present.
pub open spec fn encode_optional_bytes(v: Option<Seq<u8>>) -> Seq<u8> {
    match v {
        Some(v) => v,
        None => Seq::empty(),
    }
}

/// The bytes of an element up to its children: the flags byte as it is, each
/// field that is present, and the value.
pub open spec fn encode_head(e: ElementModel) -> Seq<u8> {
    seq![e.flags] + encode_optional_u32(e.name_crc) + encode_optional_u8(e.version)
        + spec_u128_be_bytes(e.id) + encode_optional_u128(e.specialization) + encode_size(
        e.flags,
        e.data_size,
    ) + encode_optional_bytes(e.data)
}

/// The bytes of an element: its head, its children, and the zero byte that
/// closes them.
pub open spec fn encode_element(e: ElementModel) -> Seq<u8>
    decreases e,
{
    encode_head(e) + encode_elements(e.elements) + seq![ST_BINARYFLAG_ELEMENT_END]
}

/// The bytes of the elements of a list, one after the other.
pub open spec fn encode_elements(elements: Seq<ElementModel>) -> Seq<u8>
    decreases elements,
{
    if elements.len() == 0 {
        Seq::empty()
    } else {
        encode_elements(elements.drop_last()) + encode_element(elements.last())
    }
}

/// The bytes of a stream: the binary tag, the version, the elements, and
/// the zero byte that closes them.
pub open spec fn encode_stream(stream: StreamModel) -> Seq<u8> {
    seq![BINARY_STREAM_TAG] + spec_u32_be_bytes(stream.version) + encode_elements(stream.elements)
        + seq![ST_BINARYFLAG_ELEMENT_END]
}

/// The bytes of a list are those of its first element and then those of the rest.
pub proof fn lemma_encode_first(first: ElementModel, rest: Seq<ElementModel>)
    ensures
        encode_elements(seq![first] + rest) == encode_element(first) + encode_elements(rest),
    decreases rest.len(),
{
    let all = seq![first] + rest;
    if rest.len() == 0 {
        assert(all.drop_last() =~= Seq::<ElementModel>::empty());
        assert(all.last() == first);
        assert(encode_elements(all.drop_last()) =~= Seq::<u8>::empty());
        assert(encode_elements(all) =~= encode_element(first) + encode_elements(rest));
    } else {
        assert(all.drop_last() =~= seq![first] + rest.drop_last());
        assert(all.last() == rest.last());
        lemma_encode_first(first, rest.drop_last());
        assert(encode_elements(all) =~= encode_element(first) + encode_elements(rest));
    }
}

/// The bytes of a list grown by one element are those of the list and then
/// those of the element.
pub proof fn lemma_encode_push(elements: Seq<ElementModel>, last: ElementModel)
    ensures
        encode_elements(elements.push(last)) == encode_elements(elements) + encode_element(last),
{
    assert(elements.push(last).drop_last() =~= elements);
}

/// Appends the size field that `flags` call for.
fn write_size(writer: &mut Vec<u8>, flags: u8, data_size: Option<usize>)
    ensures
        final(writer)@ == old(writer)@ + encode_size(flags, data_size),
{
    if flags & ST_BINARYFLAG_HAS_VALUE != 0 {
        let selector = flags & ST_BINARY_VALUE_SIZE_MASK;
        if flags & ST_BINARYFLAG_EXTRA_SIZE_FIELD != 0 {
            match data_size {
                Some(size) => {
                    if selector == 1 {
                        writer.push((size % 0x100) as u8);
                    } else if selector == 2 {
                        write_u16_be(writer, (size % 0x1_0000) as u16);
                    } else if selector == 4 {
                        write_u32_be(writer, (size as u64 % 0x1_0000_0000) as u32);
                    }
                },
                None => {},
            }
        }
    }
    assert(writer@ =~= old(writer)@ + encode_size(flags, data_size));
}

/// Appends a `u32` that is present.
fn write_optional_u32(writer: &mut Vec<u8>, v: Option<u32>)
    ensures
        final(writer)@ == old(writer)@ + encode_optional_u32(v),
{
    match v {
        Some(v) => write_u32_be(writer, v),
        None => {},
    }
    assert(writer@ =~= old(writer)@ + encode_optional_u32(v));
}

/// Appends a byte that is present.
fn write_optional_u8(writer: &mut Vec<u8>, v: Option<u8>)
    ensures
        final(writer)@ == old(writer)@ + encode_optional_u8(v),
{
    match v {
        Some(v) => writer.push(v),
        None => {},
    }
    assert(writer@ =~= old(writer)@ + encode_optional_u8(v));
}

/// Appends an id that is present.
fn write_optional_u128(writer: &mut Vec<u8>, v: Option<u128>)
    ensures
        final(writer)@ == old(writer)@ + encode_optional_u128(v),
{
    match v {
        Some(v) => write_u128_be(writer, v),
        None => {},
    }
    assert(writer@ =~= old(writer)@ + encode_optional_u128(v));
}

/// Appends a value that is present.
fn write_optional_bytes(writer: &mut Vec<u8>, v: &Option<Vec<u8>>)
    ensures
        final(writer)@ == old(writer)@ + encode_optional_bytes(bytes_of(*v)),
{
    match v {
        Some(v) => write_bytes(writer, v.as_slice()),
        None => {},
    }
    assert(writer@ =~= old(writer)@ + encode_optional_bytes(bytes_of(*v)));
}

/// Appending in two steps is appending the whole.
pub proof fn lemma_append_twice(a: Seq<u8>, b: Seq<u8>, c: Seq<u8>)
    ensures
        (a + b) + c == a + (b + c),
{
    assert((a + b) + c =~= a + (b + c));
}

impl Element {
    /// Appends the bytes of this element up to its children.
    fn write_head(&self, writer: &mut Vec<u8>)
        ensures
            final(writer)@ == old(writer)@ + encode_head(self@),
    {
        let ghost start = writer@;
        let ghost h1 = seq![self.flags];
        let ghost h2 = h1 + encode_optional_u32(self.name_crc);
        let ghost h3 = h2 + encode_optional_u8(self.version);
        let ghost h4 = h3 + spec_u128_be_bytes(self.id);
        let ghost h5 = h4 + encode_optional_u128(self.specialization);
        let ghost h6 = h5 + encode_size(self.flags, self.data_size);
        writer.push(self.flags);
        assert(writer@ == start + h1);
        write_optional_u32(writer, self.name_crc);
        proof {
            lemma_append_twice(start, h1, encode_optional_u32(self.name_crc));
        }
        write_optional_u8(writer, self.version);
        proof {
            lemma_append_twice(start, h2, encode_optional_u8(self.version));
        }
        write_u128_be(writer, self.id);
        proof {
            lemma_append_twice(start, h3, spec_u128_be_bytes(self.id));
        }
        write_optional_u128(writer, self.specialization);
        proof {
            lemma_append_twice(start, h4, encode_optional_u128(self.specialization));
        }
        write_size(writer, self.flags, self.data_size);
        proof {
            lemma_append_twice(start, h5, encode_size(self.flags, self.data_size));
        }
        write_optional_bytes(writer, &self.data);
        proof {
            lemma_append_twice(start, h6, encode_optional_bytes(bytes_of(self.data)));
        }
    }

    /// Appends the bytes of this element and of all its descendants.
    pub fn to_writer(&self, writer: &mut Vec<u8>)
        ensures
            final(writer)@ == old(writer)@ + encode_element(self@),
        decreases self,
    {
        let ghost start = writer@;
        self.write_head(writer);
        proof {
            lemma_view_elements(*self);
        }
        let mut i: usize = 0;
        while i < self.elements.len()
            invariant
                i <= self.elements@.len(),
                writer@ == start + encode_head(self@) + encode_elements(
                    models(self.elements@).subrange(0, i as int),
                ),
            decreases self.elements@.len() - i,
        {
            let ghost done = models(self.elements@).subrange(0, i as int);
            self.elements[i].to_writer(writer);
            proof {
                lemma_encode_push(done, self.elements@[i as int]@);
                assert(models(self.elements@).subrange(0, i + 1) =~= done.push(
                    self.elements@[i as int]@,
                ));
            }
            i += 1;
        }
        proof {
            assert(models(self.elements@).subrange(0, i as int) =~= models(self.elements@));
        }
        writer.push(ST_BINARYFLAG_ELEMENT_END);
        proof {
            assert(writer@ =~= start + encode_element(self@));
        }
    }
}

impl ObjectStream {
    /// Appends the bytes of this stream. The tag written is the binary one,
    /// and every element is written with the flags byte it holds.
    pub fn to_writer(&self, writer: &mut Vec<u8>)
        ensures
            final(writer)@ == old(writer)@ + encode_stream(self@),
    {
        let ghost start = writer@;
        writer.push(BINARY_STREAM_TAG);
        write_u32_be(writer, self.version);
        let ghost head = writer@;
        let mut i: usize = 0;
        while i < self.elements.len()
            invariant
                i <= self.elements@.len(),
                writer@ == head + encode_elements(models(self.elements@).subrange(0, i as int)),
            decreases self.elements@.len() - i,
        {
            let ghost done = models(self.elements@).subrange(0, i as int);
            self.elements[i].to_writer(writer);
            proof {
                lemma_encode_push(done, self.elements@[i as int]@);
                assert(models(self.elements@).subrange(0, i + 1) =~= done.push(
                    self.elements@[i as int]@,
                ));
            }
            i += 1;
        }
        proof {
            assert(models(self.elements@).subrange(0, i as int) =~= models(self.elements@));
        }
        writer.push(ST_BINARYFLAG_ELEMENT_END);
        proof {
            assert(writer@ =~= start + encode_stream(self@));
        }
    }
}

} // verus!
