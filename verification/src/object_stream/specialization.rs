//! The specialisation id, which streams of version 2 hold and no others:
//! what a stream of version 2 and the same stream in another version have
//! in common.

use crate::bytes::{spec_u128_be_bytes, spec_u32_be_bytes};
use crate::error::Error;
use crate::object_stream::built::lemma_stream_decodes;
use crate::object_stream::encode::{
    encode_element, encode_elements, encode_head, encode_optional_bytes, encode_optional_u128,
    encode_optional_u32, encode_optional_u8, encode_size, encode_stream,
};
use crate::object_stream::laws::{all_unnamed, lemma_decode_then_encode, unnamed};
use crate::object_stream::shape::{
    all_follow_flags, follows_flags, head_follows_flags, lemma_decoded_stream_follows_flags,
};
use crate::object_stream::{parse_stream, ElementModel, StreamModel, BINARY_STREAM_TAG};
use crate::utils::lumberyard::{no_names, Names};
use vstd::prelude::*;

verus! {

/// An element without its specialisation id and without those of its
/// descendants.
pub open spec fn unspecialized(e: ElementModel) -> ElementModel
    decreases e,
{
    ElementModel {
        specialization: None,
        elements: Seq::new(
            e.elements.len(),
            |i: int|
                if 0 <= i < e.elements.len() {
                    unspecialized(e.elements[i])
                } else {
                    arbitrary()
                },
        ),
        ..e
    }
}

/// A list of elements without their specialisation ids.
pub open spec fn all_unspecialized(elements: Seq<ElementModel>) -> Seq<ElementModel> {
    Seq::new(elements.len(), |i: int| unspecialized(elements[i]))
}

/// Whether an element and all its descendants hold a specialisation id.
pub open spec fn is_specialized(e: ElementModel) -> bool
    decreases e,
{
    e.specialization is Some && forall|i: int|
        0 <= i < e.elements.len() ==> is_specialized(#[trigger] e.elements[i])
}

/// Whether all elements of a list, at every depth, hold a specialisation id.
pub open spec fn all_specialized(elements: Seq<ElementModel>) -> bool {
    forall|i: int| 0 <= i < elements.len() ==> is_specialized(#[trigger] elements[i])
}

/// The number of elements of a tree: the element and all its descendants.
pub open spec fn count(e: ElementModel) -> nat
    decreases e,
{
    1 + count_all(e.elements)
}

/// The number of elements of a list, at every depth.
pub open spec fn count_all(elements: Seq<ElementModel>) -> nat
    decreases elements,
{
    if elements.len() == 0 {
        0
    } else {
        count_all(elements.drop_last()) + count(elements.last())
    }
}

/// The bytes of a head before the place of the specialisation id: the
/// flags, the hash of the field name, the version and the type id.
pub open spec fn head_front(e: ElementModel) -> Seq<u8> {
    seq![e.flags] + encode_optional_u32(e.name_crc) + encode_optional_u8(e.version)
        + spec_u128_be_bytes(e.id)
}

/// The bytes of a head behind the place of the specialisation id: the size
/// field and the value.
pub open spec fn head_back(e: ElementModel) -> Seq<u8> {
    encode_size(e.flags, e.data_size) + encode_optional_bytes(e.data)
}

/// The sixteen bytes of the specialisation id stand directly behind the
/// type id: the head of an element that holds one is the head of the
/// element without it, with the sixteen bytes of the id put in behind the
/// type id.
pub proof fn lemma_specialization_stands_behind_the_id(e: ElementModel)
    requires
        e.specialization is Some,
    ensures
        encode_head(e) == head_front(e) + spec_u128_be_bytes(e.specialization->Some_0) + head_back(
            e,
        ),
        encode_head(unspecialized(e)) == head_front(e) + head_back(e),
        spec_u128_be_bytes(e.specialization->Some_0).len() == 16,
        encode_head(e).len() == encode_head(unspecialized(e)).len() + 16,
{
    let id = spec_u128_be_bytes(e.specialization->Some_0);
    assert(encode_head(e) =~= head_front(e) + id + head_back(e));
    assert(encode_optional_u128(unspecialized(e).specialization) =~= Seq::<u8>::empty());
    assert(encode_head(unspecialized(e)) =~= head_front(e) + head_back(e));
}

/// An element that holds specialisation ids at every depth, and follows its
/// flags in a stream of another version once they are taken away, follows
/// its flags in a stream of version 2; and the other way round.
pub proof fn lemma_version_two_follows_flags(e: ElementModel, other_version: u32)
    requires
        other_version != 2,
    ensures
        follows_flags(e, 2) == (is_specialized(e) && follows_flags(
            unspecialized(e),
            other_version,
        )),
    decreases e,
{
    let bare = unspecialized(e);
    assert(head_follows_flags(e, 2) == (e.specialization is Some && head_follows_flags(
        bare,
        other_version,
    )));
    assert forall|i: int| 0 <= i < e.elements.len() implies follows_flags(
        #[trigger] e.elements[i],
        2,
    ) == (is_specialized(e.elements[i]) && follows_flags(bare.elements[i], other_version)) by {
        lemma_version_two_follows_flags(e.elements[i], other_version);
    }
    if follows_flags(e, 2) {
        assert forall|i: int| 0 <= i < e.elements.len() implies is_specialized(
            #[trigger] e.elements[i],
        ) by {
            assert(follows_flags(e.elements[i], 2));
        }
        assert forall|i: int| 0 <= i < bare.elements.len() implies follows_flags(
            #[trigger] bare.elements[i],
            other_version,
        ) by {
            assert(follows_flags(e.elements[i], 2));
        }
    }
    if is_specialized(e) && follows_flags(bare, other_version) {
        assert forall|i: int| 0 <= i < e.elements.len() implies follows_flags(
            #[trigger] e.elements[i],
            2,
        ) by {
            assert(is_specialized(e.elements[i]));
            assert(follows_flags(bare.elements[i], other_version));
        }
    }
}

/// The same of a list of elements.
pub proof fn lemma_version_two_list_follows_flags(elements: Seq<ElementModel>, other_version: u32)
    requires
        other_version != 2,
    ensures
        all_follow_flags(elements, 2) == (all_specialized(elements) && all_follow_flags(
            all_unspecialized(elements),
            other_version,
        )),
{
    let bare = all_unspecialized(elements);
    assert forall|i: int| 0 <= i < elements.len() implies follows_flags(#[trigger] elements[i], 2)
        == (is_specialized(elements[i]) && follows_flags(bare[i], other_version)) by {
        lemma_version_two_follows_flags(elements[i], other_version);
    }
    if all_follow_flags(elements, 2) {
        assert forall|i: int| 0 <= i < elements.len() implies is_specialized(
            #[trigger] elements[i],
        ) by {
            assert(follows_flags(elements[i], 2));
        }
        assert forall|i: int| 0 <= i < bare.len() implies follows_flags(
            #[trigger] bare[i],
            other_version,
        ) by {
            assert(follows_flags(elements[i], 2));
        }
    }
    if all_specialized(elements) && all_follow_flags(bare, other_version) {
        assert forall|i: int| 0 <= i < elements.len() implies follows_flags(
            #[trigger] elements[i],
            2,
        ) by {
            assert(is_specialized(elements[i]));
            assert(follows_flags(bare[i], other_version));
        }
    }
}

/// The bytes of an element that holds specialisation ids at every depth
/// are sixteen more for each element of its tree than the bytes of the
/// element without them.
pub proof fn lemma_sixteen_bytes_each(e: ElementModel)
    requires
        is_specialized(e),
    ensures
        encode_element(e).len() == encode_element(unspecialized(e)).len() + 16 * count(e),
    decreases e, 1int,
{
    lemma_specialization_stands_behind_the_id(e);
    assert forall|i: int| 0 <= i < e.elements.len() implies is_specialized(
        #[trigger] e.elements[i],
    ) by {}
    lemma_sixteen_bytes_each_of(e.elements);
    assert(unspecialized(e).elements =~= all_unspecialized(e.elements));
}

/// The same of a list of elements.
pub proof fn lemma_sixteen_bytes_each_of(elements: Seq<ElementModel>)
    requires
        all_specialized(elements),
    ensures
        encode_elements(elements).len() == encode_elements(all_unspecialized(elements)).len() + 16
            * count_all(elements),
    decreases elements, 0int,
{
    if elements.len() > 0 {
        let front = elements.drop_last();
        assert forall|i: int| 0 <= i < front.len() implies is_specialized(#[trigger] front[i]) by {
            assert(front[i] == elements[i]);
        }
        assert(is_specialized(elements.last()));
        lemma_sixteen_bytes_each_of(front);
        lemma_sixteen_bytes_each(elements.last());
        let bare = all_unspecialized(elements);
        assert(bare.drop_last() =~= all_unspecialized(front));
        assert(bare.last() == unspecialized(elements.last()));
        assert(16 * (count_all(front) + count(elements.last())) == 16 * count_all(front) + 16
            * count(elements.last())) by (nonlinear_arith);
    } else {
        assert(all_unspecialized(elements) =~= elements);
    }
}

/// Taking the names away and taking the specialisation ids away can be
/// done in either order.
pub proof fn lemma_unnamed_unspecialized(e: ElementModel)
    ensures
        unnamed(unspecialized(e)) == unspecialized(unnamed(e)),
    decreases e,
{
    let a = unnamed(unspecialized(e));
    let b = unspecialized(unnamed(e));
    assert forall|i: int| 0 <= i < e.elements.len() implies a.elements[i] == b.elements[i] by {
        lemma_unnamed_unspecialized(e.elements[i]);
    }
    assert(a.elements =~= b.elements);
}

/// The specialisation id is what a stream of version 2 has more than the
/// same stream in another version, and sixteen bytes after every type id
/// are all that its bytes have more. Where the elements of a stream of
/// another version follow their flags, as those of every decoded stream
/// do, and `two` are the same elements with a specialisation id in each:
/// the bytes of `two` as a stream of version 2 decode to `two`; the bytes
/// of the elements without the ids as a stream of the other version decode
/// to the elements without the ids; the two trees are the same but for the
/// ids; and the first bytes are sixteen more for each element of the tree.
pub proof fn lemma_version_two_adds_specialization(two: Seq<ElementModel>, other_version: u32)
    requires
        other_version != 2,
        all_specialized(two),
        all_follow_flags(all_unspecialized(two), other_version),
    ensures
        ({
            let with = StreamModel { tag: BINARY_STREAM_TAG, version: 2, elements: two };
            let without = StreamModel {
                tag: BINARY_STREAM_TAG,
                version: other_version,
                elements: all_unspecialized(two),
            };
            &&& parse_stream(encode_stream(with), no_names()) == Ok::<(StreamModel, int), Error>(
                (
                    StreamModel { elements: all_unnamed(two), ..with },
                    encode_stream(with).len() as int,
                ),
            )
            &&& parse_stream(encode_stream(without), no_names()) == Ok::<(StreamModel, int), Error>(
                (
                    StreamModel { elements: all_unspecialized(all_unnamed(two)), ..without },
                    encode_stream(without).len() as int,
                ),
            )
            &&& encode_stream(with).len() == encode_stream(without).len() + 16 * count_all(two)
        }),
{
    let with = StreamModel { tag: BINARY_STREAM_TAG, version: 2, elements: two };
    let without = StreamModel {
        tag: BINARY_STREAM_TAG,
        version: other_version,
        elements: all_unspecialized(two),
    };
    lemma_version_two_list_follows_flags(two, other_version);
    lemma_stream_decodes(with);
    lemma_stream_decodes(without);
    lemma_sixteen_bytes_each_of(two);
    assert forall|i: int| 0 <= i < two.len() implies all_unnamed(all_unspecialized(two))[i]
        == all_unspecialized(all_unnamed(two))[i] by {
        lemma_unnamed_unspecialized(two[i]);
    }
    assert(all_unnamed(all_unspecialized(two)) =~= all_unspecialized(all_unnamed(two)));
    assert(spec_u32_be_bytes(2).len() == spec_u32_be_bytes(other_version).len());
}

/// A stream of version 1 or 3 that is decoded, with sixteen bytes put in
/// behind every type id and the version 2, decodes to the same tree with a
/// specialisation id in every element. Where `bytes` decode as a stream of
/// a version that is not 2, and `two` are the decoded elements with any
/// specialisation id in each: the bytes of `two` as a stream of version 2
/// are sixteen more for each element than the bytes that were decoded, and
/// decode to `two`.
pub proof fn lemma_decoded_stream_takes_specialization(
    bytes: Seq<u8>,
    names: Names,
    two: Seq<ElementModel>,
)
    requires
        parse_stream(bytes, names) is Ok,
        parse_stream(bytes, names)->Ok_0.0.version != 2,
        all_specialized(two),
        all_unspecialized(two) == parse_stream(bytes, names)->Ok_0.0.elements,
    ensures
        ({
            let with = StreamModel { tag: BINARY_STREAM_TAG, version: 2, elements: two };
            &&& parse_stream(encode_stream(with), no_names()) == Ok::<(StreamModel, int), Error>(
                (
                    StreamModel { elements: all_unnamed(two), ..with },
                    encode_stream(with).len() as int,
                ),
            )
            &&& encode_stream(with).len() == parse_stream(bytes, names)->Ok_0.1 + 16 * count_all(
                two,
            )
        }),
{
    let decoded = parse_stream(bytes, names)->Ok_0.0;
    lemma_decoded_stream_follows_flags(bytes, names);
    lemma_decode_then_encode(bytes, names);
    lemma_version_two_adds_specialization(two, decoded.version);
    assert(decoded == (StreamModel {
        tag: BINARY_STREAM_TAG,
        version: decoded.version,
        elements: all_unspecialized(two),
    }));
}

/// A stream of version 2 that is decoded, without the sixteen bytes behind
/// every type id and with another version, decodes to the same tree
/// without the specialisation ids. Where `bytes` decode as a stream of
/// version 2: every decoded element holds a specialisation id, and the
/// bytes of the elements without the ids as a stream of the version
/// `other_version` are sixteen fewer for each element than the bytes that
/// were decoded, and decode to the elements without the ids.
pub proof fn lemma_decoded_stream_loses_specialization(
    bytes: Seq<u8>,
    names: Names,
    other_version: u32,
)
    requires
        parse_stream(bytes, names) is Ok,
        parse_stream(bytes, names)->Ok_0.0.version == 2,
        other_version != 2,
    ensures
        ({
            let two = parse_stream(bytes, names)->Ok_0.0.elements;
            let without = StreamModel {
                tag: BINARY_STREAM_TAG,
                version: other_version,
                elements: all_unspecialized(two),
            };
            &&& all_specialized(two)
            &&& parse_stream(encode_stream(without), no_names()) == Ok::<(StreamModel, int), Error>(
                (
                    StreamModel { elements: all_unspecialized(all_unnamed(two)), ..without },
                    encode_stream(without).len() as int,
                ),
            )
            &&& parse_stream(bytes, names)->Ok_0.1 == encode_stream(without).len() + 16
                * count_all(two)
        }),
{
    let decoded = parse_stream(bytes, names)->Ok_0.0;
    lemma_decoded_stream_follows_flags(bytes, names);
    lemma_decode_then_encode(bytes, names);
    lemma_version_two_list_follows_flags(decoded.elements, other_version);
    lemma_version_two_adds_specialization(decoded.elements, other_version);
    assert(decoded == (StreamModel {
        tag: BINARY_STREAM_TAG,
        version: 2,
        elements: decoded.elements,
    }));
}

} // verus!
