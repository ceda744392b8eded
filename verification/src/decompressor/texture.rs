//! The order in which the parts of a texture are joined.
//!
//! A texture is split over several files: the file itself and, beside it,
//! files of the same name with one more extension. The parts are put in
//! order before they are joined: those that end in `.a` first, and among the
//! others, and among these, by the natural order of their names.

use crate::utils::text::{ends_with, spec_ends_with};
use std::cmp::Ordering;
use vstd::prelude::*;
use vstd::seq_lib::to_multiset_insert;

verus! {

/// How one name stands to another.
#[derive(Debug, Clone, Copy, PartialEq, Eq, Structural)]
pub enum Order {
    Less,
    Equal,
    Greater,
}

/// How the natural order, in which a run of digits counts as a number,
/// compares two names.
pub uninterp spec fn natural_order(left: Seq<char>, right: Seq<char>) -> Order;

/// Compares two names by the natural order.
///
/// Trusted: this is `natord::compare`, which depends on the two texts alone.
#[verifier::external_body]
fn natural_compare(left: &str, right: &str) -> (r: Order)
    ensures
        r == natural_order(left@, right@),
{
    match natord::compare(left, right) {
        Ordering::Less => Order::Less,
        Ordering::Equal => Order::Equal,
        Ordering::Greater => Order::Greater,
    }
}

/// Whether the part `a` is put before the part `b`: a part that ends in
/// `.a` before one that does not; else the one that the natural order puts
/// first.
pub open spec fn comes_before(a: Seq<char>, b: Seq<char>) -> bool {
    let a_first = spec_ends_with(a, ".a"@);
    let b_first = spec_ends_with(b, ".a"@);
    if a_first && !b_first {
        true
    } else if !a_first && b_first {
        false
    } else {
        natural_order(a, b) == Order::Less
    }
}

/// Whether no two neighbours of a list stand the wrong way round: of two
/// neighbours, the first is put before the second, or the second is not put
/// before the first.
pub open spec fn in_order(names: Seq<Seq<char>>) -> bool {
    forall|i: int|
        0 <= i < names.len() - 1 ==> comes_before(#[trigger] names[i], names[i + 1])
            || !comes_before(names[i + 1], names[i])
}

/// The texts that a list of names holds.
pub open spec fn texts(names: Seq<String>) -> Seq<Seq<char>> {
    Seq::new(names.len(), |i: int| names[i]@)
}

/// Tells whether the part `a` is put before the part `b`.
pub fn is_before(a: &str, b: &str) -> (r: bool)
    ensures
        r == comes_before(a@, b@),
{
    let a_first = ends_with(a, ".a");
    let b_first = ends_with(b, ".a");
    if a_first && !b_first {
        true
    } else if !a_first && b_first {
        false
    } else {
        match natural_compare(a, b) {
            Order::Less => true,
            _ => false,
        }
    }
}

/// A list stays in order where a name is put in before the first name that
/// it is put before.
proof fn lemma_insert_keeps_order(names: Seq<Seq<char>>, at: int, name: Seq<char>)
    requires
        in_order(names),
        0 <= at <= names.len(),
        forall|j: int| 0 <= j < at ==> !comes_before(name, #[trigger] names[j]),
        at < names.len() ==> comes_before(name, names[at]),
    ensures
        in_order(names.insert(at, name)),
{
    let after = names.insert(at, name);
    assert forall|i: int| 0 <= i < after.len() - 1 implies comes_before(
        #[trigger] after[i],
        after[i + 1],
    ) || !comes_before(after[i + 1], after[i]) by {
        if i + 1 < at {
            assert(after[i] == names[i] && after[i + 1] == names[i + 1]);
        } else if i + 1 == at {
            assert(after[i] == names[i] && after[i + 1] == name);
        } else if i == at {
            assert(after[i] == name && after[i + 1] == names[at]);
        } else {
            assert(after[i] == names[i - 1] && after[i + 1] == names[i]);
        }
    }
}

/// Puts the names of the parts of a texture in the order in which the parts
/// are joined. The names that come back are those that were given, and no
/// two neighbours among them stand the wrong way round.
pub fn sort_parts(names: &Vec<String>) -> (r: Vec<String>)
    ensures
        texts(r@).to_multiset() == texts(names@).to_multiset(),
        in_order(texts(r@)),
{
    let mut out: Vec<String> = Vec::new();
    let mut i: usize = 0;
    proof {
        assert(texts(names@).subrange(0, 0) =~= Seq::<Seq<char>>::empty());
        assert(texts(out@) =~= Seq::<Seq<char>>::empty());
    }
    while i < names.len()
        invariant
            i <= names@.len(),
            texts(out@).to_multiset() == texts(names@).subrange(0, i as int).to_multiset(),
            in_order(texts(out@)),
        decreases names@.len() - i,
    {
        let name = names[i].clone();
        let mut at: usize = 0;
        while at < out.len() && !is_before(name.as_str(), out[at].as_str())
            invariant
                at <= out@.len(),
                forall|j: int| 0 <= j < at ==> !comes_before(name@, #[trigger] texts(out@)[j]),
            decreases out@.len() - at,
        {
            at += 1;
        }
        proof {
            let before = texts(out@);
            lemma_insert_keeps_order(before, at as int, name@);
            to_multiset_insert(before, at as int, name@);
            let done = texts(names@).subrange(0, i as int);
            let next = texts(names@).subrange(0, i + 1);
            assert(next =~= done.push(name@));
            vstd::seq_lib::to_multiset_build(done, name@);
            assert(texts(out@.insert(at as int, name)) =~= before.insert(at as int, name@));
        }
        out.insert(at, name);
        i += 1;
    }
    proof {
        assert(texts(names@).subrange(0, i as int) =~= texts(names@));
    }
    out
}

/// The names of the parts of a texture in the order in which the parts are
/// joined, and in the opposite order where `flat` is set.
pub fn order_parts(names: &Vec<String>, flat: bool) -> (r: Vec<String>)
    ensures
        texts(r@).to_multiset() == texts(names@).to_multiset(),
        flat ==> in_order(texts(r@).reverse()),
        !flat ==> in_order(texts(r@)),
{
    let sorted = sort_parts(names);
    if !flat {
        return sorted;
    }
    let mut out: Vec<String> = Vec::new();
    let mut i: usize = sorted.len();
    while i > 0
        invariant
            i <= sorted@.len(),
            out@.len() == sorted@.len() - i,
            forall|k: int| 0 <= k < out@.len() ==> (#[trigger] out@[k])@ == sorted@[sorted@.len() - 1 - k]@,
        decreases i,
    {
        i -= 1;
        out.push(sorted[i].clone());
    }
    proof {
        assert(texts(out@) =~= texts(sorted@).reverse());
        assert(texts(out@).reverse() =~= texts(sorted@));
        texts(sorted@).lemma_reverse_to_multiset();
    }
    out
}

} // verus!
