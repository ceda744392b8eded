//! Finding the first element that a caller asks for.

use crate::object_stream::{Element, ObjectStream};
use vstd::prelude::*;

verus! {

/// An element and all its descendants, each before its children and the
/// children in their order.
pub open spec fn preorder(element: Element) -> Seq<Element>
    decreases element, element.elements@.len() + 1,
{
    seq![element] + preorder_from(element, 0)
}

/// The descendants of an element from its child `from` on, in the same order.
pub open spec fn preorder_from(element: Element, from: int) -> Seq<Element>
    decreases element, element.elements@.len() - from,
{
    if 0 <= from < element.elements@.len() {
        preorder(element.elements@[from]) + preorder_from(element, from + 1)
    } else {
        Seq::empty()
    }
}

/// The elements of a list and all their descendants, from the element `from` on.
pub open spec fn preorder_of(elements: Seq<Element>, from: int) -> Seq<Element>
    decreases elements.len() - from,
{
    if 0 <= from < elements.len() {
        preorder(elements[from]) + preorder_of(elements, from + 1)
    } else {
        Seq::empty()
    }
}

/// Whether `query` may answer `answer` when it is asked about `element`.
pub open spec fn answers<F: Fn(&Element) -> bool>(query: &F, element: Element, answer: bool) -> bool {
    query.ensures((&element,), answer)
}

/// Whether `query` said no to all of `candidates`.
pub open spec fn all_refused<F: Fn(&Element) -> bool>(candidates: Seq<Element>, query: &F) -> bool {
    forall|j: int| 0 <= j < candidates.len() ==> answers(query, #[trigger] candidates[j], false)
}

/// Whether `found` is the first of `candidates` that `query` accepts: it is
/// one of them, `query` said yes to it, and said no to all before it;
/// `None` where `query` said no to all.
pub open spec fn is_first_match<F: Fn(&Element) -> bool>(
    candidates: Seq<Element>,
    query: &F,
    found: Option<&Element>,
) -> bool {
    match found {
        Some(e) => exists|k: int|
            0 <= k < candidates.len() && #[trigger] candidates[k] == *e && answers(
                query,
                candidates[k],
                true,
            ) && all_refused(candidates.subrange(0, k), query),
        None => all_refused(candidates, query),
    }
}

/// Where all of `front` were refused and `found` is the first match of
/// `middle`, it is the first match of the three lists in a row.
proof fn lemma_first_match_behind<F: Fn(&Element) -> bool>(
    front: Seq<Element>,
    middle: Seq<Element>,
    back: Seq<Element>,
    query: &F,
    found: &Element,
)
    requires
        all_refused(front, query),
        is_first_match(middle, query, Some(found)),
    ensures
        is_first_match(front + middle + back, query, Some(found)),
{
    let k = choose|k: int|
        0 <= k < middle.len() && #[trigger] middle[k] == *found && answers(query, middle[k], true)
            && all_refused(middle.subrange(0, k), query);
    let all = front + middle + back;
    let at = front.len() + k;
    assert(all[at] == middle[k]);
    assert forall|j: int| 0 <= j < at implies answers(
        query,
        #[trigger] all.subrange(0, at)[j],
        false,
    ) by {
        if j < front.len() {
            assert(all[j] == front[j]);
        } else {
            assert(all[j] == middle.subrange(0, k)[j - front.len()]);
        }
    }
}

/// Two lists that were refused are refused in a row.
proof fn lemma_refused_both<F: Fn(&Element) -> bool>(
    front: Seq<Element>,
    back: Seq<Element>,
    query: &F,
)
    requires
        all_refused(front, query),
        all_refused(back, query),
    ensures
        all_refused(front + back, query),
{
    assert forall|j: int| 0 <= j < (front + back).len() implies answers(
        query,
        #[trigger] (front + back)[j],
        false,
    ) by {
        if j < front.len() {
            assert((front + back)[j] == front[j]);
        } else {
            assert((front + back)[j] == back[j - front.len()]);
        }
    }
}

impl Element {
    /// The first element that `query` accepts, among this element and its
    /// descendants: each element is asked before its children, and the
    /// children in their order.
    pub fn query_elements<F: Fn(&Element) -> bool>(&self, query: &F) -> (r: Option<&Element>)
        requires
            forall|e: &Element| #[trigger] query.requires((e,)),
        ensures
            is_first_match(preorder(*self), query, r),
        decreases self,
    {
        if query(self) {
            proof {
                assert(preorder(*self)[0] == *self);
                assert(preorder(*self).subrange(0, 0) =~= Seq::<Element>::empty());
            }
            return Some(self);
        }
        let ghost mut done: Seq<Element> = seq![*self];
        let mut i: usize = 0;
        proof {
            assert(preorder(*self) =~= done + preorder_from(*self, 0));
        }
        while i < self.elements.len()
            invariant
                i <= self.elements@.len(),
                forall|e: &Element| #[trigger] query.requires((e,)),
                preorder(*self) == done + preorder_from(*self, i as int),
                all_refused(done, query),
            decreases self.elements@.len() - i,
        {
            let ghost sub = preorder(self.elements@[i as int]);
            let ghost rest = preorder_from(*self, i + 1);
            proof {
                assert(preorder(*self) =~= done + sub + rest);
            }
            match self.elements[i].query_elements(query) {
                Some(found) => {
                    proof {
                        lemma_first_match_behind(done, sub, rest, query, found);
                    }
                    return Some(found);
                },
                None => {
                    proof {
                        lemma_refused_both(done, sub, query);
                        done = done + sub;
                    }
                },
            }
            i += 1;
        }
        proof {
            assert(preorder(*self) =~= done);
        }
        None
    }
}

impl ObjectStream {
    /// The first element of the stream that `query` accepts: each element is
    /// asked before its children, and the children in their order.
    pub fn query_elements<F: Fn(&Element) -> bool>(&self, query: F) -> (r: Option<&Element>)
        requires
            forall|e: &Element| #[trigger] query.requires((e,)),
        ensures
            is_first_match(preorder_of(self.elements@, 0), &query, r),
    {
        let ghost all = preorder_of(self.elements@, 0);
        let ghost mut done: Seq<Element> = Seq::empty();
        let mut i: usize = 0;
        proof {
            assert(all =~= done + preorder_of(self.elements@, 0));
        }
        while i < self.elements.len()
            invariant
                i <= self.elements@.len(),
                forall|e: &Element| #[trigger] query.requires((e,)),
                all == preorder_of(self.elements@, 0),
                all == done + preorder_of(self.elements@, i as int),
                all_refused(done, &query),
            decreases self.elements@.len() - i,
        {
            let ghost sub = preorder(self.elements@[i as int]);
            let ghost rest = preorder_of(self.elements@, i + 1);
            proof {
                assert(all =~= done + sub + rest);
            }
            match self.elements[i].query_elements(&query) {
                Some(found) => {
                    proof {
                        lemma_first_match_behind(done, sub, rest, &query, found);
                    }
                    return Some(found);
                },
                None => {
                    proof {
                        lemma_refused_both(done, sub, &query);
                        done = done + sub;
                    }
                },
            }
            i += 1;
        }
        proof {
            assert(all =~= done);
        }
        None
    }
}

} // verus!
