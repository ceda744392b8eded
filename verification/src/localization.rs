//! The texts of the game in one language.

use crate::utils::text::{lowercase_of, to_lowercase};
use vstd::prelude::*;

verus! {

/// One text, with its key and what else the file says of it.
#[derive(Debug, Default)]
pub struct KeyValue {
    pub key: Option<String>,
    pub comment: Option<String>,
    pub rel_version: Option<String>,
    pub speaker: Option<String>,
    pub name: Option<String>,
    pub vo_status: Option<String>,
    pub dialogue_next: Option<String>,
    pub xsi_nil: Option<bool>,
    pub value: Option<String>,
}

/// All the texts of one file.
#[derive(Debug, Default)]
pub struct Localization {
    pub xmlns: Option<String>,
    pub string: Vec<KeyValue>,
}

/// The text that an optional string holds.
pub open spec fn optional_text(s: Option<String>) -> Option<Seq<char>> {
    match s {
        Some(s) => Some(s@),
        None => None,
    }
}

/// The keys and values of the texts that have a key, in their order; the
/// keys in lower case where `lower` is set.
pub open spec fn keyed(items: Seq<KeyValue>, lower: bool) -> Seq<(Seq<char>, Option<Seq<char>>)>
    decreases items.len(),
{
    if items.len() == 0 {
        Seq::empty()
    } else {
        let front = keyed(items.drop_last(), lower);
        match items.last().key {
            Some(key) => front.push(
                (
                    if lower {
                        lowercase_of(key@)
                    } else {
                        key@
                    },
                    optional_text(items.last().value),
                ),
            ),
            None => front,
        }
    }
}

/// What a list of pairs of strings holds.
pub open spec fn pairs_of(pairs: Seq<(String, Option<String>)>) -> Seq<
    (Seq<char>, Option<Seq<char>>),
> {
    Seq::new(pairs.len(), |i: int| (pairs[i].0@, optional_text(pairs[i].1)))
}

impl Localization {
    /// The keys and values of the texts that have a key, in their order;
    /// the keys in lower case where `lower` is set. A map built from them
    /// holds for each key the value that comes last.
    pub fn entries(&self, lower: bool) -> (r: Vec<(String, Option<String>)>)
        ensures
            pairs_of(r@) == keyed(self.string@, lower),
    {
        let mut out: Vec<(String, Option<String>)> = Vec::new();
        let mut i: usize = 0;
        assert(self.string@.subrange(0, 0) =~= Seq::<KeyValue>::empty());
        assert(pairs_of(out@) =~= keyed(self.string@.subrange(0, 0), lower));
        while i < self.string.len()
            invariant
                i <= self.string@.len(),
                pairs_of(out@) == keyed(self.string@.subrange(0, i as int), lower),
            decreases self.string@.len() - i,
        {
            let ghost before = pairs_of(out@);
            let item = &self.string[i];
            proof {
                let next = self.string@.subrange(0, i + 1);
                assert(next.drop_last() =~= self.string@.subrange(0, i as int));
                assert(next.last() == self.string@[i as int]);
            }
            match &item.key {
                Some(key) => {
                    let k = if lower {
                        to_lowercase(key.as_str())
                    } else {
                        key.clone()
                    };
                    let v = match &item.value {
                        Some(v) => Some(v.clone()),
                        None => None,
                    };
                    let ghost pair = (k@, optional_text(v));
                    out.push((k, v));
                    assert(pairs_of(out@) =~= before.push(pair));
                },
                None => {},
            }
            i += 1;
        }
        assert(self.string@.subrange(0, i as int) =~= self.string@);
        out
    }
}

} // verus!
