//! The optional symbol table that gives names to field hashes and type ids.

use std::collections::HashMap;
use vstd::prelude::*;

verus! {

/// Names known for field hashes and for type ids.
pub struct LumberyardSource {
    /// Type id to type name.
    pub uuids: HashMap<u128, String>,
    /// CRC32 of the lower-case field name to field name.
    pub crcs: HashMap<u32, String>,
}

/// What a symbol table holds, as maps of texts.
pub struct Names {
    pub uuids: Map<u128, Seq<char>>,
    pub crcs: Map<u32, Seq<char>>,
}

impl View for LumberyardSource {
    type V = Names;

    open spec fn view(&self) -> Names {
        Names {
            uuids: self.uuids@.map_values(|s: String| s@),
            crcs: self.crcs@.map_values(|s: String| s@),
        }
    }
}

/// The table without any name.
pub open spec fn no_names() -> Names {
    Names { uuids: Map::empty(), crcs: Map::empty() }
}

/// The names that an optional table offers: none when it is absent.
pub open spec fn names_of(hashes: Option<&LumberyardSource>) -> Names {
    match hashes {
        Some(source) => source@,
        None => no_names(),
    }
}

impl Names {
    /// The field name for `crc`, if the table knows one.
    pub open spec fn field(self, crc: u32) -> Option<Seq<char>> {
        if self.crcs.contains_key(crc) {
            Some(self.crcs[crc])
        } else {
            None
        }
    }

    /// The type name for `id`; empty when the table knows none.
    pub open spec fn class(self, id: u128) -> Seq<char> {
        if self.uuids.contains_key(id) {
            self.uuids[id]
        } else {
            Seq::empty()
        }
    }
}

impl LumberyardSource {
    /// A table without any name.
    pub fn new() -> (r: Self)
        ensures
            r@ == no_names(),
    {
        let r = LumberyardSource { uuids: HashMap::new(), crcs: HashMap::new() };
        assert(r@.uuids =~= Map::empty());
        assert(r@.crcs =~= Map::empty());
        r
    }

    /// The field name recorded for `crc`.
    pub fn field_name(&self, crc: u32) -> (r: Option<String>)
        ensures
            r.is_some() == self@.field(crc).is_some(),
            r.is_some() ==> r.unwrap()@ == self@.field(crc).unwrap(),
    {
        match self.crcs.get(&crc) {
            Some(name) => Some(name.clone()),
            None => None,
        }
    }

    /// The type name recorded for `id`.
    pub fn class_name(&self, id: u128) -> (r: Option<String>)
        ensures
            r.is_some() == self@.uuids.contains_key(id),
            r.is_some() ==> r.unwrap()@ == self@.class(id),
    {
        match self.uuids.get(&id) {
            Some(name) => Some(name.clone()),
            None => None,
        }
    }
}

/// The field name that an optional table gives for `crc`.
pub fn resolve_field(hashes: Option<&LumberyardSource>, crc: u32) -> (r: Option<String>)
    ensures
        r.is_some() == names_of(hashes).field(crc).is_some(),
        r.is_some() ==> r.unwrap()@ == names_of(hashes).field(crc).unwrap(),
{
    match hashes {
        Some(source) => source.field_name(crc),
        None => None,
    }
}

/// The type name that an optional table gives for `id`, empty if it has none.
pub fn resolve_type(hashes: Option<&LumberyardSource>, id: u128) -> (r: String)
    ensures
        r@ == names_of(hashes).class(id),
{
    match hashes {
        Some(source) => match source.class_name(id) {
            Some(name) => name,
            None => String::new(),
        },
        None => String::new(),
    }
}

} // verus!
