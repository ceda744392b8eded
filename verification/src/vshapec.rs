//! The shape file: vertices, metadata and four trailing fields.
//!
//! All numbers are little-endian. A coordinate is kept as the bits of the
//! single that the file holds.

use crate::bytes::{spec_u32_le, u32_le_at};
use crate::error::Error;
use vstd::prelude::*;

verus! {

/// A point: the bits of its three coordinates.
#[derive(Debug, Clone, Copy, PartialEq, Eq, Structural)]
pub struct Vector3(pub u32, pub u32, pub u32);

/// A pair of a key and a value.
#[derive(Debug, Clone, Copy, PartialEq, Eq, Structural)]
pub struct MetaData {
    pub key: u32,
    pub value: u32,
}

/// A decoded shape file.
#[derive(Debug)]
pub struct VShapeC {
    pub version: u32,
    pub vertices: Vec<Vector3>,
    pub metadata: Vec<MetaData>,
    pub field: u32,
    pub field2: u32,
    pub flags: [u8; 4],
    pub field3: u32,
}

/// What a [`VShapeC`] holds.
pub struct VShapeModel {
    pub version: u32,
    pub vertices: Seq<Vector3>,
    pub metadata: Seq<MetaData>,
    pub field: u32,
    pub field2: u32,
    pub flags: Seq<u8>,
    pub field3: u32,
}

impl View for VShapeC {
    type V = VShapeModel;

    open spec fn view(&self) -> VShapeModel {
        VShapeModel {
            version: self.version,
            vertices: self.vertices@,
            metadata: self.metadata@,
            field: self.field,
            field2: self.field2,
            flags: self.flags@,
            field3: self.field3,
        }
    }
}

/// The `count` points from `at` on.
pub open spec fn points(bytes: Seq<u8>, at: int, count: nat) -> Seq<Vector3> {
    Seq::new(
        count,
        |i: int|
            Vector3(
                spec_u32_le(bytes, at + 12 * i),
                spec_u32_le(bytes, at + 12 * i + 4),
                spec_u32_le(bytes, at + 12 * i + 8),
            ),
    )
}

/// The `count` pairs from `at` on.
pub open spec fn pairs(bytes: Seq<u8>, at: int, count: nat) -> Seq<MetaData> {
    Seq::new(
        count,
        |i: int|
            MetaData { key: spec_u32_le(bytes, at + 8 * i), value: spec_u32_le(bytes, at + 8 * i + 4) },
    )
}

/// The shape that `bytes` hold: the version, the number of vertices and the
/// vertices, the number of pairs and the pairs, and the four fields.
pub open spec fn parse_vshapec(bytes: Seq<u8>) -> Result<VShapeModel, Error> {
    if bytes.len() < 8 {
        Err(Error::UnexpectedEof)
    } else {
        let vertices = spec_u32_le(bytes, 4) as nat;
        let pairs_at: int = 8 + 12 * (vertices as int);
        if pairs_at + 4 > bytes.len() {
            Err(Error::UnexpectedEof)
        } else {
            let count = spec_u32_le(bytes, pairs_at) as nat;
            let tail: int = pairs_at + 4 + 8 * (count as int);
            if tail + 16 > bytes.len() {
                Err(Error::UnexpectedEof)
            } else {
                Ok(
                    VShapeModel {
                        version: spec_u32_le(bytes, 0),
                        vertices: points(bytes, 8, vertices),
                        metadata: pairs(bytes, pairs_at + 4, count),
                        field: spec_u32_le(bytes, tail),
                        field2: spec_u32_le(bytes, tail + 4),
                        flags: bytes.subrange(tail + 8, tail + 12),
                        field3: spec_u32_le(bytes, tail + 12),
                    },
                )
            }
        }
    }
}

impl VShapeC {
    /// Decodes a shape file.
    pub fn from_reader(reader: &[u8]) -> (r: Result<VShapeC, Error>)
        ensures
            match r {
                Ok(shape) => parse_vshapec(reader@) == Ok::<VShapeModel, Error>(shape@),
                Err(e) => parse_vshapec(reader@) == Err::<VShapeModel, Error>(e),
            },
    {
        if reader.len() < 8 {
            return Err(Error::UnexpectedEof);
        }
        let version = u32_le_at(reader, 0);
        let count = u32_le_at(reader, 4);
        let room: u64 = (reader.len() - 8) as u64;
        if 12 * (count as u64) + 4 > room {
            return Err(Error::UnexpectedEof);
        }
        let pairs_at: usize = 8 + 12 * (count as usize);
        let mut vertices: Vec<Vector3> = Vec::new();
        let mut i: usize = 0;
        while i < count as usize
            invariant
                i <= count,
                8 + 12 * count + 4 <= reader.len(),
                vertices@.len() == i,
                forall|k: int| 0 <= k < i ==> #[trigger] vertices@[k] == points(reader@, 8, count as nat)[k],
            decreases count - i,
        {
            let at = 8 + 12 * i;
            vertices.push(
                Vector3(u32_le_at(reader, at), u32_le_at(reader, at + 4), u32_le_at(reader, at + 8)),
            );
            i += 1;
        }
        assert(vertices@ =~= points(reader@, 8, count as nat));
        let pair_count = u32_le_at(reader, pairs_at);
        let left: u64 = (reader.len() - pairs_at - 4) as u64;
        if 8 * (pair_count as u64) + 16 > left {
            return Err(Error::UnexpectedEof);
        }
        let first: usize = pairs_at + 4;
        let tail: usize = first + 8 * (pair_count as usize);
        let mut metadata: Vec<MetaData> = Vec::new();
        let mut j: usize = 0;
        while j < pair_count as usize
            invariant
                j <= pair_count,
                first + 8 * pair_count + 16 <= reader.len(),
                metadata@.len() == j,
                forall|k: int|
                    0 <= k < j ==> #[trigger] metadata@[k] == pairs(
                        reader@,
                        first as int,
                        pair_count as nat,
                    )[k],
            decreases pair_count - j,
        {
            let at = first + 8 * j;
            metadata.push(MetaData { key: u32_le_at(reader, at), value: u32_le_at(reader, at + 4) });
            j += 1;
        }
        assert(metadata@ =~= pairs(reader@, first as int, pair_count as nat));
        let field = u32_le_at(reader, tail);
        let field2 = u32_le_at(reader, tail + 4);
        let flags = [reader[tail + 8], reader[tail + 9], reader[tail + 10], reader[tail + 11]];
        let field3 = u32_le_at(reader, tail + 12);
        assert(flags@ =~= reader@.subrange(tail + 8, tail + 12));
        Ok(VShapeC { version, vertices, metadata, field, field2, flags, field3 })
    }
}

} // verus!
