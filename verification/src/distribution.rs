//! The distribution file: names of slices, and where things stand.
//!
//! All numbers are little-endian. A name is one byte of length and that
//! many bytes of UTF-8.

use crate::bytes::{
    read_bytes, read_u16_le, read_u16s_le, read_u32_le, read_u8, spec_u16_le, spec_u16s_le,
    spec_u32_le, u16_le_at,
};
use crate::error::Error;
use crate::utils::text::string_from_utf8;
use vstd::prelude::*;
use vstd::utf8::{decode_utf8, valid_utf8};

verus! {

/// Why a distribution file could not be decoded.
#[derive(Debug, Clone, Copy, PartialEq, Eq, Structural)]
pub enum MyError {
    /// The buffer could not be read as the format demands.
    IO(Error),
    /// A field has not the width that its type demands.
    TryFromSliceError,
}

/// A position on the map.
#[derive(Debug, Clone, Copy, PartialEq, Eq, Structural)]
pub struct Position(pub u16, pub u16);

/// The names of the slices and of their variants.
#[derive(Debug)]
pub struct SlicesData {
    pub slices: Vec<String>,
    pub variants: Vec<String>,
}

/// What can be gathered, and where.
#[derive(Debug)]
pub struct GatherablesData {
    pub indices: Vec<u16>,
    pub positions: Vec<Position>,
    pub extra1: Vec<u16>,
    pub extra2: Vec<u16>,
    pub extra3: Vec<u8>,
}

/// Positions of which the meaning is not known.
#[derive(Debug)]
pub struct Unknown {
    pub positions: Vec<Position>,
    pub extra: Vec<u8>,
}

/// A decoded distribution file.
#[derive(Debug)]
pub struct Distribution {
    pub slices: SlicesData,
    pub gatherables: GatherablesData,
    pub unknown1: Unknown,
    pub unknown2: Unknown,
}

/// What a [`SlicesData`] holds.
pub struct SlicesModel {
    pub slices: Seq<Seq<char>>,
    pub variants: Seq<Seq<char>>,
}

/// What a [`GatherablesData`] holds.
pub struct GatherablesModel {
    pub indices: Seq<u16>,
    pub positions: Seq<Position>,
    pub extra1: Seq<u16>,
    pub extra2: Seq<u16>,
    pub extra3: Seq<u8>,
}

/// What an [`Unknown`] holds.
pub struct UnknownModel {
    pub positions: Seq<Position>,
    pub extra: Seq<u8>,
}

/// What a [`Distribution`] holds.
pub struct DistributionModel {
    pub slices: SlicesModel,
    pub gatherables: GatherablesModel,
    pub unknown1: UnknownModel,
    pub unknown2: UnknownModel,
}

/// The texts that a list of strings holds.
pub open spec fn names(items: Seq<String>) -> Seq<Seq<char>> {
    Seq::new(items.len(), |i: int| items[i]@)
}

impl View for SlicesData {
    type V = SlicesModel;

    open spec fn view(&self) -> SlicesModel {
        SlicesModel { slices: names(self.slices@), variants: names(self.variants@) }
    }
}

impl View for GatherablesData {
    type V = GatherablesModel;

    open spec fn view(&self) -> GatherablesModel {
        GatherablesModel {
            indices: self.indices@,
            positions: self.positions@,
            extra1: self.extra1@,
            extra2: self.extra2@,
            extra3: self.extra3@,
        }
    }
}

impl View for Unknown {
    type V = UnknownModel;

    open spec fn view(&self) -> UnknownModel {
        UnknownModel { positions: self.positions@, extra: self.extra@ }
    }
}

impl View for Distribution {
    type V = DistributionModel;

    open spec fn view(&self) -> DistributionModel {
        DistributionModel {
            slices: self.slices@,
            gatherables: self.gatherables@,
            unknown1: self.unknown1@,
            unknown2: self.unknown2@,
        }
    }
}

/// The error of a buffer that ends too early.
pub open spec fn eof() -> MyError {
    MyError::IO(Error::UnexpectedEof)
}

/// The `count` names from `at` on, and where they end.
pub open spec fn parse_names(bytes: Seq<u8>, at: int, count: nat) -> Result<
    (Seq<Seq<char>>, int),
    MyError,
>
    decreases count,
{
    if count == 0 {
        Ok((Seq::empty(), at))
    } else if at < 0 || at >= bytes.len() {
        Err(eof())
    } else if at + 1 + bytes[at] > bytes.len() {
        Err(eof())
    } else if !valid_utf8(bytes.subrange(at + 1, at + 1 + bytes[at])) {
        Err(MyError::IO(Error::InvalidUtf8))
    } else {
        match parse_names(bytes, at + 1 + bytes[at], (count - 1) as nat) {
            Err(e) => Err(e),
            Ok((rest, end)) => Ok(
                (seq![decode_utf8(bytes.subrange(at + 1, at + 1 + bytes[at]))] + rest, end),
            ),
        }
    }
}

/// The `count` positions from `at` on.
pub open spec fn positions_at(bytes: Seq<u8>, at: int, count: nat) -> Seq<Position> {
    Seq::new(
        count,
        |i: int| Position(spec_u16_le(bytes, at + 4 * i), spec_u16_le(bytes, at + 4 * i + 2)),
    )
}

/// The names of the slices at `at`: their number, the names, and as many
/// names of variants; and where they end.
pub open spec fn parse_slices(bytes: Seq<u8>, at: int) -> Result<(SlicesModel, int), MyError> {
    if at + 2 > bytes.len() {
        Err(eof())
    } else {
        let count = spec_u16_le(bytes, at) as nat;
        match parse_names(bytes, at + 2, count) {
            Err(e) => Err(e),
            Ok((slices, p)) => match parse_names(bytes, p, count) {
                Err(e) => Err(e),
                Ok((variants, end)) => Ok((SlicesModel { slices, variants }, end)),
            },
        }
    }
}

/// The gatherables at `at`: their number, then that many indices,
/// positions, first and second extras of two bytes, and third extras of one
/// byte; and where they end.
pub open spec fn parse_gatherables(bytes: Seq<u8>, at: int) -> Result<
    (GatherablesModel, int),
    MyError,
> {
    if at + 4 > bytes.len() {
        Err(eof())
    } else {
        let count = spec_u32_le(bytes, at) as nat;
        let first = at + 4;
        if first + 11 * count > bytes.len() {
            Err(eof())
        } else {
            Ok(
                (
                    GatherablesModel {
                        indices: spec_u16s_le(bytes, first, count),
                        positions: positions_at(bytes, first + 2 * count, count),
                        extra1: spec_u16s_le(bytes, first + 6 * count, count),
                        extra2: spec_u16s_le(bytes, first + 8 * count, count),
                        extra3: bytes.subrange(first + 10 * count, first + 11 * count),
                    },
                    first + 11 * count,
                ),
            )
        }
    }
}

/// The unknown part at `at`: a number, then that many positions and that
/// many bytes; and where it ends.
pub open spec fn parse_unknown(bytes: Seq<u8>, at: int) -> Result<(UnknownModel, int), MyError> {
    if at + 4 > bytes.len() {
        Err(eof())
    } else {
        let count = spec_u32_le(bytes, at) as nat;
        let first = at + 4;
        if first + 5 * count > bytes.len() {
            Err(eof())
        } else {
            Ok(
                (
                    UnknownModel {
                        positions: positions_at(bytes, first, count),
                        extra: bytes.subrange(first + 4 * count, first + 5 * count),
                    },
                    first + 5 * count,
                ),
            )
        }
    }
}

/// The distribution that `bytes` hold: slices, gatherables, and two unknown
/// parts.
pub open spec fn parse_distribution(bytes: Seq<u8>) -> Result<DistributionModel, MyError> {
    match parse_slices(bytes, 0) {
        Err(e) => Err(e),
        Ok((slices, at_gatherables)) => match parse_gatherables(bytes, at_gatherables) {
            Err(e) => Err(e),
            Ok((gatherables, at_first)) => match parse_unknown(bytes, at_first) {
                Err(e) => Err(e),
                Ok((unknown1, at_second)) => match parse_unknown(bytes, at_second) {
                    Err(e) => Err(e),
                    Ok((unknown2, _)) => Ok(
                        DistributionModel { slices, gatherables, unknown1, unknown2 },
                    ),
                },
            },
        }
    }
}

/// `front` put before the names of a result.
pub open spec fn names_after(front: Seq<Seq<char>>, rest: Result<(Seq<Seq<char>>, int), MyError>) -> Result<
    (Seq<Seq<char>>, int),
    MyError,
> {
    match rest {
        Ok((rest, end)) => Ok((front + rest, end)),
        Err(e) => Err(e),
    }
}

/// Reads `count` names from `at` on.
fn read_names(data: &[u8], at: usize, count: u16) -> (r: Result<(Vec<String>, usize), MyError>)
    requires
        at <= data@.len(),
    ensures
        match r {
            Ok((items, end)) => parse_names(data@, at as int, count as nat) == Ok::<
                (Seq<Seq<char>>, int),
                MyError,
            >((names(items@), end as int)) && end <= data@.len(),
            Err(e) => parse_names(data@, at as int, count as nat) == Err::<
                (Seq<Seq<char>>, int),
                MyError,
            >(e),
        },
{
    let mut out: Vec<String> = Vec::new();
    let mut cur: usize = at;
    let mut i: u16 = 0;
    proof {
        assert(names(out@) =~= Seq::<Seq<char>>::empty());
        match parse_names(data@, at as int, count as nat) {
            Ok((rest, end)) => {
                assert(Seq::<Seq<char>>::empty() + rest =~= rest);
            },
            Err(_) => {},
        }
    }
    while i < count
        invariant
            i <= count,
            cur <= data@.len(),
            parse_names(data@, at as int, count as nat) == names_after(
                names(out@),
                parse_names(data@, cur as int, (count - i) as nat),
            ),
        decreases count - i,
    {
        let ghost before = names(out@);
        let len = match read_u8(data, cur) {
            Some(len) => len,
            None => {
                return Err(MyError::IO(Error::UnexpectedEof));
            },
        };
        assert(cur < data.len());
        let bytes = match read_bytes(data, cur + 1, len as usize) {
            Some(bytes) => bytes,
            None => {
                return Err(MyError::IO(Error::UnexpectedEof));
            },
        };
        let name = match string_from_utf8(bytes) {
            Some(name) => name,
            None => {
                return Err(MyError::IO(Error::InvalidUtf8));
            },
        };
        proof {
            let rest = parse_names(data@, cur + 1 + len, (count - i - 1) as nat);
            match rest {
                Ok((more, end)) => {
                    assert(before + (seq![name@] + more) =~= before.push(name@) + more);
                },
                Err(_) => {},
            }
        }
        out.push(name);
        proof {
            assert(names(out@) =~= before.push(name@));
        }
        assert(cur + 1 + len <= data.len());
        cur = cur + 1 + len as usize;
        i = i + 1;
    }
    proof {
        assert(names(out@) + Seq::<Seq<char>>::empty() =~= names(out@));
    }
    Ok((out, cur))
}

/// Reads `count` positions from `at` on.
fn read_positions(data: &[u8], at: usize, count: usize) -> (r: Vec<Position>)
    requires
        at + 4 * count <= data@.len(),
    ensures
        r@ == positions_at(data@, at as int, count as nat),
{
    let mut out: Vec<Position> = Vec::new();
    let mut i: usize = 0;
    while i < count
        invariant
            i <= count,
            at + 4 * count <= data.len(),
            out@.len() == i,
            forall|k: int|
                0 <= k < i ==> #[trigger] out@[k] == positions_at(data@, at as int, count as nat)[k],
        decreases count - i,
    {
        let p = at + 4 * i;
        out.push(Position(u16_le_at(data, p), u16_le_at(data, p + 2)));
        i += 1;
    }
    assert(out@ =~= positions_at(data@, at as int, count as nat));
    out
}

impl SlicesData {
    /// Reads the names of the slices at `at`, and tells where they end.
    pub fn from_reader(value: &[u8], at: usize) -> (r: Result<(SlicesData, usize), MyError>)
        ensures
            match r {
                Ok((slices, end)) => parse_slices(value@, at as int) == Ok::<
                    (SlicesModel, int),
                    MyError,
                >((slices@, end as int)) && end <= value@.len(),
                Err(e) => parse_slices(value@, at as int) == Err::<(SlicesModel, int), MyError>(e),
            },
    {
        let count = match read_u16_le(value, at) {
            Some(count) => count,
            None => {
                return Err(MyError::IO(Error::UnexpectedEof));
            },
        };
        assert(at + 2 <= value.len());
        let (slices, p) = match read_names(value, at + 2, count) {
            Ok(r) => r,
            Err(e) => {
                return Err(e);
            },
        };
        let (variants, end) = match read_names(value, p, count) {
            Ok(r) => r,
            Err(e) => {
                return Err(e);
            },
        };
        Ok((SlicesData { slices, variants }, end))
    }
}

impl GatherablesData {
    /// Reads the gatherables at `at`, and tells where they end.
    pub fn from_reader(value: &[u8], at: usize) -> (r: Result<(GatherablesData, usize), MyError>)
        ensures
            match r {
                Ok((part, end)) => parse_gatherables(value@, at as int) == Ok::<
                    (GatherablesModel, int),
                    MyError,
                >((part@, end as int)) && end <= value@.len(),
                Err(e) => parse_gatherables(value@, at as int) == Err::<
                    (GatherablesModel, int),
                    MyError,
                >(e),
            },
    {
        let count = match read_u32_le(value, at) {
            Some(count) => count,
            None => {
                return Err(MyError::IO(Error::UnexpectedEof));
            },
        };
        assert(at + 4 <= value.len());
        let first = at + 4;
        if 11 * (count as u64) > (value.len() - first) as u64 {
            return Err(MyError::IO(Error::UnexpectedEof));
        }
        let n = count as usize;
        let indices = read_u16s_le(value, first, n);
        let positions = read_positions(value, first + 2 * n, n);
        let extra1 = read_u16s_le(value, first + 6 * n, n);
        let extra2 = read_u16s_le(value, first + 8 * n, n);
        let extra3 = read_bytes(value, first + 10 * n, n);
        match (indices, extra1, extra2, extra3) {
            (Some(indices), Some(extra1), Some(extra2), Some(extra3)) => Ok(
                (GatherablesData { indices, positions, extra1, extra2, extra3 }, first + 11 * n),
            ),
            _ => Err(MyError::IO(Error::UnexpectedEof)),
        }
    }
}

impl Unknown {
    /// Reads the unknown part at `at`, and tells where it ends.
    pub fn from_reader(value: &[u8], at: usize) -> (r: Result<(Unknown, usize), MyError>)
        ensures
            match r {
                Ok((part, end)) => parse_unknown(value@, at as int) == Ok::<
                    (UnknownModel, int),
                    MyError,
                >((part@, end as int)) && end <= value@.len(),
                Err(e) => parse_unknown(value@, at as int) == Err::<(UnknownModel, int), MyError>(
                    e,
                ),
            },
    {
        let count = match read_u32_le(value, at) {
            Some(count) => count,
            None => {
                return Err(MyError::IO(Error::UnexpectedEof));
            },
        };
        assert(at + 4 <= value.len());
        let first = at + 4;
        if 5 * (count as u64) > (value.len() - first) as u64 {
            return Err(MyError::IO(Error::UnexpectedEof));
        }
        let n = count as usize;
        let positions = read_positions(value, first, n);
        match read_bytes(value, first + 4 * n, n) {
            Some(extra) => Ok((Unknown { positions, extra }, first + 5 * n)),
            None => Err(MyError::IO(Error::UnexpectedEof)),
        }
    }
}

impl Distribution {
    /// Decodes a distribution file.
    pub fn from_reader(value: &[u8]) -> (r: Result<Distribution, MyError>)
        ensures
            match r {
                Ok(d) => parse_distribution(value@) == Ok::<DistributionModel, MyError>(d@),
                Err(e) => parse_distribution(value@) == Err::<DistributionModel, MyError>(e),
            },
    {
        let (slices, at_gatherables) = match SlicesData::from_reader(value, 0) {
            Ok(r) => r,
            Err(e) => {
                return Err(e);
            },
        };
        let (gatherables, at_first) = match GatherablesData::from_reader(value, at_gatherables) {
            Ok(r) => r,
            Err(e) => {
                return Err(e);
            },
        };
        let (unknown1, at_second) = match Unknown::from_reader(value, at_first) {
            Ok(r) => r,
            Err(e) => {
                return Err(e);
            },
        };
        let (unknown2, _) = match Unknown::from_reader(value, at_second) {
            Ok(r) => r,
            Err(e) => {
                return Err(e);
            },
        };
        Ok(Distribution { slices, gatherables, unknown1, unknown2 })
    }
}

} // verus!
