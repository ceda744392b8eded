//! Fixed-width integers read from and written to byte sequences.
//!
//! Every reader is bounds-checked: it yields `None` instead of reading past
//! the end of the buffer.

use vstd::arithmetic::div_mod::lemma_fundamental_div_mod_converse;
use vstd::prelude::*;

verus! {

/// The big-endian `u16` stored in `s` at `at`.
pub open spec fn spec_u16_be(s: Seq<u8>, at: int) -> u16 {
    (s[at] as int * 0x100 + s[at + 1] as int) as u16
}

/// The little-endian `u16` stored in `s` at `at`.
pub open spec fn spec_u16_le(s: Seq<u8>, at: int) -> u16 {
    (s[at + 1] as int * 0x100 + s[at] as int) as u16
}

/// The big-endian `u32` stored in `s` at `at`.
pub open spec fn spec_u32_be(s: Seq<u8>, at: int) -> u32 {
    (s[at] as int * 0x100_0000 + s[at + 1] as int * 0x1_0000 + s[at + 2] as int * 0x100 + s[at
        + 3] as int) as u32
}

/// The little-endian `u32` stored in `s` at `at`.
pub open spec fn spec_u32_le(s: Seq<u8>, at: int) -> u32 {
    (s[at + 3] as int * 0x100_0000 + s[at + 2] as int * 0x1_0000 + s[at + 1] as int * 0x100 + s[at] as int) as u32
}

/// The big-endian `u64` stored in `s` at `at`.
pub open spec fn spec_u64_be(s: Seq<u8>, at: int) -> u64 {
    (spec_u32_be(s, at) as int * 0x1_0000_0000 + spec_u32_be(s, at + 4) as int) as u64
}

/// The big-endian `u128` stored in `s` at `at`.
pub open spec fn spec_u128_be(s: Seq<u8>, at: int) -> u128 {
    (spec_u64_be(s, at) as int * 0x1_0000_0000_0000_0000 + spec_u64_be(s, at + 8) as int) as u128
}

/// The two bytes of `v`, most significant first.
pub open spec fn spec_u16_be_bytes(v: u16) -> Seq<u8> {
    seq![(v as int / 0x100) as u8, (v as int % 0x100) as u8]
}

/// The four bytes of `v`, most significant first.
pub open spec fn spec_u32_be_bytes(v: u32) -> Seq<u8> {
    seq![
        (v as int / 0x100_0000) as u8,
        (v as int / 0x1_0000 % 0x100) as u8,
        (v as int / 0x100 % 0x100) as u8,
        (v as int % 0x100) as u8,
    ]
}

/// The eight bytes of `v`, most significant first.
pub open spec fn spec_u64_be_bytes(v: u64) -> Seq<u8> {
    spec_u32_be_bytes((v as int / 0x1_0000_0000) as u32) + spec_u32_be_bytes(
        (v as int % 0x1_0000_0000) as u32,
    )
}

/// The sixteen bytes of `v`, most significant first.
pub open spec fn spec_u128_be_bytes(v: u128) -> Seq<u8> {
    spec_u64_be_bytes((v as int / 0x1_0000_0000_0000_0000) as u64) + spec_u64_be_bytes(
        (v as int % 0x1_0000_0000_0000_0000) as u64,
    )
}

/// Writing a `u16` read from a buffer gives back the bytes it was read from.
pub proof fn lemma_u16_be_round_trip(s: Seq<u8>, at: int)
    requires
        0 <= at,
        at + 2 <= s.len(),
    ensures
        spec_u16_be_bytes(spec_u16_be(s, at)) == s.subrange(at, at + 2),
{
    let v = spec_u16_be(s, at) as int;
    lemma_fundamental_div_mod_converse(v, 0x100, s[at] as int, s[at + 1] as int);
    assert(spec_u16_be_bytes(spec_u16_be(s, at)) =~= s.subrange(at, at + 2));
}

/// The four bytes of the number that four bytes make are those bytes.
proof fn lemma_four_bytes(b0: u8, b1: u8, b2: u8, b3: u8)
    ensures
        ({
            let v = b0 as int * 0x100_0000 + b1 as int * 0x1_0000 + b2 as int * 0x100 + b3 as int;
            &&& 0 <= v <= u32::MAX
            &&& v / 0x100_0000 == b0
            &&& v / 0x1_0000 % 0x100 == b1
            &&& v / 0x100 % 0x100 == b2
            &&& v % 0x100 == b3
        }),
{
    let v = b0 as int * 0x100_0000 + b1 as int * 0x1_0000 + b2 as int * 0x100 + b3 as int;
    let low3 = b1 as int * 0x1_0000 + b2 as int * 0x100 + b3 as int;
    let low2 = b2 as int * 0x100 + b3 as int;
    let high2 = b0 as int * 0x100 + b1 as int;
    let high3 = high2 * 0x100 + b2 as int;
    lemma_fundamental_div_mod_converse(v, 0x100_0000, b0 as int, low3);
    lemma_fundamental_div_mod_converse(v, 0x1_0000, high2, low2);
    lemma_fundamental_div_mod_converse(high2, 0x100, b0 as int, b1 as int);
    lemma_fundamental_div_mod_converse(v, 0x100, high3, b3 as int);
    lemma_fundamental_div_mod_converse(high3, 0x100, high2, b2 as int);
}

/// Writing a `u32` read from a buffer gives back the bytes it was read from.
pub proof fn lemma_u32_be_round_trip(s: Seq<u8>, at: int)
    requires
        0 <= at,
        at + 4 <= s.len(),
    ensures
        spec_u32_be_bytes(spec_u32_be(s, at)) == s.subrange(at, at + 4),
{
    lemma_four_bytes(s[at], s[at + 1], s[at + 2], s[at + 3]);
    assert(spec_u32_be_bytes(spec_u32_be(s, at)) =~= s.subrange(at, at + 4));
}

/// Writing a `u64` read from a buffer gives back the bytes it was read from.
pub proof fn lemma_u64_be_round_trip(s: Seq<u8>, at: int)
    requires
        0 <= at,
        at + 8 <= s.len(),
    ensures
        spec_u64_be_bytes(spec_u64_be(s, at)) == s.subrange(at, at + 8),
{
    lemma_u32_be_round_trip(s, at);
    lemma_u32_be_round_trip(s, at + 4);
    let v = spec_u64_be(s, at) as int;
    lemma_fundamental_div_mod_converse(
        v,
        0x1_0000_0000,
        spec_u32_be(s, at) as int,
        spec_u32_be(s, at + 4) as int,
    );
    assert(s.subrange(at, at + 4) + s.subrange(at + 4, at + 8) =~= s.subrange(at, at + 8));
}

/// Writing a `u128` read from a buffer gives back the bytes it was read from.
pub proof fn lemma_u128_be_round_trip(s: Seq<u8>, at: int)
    requires
        0 <= at,
        at + 16 <= s.len(),
    ensures
        spec_u128_be_bytes(spec_u128_be(s, at)) == s.subrange(at, at + 16),
{
    lemma_u64_be_round_trip(s, at);
    lemma_u64_be_round_trip(s, at + 8);
    let v = spec_u128_be(s, at) as int;
    lemma_fundamental_div_mod_converse(
        v,
        0x1_0000_0000_0000_0000,
        spec_u64_be(s, at) as int,
        spec_u64_be(s, at + 8) as int,
    );
    assert(s.subrange(at, at + 8) + s.subrange(at + 8, at + 16) =~= s.subrange(at, at + 16));
}

/// Reading back a written `u16` gives the value that was written.
pub proof fn lemma_u16_be_of_bytes(v: u16)
    ensures
        spec_u16_be_bytes(v).len() == 2,
        spec_u16_be(spec_u16_be_bytes(v), 0) == v,
{
}

/// Reading back a written `u32` gives the value that was written.
pub proof fn lemma_u32_be_of_bytes(v: u32)
    ensures
        spec_u32_be_bytes(v).len() == 4,
        spec_u32_be(spec_u32_be_bytes(v), 0) == v,
{
}

/// Reading back a written `u64` gives the value that was written.
pub proof fn lemma_u64_be_of_bytes(v: u64)
    ensures
        spec_u64_be_bytes(v).len() == 8,
        spec_u64_be(spec_u64_be_bytes(v), 0) == v,
{
    let hi = (v as int / 0x1_0000_0000) as u32;
    let lo = (v as int % 0x1_0000_0000) as u32;
    lemma_u32_be_of_bytes(hi);
    lemma_u32_be_of_bytes(lo);
    let bytes = spec_u64_be_bytes(v);
    assert(spec_u32_be(bytes, 0) == spec_u32_be(spec_u32_be_bytes(hi), 0));
    assert(spec_u32_be(bytes, 4) == spec_u32_be(spec_u32_be_bytes(lo), 0));
}

/// Appends the eight bytes of `v`, most significant first.
pub fn write_u64_be(out: &mut Vec<u8>, v: u64)
    ensures
        final(out)@ == old(out)@ + spec_u64_be_bytes(v),
{
    write_u32_be(out, (v / 0x1_0000_0000) as u32);
    write_u32_be(out, (v % 0x1_0000_0000) as u32);
    assert(out@ =~= old(out)@ + spec_u64_be_bytes(v));
}

/// The big-endian `u16` at `at`.
pub fn u16_be_at(data: &[u8], at: usize) -> (r: u16)
    requires
        at + 2 <= data@.len(),
    ensures
        r == spec_u16_be(data@, at as int),
{
    data[at] as u16 * 0x100 + data[at + 1] as u16
}

/// The little-endian `u16` at `at`.
pub fn u16_le_at(data: &[u8], at: usize) -> (r: u16)
    requires
        at + 2 <= data@.len(),
    ensures
        r == spec_u16_le(data@, at as int),
{
    assert(at + 2 <= data.len());
    data[at + 1] as u16 * 0x100 + data[at] as u16
}

/// The big-endian `u32` at `at`.
pub fn u32_be_at(data: &[u8], at: usize) -> (r: u32)
    requires
        at + 4 <= data@.len(),
    ensures
        r == spec_u32_be(data@, at as int),
{
    data[at] as u32 * 0x100_0000 + data[at + 1] as u32 * 0x1_0000 + data[at + 2] as u32 * 0x100
        + data[at + 3] as u32
}

/// The little-endian `u32` at `at`.
pub fn u32_le_at(data: &[u8], at: usize) -> (r: u32)
    requires
        at + 4 <= data@.len(),
    ensures
        r == spec_u32_le(data@, at as int),
{
    assert(at + 4 <= data.len());
    data[at + 3] as u32 * 0x100_0000 + data[at + 2] as u32 * 0x1_0000 + data[at + 1] as u32 * 0x100
        + data[at] as u32
}

/// The big-endian `u64` at `at`.
pub fn u64_be_at(data: &[u8], at: usize) -> (r: u64)
    requires
        at + 8 <= data@.len(),
    ensures
        r == spec_u64_be(data@, at as int),
{
    assert(at + 8 <= data.len());
    u32_be_at(data, at) as u64 * 0x1_0000_0000 + u32_be_at(data, at + 4) as u64
}

/// The big-endian `u128` at `at`.
pub fn u128_be_at(data: &[u8], at: usize) -> (r: u128)
    requires
        at + 16 <= data@.len(),
    ensures
        r == spec_u128_be(data@, at as int),
{
    assert(at + 16 <= data.len());
    u64_be_at(data, at) as u128 * 0x1_0000_0000_0000_0000 + u64_be_at(data, at + 8) as u128
}

/// The byte at `at`, if the buffer reaches that far.
pub fn read_u8(data: &[u8], at: usize) -> (r: Option<u8>)
    ensures
        r == (if at < data@.len() {
            Some(data@[at as int])
        } else {
            None
        }),
{
    if at < data.len() {
        Some(data[at])
    } else {
        None
    }
}

/// The big-endian `u16` at `at`, if two bytes are there.
pub fn read_u16_be(data: &[u8], at: usize) -> (r: Option<u16>)
    ensures
        r == (if at + 2 <= data@.len() {
            Some(spec_u16_be(data@, at as int))
        } else {
            None
        }),
{
    if data.len() < 2 || at > data.len() - 2 {
        None
    } else {
        Some(u16_be_at(data, at))
    }
}

/// The little-endian `u16` at `at`, if two bytes are there.
pub fn read_u16_le(data: &[u8], at: usize) -> (r: Option<u16>)
    ensures
        r == (if at + 2 <= data@.len() {
            Some(spec_u16_le(data@, at as int))
        } else {
            None
        }),
{
    if data.len() < 2 || at > data.len() - 2 {
        None
    } else {
        Some(u16_le_at(data, at))
    }
}

/// The big-endian `u32` at `at`, if four bytes are there.
pub fn read_u32_be(data: &[u8], at: usize) -> (r: Option<u32>)
    ensures
        r == (if at + 4 <= data@.len() {
            Some(spec_u32_be(data@, at as int))
        } else {
            None
        }),
{
    if data.len() < 4 || at > data.len() - 4 {
        None
    } else {
        Some(u32_be_at(data, at))
    }
}

/// The little-endian `u32` at `at`, if four bytes are there.
pub fn read_u32_le(data: &[u8], at: usize) -> (r: Option<u32>)
    ensures
        r == (if at + 4 <= data@.len() {
            Some(spec_u32_le(data@, at as int))
        } else {
            None
        }),
{
    if data.len() < 4 || at > data.len() - 4 {
        None
    } else {
        Some(u32_le_at(data, at))
    }
}

/// The big-endian `u64` at `at`, if eight bytes are there.
pub fn read_u64_be(data: &[u8], at: usize) -> (r: Option<u64>)
    ensures
        r == (if at + 8 <= data@.len() {
            Some(spec_u64_be(data@, at as int))
        } else {
            None
        }),
{
    if data.len() < 8 || at > data.len() - 8 {
        None
    } else {
        Some(u64_be_at(data, at))
    }
}

/// The big-endian `u128` at `at`, if sixteen bytes are there.
pub fn read_u128_be(data: &[u8], at: usize) -> (r: Option<u128>)
    ensures
        r == (if at + 16 <= data@.len() {
            Some(spec_u128_be(data@, at as int))
        } else {
            None
        }),
{
    if data.len() < 16 || at > data.len() - 16 {
        None
    } else {
        Some(u128_be_at(data, at))
    }
}

/// A copy of the `len` bytes at `at`, if the buffer holds that many.
pub fn read_bytes(data: &[u8], at: usize, len: usize) -> (r: Option<Vec<u8>>)
    ensures
        match r {
            Some(v) => at + len <= data@.len() && v@ == data@.subrange(at as int, at + len),
            None => at + len > data@.len(),
        },
{
    if len > data.len() || at > data.len() - len {
        return None;
    }
    let mut out: Vec<u8> = Vec::with_capacity(len);
    let mut i: usize = 0;
    while i < len
        invariant
            i <= len,
            at + len <= data.len(),
            out@ == data@.subrange(at as int, at + i),
        decreases len - i,
    {
        out.push(data[at + i]);
        i += 1;
        assert(out@ =~= data@.subrange(at as int, at + i));
    }
    Some(out)
}

/// Appends the two bytes of `v`, most significant first.
pub fn write_u16_be(out: &mut Vec<u8>, v: u16)
    ensures
        final(out)@ == old(out)@ + spec_u16_be_bytes(v),
{
    out.push((v / 0x100) as u8);
    out.push((v % 0x100) as u8);
    assert(out@ =~= old(out)@ + spec_u16_be_bytes(v));
}

/// Appends the four bytes of `v`, most significant first.
pub fn write_u32_be(out: &mut Vec<u8>, v: u32)
    ensures
        final(out)@ == old(out)@ + spec_u32_be_bytes(v),
{
    out.push((v / 0x100_0000) as u8);
    out.push((v / 0x1_0000 % 0x100) as u8);
    out.push((v / 0x100 % 0x100) as u8);
    out.push((v % 0x100) as u8);
    assert(out@ =~= old(out)@ + spec_u32_be_bytes(v));
}

/// Appends the sixteen bytes of `v`, most significant first.
pub fn write_u128_be(out: &mut Vec<u8>, v: u128)
    ensures
        final(out)@ == old(out)@ + spec_u128_be_bytes(v),
{
    let hi: u64 = (v / 0x1_0000_0000_0000_0000) as u64;
    let lo: u64 = (v % 0x1_0000_0000_0000_0000) as u64;
    write_u32_be(out, (hi / 0x1_0000_0000) as u32);
    write_u32_be(out, (hi % 0x1_0000_0000) as u32);
    write_u32_be(out, (lo / 0x1_0000_0000) as u32);
    write_u32_be(out, (lo % 0x1_0000_0000) as u32);
    assert(out@ =~= old(out)@ + spec_u128_be_bytes(v));
}

/// Appends every byte of `bytes`.
pub fn write_bytes(out: &mut Vec<u8>, bytes: &[u8])
    ensures
        final(out)@ == old(out)@ + bytes@,
{
    let mut i: usize = 0;
    while i < bytes.len()
        invariant
            i <= bytes@.len(),
            out@ == old(out)@ + bytes@.subrange(0, i as int),
        decreases bytes@.len() - i,
    {
        out.push(bytes[i]);
        i += 1;
        assert(out@ =~= old(out)@ + bytes@.subrange(0, i as int));
    }
    assert(bytes@.subrange(0, bytes@.len() as int) =~= bytes@);
}

/// The `count` little-endian `u16` stored in `s` from `at` on.
pub open spec fn spec_u16s_le(s: Seq<u8>, at: int, count: nat) -> Seq<u16> {
    Seq::new(count, |i: int| spec_u16_le(s, at + 2 * i))
}

/// The `count` little-endian `u16` from `at` on, if the buffer holds them.
pub fn read_u16s_le(data: &[u8], at: usize, count: usize) -> (r: Option<Vec<u16>>)
    ensures
        r is Some == (at + 2 * count <= data@.len()),
        r is Some ==> r->Some_0@ == spec_u16s_le(data@, at as int, count as nat),
{
    if at > data.len() || count > (data.len() - at) / 2 {
        return None;
    }
    let mut out: Vec<u16> = Vec::new();
    let mut i: usize = 0;
    while i < count
        invariant
            i <= count,
            at + 2 * count <= data.len(),
            out@.len() == i,
            forall|k: int| 0 <= k < i ==> #[trigger] out@[k] == spec_u16_le(data@, at + 2 * k),
        decreases count - i,
    {
        out.push(u16_le_at(data, at + 2 * i));
        i += 1;
    }
    assert(out@ =~= spec_u16s_le(data@, at as int, count as nat));
    Some(out)
}

/// Whether `data` starts with `prefix`.
pub open spec fn spec_starts_with(data: Seq<u8>, prefix: Seq<u8>) -> bool {
    data.len() >= prefix.len() && data.subrange(0, prefix.len() as int) == prefix
}

/// Tells whether `data` starts with `prefix`.
pub fn starts_with(data: &[u8], prefix: &[u8]) -> (r: bool)
    ensures
        r == spec_starts_with(data@, prefix@),
{
    if data.len() < prefix.len() {
        return false;
    }
    let mut i: usize = 0;
    while i < prefix.len()
        invariant
            i <= prefix@.len() <= data@.len(),
            data@.subrange(0, i as int) == prefix@.subrange(0, i as int),
        decreases prefix@.len() - i,
    {
        if data[i] != prefix[i] {
            assert(data@.subrange(0, prefix@.len() as int)[i as int] != prefix@[i as int]);
            return false;
        }
        i += 1;
        assert(data@.subrange(0, i as int) =~= data@.subrange(0, i - 1).push(data@[i - 1]));
        assert(prefix@.subrange(0, i as int) =~= prefix@.subrange(0, i - 1).push(prefix@[i - 1]));
    }
    assert(prefix@.subrange(0, i as int) =~= prefix@);
    true
}

} // verus!
