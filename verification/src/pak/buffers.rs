//! A pool of buffers, one for each size that was asked for.

use crate::bytes::{
    read_bytes, spec_u16_be, spec_u32_be, spec_u64_be, u16_be_at, u32_be_at, u64_be_at,
};
use crate::error::Error;
use std::collections::HashMap;
use vstd::prelude::*;

verus! {

/// A number that is read from big-endian bytes.
pub trait FromBeBytes: Sized {
    /// How many bytes the number takes.
    spec fn width() -> nat;

    /// The number that `bytes` stand for.
    spec fn spec_from_be_bytes(bytes: Seq<u8>) -> Self;

    /// How many bytes the number takes.
    fn byte_width() -> (r: usize)
        ensures
            r == Self::width(),
    ;

    /// Reads the number from exactly as many bytes as it takes.
    fn from_be_bytes(bytes: &[u8]) -> (r: Self)
        requires
            bytes@.len() == Self::width(),
        ensures
            r == Self::spec_from_be_bytes(bytes@),
    ;
}

impl FromBeBytes for u8 {
    open spec fn width() -> nat {
        1
    }

    open spec fn spec_from_be_bytes(bytes: Seq<u8>) -> u8 {
        bytes[0]
    }

    fn byte_width() -> (r: usize) {
        1
    }

    fn from_be_bytes(bytes: &[u8]) -> (r: u8) {
        bytes[0]
    }
}

impl FromBeBytes for u16 {
    open spec fn width() -> nat {
        2
    }

    open spec fn spec_from_be_bytes(bytes: Seq<u8>) -> u16 {
        spec_u16_be(bytes, 0)
    }

    fn byte_width() -> (r: usize) {
        2
    }

    fn from_be_bytes(bytes: &[u8]) -> (r: u16) {
        u16_be_at(bytes, 0)
    }
}

impl FromBeBytes for u32 {
    open spec fn width() -> nat {
        4
    }

    open spec fn spec_from_be_bytes(bytes: Seq<u8>) -> u32 {
        spec_u32_be(bytes, 0)
    }

    fn byte_width() -> (r: usize) {
        4
    }

    fn from_be_bytes(bytes: &[u8]) -> (r: u32) {
        u32_be_at(bytes, 0)
    }
}

impl FromBeBytes for u64 {
    open spec fn width() -> nat {
        8
    }

    open spec fn spec_from_be_bytes(bytes: Seq<u8>) -> u64 {
        spec_u64_be(bytes, 0)
    }

    fn byte_width() -> (r: usize) {
        8
    }

    fn from_be_bytes(bytes: &[u8]) -> (r: u64) {
        u64_be_at(bytes, 0)
    }
}

/// Buffers that are kept for the next read of the same size.
pub struct BufferPool {
    pub buffers: HashMap<usize, Vec<u8>>,
}

impl BufferPool {
    /// The sizes for which the pool holds a buffer, each with what was read
    /// last at that size.
    pub open spec fn contents(&self) -> Map<usize, Seq<u8>> {
        self.buffers@.map_values(|b: Vec<u8>| b@)
    }

    /// A pool without buffers.
    pub fn new() -> (r: Self)
        ensures
            r.contents() == Map::<usize, Seq<u8>>::empty(),
    {
        let r = BufferPool { buffers: HashMap::new() };
        assert(r.contents() =~= Map::<usize, Seq<u8>>::empty());
        r
    }

    /// Reads `size` bytes of `reader` from `at` on, and keeps them in the
    /// pool under their size. A read that runs past the end fails and leaves
    /// the pool as it was.
    pub fn get(&mut self, reader: &[u8], at: usize, size: usize) -> (r: Result<Vec<u8>, Error>)
        ensures
            match r {
                Ok(bytes) => at + size <= reader@.len() && bytes@ == reader@.subrange(
                    at as int,
                    at + size,
                ) && final(self).contents() == old(self).contents().insert(size, bytes@),
                Err(e) => e == Error::UnexpectedEof && at + size > reader@.len() && *final(self)
                    == *old(self),
            },
    {
        match read_bytes(reader, at, size) {
            Some(bytes) => {
                let copy = bytes.clone();
                self.buffers.insert(size, copy);
                assert(self.contents() =~= old(self).contents().insert(size, bytes@));
                Ok(bytes)
            },
            None => Err(Error::UnexpectedEof),
        }
    }

    /// Reads a number of the type `T` from `reader` at `at`, through the pool.
    pub fn get_as<T: FromBeBytes>(&mut self, reader: &[u8], at: usize) -> (r: Result<T, Error>)
        ensures
            match r {
                Ok(v) => at + T::width() <= reader@.len() && v == T::spec_from_be_bytes(
                    reader@.subrange(at as int, at + T::width()),
                ) && final(self).contents() == old(self).contents().insert(
                    T::width() as usize,
                    reader@.subrange(at as int, at + T::width()),
                ),
                Err(e) => e == Error::UnexpectedEof && at + T::width() > reader@.len()
                    && *final(self) == *old(self),
            },
    {
        match self.get(reader, at, T::byte_width()) {
            Ok(bytes) => Ok(T::from_be_bytes(bytes.as_slice())),
            Err(e) => Err(e),
        }
    }
}

} // verus!
