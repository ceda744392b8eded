//! The flags byte of an element that is built and not read.

use crate::object_stream::{
    has_flag, ST_BINARYFLAG_ELEMENT_HEADER, ST_BINARYFLAG_EXTRA_SIZE_FIELD,
    ST_BINARYFLAG_HAS_NAME, ST_BINARYFLAG_HAS_VALUE, ST_BINARYFLAG_HAS_VERSION,
    ST_BINARY_VALUE_SIZE_MASK,
};
use vstd::prelude::*;

verus! {

/// The bits that announce a value of `size` bytes: the size itself where it
/// is below 8, and else the width of the smallest size field that holds it;
/// `None` where no size field holds it.
pub open spec fn value_bits(size: usize) -> Option<u8> {
    if size < 8 {
        Some(ST_BINARYFLAG_HAS_VALUE | (size as u8))
    } else if size <= 0xff {
        Some(ST_BINARYFLAG_HAS_VALUE | ST_BINARYFLAG_EXTRA_SIZE_FIELD | 1u8)
    } else if size <= 0xffff {
        Some(ST_BINARYFLAG_HAS_VALUE | ST_BINARYFLAG_EXTRA_SIZE_FIELD | 2u8)
    } else if size <= 0xffff_ffff {
        Some(ST_BINARYFLAG_HAS_VALUE | ST_BINARYFLAG_EXTRA_SIZE_FIELD | 4u8)
    } else {
        None
    }
}

/// The flags byte of an element of which it is known whether it has a field
/// name and a version, and how long its value is, if it has one. `None`
/// where the value is too long for any size field.
pub open spec fn built_flags(has_name: bool, has_version: bool, size: Option<usize>) -> Option<u8> {
    let fixed = ST_BINARYFLAG_ELEMENT_HEADER | (if has_name {
        ST_BINARYFLAG_HAS_NAME
    } else {
        0u8
    }) | (if has_version {
        ST_BINARYFLAG_HAS_VERSION
    } else {
        0u8
    });
    match size {
        None => Some(fixed),
        Some(size) => match value_bits(size) {
            Some(bits) => Some(fixed | bits),
            None => None,
        },
    }
}

/// Builds the flags byte of an element whose value, if it has one, is not
/// too long for a size field.
pub fn build_flags_within(has_name: bool, has_version: bool, size: Option<usize>) -> (r: u8)
    requires
        size is Some ==> size->Some_0 <= 0xffff_ffff,
    ensures
        built_flags(has_name, has_version, size) == Some(r),
{
    let fixed = ST_BINARYFLAG_ELEMENT_HEADER | (if has_name {
        ST_BINARYFLAG_HAS_NAME
    } else {
        0u8
    }) | (if has_version {
        ST_BINARYFLAG_HAS_VERSION
    } else {
        0u8
    });
    match size {
        None => fixed,
        Some(size) => {
            if size < 8 {
                fixed | (ST_BINARYFLAG_HAS_VALUE | (size as u8))
            } else if size <= 0xff {
                fixed | (ST_BINARYFLAG_HAS_VALUE | ST_BINARYFLAG_EXTRA_SIZE_FIELD | 1u8)
            } else if size <= 0xffff {
                fixed | (ST_BINARYFLAG_HAS_VALUE | ST_BINARYFLAG_EXTRA_SIZE_FIELD | 2u8)
            } else {
                fixed | (ST_BINARYFLAG_HAS_VALUE | ST_BINARYFLAG_EXTRA_SIZE_FIELD | 4u8)
            }
        },
    }
}

/// Builds the flags byte of an element from what it holds.
pub fn build_flags(has_name: bool, has_version: bool, size: Option<usize>) -> (r: Option<u8>)
    ensures
        r == built_flags(has_name, has_version, size),
{
    match size {
        Some(n) => if n > 0xffff_ffff {
            None
        } else {
            Some(build_flags_within(has_name, has_version, size))
        },
        None => Some(build_flags_within(has_name, has_version, size)),
    }
}

/// Flags that were built are never the byte that ends a list, and tell
/// exactly what they were built from: whether there is a field name, a
/// version and a value, and the size of the value or the width of its size
/// field.
pub proof fn lemma_built_flags_tell(has_name: bool, has_version: bool, size: Option<usize>)
    requires
        built_flags(has_name, has_version, size) is Some,
    ensures
        ({
            let flags = built_flags(has_name, has_version, size)->Some_0;
            &&& flags != 0
            &&& has_flag(flags, ST_BINARYFLAG_HAS_NAME) == has_name
            &&& has_flag(flags, ST_BINARYFLAG_HAS_VERSION) == has_version
            &&& has_flag(flags, ST_BINARYFLAG_HAS_VALUE) == size is Some
            &&& size is Some ==> (has_flag(flags, ST_BINARYFLAG_EXTRA_SIZE_FIELD) == (size->Some_0
                >= 8))
            &&& size is Some && size->Some_0 < 8 ==> flags & ST_BINARY_VALUE_SIZE_MASK
                == size->Some_0
            &&& size is Some && 8 <= size->Some_0 <= 0xff ==> flags & ST_BINARY_VALUE_SIZE_MASK == 1
            &&& size is Some && 0xff < size->Some_0 <= 0xffff ==> flags & ST_BINARY_VALUE_SIZE_MASK
                == 2
            &&& size is Some && 0xffff < size->Some_0 ==> flags & ST_BINARY_VALUE_SIZE_MASK == 4
        }),
{
    let n: u8 = if has_name {
        0x40
    } else {
        0
    };
    let v: u8 = if has_version {
        0x80
    } else {
        0
    };
    let fixed: u8 = 0x08u8 | n | v;
    assert(fixed != 0 && (fixed & 0x40 != 0) == (n == 0x40) && (fixed & 0x80 != 0) == (v == 0x80)
        && fixed & 0x10 == 0 && fixed & 0x20 == 0 && fixed & 0x07 == 0) by (bit_vector)
        requires
            fixed == 0x08u8 | n | v,
            n == 0x40 || n == 0,
            v == 0x80 || v == 0,
    ;
    match size {
        None => {},
        Some(size) => {
            let bits = value_bits(size)->Some_0;
            let low: u8 = if size < 8 {
                size as u8
            } else if size <= 0xff {
                1
            } else if size <= 0xffff {
                2
            } else {
                4
            };
            let extra: u8 = if size < 8 {
                0
            } else {
                0x20
            };
            assert(bits == 0x10u8 | extra | low) by (bit_vector)
                requires
                    low < 8,
                    extra == 0x20 || extra == 0,
                    (extra == 0 && bits == 0x10u8 | low) || (extra == 0x20 && bits == 0x10u8 | 0x20u8
                        | low),
            ;
            let flags = fixed | bits;
            assert(flags != 0 && (flags & 0x40 != 0) == (n == 0x40) && (flags & 0x80 != 0) == (v
                == 0x80) && flags & 0x10 != 0 && (flags & 0x20 != 0) == (extra == 0x20) && flags
                & 0x07 == low) by (bit_vector)
                requires
                    flags == fixed | bits,
                    bits == 0x10u8 | extra | low,
                    low < 8,
                    extra == 0x20 || extra == 0,
                    fixed == 0x08u8 | n | v,
                    n == 0x40 || n == 0,
                    v == 0x80 || v == 0,
            ;
        },
    }
}

} // verus!
