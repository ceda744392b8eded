//! Numbers of a datasheet, which the file holds as IEEE 754 singles.
//!
//! A number is kept as its 32 bits. What is decided here is whether the
//! number is a whole number, and which: a whole number is written without a
//! decimal point in every text output.

use vstd::prelude::*;

verus! {

/// Two to the power of `k`.
pub open spec fn two_to(k: nat) -> nat
    decreases k,
{
    if k == 0 {
        1
    } else {
        2 * two_to((k - 1) as nat)
    }
}

/// The exponent field of a single: bits 23 to 30.
pub open spec fn exponent_of(bits: u32) -> nat {
    (bits as nat / 0x80_0000) % 0x100
}

/// The fraction field of a single: bits 0 to 22.
pub open spec fn fraction_of(bits: u32) -> nat {
    bits as nat % 0x80_0000
}

/// Whether the sign bit of a single is set.
pub open spec fn is_negative(bits: u32) -> bool {
    bits >= 0x8000_0000
}

/// `magnitude` with the sign of the single `bits`.
pub open spec fn signed(bits: u32, magnitude: nat) -> int {
    if is_negative(bits) {
        -(magnitude as int)
    } else {
        magnitude as int
    }
}

/// The whole number that the single `bits` is, and `None` where it is not a
/// whole number: where it is infinite or not a number, or has a fractional
/// part. Both zeros are the whole number 0.
///
/// A single with the exponent field `e` between 1 and 254 and the fraction
/// field `f` has the magnitude `(2^23 + f) * 2^(e - 150)`; with `e` zero it
/// has the magnitude `f * 2^-149`, which is below one.
pub open spec fn whole_value(bits: u32) -> Option<int> {
    let e = exponent_of(bits);
    let significand = fraction_of(bits) + 0x80_0000;
    if e == 255 {
        None
    } else if e == 0 {
        if fraction_of(bits) == 0 {
            Some(0)
        } else {
            None
        }
    } else if e < 127 {
        None
    } else if e >= 150 {
        Some(signed(bits, significand * two_to((e - 150) as nat)))
    } else if significand % two_to((150 - e) as nat) == 0 {
        Some(signed(bits, significand / two_to((150 - e) as nat)))
    } else {
        None
    }
}

/// The sign and the magnitude of the whole number that the single `bits`
/// is: the sign is set where the number is below zero.
pub open spec fn whole_parts(bits: u32) -> Option<(bool, nat)> {
    match whole_value(bits) {
        Some(v) => Some(
            (
                v < 0,
                if v < 0 {
                    (-v) as nat
                } else {
                    v as nat
                },
            ),
        ),
        None => None,
    }
}

/// Powers of two grow with the exponent.
pub proof fn lemma_two_to_grows(a: nat, b: nat)
    requires
        a <= b,
    ensures
        two_to(a) <= two_to(b),
        two_to(a) > 0,
    decreases b,
{
    if a < b {
        lemma_two_to_grows(a, (b - 1) as nat);
    } else if a > 0 {
        lemma_two_to_grows((a - 1) as nat, (a - 1) as nat);
    }
}

/// The powers of two that bound the computation below.
pub proof fn lemma_two_to_values()
    ensures
        two_to(0) == 1,
        two_to(23) == 0x80_0000,
        two_to(52) == 0x10_0000_0000_0000,
        two_to(104) == 0x100_0000_0000_0000_0000_0000_0000,
        two_to(127) == 0x8000_0000_0000_0000_0000_0000_0000_0000,
{
    reveal_with_fuel(two_to, 53);
    assert(two_to(52) == 0x10_0000_0000_0000);
    lemma_two_to_adds(52, 52);
    assert(two_to(104) == 0x10_0000_0000_0000 * 0x10_0000_0000_0000);
    lemma_two_to_adds(104, 23);
    assert(two_to(127) == 0x100_0000_0000_0000_0000_0000_0000 * 0x80_0000);
}

/// Two to a sum is the product of the powers.
pub proof fn lemma_two_to_adds(a: nat, b: nat)
    ensures
        two_to(a + b) == two_to(a) * two_to(b),
    decreases b,
{
    if b > 0 {
        lemma_two_to_adds(a, (b - 1) as nat);
        assert(two_to(a + b) == 2 * two_to((a + b - 1) as nat));
        assert(2 * (two_to(a) * two_to((b - 1) as nat)) == two_to(a) * (2 * two_to(
            (b - 1) as nat,
        ))) by (nonlinear_arith);
    } else {
        assert(two_to(a) * 1 == two_to(a));
    }
}

/// Two to the power of `k`, for `k` below 128.
fn power_of_two(k: u32) -> (r: u128)
    requires
        k < 128,
    ensures
        r == two_to(k as nat),
{
    let mut r: u128 = 1;
    let mut i: u32 = 0;
    proof {
        lemma_two_to_values();
        assert(1 * two_to(127) == two_to(127));
    }
    while i < k
        invariant
            i <= k < 128,
            r == two_to(i as nat),
            r * two_to((127 - i) as nat) == 0x8000_0000_0000_0000_0000_0000_0000_0000,
        decreases k - i,
    {
        proof {
            let rest = two_to((126 - i) as nat);
            lemma_two_to_grows(0, (126 - i) as nat);
            assert(two_to((127 - i) as nat) == 2 * rest);
            assert((2 * r) * rest == r * (2 * rest)) by (nonlinear_arith);
            assert(2 * r <= (2 * r) * rest) by (nonlinear_arith)
                requires
                    rest >= 1,
            ;
        }
        r = r * 2;
        i = i + 1;
    }
    r
}

/// The whole number that the single `bits` is, as its sign and its
/// magnitude; `None` where the single has a fractional part, is infinite or
/// is not a number. No single is too large: the magnitude of the largest is
/// below two to the power of 128.
pub fn integral(bits: u32) -> (r: Option<(bool, u128)>)
    ensures
        r is Some == whole_parts(bits) is Some,
        r is Some ==> r->Some_0.0 == whole_parts(bits)->Some_0.0 && r->Some_0.1
            == whole_parts(bits)->Some_0.1,
{
    let e: u32 = (bits / 0x80_0000) % 0x100;
    let fraction: u32 = bits % 0x80_0000;
    let negative = bits >= 0x8000_0000;
    let significand: u128 = fraction as u128 + 0x80_0000;
    if e == 255 {
        None
    } else if e == 0 {
        if fraction == 0 {
            Some((false, 0))
        } else {
            None
        }
    } else if e < 127 {
        None
    } else if e >= 150 {
        let k: u32 = e - 150;
        let unit = power_of_two(k);
        proof {
            lemma_two_to_values();
            lemma_two_to_grows(k as nat, 104);
            assert(significand * unit <= 0xff_ffff * 0x100_0000_0000_0000_0000_0000_0000)
                by (nonlinear_arith)
                requires
                    significand <= 0xff_ffff,
                    unit <= 0x100_0000_0000_0000_0000_0000_0000,
            ;
            assert(significand * unit >= 1) by (nonlinear_arith)
                requires
                    significand >= 1,
                    unit >= 1,
            ;
        }
        let magnitude: u128 = significand * unit;
        Some((negative, magnitude))
    } else {
        let unit = power_of_two(150 - e);
        proof {
            lemma_two_to_values();
            lemma_two_to_grows((150 - e) as nat, 23);
            lemma_two_to_grows(0, (150 - e) as nat);
        }
        if significand % unit == 0 {
            let magnitude: u128 = significand / unit;
            assert(magnitude >= 1) by (nonlinear_arith)
                requires
                    magnitude == significand / unit,
                    significand >= 0x80_0000,
                    0 < unit <= 0x80_0000,
            ;
            Some((negative, magnitude))
        } else {
            None
        }
    }
}

} // verus!
