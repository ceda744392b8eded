//! Helpers shared by the decoders.

pub mod lumberyard;
pub mod text;
pub mod types;

use crate::utils::text::{push_two_digits, two_digits};
use std::time::Duration;
use vstd::prelude::*;
use vstd::string::StringExecFns;
use vstd::string::StringSliceAdditionalSpecFns;

verus! {

/// The checksum register after one more bit: shifted down by one, and
/// combined with the reflected polynomial where a one fell out.
pub open spec fn crc_shifted(register: u32) -> u32 {
    if register & 1 == 1 {
        (register >> 1) ^ 0xEDB8_8320
    } else {
        register >> 1
    }
}

/// The checksum register after the byte `b`: the byte is combined into the
/// low bits, and the register is shifted eight times.
pub open spec fn crc_fed(register: u32, b: u8) -> u32 {
    crc_shifted(
        crc_shifted(
            crc_shifted(
                crc_shifted(
                    crc_shifted(crc_shifted(crc_shifted(crc_shifted(register ^ (b as u32))))),
                ),
            ),
        ),
    )
}

/// The checksum register after `bytes`, from a register of ones.
pub open spec fn crc_register(bytes: Seq<u8>) -> u32
    decreases bytes.len(),
{
    if bytes.len() == 0 {
        0xFFFF_FFFF
    } else {
        crc_fed(crc_register(bytes.drop_last()), bytes.last())
    }
}

/// The CRC32 checksum (IEEE 802.3) of a sequence of bytes: the register
/// after the bytes, with every bit turned over.
pub open spec fn crc32_of(bytes: Seq<u8>) -> u32 {
    crc_register(bytes) ^ 0xFFFF_FFFF
}

/// The whole seconds that a duration holds.
pub uninterp spec fn seconds_of(duration: Duration) -> u64;

/// The CRC32 checksum of `bytes`.
///
/// Trusted: this is `crc32fast::hash`, which documents its result as the
/// IEEE CRC32 of the slice. The contract states that checksum bit by bit;
/// that the crate's tables and vector code compute it was not proved.
#[verifier::external_body]
pub(crate) fn hash(bytes: &[u8]) -> (r: u32)
    ensures
        r == crc32_of(bytes@),
{
    crc32fast::hash(bytes)
}

/// Trusted: `Duration::as_secs` gives the whole seconds of the duration.
pub assume_specification[ Duration::as_secs ](duration: &Duration) -> (secs: u64)
    ensures
        secs == seconds_of(*duration),
;

/// The CRC32 checksum of the UTF-8 bytes of `string`.
pub fn crc32(string: &str) -> (r: u32)
    ensures
        r == crc32_of(string.spec_bytes()),
{
    hash(string.as_bytes())
}

/// A number of seconds as hours, minutes and seconds: `HHh:MMm:SSs` from one
/// hour on, `MMm:SSs` from one minute on, else `SSs`; each number has at
/// least two digits.
pub open spec fn duration_text(secs: nat) -> Seq<char> {
    let minutes = secs / 60;
    let hours = minutes / 60;
    if hours > 0 {
        two_digits(hours) + "h:"@ + two_digits(minutes % 60) + "m:"@ + two_digits(secs % 60)
            + "s"@
    } else if minutes > 0 {
        two_digits(minutes) + "m:"@ + two_digits(secs % 60) + "s"@
    } else {
        two_digits(secs) + "s"@
    }
}

/// Writes a number of seconds as hours, minutes and seconds.
pub fn format_seconds(secs: u64) -> (r: String)
    ensures
        r@ == duration_text(secs as nat),
{
    let minutes = secs / 60;
    let hours = minutes / 60;
    let mut out = String::new();
    if hours > 0 {
        push_two_digits(&mut out, hours);
        out.append("h:");
        push_two_digits(&mut out, minutes % 60);
        out.append("m:");
        push_two_digits(&mut out, secs % 60);
        out.append("s");
    } else if minutes > 0 {
        push_two_digits(&mut out, minutes);
        out.append("m:");
        push_two_digits(&mut out, secs % 60);
        out.append("s");
    } else {
        push_two_digits(&mut out, secs);
        out.append("s");
    }
    assert(out@ =~= duration_text(secs as nat));
    out
}

/// Writes the whole seconds of a duration as hours, minutes and seconds.
pub fn format_duration(duration: Duration) -> (r: String)
    ensures
        r@ == duration_text(seconds_of(duration) as nat),
{
    format_seconds(duration.as_secs())
}

} // verus!
