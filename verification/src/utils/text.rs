//! Text built from numbers and bytes.

use vstd::prelude::*;
use vstd::string::StringExecFns;
use vstd::utf8::{decode_utf8, valid_utf8};

verus! {

/// The character of the decimal digit `d`.
pub open spec fn digit_char(d: int) -> char {
    if d == 0 {
        '0'
    } else if d == 1 {
        '1'
    } else if d == 2 {
        '2'
    } else if d == 3 {
        '3'
    } else if d == 4 {
        '4'
    } else if d == 5 {
        '5'
    } else if d == 6 {
        '6'
    } else if d == 7 {
        '7'
    } else if d == 8 {
        '8'
    } else {
        '9'
    }
}

/// The decimal digits of `n`, without leading zeros.
pub open spec fn decimal(n: nat) -> Seq<char>
    decreases n,
{
    if n < 10 {
        seq![digit_char(n as int)]
    } else {
        decimal(n / 10).push(digit_char((n % 10) as int))
    }
}

/// The decimal digits of `v`, with a minus sign where it is negative.
pub open spec fn signed_decimal(v: int) -> Seq<char> {
    if v < 0 {
        seq!['-'] + decimal((-v) as nat)
    } else {
        decimal(v as nat)
    }
}

/// The decimal digits of `n`, with a zero in front where there is one digit only.
pub open spec fn two_digits(n: nat) -> Seq<char> {
    if n < 10 {
        seq!['0'] + decimal(n)
    } else {
        decimal(n)
    }
}

/// The digits of a number are digits: there is no decimal point among them.
pub proof fn lemma_decimal_has_no_point(n: nat)
    ensures
        decimal(n).len() > 0,
        forall|i: int| 0 <= i < decimal(n).len() ==> #[trigger] decimal(n)[i] != '.',
    decreases n,
{
    if n >= 10 {
        lemma_decimal_has_no_point(n / 10);
    }
}

/// The one-character text of a digit.
fn digit_str(d: u8) -> (s: &'static str)
    requires
        d < 10,
    ensures
        s@ == seq![digit_char(d as int)],
{
    proof {
        reveal_strlit("0");
        reveal_strlit("1");
        reveal_strlit("2");
        reveal_strlit("3");
        reveal_strlit("4");
        reveal_strlit("5");
        reveal_strlit("6");
        reveal_strlit("7");
        reveal_strlit("8");
        reveal_strlit("9");
    }
    let s = if d == 0 {
        "0"
    } else if d == 1 {
        "1"
    } else if d == 2 {
        "2"
    } else if d == 3 {
        "3"
    } else if d == 4 {
        "4"
    } else if d == 5 {
        "5"
    } else if d == 6 {
        "6"
    } else if d == 7 {
        "7"
    } else if d == 8 {
        "8"
    } else {
        "9"
    };
    assert(s@ =~= seq![digit_char(d as int)]);
    s
}

/// Appends the decimal digits of `n`.
pub fn push_decimal_u128(out: &mut String, n: u128)
    ensures
        final(out)@ == old(out)@ + decimal(n as nat),
    decreases n,
{
    if n >= 10 {
        push_decimal_u128(out, n / 10);
    }
    out.append(digit_str((n % 10) as u8));
    assert(out@ =~= old(out)@ + decimal(n as nat));
}

/// Appends the decimal digits of `n`.
pub fn push_decimal(out: &mut String, n: u64)
    ensures
        final(out)@ == old(out)@ + decimal(n as nat),
{
    push_decimal_u128(out, n as u128);
}

/// The character of the hexadecimal digit `d`, in upper case.
pub open spec fn hex_char(d: int) -> char {
    if d < 10 {
        digit_char(d)
    } else if d == 10 {
        'A'
    } else if d == 11 {
        'B'
    } else if d == 12 {
        'C'
    } else if d == 13 {
        'D'
    } else if d == 14 {
        'E'
    } else {
        'F'
    }
}

/// The two hexadecimal digits of every byte, in upper case.
pub open spec fn hex_upper(bytes: Seq<u8>) -> Seq<char>
    decreases bytes.len(),
{
    if bytes.len() == 0 {
        Seq::empty()
    } else {
        hex_upper(bytes.drop_last()).push(hex_char(bytes.last() as int / 16)).push(
            hex_char(bytes.last() as int % 16),
        )
    }
}

/// The one-character text of a hexadecimal digit.
fn hex_str(d: u8) -> (s: &'static str)
    requires
        d < 16,
    ensures
        s@ == seq![hex_char(d as int)],
{
    if d < 10 {
        digit_str(d)
    } else {
        proof {
            reveal_strlit("A");
            reveal_strlit("B");
            reveal_strlit("C");
            reveal_strlit("D");
            reveal_strlit("E");
            reveal_strlit("F");
        }
        let s = if d == 10 {
            "A"
        } else if d == 11 {
            "B"
        } else if d == 12 {
            "C"
        } else if d == 13 {
            "D"
        } else if d == 14 {
            "E"
        } else {
            "F"
        };
        assert(s@ =~= seq![hex_char(d as int)]);
        s
    }
}

/// Appends the two hexadecimal digits of every byte of `bytes[from..to]`.
pub fn push_hex_upper(out: &mut String, bytes: &[u8], from: usize, to: usize)
    requires
        from <= to <= bytes@.len(),
    ensures
        final(out)@ == old(out)@ + hex_upper(bytes@.subrange(from as int, to as int)),
{
    let mut i: usize = from;
    assert(bytes@.subrange(from as int, from as int) =~= Seq::<u8>::empty());
    assert(out@ =~= old(out)@ + hex_upper(bytes@.subrange(from as int, i as int)));
    while i < to
        invariant
            from <= i <= to <= bytes@.len(),
            out@ == old(out)@ + hex_upper(bytes@.subrange(from as int, i as int)),
        decreases to - i,
    {
        let ghost done = bytes@.subrange(from as int, i as int);
        let b = bytes[i];
        out.append(hex_str(b / 16));
        out.append(hex_str(b % 16));
        i += 1;
        proof {
            let next = bytes@.subrange(from as int, i as int);
            assert(next.drop_last() =~= done);
            assert(next.last() == b);
            assert(out@ =~= old(out)@ + hex_upper(next));
        }
    }
}

/// The character of the hexadecimal digit `d`, in lower case.
pub open spec fn hex_char_lower(d: int) -> char {
    if d < 10 {
        digit_char(d)
    } else if d == 10 {
        'a'
    } else if d == 11 {
        'b'
    } else if d == 12 {
        'c'
    } else if d == 13 {
        'd'
    } else if d == 14 {
        'e'
    } else {
        'f'
    }
}

/// The two hexadecimal digits of every byte, in lower case.
pub open spec fn hex_lower(bytes: Seq<u8>) -> Seq<char>
    decreases bytes.len(),
{
    if bytes.len() == 0 {
        Seq::empty()
    } else {
        hex_lower(bytes.drop_last()).push(hex_char_lower(bytes.last() as int / 16)).push(
            hex_char_lower(bytes.last() as int % 16),
        )
    }
}

/// The one-character text of a hexadecimal digit, in lower case.
fn hex_str_lower(d: u8) -> (s: &'static str)
    requires
        d < 16,
    ensures
        s@ == seq![hex_char_lower(d as int)],
{
    if d < 10 {
        digit_str(d)
    } else {
        proof {
            reveal_strlit("a");
            reveal_strlit("b");
            reveal_strlit("c");
            reveal_strlit("d");
            reveal_strlit("e");
            reveal_strlit("f");
        }
        let s = if d == 10 {
            "a"
        } else if d == 11 {
            "b"
        } else if d == 12 {
            "c"
        } else if d == 13 {
            "d"
        } else if d == 14 {
            "e"
        } else {
            "f"
        };
        assert(s@ =~= seq![hex_char_lower(d as int)]);
        s
    }
}

/// Appends the two hexadecimal digits of every byte of `bytes`, in lower
/// case.
pub fn push_hex_lower(out: &mut String, bytes: &[u8])
    ensures
        final(out)@ == old(out)@ + hex_lower(bytes@),
{
    let mut i: usize = 0;
    assert(bytes@.subrange(0, 0) =~= Seq::<u8>::empty());
    assert(out@ =~= old(out)@ + hex_lower(bytes@.subrange(0, 0)));
    while i < bytes.len()
        invariant
            i <= bytes@.len(),
            out@ == old(out)@ + hex_lower(bytes@.subrange(0, i as int)),
        decreases bytes@.len() - i,
    {
        let ghost done = bytes@.subrange(0, i as int);
        let b = bytes[i];
        out.append(hex_str_lower(b / 16));
        out.append(hex_str_lower(b % 16));
        i += 1;
        proof {
            let next = bytes@.subrange(0, i as int);
            assert(next.drop_last() =~= done);
            assert(next.last() == b);
            assert(out@ =~= old(out)@ + hex_lower(next));
        }
    }
    assert(bytes@.subrange(0, i as int) =~= bytes@);
}

/// Appends the decimal digits of `v`, with a minus sign where it is negative.
pub fn push_signed_decimal(out: &mut String, v: i64)
    ensures
        final(out)@ == old(out)@ + signed_decimal(v as int),
{
    if v < 0 {
        proof {
            reveal_strlit("-");
        }
        out.append("-");
        let magnitude: u64 = (-(v + 1)) as u64 + 1;
        push_decimal(out, magnitude);
        assert(out@ =~= old(out)@ + signed_decimal(v as int));
    } else {
        push_decimal(out, v as u64);
    }
}

/// Appends the decimal digits of `n`, at least two of them.
pub fn push_two_digits(out: &mut String, n: u64)
    ensures
        final(out)@ == old(out)@ + two_digits(n as nat),
{
    if n < 10 {
        proof {
            reveal_strlit("0");
        }
        out.append("0");
    }
    push_decimal(out, n);
    assert(out@ =~= old(out)@ + two_digits(n as nat));
}

/// The text that `bytes` encode in UTF-8, and `None` where they encode none.
///
/// Trusted: this is `String::from_utf8`, which gives the string whose bytes
/// are the argument where these are valid UTF-8, and an error otherwise.
#[verifier::external_body]
pub(crate) fn string_from_utf8(bytes: Vec<u8>) -> (r: Option<String>)
    ensures
        r is Some == valid_utf8(bytes@),
        r is Some ==> r->Some_0@ == decode_utf8(bytes@),
{
    match String::from_utf8(bytes) {
        Ok(s) => Some(s),
        Err(_) => None,
    }
}

/// The lower-case form of a text.
pub uninterp spec fn lowercase_of(text: Seq<char>) -> Seq<char>;

/// Whether `pattern` stands somewhere in `text`.
pub open spec fn spec_contains(text: Seq<char>, pattern: Seq<char>) -> bool {
    exists|i: int|
        0 <= i <= text.len() - pattern.len() && #[trigger] text.subrange(i, i + pattern.len())
            == pattern
}

/// Whether `text` ends with `suffix`.
pub open spec fn spec_ends_with(text: Seq<char>, suffix: Seq<char>) -> bool {
    text.len() >= suffix.len() && text.subrange(text.len() - suffix.len(), text.len() as int)
        == suffix
}

/// The lower-case form of `text`.
///
/// Trusted: this is `str::to_lowercase`, which maps the text by the rules of
/// Unicode and depends on the text alone.
#[verifier::external_body]
pub(crate) fn to_lowercase(text: &str) -> (r: String)
    ensures
        r@ == lowercase_of(text@),
{
    text.to_lowercase()
}

/// Whether `pattern` stands somewhere in `text`.
///
/// Trusted: this is `str::contains` with a string as the pattern, which is
/// true exactly where the pattern is a part of the text.
#[verifier::external_body]
pub(crate) fn contains(text: &str, pattern: &str) -> (r: bool)
    ensures
        r == spec_contains(text@, pattern@),
{
    text.contains(pattern)
}

/// Whether `text` ends with `suffix`.
///
/// Trusted: this is `str::ends_with` with a string as the pattern, which is
/// true exactly where the pattern is the end of the text.
#[verifier::external_body]
pub(crate) fn ends_with(text: &str, suffix: &str) -> (r: bool)
    ensures
        r == spec_ends_with(text@, suffix@),
{
    text.ends_with(suffix)
}

/// The text that bytes are read as where what is not UTF-8 is replaced.
pub uninterp spec fn lossy_text(bytes: Seq<u8>) -> Seq<char>;

/// The text that `bytes` are read as, with the replacement character in the
/// place of what is not UTF-8.
///
/// Trusted: this is `String::from_utf8_lossy`, which gives the text that the
/// bytes encode where they are valid UTF-8, and depends on the bytes alone.
#[verifier::external_body]
pub(crate) fn from_utf8_lossy(bytes: &[u8]) -> (r: String)
    ensures
        r@ == lossy_text(bytes@),
        valid_utf8(bytes@) ==> r@ == decode_utf8(bytes@),
{
    String::from_utf8_lossy(bytes).into_owned()
}

/// A text without the white space at its start and at its end.
pub uninterp spec fn trimmed_of(text: Seq<char>) -> Seq<char>;

/// Where `separator` stands first in `text`, if it does.
pub open spec fn first_index(text: Seq<char>, separator: char) -> Option<int>
    decreases text.len(),
{
    if text.len() == 0 {
        None
    } else if text[0] == separator {
        Some(0)
    } else {
        match first_index(text.drop_first(), separator) {
            Some(i) => Some(i + 1),
            None => None,
        }
    }
}

/// The pieces of `text` between its separators; one piece more than there
/// are separators.
pub open spec fn spec_split(text: Seq<char>, separator: char) -> Seq<Seq<char>>
    decreases text.len(),
{
    match first_index(text, separator) {
        Some(i) => if 0 <= i < text.len() {
            seq![text.subrange(0, i)] + spec_split(text.subrange(i + 1, text.len() as int), separator)
        } else {
            seq![text]
        },
        None => seq![text],
    }
}

/// The pieces of `text` between its commas.
///
/// Trusted: this collects `str::split` with a comma as the pattern, which
/// yields the pieces between the commas in their order.
#[verifier::external_body]
pub(crate) fn split_commas(text: &str) -> (r: Vec<String>)
    ensures
        r@.len() == spec_split(text@, ',').len(),
        forall|i: int| 0 <= i < r@.len() ==> (#[trigger] r@[i])@ == spec_split(text@, ',')[i],
{
    text.split(',').map(String::from).collect()
}

/// `text` without the white space around it.
///
/// Trusted: this is `str::trim`, which removes the white space of Unicode
/// at both ends and depends on the text alone.
#[verifier::external_body]
pub(crate) fn trim(text: &str) -> (r: String)
    ensures
        r@ == trimmed_of(text@),
{
    text.trim().to_string()
}

/// `text` without the character `prefix` at its start, where it starts with it.
///
/// Trusted: this is `str::strip_prefix` with a character as the pattern,
/// which gives the rest of the text where the text starts with the character.
#[verifier::external_body]
pub(crate) fn strip_prefix(text: &str, prefix: char) -> (r: Option<String>)
    ensures
        r is Some == (text@.len() > 0 && text@[0] == prefix),
        r is Some ==> r->Some_0@ == text@.subrange(1, text@.len() as int),
{
    text.strip_prefix(prefix).map(String::from)
}

} // verus!
