//! Percent-encoding of a raw name into a URL path segment.
//!
//! The encoding is byte-based over the UTF-8 form of the string: every
//! byte is kept as-is when it is an ASCII alphanumeric or one of
//! `-`, `_`, `.`, `~`, and is otherwise written as `%` followed by two
//! uppercase hexadecimal digits.

use vstd::prelude::*;
use vstd::utf8::encode_utf8;

verus! {

/// Bytes that percent-encoding keeps unchanged.
pub open spec fn is_unreserved_byte(b: u8) -> bool {
    ||| (48 <= b && b <= 57)  // '0'..='9'
    ||| (65 <= b && b <= 90)  // 'A'..='Z'
    ||| (97 <= b && b <= 122)  // 'a'..='z'
    ||| b == 45  // '-'
    ||| b == 95  // '_'
    ||| b == 46  // '.'
    ||| b == 126  // '~'
}

/// The uppercase hexadecimal digit character for a value in 0..=15.
pub open spec fn hex_char(d: int) -> char {
    if d == 0 {
        '0'
    } else if d == 1 {
        '1'
    } else if d == 2 {
        '2'
    } else if d == 3 {
        '3'
    } else if d == 4 {
        '4'
    } else if d == 5 {
        '5'
    } else if d == 6 {
        '6'
    } else if d == 7 {
        '7'
    } else if d == 8 {
        '8'
    } else if d == 9 {
        '9'
    } else if d == 10 {
        'A'
    } else if d == 11 {
        'B'
    } else if d == 12 {
        'C'
    } else if d == 13 {
        'D'
    } else if d == 14 {
        'E'
    } else {
        'F'
    }
}

/// The characters a single byte contributes to the encoded form.
pub open spec fn encoded_byte_chars(b: u8) -> Seq<char> {
    if is_unreserved_byte(b) {
        seq![b as char]
    } else {
        seq!['%', hex_char(b as int / 16), hex_char(b as int % 16)]
    }
}

/// The encoded form of a byte sequence.
pub open spec fn percent_encoded_bytes(bs: Seq<u8>) -> Seq<char>
    decreases bs.len(),
{
    if bs.len() == 0 {
        Seq::empty()
    } else {
        encoded_byte_chars(bs[0]) + percent_encoded_bytes(bs.drop_first())
    }
}

/// The percent-encoded form of a string: its UTF-8 bytes, each kept or
/// expanded to `%XX`.
pub open spec fn percent_encoded(s: Seq<char>) -> Seq<char> {
    percent_encoded_bytes(encode_utf8(s))
}

/// Relies on `urlencoding::encode`: percent-encodes every byte of the
/// UTF-8 form except ASCII alphanumerics and `-`, `_`, `.`, `~`, using
/// `%` plus two uppercase hexadecimal digits for the rest.
#[verifier::external_body]
pub(crate) fn percent_encode(s: &str) -> (r: String)
    ensures
        r@ == percent_encoded(s@),
{
    urlencoding::encode(s).into_owned()
}

} // verus!
