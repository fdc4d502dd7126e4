//! Percent-encoding, through the `urlencoding` crate.
use vstd::prelude::*;
use vstd::utf8::*;

verus! {

/// The value of an ASCII hex digit (either case).
pub open spec fn hex_value(b: u8) -> Option<u8> {
    if 48 <= b && b <= 57 {
        Some((b - 48) as u8)
    } else if 65 <= b && b <= 70 {
        Some((b - 55) as u8)
    } else if 97 <= b && b <= 102 {
        Some((b - 87) as u8)
    } else {
        None
    }
}

/// Percent-decoding of bytes: every `%` followed by two hex digits becomes the byte they spell;
/// any other byte, a lone `%` included, stays as it is. `+` is not a space.
pub open spec fn percent_decode_bytes(b: Seq<u8>) -> Seq<u8>
    decreases b.len(),
{
    if b.len() == 0 {
        Seq::empty()
    } else if b[0] == 37 && b.len() >= 3 && hex_value(b[1]) is Some && hex_value(b[2]) is Some {
        seq![(hex_value(b[1])->0 * 16 + hex_value(b[2])->0) as u8] + percent_decode_bytes(b.skip(3))
    } else {
        seq![b[0]] + percent_decode_bytes(b.drop_first())
    }
}

/// `urlencoding::decode`: the percent-decoded bytes of `s`'s UTF-8, when they are UTF-8 again.
pub open spec fn percent_decoded(s: Seq<char>) -> Option<Seq<char>> {
    let bytes = percent_decode_bytes(encode_utf8(s));
    if valid_utf8(bytes) { Some(decode_utf8(bytes)) } else { None }
}

/// `urlencoding::decode`. The crate turns each `%` plus two hex digits into that byte, keeps every
/// other byte (a stray `%` and `+` included), and fails only when the result is not UTF-8. The
/// failure is reported here as `None`.
#[verifier::external_body]
pub(crate) fn percent_decode(s: &str) -> (r: Option<String>)
    ensures
        match r {
            Some(t) => percent_decoded(s@) == Some(t@),
            None => percent_decoded(s@) is None,
        },
{
    urlencoding::decode(s).ok().map(|c| c.into_owned())
}

/// The bytes `urlencoding` leaves alone: ASCII letters, digits, `-`, `.`, `_` and `~`.
pub open spec fn is_unreserved(b: u8) -> bool {
    (48 <= b && b <= 57) || (65 <= b && b <= 90) || (97 <= b && b <= 122) || b == 45 || b == 46
        || b == 95 || b == 126
}

/// An upper-case hex digit.
pub open spec fn hex_digit(d: u8) -> char {
    if d < 10 { (48 + d) as char } else { (55 + d) as char }
}

/// Percent-encoding of bytes: unreserved bytes as themselves, every other byte as `%` and two
/// upper-case hex digits.
pub open spec fn percent_encode_bytes(b: Seq<u8>) -> Seq<char>
    decreases b.len(),
{
    if b.len() == 0 {
        Seq::empty()
    } else if is_unreserved(b[0]) {
        seq![b[0] as char] + percent_encode_bytes(b.drop_first())
    } else {
        seq!['%', hex_digit(b[0] / 16), hex_digit(b[0] % 16)] + percent_encode_bytes(b.drop_first())
    }
}

/// `urlencoding::encode`: the percent-encoding of `s`'s UTF-8.
pub open spec fn percent_encoded(s: Seq<char>) -> Seq<char> {
    percent_encode_bytes(encode_utf8(s))
}

/// `urlencoding::encode`. The crate writes every byte of the UTF-8 of `s` except ASCII letters,
/// digits, `-`, `.`, `_` and `~` as `%` and two upper-case hex digits.
#[verifier::external_body]
pub(crate) fn percent_encode(s: &str) -> (r: String)
    ensures
        r@ == percent_encoded(s@),
{
    urlencoding::encode(s).into_owned()
}

} // verus!
