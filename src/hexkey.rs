//! Text handling for hex-encoded secrets: prefix stripping and decoding.
use vstd::prelude::*;
use vstd::string::*;

verus! {

/// `s` with a leading `0x` or `0X` removed, if it has one.
pub open spec fn strip_hex_prefix(s: Seq<char>) -> Seq<char> {
    if s.len() >= 2 && s[0] == '0' && (s[1] == 'x' || s[1] == 'X') {
        s.subrange(2, s.len() as int)
    } else {
        s
    }
}

/// Whether `c` is an ASCII hex digit, of either case.
pub open spec fn is_hex_digit(c: char) -> bool {
    ('0' <= c && c <= '9') || ('a' <= c && c <= 'f') || ('A' <= c && c <= 'F')
}

/// The value of a hex digit.
pub open spec fn hex_digit_value(c: char) -> int {
    if '0' <= c && c <= '9' {
        c as int - '0' as int
    } else if 'a' <= c && c <= 'f' {
        c as int - 'a' as int + 10
    } else {
        c as int - 'A' as int + 10
    }
}

/// Whether `s` is a whole number of bytes written as hex digits.
pub open spec fn is_hex_text(s: Seq<char>) -> bool {
    s.len() % 2 == 0 && forall|i: int| 0 <= i < s.len() ==> is_hex_digit(#[trigger] s[i])
}

/// The bytes that the hex text `s` stands for, two digits each, high digit first.
pub open spec fn hex_bytes(s: Seq<char>) -> Seq<u8> {
    Seq::new(
        s.len() / 2,
        |i: int| (hex_digit_value(s[2 * i]) * 16 + hex_digit_value(s[2 * i + 1])) as u8,
    )
}

/// Strips a leading `0x` or `0X` from `input`.
pub fn remove_0x_prefix(input: &str) -> (r: String)
    ensures
        r@ == strip_hex_prefix(input@),
{
    let n = input.unicode_len();
    if n >= 2 && input.get_char(0) == '0' && (input.get_char(1) == 'x' || input.get_char(1)
        == 'X') {
        input.substring_char(2, n).to_owned()
    } else {
        input.to_owned()
    }
}

/// Relies on hex::decode: upper and lower case digits, two per byte, high digit
/// first; an odd length or any other character is an error.
#[verifier::external_body]
fn hex_decode(s: &str) -> (r: Option<Vec<u8>>)
    ensures
        r.is_some() <==> is_hex_text(s@),
        r matches Some(v) ==> v@ == hex_bytes(s@),
{
    hex::decode(s).ok()
}

/// Decodes a private key written in hex, with or without a `0x` prefix.
/// `None` where the rest is not a whole number of bytes in hex digits.
pub fn decode_private_key(input: &str) -> (r: Option<Vec<u8>>)
    ensures
        r.is_some() <==> is_hex_text(strip_hex_prefix(input@)),
        r matches Some(v) ==> v@ == hex_bytes(strip_hex_prefix(input@)),
{
    let digits = remove_0x_prefix(input);
    hex_decode(digits.as_str())
}

} // verus!
