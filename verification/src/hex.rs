//! Lower-case base16 encoding and decoding, through the base16 crate.

use vstd::prelude::*;

verus! {

/// The base16 decode error, kept opaque; verified code maps it to an error
/// of the library's own.
#[verifier::external_type_specification]
#[verifier::external_body]
pub struct ExDecodeError(base16::DecodeError);

/// Whether a byte is an ASCII hexadecimal digit (either case).
pub open spec fn spec_is_hex_digit(b: u8) -> bool {
    (48 <= b <= 57) || (97 <= b <= 102) || (65 <= b <= 70)
}

/// The value of an ASCII hexadecimal digit.
pub open spec fn spec_hex_val(b: u8) -> int {
    if 48 <= b <= 57 {
        b - 48
    } else if 97 <= b <= 102 {
        b - 87
    } else {
        b - 55
    }
}

/// The lower-case ASCII digit character of a nibble value.
pub open spec fn spec_hex_digit_char(n: int) -> char {
    if n < 10 {
        ((48 + n) as u8) as char
    } else {
        ((87 + n) as u8) as char
    }
}

/// The lower-case hexadecimal rendering of a byte string: two digit
/// characters per byte, high nibble first.
pub open spec fn spec_hex_lower(bs: Seq<u8>) -> Seq<char> {
    Seq::new(
        2 * bs.len(),
        |i: int|
            if i % 2 == 0 {
                spec_hex_digit_char(bs[i / 2] as int / 16)
            } else {
                spec_hex_digit_char(bs[i / 2] as int % 16)
            },
    )
}

/// Whether a byte string is decodable base16: even length, hexadecimal
/// digits only.
pub open spec fn spec_hex_decodable(bs: Seq<u8>) -> bool {
    bs.len() % 2 == 0 && forall|i: int| 0 <= i < bs.len() ==> spec_is_hex_digit(#[trigger] bs[i])
}

/// The bytes denoted by a decodable hexadecimal byte string.
pub open spec fn spec_hex_decode(bs: Seq<u8>) -> Seq<u8> {
    Seq::new(
        bs.len() / 2,
        |i: int| (spec_hex_val(bs[2 * i]) * 16 + spec_hex_val(bs[2 * i + 1])) as u8,
    )
}

/// Relies on base16's `encode_lower`: two lower-case hexadecimal digits per
/// input byte, high nibble first.
#[verifier::external_body]
pub(crate) fn hex_encode_lower(bs: &[u8]) -> (r: String)
    ensures
        r@ == spec_hex_lower(bs@),
{
    base16::encode_lower(bs)
}

/// Relies on base16's `decode`: succeeds exactly on even-length strings of
/// hexadecimal digits (either case), yielding one byte per digit pair.
#[verifier::external_body]
pub(crate) fn hex_decode(bs: &[u8]) -> (r: Result<Vec<u8>, base16::DecodeError>)
    ensures
        match r {
            Ok(v) => spec_hex_decodable(bs@) && v@ == spec_hex_decode(bs@),
            Err(_) => !spec_hex_decodable(bs@),
        },
{
    base16::decode(bs)
}

/// Relies on `String::from_utf8`: ASCII bytes are valid UTF-8 and decode to
/// the characters with the same code points.
#[verifier::external_body]
pub(crate) fn ascii_bytes_to_string(bs: Vec<u8>) -> (r: String)
    requires
        forall|i: int| 0 <= i < bs@.len() ==> bs@[i] < 128,
    ensures
        r@ == bs@.map_values(|b: u8| b as char),
{
    match String::from_utf8(bs) {
        Ok(s) => s,
        Err(_) => String::new(),
    }
}

} // verus!
