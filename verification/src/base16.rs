//! Hexadecimal text: the form in which digests, signatures and keys are stored.

use vstd::prelude::*;
use crate::text::utf8;

verus! {

/// The lowercase hexadecimal digit of a value below 16.
pub open spec fn hex_digit(nibble: int) -> char {
    if nibble < 10 {
        ((nibble + 48) as u8) as char
    } else {
        ((nibble + 87) as u8) as char
    }
}

/// Two lowercase hexadecimal digits per byte, the high nibble first.
pub open spec fn hex_string(data: Seq<u8>) -> Seq<char> {
    Seq::new(
        2 * data.len(),
        |i: int|
            if i % 2 == 0 {
                hex_digit(data[i / 2] as int / 16)
            } else {
                hex_digit(data[i / 2] as int % 16)
            },
    )
}

/// Calls `hex::encode`. The result holds two lowercase hexadecimal digits for
/// each byte of `data`, in order, the high nibble first.
#[verifier::external_body]
pub(crate) fn hex_encode(data: &[u8]) -> (text: String)
    ensures
        text@ == hex_string(data@),
{
    hex::encode(data)
}

/// The value of one hexadecimal digit given as an ASCII byte, in either case.
pub open spec fn hex_value(digit: u8) -> Option<int> {
    if 48 <= digit <= 57 {
        Some(digit - 48)
    } else if 97 <= digit <= 102 {
        Some(digit - 87)
    } else if 65 <= digit <= 70 {
        Some(digit - 55)
    } else {
        None
    }
}

/// Whether `text` is an even number of hexadecimal digits.
pub open spec fn is_hex(text: Seq<u8>) -> bool {
    &&& text.len() % 2 == 0
    &&& forall|i: int| 0 <= i < text.len() ==> hex_value(#[trigger] text[i]) is Some
}

/// The bytes that the hexadecimal digits of `text` denote, two digits per byte.
pub open spec fn hex_bytes(text: Seq<u8>) -> Seq<u8> {
    Seq::new(
        text.len() / 2,
        |i: int| (16 * hex_value(text[2 * i]).unwrap() + hex_value(text[2 * i + 1]).unwrap()) as u8,
    )
}

/// Calls `hex::decode`. It succeeds exactly on an even number of ASCII
/// hexadecimal digits, of either case, and then yields the byte that each pair
/// of digits denotes.
#[verifier::external_body]
pub(crate) fn hex_decode(text: &[u8]) -> (bytes: Option<Vec<u8>>)
    ensures
        bytes is Some <==> is_hex(text@),
        bytes is Some ==> bytes.unwrap()@ == hex_bytes(text@),
{
    hex::decode(text).ok()
}

/// Hexadecimal text is ASCII, so its UTF-8 bytes are its characters.
pub proof fn lemma_hex_string_bytes(data: Seq<u8>)
    ensures
        utf8(hex_string(data)).len() == 2 * data.len(),
        forall|i: int|
            0 <= i < 2 * data.len() ==> #[trigger] utf8(hex_string(data))[i] == hex_string(
                data,
            )[i] as u8,
{
    vstd::utf8::is_ascii_chars_encode_utf8(hex_string(data));
}

/// Decoding the hexadecimal text of `data` gives `data` back.
pub proof fn lemma_hex_round_trip(data: Seq<u8>)
    ensures
        is_hex(utf8(hex_string(data))),
        hex_bytes(utf8(hex_string(data))) == data,
{
    lemma_hex_string_bytes(data);
    assert(hex_bytes(utf8(hex_string(data))) =~= data);
}

/// Different byte strings have different hexadecimal text.
pub proof fn lemma_hex_string_injective(a: Seq<u8>, b: Seq<u8>)
    requires
        hex_string(a) == hex_string(b),
    ensures
        a == b,
{
    lemma_hex_round_trip(a);
    lemma_hex_round_trip(b);
}

} // verus!
