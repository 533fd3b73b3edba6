//! Hexadecimal text, as the `hex` crate writes and reads it.

use vstd::prelude::*;

verus! {

#[verifier::external_type_specification]
#[verifier::external_body]
pub struct ExFromHexError(hex::FromHexError);

/// The lower-case hexadecimal digit for a nibble `n` in `0..16`.
pub open spec fn lower_hex_digit(n: int) -> char {
    if n < 10 {
        (n + 48) as char
    } else {
        (n + 87) as char
    }
}

/// A hexadecimal digit, in either case.
pub open spec fn is_hex_char(c: char) -> bool {
    ||| '0' <= c && c <= '9'
    ||| 'a' <= c && c <= 'f'
    ||| 'A' <= c && c <= 'F'
}

/// The value of a hexadecimal digit.
pub open spec fn hex_char_value(c: char) -> int {
    if '0' <= c && c <= '9' {
        c as int - 48
    } else if 'a' <= c && c <= 'f' {
        c as int - 87
    } else {
        c as int - 55
    }
}

/// Each byte as two lower-case hexadecimal digits, high nibble first.
pub open spec fn hex_lower(bytes: Seq<u8>) -> Seq<char> {
    Seq::new(
        2 * bytes.len(),
        |i: int|
            if i % 2 == 0 {
                lower_hex_digit(bytes[i / 2] as int / 16)
            } else {
                lower_hex_digit(bytes[i / 2] as int % 16)
            },
    )
}

/// Text that decodes: an even number of hexadecimal digits.
pub open spec fn is_hex_text(text: Seq<char>) -> bool {
    &&& text.len() % 2 == 0
    &&& forall|i: int| 0 <= i < text.len() ==> is_hex_char(#[trigger] text[i])
}

/// The bytes that hexadecimal text stands for, two digits per byte.
pub open spec fn hex_bytes(text: Seq<char>) -> Seq<u8> {
    Seq::new(
        text.len() / 2,
        |i: int| (16 * hex_char_value(text[2 * i]) + hex_char_value(text[2 * i + 1])) as u8,
    )
}

/// `hex::encode`: the claim is that it writes every byte as two lower-case
/// hexadecimal digits, high nibble first (the crate's table `0123456789abcdef`).
#[verifier::external_body]
pub(crate) fn encode_hex(bytes: &[u8]) -> (text: String)
    ensures
        text@ == hex_lower(bytes@),
{
    hex::encode(bytes)
}

/// `hex::decode` on the UTF-8 bytes of `text`: the claim is that it succeeds
/// exactly on an even number of hexadecimal digits of either case (any other
/// character, being a byte outside `0-9a-fA-F` or encoded in several bytes,
/// fails), and then gives one byte per pair of digits.
#[verifier::external_body]
pub(crate) fn decode_hex(text: &str) -> (decoded: Result<Vec<u8>, hex::FromHexError>)
    ensures
        decoded is Ok <==> is_hex_text(text@),
        decoded matches Ok(bytes) ==> bytes@ == hex_bytes(text@),
{
    hex::decode(text)
}

proof fn lemma_digit_value(n: int)
    requires
        0 <= n < 16,
    ensures
        is_hex_char(lower_hex_digit(n)),
        hex_char_value(lower_hex_digit(n)) == n,
{
}

/// Lower-case hexadecimal text is twice as long as the bytes and decodes.
pub proof fn lemma_hex_lower_is_hex_text(bytes: Seq<u8>)
    ensures
        hex_lower(bytes).len() == 2 * bytes.len(),
        is_hex_text(hex_lower(bytes)),
{
    let text = hex_lower(bytes);
    assert forall|i: int| 0 <= i < text.len() implies is_hex_char(#[trigger] text[i]) by {
        lemma_digit_value(bytes[i / 2] as int / 16);
        lemma_digit_value(bytes[i / 2] as int % 16);
    }
}

/// Decoding what was encoded gives the bytes back.
pub proof fn lemma_hex_round_trip(bytes: Seq<u8>)
    ensures
        hex_bytes(hex_lower(bytes)) == bytes,
{
    let text = hex_lower(bytes);
    let back = hex_bytes(text);
    assert forall|i: int| 0 <= i < bytes.len() implies #[trigger] back[i] == bytes[i] by {
        assert((2 * i) / 2 == i && (2 * i) % 2 == 0);
        assert((2 * i + 1) / 2 == i && (2 * i + 1) % 2 == 1);
        lemma_digit_value(bytes[i] as int / 16);
        lemma_digit_value(bytes[i] as int % 16);
    }
    assert(back =~= bytes);
}

/// The text with its ASCII capital letters made small.
pub open spec fn ascii_lowercase(text: Seq<char>) -> Seq<char> {
    text.map_values(|c: char| if 'A' <= c && c <= 'Z' { (c as int + 32) as char } else { c })
}

/// Hexadecimal text means the same in either case.
pub proof fn lemma_hex_ignores_case(text: Seq<char>)
    ensures
        is_hex_text(ascii_lowercase(text)) == is_hex_text(text),
        is_hex_text(text) ==> hex_bytes(ascii_lowercase(text)) == hex_bytes(text),
{
    let lower = ascii_lowercase(text);
    assert forall|i: int| 0 <= i < text.len() implies {
        &&& is_hex_char(#[trigger] lower[i]) == is_hex_char(text[i])
        &&& is_hex_char(text[i]) ==> hex_char_value(lower[i]) == hex_char_value(text[i])
    } by {}
    if is_hex_text(text) {
        assert forall|i: int| 0 <= i < lower.len() implies is_hex_char(#[trigger] lower[i]) by {
            assert(is_hex_char(text[i]));
        }
        let a = hex_bytes(lower);
        let b = hex_bytes(text);
        assert forall|i: int| 0 <= i < b.len() implies #[trigger] a[i] == b[i] by {
            assert(hex_char_value(lower[2 * i]) == hex_char_value(text[2 * i]));
            assert(hex_char_value(lower[2 * i + 1]) == hex_char_value(text[2 * i + 1]));
        }
        assert(a =~= b);
    }
    if is_hex_text(lower) {
        assert forall|i: int| 0 <= i < text.len() implies is_hex_char(#[trigger] text[i]) by {
            assert(is_hex_char(lower[i]));
        }
    }
}

} // verus!
