//! Hexadecimal encoding and decoding of byte strings, as used by the
//! pairing handshake and the persisted client state.
//!
//! The executable conversions are done by the `hex` crate; their results
//! are specified exactly by the spec functions in this module.

use vstd::prelude::*;

verus! {

/// Whether `c` is an ASCII hexadecimal digit (either case).
pub open spec fn is_hex_char(c: char) -> bool {
    ('0' <= c && c <= '9') || ('a' <= c && c <= 'f') || ('A' <= c && c <= 'F')
}

/// Numeric value of a hexadecimal digit character.
pub open spec fn hex_char_val(c: char) -> u8 {
    if '0' <= c && c <= '9' {
        (c as u8 - '0' as u8) as u8
    } else if 'a' <= c && c <= 'f' {
        (c as u8 - 'a' as u8 + 10) as u8
    } else if 'A' <= c && c <= 'F' {
        (c as u8 - 'A' as u8 + 10) as u8
    } else {
        0
    }
}

/// The lower-case hexadecimal digit for a value below 16.
pub open spec fn hex_digit_char(v: u8) -> char {
    if v == 0 { '0' }
    else if v == 1 { '1' }
    else if v == 2 { '2' }
    else if v == 3 { '3' }
    else if v == 4 { '4' }
    else if v == 5 { '5' }
    else if v == 6 { '6' }
    else if v == 7 { '7' }
    else if v == 8 { '8' }
    else if v == 9 { '9' }
    else if v == 10 { 'a' }
    else if v == 11 { 'b' }
    else if v == 12 { 'c' }
    else if v == 13 { 'd' }
    else if v == 14 { 'e' }
    else { 'f' }
}

/// Lower-case hexadecimal rendering of a byte string: two digits per byte,
/// high nibble first.
pub open spec fn hex_of(bytes: Seq<u8>) -> Seq<char>
    decreases bytes.len(),
{
    if bytes.len() == 0 {
        Seq::empty()
    } else {
        seq![
            hex_digit_char(bytes[0] / 16),
            hex_digit_char((bytes[0] % 16) as u8),
        ] + hex_of(bytes.drop_first())
    }
}

/// What decoding a hexadecimal character string yields: the byte string,
/// when the input has even length and holds only hexadecimal digits, and
/// nothing otherwise.
pub open spec fn hex_decode_spec(s: Seq<char>) -> Option<Seq<u8>> {
    if s.len() % 2 == 0 && (forall|i: int| 0 <= i < s.len() ==> is_hex_char(s[i])) {
        Some(Seq::new((s.len() / 2) as nat, |i: int|
            (hex_char_val(s[2 * i]) * 16 + hex_char_val(s[2 * i + 1])) as u8))
    } else {
        None
    }
}

/// Relies on `hex::encode`: two lower-case digits per byte, high nibble
/// first.
#[verifier::external_body]
pub(crate) fn hex_encode(data: &Vec<u8>) -> (r: String)
    ensures
        r@ == hex_of(data@),
{
    hex::encode(data)
}

/// Relies on `hex::decode`: accepts digits of either case, rejects an
/// input of odd length or with a character that is no hexadecimal digit.
#[verifier::external_body]
pub(crate) fn hex_decode(s: &str) -> (r: Option<Vec<u8>>)
    ensures
        match r {
            Some(v) => hex_decode_spec(s@) == Some(v@),
            None => hex_decode_spec(s@) is None,
        },
{
    hex::decode(s).ok()
}

/// Each digit emitted by `hex_of` is a hexadecimal digit, and its value is
/// the nibble it was made from.
proof fn lemma_hex_of_index(bytes: Seq<u8>)
    ensures
        hex_of(bytes).len() == 2 * bytes.len(),
        forall|i: int| 0 <= i < bytes.len() ==> #[trigger] hex_of(bytes)[2 * i]
            == hex_digit_char(bytes[i] / 16),
        forall|i: int| 0 <= i < bytes.len() ==> #[trigger] hex_of(bytes)[2 * i + 1]
            == hex_digit_char((bytes[i] % 16) as u8),
    decreases bytes.len(),
{
    if bytes.len() > 0 {
        lemma_hex_of_index(bytes.drop_first());
        assert forall|i: int| 0 <= i < bytes.len() implies #[trigger] hex_of(bytes)[2 * i]
            == hex_digit_char(bytes[i] / 16) by {
            if i > 0 {
                assert(hex_of(bytes)[2 * i] == hex_of(bytes.drop_first())[2 * (i - 1)]);
            }
        }
        assert forall|i: int| 0 <= i < bytes.len() implies #[trigger] hex_of(bytes)[2 * i + 1]
            == hex_digit_char((bytes[i] % 16) as u8) by {
            if i > 0 {
                assert(hex_of(bytes)[2 * i + 1] == hex_of(bytes.drop_first())[2 * (i - 1) + 1]);
            }
        }
    }
}

/// A hexadecimal digit decodes to the value it was made from.
proof fn lemma_hex_digit_val(v: u8)
    requires
        v < 16,
    ensures
        is_hex_char(hex_digit_char(v)),
        hex_char_val(hex_digit_char(v)) == v,
{
}

/// Decoding inverts encoding: reading back the hexadecimal rendering of
/// any byte string yields that byte string.
pub proof fn lemma_hex_roundtrip(bytes: Seq<u8>)
    ensures
        hex_decode_spec(hex_of(bytes)) == Some(bytes),
{
    let s = hex_of(bytes);
    lemma_hex_of_index(bytes);
    assert forall|i: int| 0 <= i < s.len() implies is_hex_char(s[i]) by {
        let b = i / 2;
        if i % 2 == 0 {
            assert(i == 2 * b);
            lemma_hex_digit_val(bytes[b] / 16);
        } else {
            assert(i == 2 * b + 1);
            lemma_hex_digit_val((bytes[b] % 16) as u8);
        }
    }
    let decoded = hex_decode_spec(s)->Some_0;
    assert forall|i: int| 0 <= i < bytes.len() implies decoded[i] == bytes[i] by {
        lemma_hex_digit_val(bytes[i] / 16);
        lemma_hex_digit_val((bytes[i] % 16) as u8);
        assert(decoded[i] == (bytes[i] / 16) * 16 + bytes[i] % 16);
    }
    assert(decoded =~= bytes);
}

} // verus!
