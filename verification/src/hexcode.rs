//! Hexadecimal text for binary blobs (the kind signatures stored in export
//! manifests), through the `hex` crate.

use vstd::prelude::*;
use vstd::string::*;

verus! {

/// The lower-case hex digit of a nibble.
pub open spec fn hex_digit(n: u8) -> char {
    if n < 10 {
        ((n + 48) as u8) as char
    } else {
        ((n + 87) as u8) as char
    }
}

/// Lower-case hex text of a byte string: two digits per byte, high nibble
/// first.
pub open spec fn hex_text(bytes: Seq<u8>) -> Seq<char>
    decreases bytes.len(),
{
    if bytes.len() == 0 {
        Seq::empty()
    } else {
        seq![hex_digit(bytes[0] >> 4u8), hex_digit(bytes[0] & 0x0fu8)] + hex_text(bytes.skip(1))
    }
}

/// The value of a hex digit in either case, if it is one.
pub open spec fn hex_value(c: u8) -> Option<u8> {
    if 48 <= c <= 57 {
        Some((c - 48) as u8)
    } else if 97 <= c <= 102 {
        Some((c - 87) as u8)
    } else if 65 <= c <= 70 {
        Some((c - 55) as u8)
    } else {
        None
    }
}

/// Why hex text did not decode.
#[derive(Debug, Clone, Copy, PartialEq, Eq, Structural)]
pub enum HexError {
    /// The byte at `index` is not a hex digit.
    InvalidHexCharacter { c: char, index: usize },
    /// The text has an odd number of bytes.
    OddLength,
    /// The text does not fit the requested length.
    InvalidStringLength,
}

/// The byte a pair of hex digits stands for, high digit first.
pub open spec fn hex_pair(hi: u8, lo: u8) -> u8 {
    ((hex_value(hi)->0 as int) * 16 + (hex_value(lo)->0 as int)) as u8
}

/// The bytes a run of hex digits stands for, two digits per byte.
pub open spec fn hex_pairs(text: Seq<u8>) -> Seq<u8>
    decreases text.len(),
{
    if text.len() < 2 {
        Seq::empty()
    } else {
        seq![hex_pair(text[0], text[1])] + hex_pairs(text.skip(2))
    }
}

/// Whether every byte of `text` is a hex digit.
pub open spec fn all_hex(text: Seq<u8>) -> bool {
    forall|i: int| 0 <= i < text.len() ==> (#[trigger] hex_value(text[i])) is Some
}

/// The index of the first byte that is not a hex digit.
pub open spec fn first_non_hex(text: Seq<u8>) -> int
    recommends
        !all_hex(text),
{
    choose|i: int| 0 <= i < text.len() && hex_value(text[i]) is None && forall|j: int| 0 <= j < i ==> (#[trigger] hex_value(text[j])) is Some
}

/// What `hex::decode` gives for a byte string: odd length is refused first;
/// then the first byte that is not a hex digit (in either case) is reported;
/// otherwise each pair of digits is one byte.
pub open spec fn hex_decoding(text: Seq<u8>) -> Result<Seq<u8>, HexError> {
    if text.len() % 2 != 0 {
        Err(HexError::OddLength)
    } else if all_hex(text) {
        Ok(hex_pairs(text))
    } else {
        let k = first_non_hex(text);
        Err(HexError::InvalidHexCharacter { c: (text[k] as u32) as char, index: k as usize })
    }
}

/// Encodes bytes as lower-case hex text with `hex::encode`.
#[verifier::external_body]
pub(crate) fn hex_encode(bytes: &[u8]) -> (r: String)
    ensures
        r@ == hex_text(bytes@),
{
    hex::encode(bytes)
}

/// Decodes hex text (as bytes) with `hex::decode`, mapping `hex`'s error
/// variants one to one onto [`HexError`].
#[verifier::external_body]
pub(crate) fn hex_decode(text: &[u8]) -> (r: Result<Vec<u8>, HexError>)
    ensures
        match r {
            Ok(v) => hex_decoding(text@) == Ok::<Seq<u8>, HexError>(v@),
            Err(e) => hex_decoding(text@) == Err::<Seq<u8>, HexError>(e),
        },
{
    match hex::decode(text) {
        Ok(v) => Ok(v),
        Err(hex::FromHexError::InvalidHexCharacter { c, index }) => Err(HexError::InvalidHexCharacter { c, index }),
        Err(hex::FromHexError::OddLength) => Err(HexError::OddLength),
        Err(hex::FromHexError::InvalidStringLength) => Err(HexError::InvalidStringLength),
    }
}

} // verus!

verus! {

/// The bytes of an ASCII character sequence.
pub open spec fn ascii_bytes(t: Seq<char>) -> Seq<u8> {
    Seq::new(t.len(), |i: int| t[i] as u8)
}

proof fn lemma_nibbles(b: u8)
    ensures
        hex_value(hex_digit(b >> 4u8) as u8) == Some(b >> 4u8),
        hex_value(hex_digit(b & 0x0fu8) as u8) == Some(b & 0x0fu8),
        ((b >> 4u8) as int) * 16 + ((b & 0x0fu8) as int) == b as int,
        '\0' <= hex_digit(b >> 4u8) <= '\u{7f}',
        '\0' <= hex_digit(b & 0x0fu8) <= '\u{7f}',
{
    assert((b >> 4u8) < 16 && (b & 0x0fu8) < 16) by (bit_vector);
    assert(((b >> 4u8) as int) * 16 + ((b & 0x0fu8) as int) == b as int) by (bit_vector);
}

pub proof fn lemma_hex_text_pairs(b: Seq<u8>)
    ensures
        ascii_bytes(hex_text(b)).len() == 2 * b.len(),
        all_hex(ascii_bytes(hex_text(b))),
        hex_pairs(ascii_bytes(hex_text(b))) == b,
        forall|i: int| 0 <= i < hex_text(b).len() ==> '\0' <= #[trigger] hex_text(b)[i] <= '\u{7f}',
    decreases b.len(),
{
    if b.len() > 0 {
        let rest = b.skip(1);
        lemma_hex_text_pairs(rest);
        lemma_nibbles(b[0]);
        let t = ascii_bytes(hex_text(b));
        let tr = ascii_bytes(hex_text(rest));
        assert(t.skip(2) =~= tr);
        assert(t[0] == hex_digit(b[0] >> 4u8) as u8);
        assert(t[1] == hex_digit(b[0] & 0x0fu8) as u8);
        assert forall|i: int| 0 <= i < t.len() implies (#[trigger] hex_value(t[i])) is Some by {
            if i >= 2 {
                assert(t[i] == tr[i - 2]);
            }
        }
        assert(b =~= seq![b[0]] + rest);
        assert forall|i: int| 0 <= i < hex_text(b).len() implies '\0' <= #[trigger] hex_text(b)[i] <= '\u{7f}' by {
            if i >= 2 {
                assert(hex_text(b)[i] == hex_text(rest)[i - 2]);
            }
        }
    } else {
        assert(hex_pairs(ascii_bytes(hex_text(b))) =~= b);
    }
}

/// Hex text decodes back to the bytes it was made from: `hex::decode` undoes
/// `hex::encode`.
pub proof fn lemma_hex_roundtrip(b: Seq<u8>)
    ensures
        hex_decoding(ascii_bytes(hex_text(b))) == Ok::<Seq<u8>, HexError>(b),
{
    lemma_hex_text_pairs(b);
}

/// Hex text is ASCII.
pub proof fn lemma_hex_text_ascii(b: Seq<u8>)
    ensures
        vstd::utf8::is_ascii_chars(hex_text(b)),
{
    lemma_hex_text_pairs(b);
}

} // verus!
