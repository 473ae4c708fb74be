//! Hexadecimal text: decoding through the `amplify` crate, with the format stated as a
//! specification.

use vstd::prelude::*;

use amplify::hex::FromHex;

verus! {

/// Errors of hexadecimal decoding.
#[derive(Clone, Copy, PartialEq, Eq, Structural, Debug, Hash)]
pub enum HexError {
    /// A byte that is not a hexadecimal digit.
    InvalidChar(u8),
    /// The text has an odd number of bytes: that number.
    OddLengthString(usize),
    /// The text is too long: the largest and the actual number of bytes it encodes.
    InvalidLength(usize, usize),
}

/// Value of a hexadecimal digit (either case), if the byte is one.
pub open spec fn hex_digit_val(c: u8) -> Option<u8> {
    if 0x30 <= c <= 0x39 {
        Some((c - 0x30) as u8)
    } else if 0x61 <= c <= 0x66 {
        Some((c - 0x61 + 10) as u8)
    } else if 0x41 <= c <= 0x46 {
        Some((c - 0x41 + 10) as u8)
    } else {
        None
    }
}

/// Bytes denoted by pairs of hexadecimal digits, high digit first, read from the front; the
/// first byte that is not a digit is an error.
pub open spec fn hex_pairs(b: Seq<u8>) -> Result<Seq<u8>, HexError>
    decreases b.len(),
{
    if b.len() < 2 {
        Ok(Seq::empty())
    } else {
        match (hex_digit_val(b[0]), hex_digit_val(b[1])) {
            (None, _) => Err(HexError::InvalidChar(b[0])),
            (Some(_), None) => Err(HexError::InvalidChar(b[1])),
            (Some(h), Some(l)) => match hex_pairs(b.subrange(2, b.len() as int)) {
                Ok(rest) => Ok(seq![(h * 16 + l) as u8] + rest),
                Err(e) => Err(e),
            },
        }
    }
}

/// Decoding of hexadecimal text given as bytes: an odd length is an error, otherwise the
/// digit pairs.
pub open spec fn hex_decode(b: Seq<u8>) -> Result<Seq<u8>, HexError> {
    if b.len() % 2 != 0 {
        Err(HexError::OddLengthString(b.len() as usize))
    } else {
        hex_pairs(b)
    }
}

/// Decoding gives one byte per pair of digits.
pub proof fn lemma_hex_pairs_len(b: Seq<u8>)
    ensures
        hex_pairs(b) matches Ok(v) ==> v.len() == b.len() / 2,
    decreases b.len(),
{
    if b.len() >= 2 {
        lemma_hex_pairs_len(b.subrange(2, b.len() as int));
    }
}

/// `FromHex::from_hex` of the `amplify` crate for byte vectors: the bytes of the text must
/// have an even number, and each pair of them, from the front, must be two hexadecimal digits
/// (either case, high digit first); the first offending byte is reported. The error is
/// converted to [`HexError`] variant by variant.
#[verifier::external_body]
pub(crate) fn vec_from_hex(s: &str) -> (r: Result<Vec<u8>, HexError>)
    ensures
        match hex_decode(vstd::utf8::encode_utf8(s@)) {
            Ok(v) => r matches Ok(w) && w@ == v,
            Err(e) => r == Err::<Vec<u8>, HexError>(e),
        },
{
    match Vec::<u8>::from_hex(s) {
        Ok(v) => Ok(v),
        Err(amplify::hex::Error::InvalidChar(c)) => Err(HexError::InvalidChar(c)),
        Err(amplify::hex::Error::OddLengthString(l)) => Err(HexError::OddLengthString(l)),
        Err(amplify::hex::Error::InvalidLength(a, b)) => Err(HexError::InvalidLength(a, b)),
    }
}

} // verus!
