//! Hexadecimal digits.
use vstd::prelude::*;
use crate::text::{push_char, string_of};
use vstd::utf8::{encode_utf8, is_ascii_chars, is_ascii_chars_encode_utf8};

verus! {

#[derive(Debug, Clone, PartialEq, Eq, Structural)]
pub enum HexError {
    /// The string was not a valid hex string.
    InvalidHex,
    /// The string was not the right length for the target type.
    InvalidLength,
    /// The bytes did not encode a valid value for the target type.
    InvalidEncoding,
}

impl HexError {
    /// The message that the error displays.
    pub fn to_message(&self) -> (s: String)
        ensures
            s@ == match self {
                HexError::InvalidHex => "invalid hex string"@,
                HexError::InvalidLength => "hex string had an invalid (odd) length"@,
                HexError::InvalidEncoding => "hex value did not encode the expected type"@,
            },
    {
        match self {
            HexError::InvalidHex => string_of("invalid hex string"),
            HexError::InvalidLength => string_of("hex string had an invalid (odd) length"),
            HexError::InvalidEncoding => string_of("hex value did not encode the expected type"),
        }
    }
}

/// The value of an ASCII hex digit (either case).
pub open spec fn spec_hex_val(c: u8) -> Option<u8> {
    if 65 <= c <= 70 {
        Some((c - 65 + 10) as u8)
    } else if 97 <= c <= 102 {
        Some((c - 97 + 10) as u8)
    } else if 48 <= c <= 57 {
        Some((c - 48) as u8)
    } else {
        None
    }
}

/// The value of an ASCII hex digit (either case).
pub fn hex_val(c: u8) -> (r: Result<u8, HexError>)
    ensures
        match r {
            Ok(v) => spec_hex_val(c) == Some(v),
            Err(e) => spec_hex_val(c) is None && e == HexError::InvalidHex,
        },
{
    if 65 <= c && c <= 70 {
        Ok(c - 65 + 10)
    } else if 97 <= c && c <= 102 {
        Ok(c - 97 + 10)
    } else if 48 <= c && c <= 57 {
        Ok(c - 48)
    } else {
        Err(HexError::InvalidHex)
    }
}

/// The bytes that the hex text `hex` (UTF-8 bytes, two digits a byte, high digit
/// first) spells for a value of `len` bytes: an odd length or a digit that is no hex
/// digit is `InvalidHex`, another length `InvalidLength`.
pub open spec fn spec_decode_hex(hex: Seq<u8>, len: nat) -> Result<Seq<u8>, HexError> {
    if hex.len() % 2 == 1 {
        Err(HexError::InvalidHex)
    } else if len * 2 != hex.len() {
        Err(HexError::InvalidLength)
    } else if exists|i: int| 0 <= i < hex.len() && spec_hex_val(#[trigger] hex[i]) is None {
        Err(HexError::InvalidHex)
    } else {
        Ok(Seq::new(len, |i: int| (spec_hex_val(hex[2 * i]).unwrap() * 16 + spec_hex_val(hex[2 * i + 1]).unwrap()) as u8))
    }
}

/// Reads hex text as the bytes of a value of `len` bytes.
pub fn decode_hex(hex: &[u8], len: usize) -> (r: Result<Vec<u8>, HexError>)
    ensures
        match r {
            Ok(v) => spec_decode_hex(hex@, len as nat) == Ok::<Seq<u8>, HexError>(v@),
            Err(e) => spec_decode_hex(hex@, len as nat) == Err::<Seq<u8>, HexError>(e),
        },
{
    if hex.len() % 2 == 1 {
        return Err(HexError::InvalidHex);
    }
    if len != hex.len() / 2 {
        return Err(HexError::InvalidLength);
    }
    let mut out: Vec<u8> = Vec::new();
    let mut i: usize = 0;
    while i < len
        invariant
            i <= len,
            len * 2 == hex@.len(),
            out@.len() == i,
            forall|j: int| 0 <= j < 2 * i ==> spec_hex_val(#[trigger] hex@[j]) is Some,
            forall|j: int|
                0 <= j < i ==> #[trigger] out@[j] == (spec_hex_val(hex@[2 * j]).unwrap() * 16
                    + spec_hex_val(hex@[2 * j + 1]).unwrap()) as u8,
        decreases len - i,
    {
        let hi = match hex_val(hex[2 * i]) {
            Ok(v) => v,
            Err(e) => {
                return Err(e);
            },
        };
        let lo = match hex_val(hex[2 * i + 1]) {
            Ok(v) => v,
            Err(e) => {
                return Err(e);
            },
        };
        out.push(hi * 16 + lo);
        i = i + 1;
    }
    assert(out@ =~= Seq::new(len as nat, |i: int| (spec_hex_val(hex@[2 * i]).unwrap() * 16 + spec_hex_val(hex@[2 * i + 1]).unwrap()) as u8));
    assert forall|j: int| 0 <= j < hex@.len() implies spec_hex_val(#[trigger] hex@[j]) is Some by {}
    Ok(out)
}

/// The lower-case hex digit of a value below 16.
pub open spec fn spec_hex_digit(v: u8) -> char {
    if v < 10 {
        (48 + v) as char
    } else {
        (87 + v) as char
    }
}

/// Two lower-case hex digits a byte, high digit first.
pub open spec fn spec_encode_hex(bytes: Seq<u8>) -> Seq<char> {
    Seq::new(2 * bytes.len(), |i: int| if i % 2 == 0 {
        spec_hex_digit(bytes[i / 2] / 16)
    } else {
        spec_hex_digit(bytes[i / 2] % 16)
    })
}

/// Writing bytes as hex and reading the text back gives the bytes.
pub proof fn lemma_hex_round_trip(bytes: Seq<u8>)
    ensures
        spec_decode_hex(encode_utf8(spec_encode_hex(bytes)), bytes.len()) == Ok::<Seq<u8>, HexError>(bytes),
{
    let text = spec_encode_hex(bytes);
    assert forall|i: int| 0 <= i < text.len() implies '\0' <= #[trigger] text[i] <= '\u{7f}' by {
        let b = bytes[i / 2];
        assert(b / 16 < 16 && b % 16 < 16);
    }
    assert(is_ascii_chars(text));
    is_ascii_chars_encode_utf8(text);
    let enc = encode_utf8(text);
    assert forall|i: int| 0 <= i < enc.len() implies #[trigger] spec_hex_val(enc[i]) == Some(
        (if i % 2 == 0 { bytes[i / 2] / 16 } else { bytes[i / 2] % 16 }) as u8,
    ) by {
        assert(enc[i] == text[i] as u8);
        let b = bytes[i / 2];
        assert(b / 16 < 16 && b % 16 < 16);
    }
    assert forall|k: int| 0 <= k < bytes.len() implies #[trigger] bytes[k] == (spec_hex_val(enc[2 * k]).unwrap() * 16
        + spec_hex_val(enc[2 * k + 1]).unwrap()) as u8 by {
        assert(spec_hex_val(enc[2 * k]) == Some((bytes[k] / 16) as u8));
        assert(spec_hex_val(enc[2 * k + 1]) == Some((bytes[k] % 16) as u8));
    }
    assert(Seq::new(bytes.len(), |i: int| (spec_hex_val(enc[2 * i]).unwrap() * 16 + spec_hex_val(enc[2 * i + 1]).unwrap()) as u8) =~= bytes);
}

fn hex_digit(v: u8) -> (c: char)
    requires
        v < 16,
    ensures
        c == spec_hex_digit(v),
{
    if v < 10 {
        ((48 + v) as char)
    } else {
        ((87 + v) as char)
    }
}

/// Writes bytes as lower-case hex.
pub fn encode_hex(bytes: &[u8]) -> (s: String)
    requires
        bytes@.len() * 2 <= usize::MAX,
    ensures
        s@ == spec_encode_hex(bytes@),
{
    let mut s = String::new();
    let mut i: usize = 0;
    while i < bytes.len()
        invariant
            i <= bytes@.len(),
            bytes@.len() * 2 <= usize::MAX,
            s@.len() == 2 * i,
            forall|j: int| 0 <= j < 2 * i ==> #[trigger] s@[j] == spec_encode_hex(bytes@)[j],
        decreases bytes.len() - i,
    {
        let b = bytes[i];
        push_char(&mut s, hex_digit(b / 16));
        push_char(&mut s, hex_digit(b % 16));
        i = i + 1;
    }
    assert(s@ =~= spec_encode_hex(bytes@));
    s
}

} // verus!
