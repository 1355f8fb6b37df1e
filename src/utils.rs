//! `0x`-prefixed hexadecimal text.
use vstd::prelude::*;

use crate::bindings::{decode_hex, encode_hex, hex_bytes, hex_text};
use crate::text::all_hex_digits;

verus! {

/// Why hexadecimal text could not be read.
#[derive(Debug, Clone, Copy, PartialEq, Eq, Structural)]
pub enum HexError {
    /// Fewer than the two prefix characters.
    TooShort,
    /// An odd number of digits, or a character that is not a hexadecimal digit.
    InvalidHex,
}

/// The bytes written after the two-character prefix of `data` (`0x`).
pub fn from_hex(data: &str) -> (r: Result<Vec<u8>, HexError>)
    ensures
        data@.len() < 2 ==> r == Err::<Vec<u8>, HexError>(HexError::TooShort),
        data@.len() >= 2 ==> {
            let digits = data@.subrange(2, data@.len() as int);
            if all_hex_digits(digits) && digits.len() % 2 == 0 {
                r matches Ok(b) && b@ == hex_bytes(digits)
            } else {
                r == Err::<Vec<u8>, HexError>(HexError::InvalidHex)
            }
        },
{
    let n = data.unicode_len();
    if n < 2 {
        return Err(HexError::TooShort);
    }
    match decode_hex(data.substring_char(2, n)) {
        Some(b) => Ok(b),
        None => Err(HexError::InvalidHex),
    }
}

/// `0x` and two lower-case hexadecimal digits per byte.
pub fn to_hex(data: &[u8]) -> (r: String)
    ensures
        r@ == "0x"@ + hex_text(data@),
{
    let mut out = String::new();
    out.append("0x");
    out.append(encode_hex(data).as_str());
    out
}

} // verus!
