//! Calls into std and outside crates whose contracts are taken on trust.
use ethers_core::k256::ecdsa::{RecoveryId, Signature, VerifyingKey};
use ethers_core::k256::elliptic_curve::sec1::ToEncodedPoint;
use vstd::prelude::*;

use crate::text::{all_hex_digits, hex_digit_value, lower_hex_digit};

verus! {

/// The bytes written by consecutive pairs of hexadecimal digits.
pub open spec fn hex_bytes(s: Seq<char>) -> Seq<u8> {
    Seq::new(
        s.len() / 2,
        |i: int| (hex_digit_value(s[2 * i]) * 16 + hex_digit_value(s[2 * i + 1])) as u8,
    )
}

/// Two lower-case hexadecimal digits for each byte.
pub open spec fn hex_text(b: Seq<u8>) -> Seq<char> {
    Seq::new(
        2 * b.len(),
        |i: int|
            if i % 2 == 0 {
                lower_hex_digit((b[i / 2] / 16) as nat)
            } else {
                lower_hex_digit((b[i / 2] % 16) as nat)
            },
    )
}

/// The address that signed `message` (EIP-191 personal message) with the 65-byte
/// signature `signature`, if one can be recovered.
pub uninterp spec fn signer_of(message: Seq<char>, signature: Seq<u8>) -> Option<Seq<u8>>;

/// Keccak-256 of `b`.
pub uninterp spec fn keccak256_of(b: Seq<u8>) -> Seq<u8>;

/// RLP encoding of an EIP-1559 transaction request to `to` carrying `data` on chain
/// `chain_id` with gas limit `gas`, every other field left unset.
pub uninterp spec fn eip1559_rlp_of(to: Seq<u8>, data: Seq<u8>, chain_id: u64, gas: u64) -> Seq<u8>;

/// RLP encoding of that request with the signature `(v, r, s)` appended.
pub uninterp spec fn eip1559_signed_rlp_of(
    to: Seq<u8>,
    data: Seq<u8>,
    chain_id: u64,
    gas: u64,
    v: u64,
    r: Seq<u8>,
    s: Seq<u8>,
) -> Seq<u8>;

/// The uncompressed SEC1 encoding of the secp256k1 public key that the SEC1 bytes
/// `key` hold, if they hold one.
pub uninterp spec fn sec1_point_of(key: Seq<u8>) -> Option<Seq<u8>>;

/// The uncompressed SEC1 encoding of the secp256k1 key recovered from a 64-byte
/// signature over `prehash` with recovery id `parity`, if recovery succeeds.
pub uninterp spec fn recovered_point_of(prehash: Seq<u8>, sig: Seq<u8>, parity: u8) -> Option<
    Seq<u8>,
>;

/// A lower-case hexadecimal digit in upper case.
pub open spec fn upper_hex(c: char) -> char {
    if 'a' <= c && c <= 'f' {
        ((c as u32) - 32) as char
    } else {
        c
    }
}

/// The ASCII bytes of a text.
pub open spec fn ascii_bytes(s: Seq<char>) -> Seq<u8> {
    s.map_values(|c: char| c as u8)
}

/// The EIP-55 form of an address: `0x`, then its lower-case hexadecimal digits, each
/// put in upper case where the digit at the same place of the hexadecimal Keccak-256
/// hash of those lower-case digits is 8 or more.
pub open spec fn checksum_text(a: Seq<u8>) -> Seq<char> {
    let lower = hex_text(a);
    let hash = hex_text(keccak256_of(ascii_bytes(lower)));
    "0x"@ + Seq::new(
        lower.len(),
        |i: int|
            if hash[i] >= '8' {
                upper_hex(lower[i])
            } else {
                lower[i]
            },
    )
}

/// `None` when `body` is not JSON; otherwise the string that the top-level object
/// holds under `key`, or `None` when there is no such string.
pub uninterp spec fn json_string_field_of(body: Seq<char>, key: Seq<char>) -> Option<
    Option<Seq<char>>,
>;

/// How JSON writes the character `c` inside a string.
pub open spec fn json_escape(c: char) -> Seq<char> {
    if c == '"' {
        seq!['\\', '"']
    } else if c == '\\' {
        seq!['\\', '\\']
    } else if c == '\u{8}' {
        seq!['\\', 'b']
    } else if c == '\t' {
        seq!['\\', 't']
    } else if c == '\n' {
        seq!['\\', 'n']
    } else if c == '\u{c}' {
        seq!['\\', 'f']
    } else if c == '\r' {
        seq!['\\', 'r']
    } else if (c as u32) < 0x20 {
        seq![
            '\\',
            'u',
            '0',
            '0',
            lower_hex_digit(((c as u32) / 16) as nat),
            lower_hex_digit(((c as u32) % 16) as nat),
        ]
    } else {
        seq![c]
    }
}

/// The characters of `s`, each written as JSON writes it inside a string.
pub open spec fn json_escaped(s: Seq<char>) -> Seq<char>
    decreases s.len(),
{
    if s.len() == 0 {
        Seq::empty()
    } else {
        json_escaped(s.drop_last()) + json_escape(s.last())
    }
}

/// `s` as a JSON string literal.
pub open spec fn json_quoted(s: Seq<char>) -> Seq<char> {
    seq!['"'] + json_escaped(s) + seq!['"']
}

/// The bytes of an optional byte vector.
pub open spec fn opt_bytes(o: Option<Vec<u8>>) -> Option<Seq<u8>> {
    match o {
        Some(v) => Some(v@),
        None => None,
    }
}

/// Relies on ethers_core's `keccak256`.
#[verifier::external_body]
pub(crate) fn keccak256(b: &[u8]) -> (r: Vec<u8>)
    ensures
        r@ == keccak256_of(b@),
        r@.len() == 32,
{
    ethers_core::utils::keccak256(b).to_vec()
}

/// Relies on ethers_core's `Eip1559TransactionRequest::rlp`, on a request built with
/// `to`, `gas`, `data` and `chain_id` set; `Address::from_slice` takes 20 bytes.
#[verifier::external_body]
pub(crate) fn eip1559_rlp(to: &[u8], data: &[u8], chain_id: u64, gas: u64) -> (r: Vec<u8>)
    requires
        to@.len() == 20,
    ensures
        r@ == eip1559_rlp_of(to@, data@, chain_id, gas),
{
    let tx = ethers_core::types::Eip1559TransactionRequest::new().to(
        ethers_core::types::Address::from_slice(to),
    ).gas(gas).data(data.to_vec()).chain_id(chain_id);
    tx.rlp().to_vec()
}

/// Relies on ethers_core's `Eip1559TransactionRequest::rlp_signed`, on the request that
/// `eip1559_rlp` encodes; `U256::from_big_endian` takes at most 32 bytes, and
/// `normalize_v` keeps a `v` of 0 or 1 as it is.
#[verifier::external_body]
pub(crate) fn eip1559_signed_rlp(
    to: &[u8],
    data: &[u8],
    chain_id: u64,
    gas: u64,
    v: u64,
    r: &[u8],
    s: &[u8],
) -> (out: Vec<u8>)
    requires
        to@.len() == 20,
        r@.len() == 32,
        s@.len() == 32,
        v <= 1,
    ensures
        out@ == eip1559_signed_rlp_of(to@, data@, chain_id, gas, v, r@, s@),
{
    let tx = ethers_core::types::Eip1559TransactionRequest::new().to(
        ethers_core::types::Address::from_slice(to),
    ).gas(gas).data(data.to_vec()).chain_id(chain_id);
    let r = ethers_core::types::U256::from_big_endian(r);
    let s = ethers_core::types::U256::from_big_endian(s);
    tx.rlp_signed(&ethers_core::types::Signature { r, s, v }).to_vec()
}

/// Relies on k256's `PublicKey::from_sec1_bytes` and `to_encoded_point(false)`; an
/// uncompressed point is the tag byte 4 and two 32-byte coordinates.
#[verifier::external_body]
pub(crate) fn sec1_point(key: &[u8]) -> (r: Option<Vec<u8>>)
    ensures
        opt_bytes(r) == sec1_point_of(key@),
        r matches Some(p) ==> p@.len() == 65 && p@[0] == 4,
{
    let k = ethers_core::k256::PublicKey::from_sec1_bytes(key).ok()?;
    Some(k.to_encoded_point(false).as_bytes().to_vec())
}

/// Relies on k256's `VerifyingKey::recover_from_prehash`, with the 64-byte signature
/// read by `Signature::try_from` and the recovery id by `RecoveryId::from_byte`; the
/// key is given by `to_encoded_point(false)`.
#[verifier::external_body]
pub(crate) fn recover_point(prehash: &[u8], sig: &[u8], parity: u8) -> (r: Option<Vec<u8>>)
    ensures
        opt_bytes(r) == recovered_point_of(prehash@, sig@, parity),
{
    let sig = Signature::try_from(sig).ok()?;
    let id = RecoveryId::from_byte(parity)?;
    let key = VerifyingKey::recover_from_prehash(prehash, &sig, id).ok()?;
    Some(key.to_encoded_point(false).as_bytes().to_vec())
}

/// Relies on ethers_core's `to_checksum` with no chain id: it hashes the lower-case
/// hexadecimal address (`{:x}` of `H160`, no prefix) and upper-cases each digit whose
/// hash digit's byte is at least `b'8'`.
#[verifier::external_body]
pub(crate) fn checksum_address(a: &[u8]) -> (r: String)
    requires
        a@.len() == 20,
    ensures
        r@ == checksum_text(a@),
{
    ethers_core::utils::to_checksum(&ethers_core::types::Address::from_slice(a), None)
}

/// Relies on `serde_json::to_string` of a `str`: quotes and escapes, which cannot fail.
#[verifier::external_body]
pub(crate) fn json_string(s: &str) -> (r: String)
    ensures
        r@ == json_quoted(s@),
{
    serde_json::to_string(s).unwrap_or_default()
}

/// Relies on `serde_json::from_str` into a `Value`, then `Value::get` and
/// `Value::as_str`.
#[verifier::external_body]
pub(crate) fn json_string_field(body: &str, key: &str) -> (r: Option<Option<String>>)
    ensures
        match r {
            None => json_string_field_of(body@, key@) is None,
            Some(None) => json_string_field_of(body@, key@) == Some(None::<Seq<char>>),
            Some(Some(t)) => json_string_field_of(body@, key@) == Some(Some(t@)),
        },
{
    let v = serde_json::from_str::<serde_json::Value>(body).ok()?;
    Some(v.get(key).and_then(|f| f.as_str()).map(|t| t.to_string()))
}

/// Relies on `String::push`: appends one character.
#[verifier::external_body]
pub(crate) fn push_char(s: &mut String, c: char)
    ensures
        final(s)@ == old(s)@.push(c),
{
    s.push(c)
}

/// Relies on `hex::decode`: each pair of hexadecimal digits (either case) is one byte;
/// an odd count or any other character fails.
#[verifier::external_body]
pub(crate) fn decode_hex(s: &str) -> (r: Option<Vec<u8>>)
    ensures
        r is Some <==> (all_hex_digits(s@) && s@.len() % 2 == 0),
        r matches Some(b) ==> b@ == hex_bytes(s@),
{
    hex::decode(s).ok()
}

/// Relies on `hex::encode`: two lower-case hexadecimal digits for each byte.
#[verifier::external_body]
pub(crate) fn encode_hex(b: &[u8]) -> (r: String)
    ensures
        r@ == hex_text(b@),
{
    hex::encode(b)
}

/// Relies on ethers_core's `Signature`: `try_from` reads 65 bytes as (r, s, v) and
/// fails on any other length; `recover` hashes the message with the EIP-191 prefix and
/// recovers the 20-byte address of the signing key.
#[verifier::external_body]
pub(crate) fn recover_signer(message: &str, signature: &[u8]) -> (r: Option<Vec<u8>>)
    ensures
        match r {
            Some(a) => signer_of(message@, signature@) == Some(a@),
            None => signer_of(message@, signature@) is None,
        },
        r matches Some(a) ==> a@.len() == 20,
        signature@.len() != 65 ==> r is None,
{
    match ethers_core::types::Signature::try_from(signature) {
        Ok(sig) => sig.recover(message).ok().map(|a| a.as_bytes().to_vec()),
        Err(_) => None,
    }
}

} // verus!
