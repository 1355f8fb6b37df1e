//! The external chain gateway: JSON-RPC `eth_call` framing, EIP-1559 transaction
//! signing with a threshold key, and this process's own address.
use vstd::prelude::*;

use crate::bindings::{
    checksum_address, checksum_text, eip1559_rlp, eip1559_rlp_of, eip1559_signed_rlp,
    eip1559_signed_rlp_of, encode_hex, hex_text, json_quoted, json_string, json_string_field,
    json_string_field_of, keccak256, keccak256_of, opt_bytes, recover_point, recovered_point_of,
    sec1_point, sec1_point_of,
};
use crate::strategy::opt_text;
use crate::text::{decimal, push_decimal};

verus! {

/// The gas limit of every transaction this process signs.
pub const GAS_LIMIT: u64 = 300000;

/// The type byte of an EIP-1559 transaction envelope.
pub const EIP1559_TYPE: u8 = 2;

/// Why an `eth_call` gave no result.
#[derive(Debug, Clone, Copy, PartialEq, Eq, Structural)]
pub enum RpcError {
    /// The reply carries no string `result`: an `error` field or a malformed envelope.
    RequestFailed,
}

/// Why a transaction could not be signed.
#[derive(Debug, Clone, Copy, PartialEq, Eq, Structural)]
pub enum SigningError {
    /// The threshold key is not a SEC1-encoded secp256k1 public key.
    KeyFetchFailed,
    /// The threshold signature is not 64 bytes.
    SignRequestFailed,
    /// Neither recovery id reconstructs the threshold key from the signature.
    ParityRecoveryFailed,
}

/// The block tag of a read: the given height, else `latest`.
pub open spec fn block_tag(block_height: Option<Seq<char>>) -> Seq<char> {
    match block_height {
        Some(b) => b,
        None => "latest"@,
    }
}

/// The JSON-RPC 2.0 `eth_call` request with id `id`.
pub open spec fn eth_call_request_text(
    id: u64,
    contract_address: Seq<char>,
    data: Seq<char>,
    block_height: Option<Seq<char>>,
) -> Seq<char> {
    "{\"id\":"@ + decimal(id as nat) + ",\"jsonrpc\":\"2.0\",\"method\":\"eth_call\",\"params\":[{\"to\":"@
        + json_quoted(contract_address) + ",\"data\":"@ + json_quoted(data) + "},"@ + json_quoted(
        block_tag(block_height),
    ) + "]}"@
}

/// The JSON-RPC 2.0 `eth_call` request with id `id` for `data` sent to
/// `contract_address` at `block_height`, `latest` when absent.
pub fn eth_call_request(
    id: u64,
    contract_address: &str,
    data: &str,
    block_height: &Option<String>,
) -> (r: String)
    ensures
        r@ == eth_call_request_text(id, contract_address@, data@, opt_text(*block_height)),
{
    let mut out = String::new();
    out.append("{\"id\":");
    push_decimal(&mut out, id);
    out.append(",\"jsonrpc\":\"2.0\",\"method\":\"eth_call\",\"params\":[{\"to\":");
    out.append(json_string(contract_address).as_str());
    out.append(",\"data\":");
    out.append(json_string(data).as_str());
    out.append("},");
    let tag = match block_height {
        Some(b) => json_string(b.as_str()),
        None => json_string("latest"),
    };
    out.append(tag.as_str());
    out.append("]}");
    out
}

/// The result of an `eth_call` from the `result` field of the reply, as the reply's
/// `result` string was read: `None` for a body that is not JSON, `Some(None)` for one
/// without a string `result`.
pub fn rpc_result(field: Option<Option<String>>) -> (r: Result<String, RpcError>)
    ensures
        match field {
            Some(Some(t)) => r == Ok::<String, RpcError>(t),
            _ => r == Err::<String, RpcError>(RpcError::RequestFailed),
        },
{
    match field {
        Some(Some(t)) => Ok(t),
        _ => Err(RpcError::RequestFailed),
    }
}

/// The result of an `eth_call` from the JSON-RPC reply `body`: its `result` string, or
/// `RequestFailed` when there is none.
pub fn eth_call_result(body: &str) -> (r: Result<String, RpcError>)
    ensures
        match json_string_field_of(body@, "result"@) {
            Some(Some(t)) => r matches Ok(s) && s@ == t,
            _ => r == Err::<String, RpcError>(RpcError::RequestFailed),
        },
{
    rpc_result(json_string_field(body, "result"))
}

/// The bytes that are hashed and signed: the type byte, then the RLP encoding of the
/// unsigned request.
pub open spec fn unsigned_payload(to: Seq<u8>, data: Seq<u8>, chain_id: u64) -> Seq<u8> {
    seq![EIP1559_TYPE] + eip1559_rlp_of(to, data, chain_id, GAS_LIMIT)
}

/// The hash that the threshold key signs for a transaction.
pub open spec fn signing_hash(to: Seq<u8>, data: Seq<u8>, chain_id: u64) -> Seq<u8> {
    keccak256_of(unsigned_payload(to, data, chain_id))
}

/// The recovery id, 0 tried first, that reconstructs the key `pubkey` from `sig` over
/// `prehash`.
pub open spec fn parity_of(prehash: Seq<u8>, sig: Seq<u8>, pubkey: Seq<u8>) -> Option<u8> {
    match sec1_point_of(pubkey) {
        None => None,
        Some(key) => if recovered_point_of(prehash, sig, 0) == Some(key) {
            Some(0)
        } else if recovered_point_of(prehash, sig, 1) == Some(key) {
            Some(1)
        } else {
            None
        },
    }
}

/// The address of the key recovered from `sig` over `prehash` with recovery id
/// `parity`.
pub open spec fn recovered_address(prehash: Seq<u8>, sig: Seq<u8>, parity: u8) -> Option<
    Seq<char>,
> {
    match recovered_point_of(prehash, sig, parity) {
        Some(point) => Some(address_of_key(point)),
        None => None,
    }
}

/// The recovery id that signing settles on reconstructs exactly the threshold key
/// from the signature over the transaction hash, so the address recovered from the
/// signed transaction is the address that `eth_address_of` and
/// `get_self_eth_address` derive from that key.
pub proof fn lemma_signer_is_self(prehash: Seq<u8>, sig: Seq<u8>, pubkey: Seq<u8>)
    requires
        parity_of(prehash, sig, pubkey) is Some,
    ensures
        sec1_point_of(pubkey) matches Some(point) && recovered_address(
            prehash,
            sig,
            parity_of(prehash, sig, pubkey)->0,
        ) == Some(address_of_key(point)),
        parity_of(prehash, sig, pubkey)->0 <= 1,
{
}

/// The signed transaction, `0x` and the hexadecimal type-prefixed RLP encoding.
pub open spec fn signed_transaction_text(
    to: Seq<u8>,
    data: Seq<u8>,
    chain_id: u64,
    parity: u8,
    sig: Seq<u8>,
) -> Seq<char> {
    "0x"@ + hex_text(
        seq![EIP1559_TYPE] + eip1559_signed_rlp_of(
            to,
            data,
            chain_id,
            GAS_LIMIT,
            parity as u64,
            sig.subrange(0, 32),
            sig.subrange(32, 64),
        ),
    )
}

/// Prepends the type byte.
fn with_type_byte(b: Vec<u8>) -> (r: Vec<u8>)
    ensures
        r@ == seq![EIP1559_TYPE] + b@,
{
    let mut out: Vec<u8> = Vec::new();
    out.push(EIP1559_TYPE);
    let ghost given = b@;
    let mut b = b;
    out.append(&mut b);
    proof {
        assert(out@ =~= seq![EIP1559_TYPE] + given);
    }
    out
}

/// The hash that the threshold key must sign for a transaction to `to` carrying
/// `data` on chain `chain_id`.
pub fn transaction_hash(to: &Vec<u8>, data: &Vec<u8>, chain_id: u64) -> (r: Vec<u8>)
    requires
        to@.len() == 20,
    ensures
        r@ == signing_hash(to@, data@, chain_id),
        r@.len() == 32,
{
    let payload = with_type_byte(eip1559_rlp(to.as_slice(), data.as_slice(), chain_id, GAS_LIMIT));
    keccak256(payload.as_slice())
}

/// The recovery id (0 or 1) under which `sig` over `prehash` reconstructs `pubkey`.
pub fn y_parity(prehash: &Vec<u8>, sig: &Vec<u8>, pubkey: &Vec<u8>) -> (r: Result<u8, SigningError>)
    ensures
        match sec1_point_of(pubkey@) {
            None => r == Err::<u8, SigningError>(SigningError::KeyFetchFailed),
            Some(_) => match parity_of(prehash@, sig@, pubkey@) {
                Some(p) => r == Ok::<u8, SigningError>(p),
                None => r == Err::<u8, SigningError>(SigningError::ParityRecoveryFailed),
            },
        },
{
    let key = match sec1_point(pubkey.as_slice()) {
        Some(k) => k,
        None => return Err(SigningError::KeyFetchFailed),
    };
    let mut parity: u8 = 0;
    while parity < 2
        invariant
            parity <= 2,
            sec1_point_of(pubkey@) == Some(key@),
            parity >= 1 ==> recovered_point_of(prehash@, sig@, 0) != Some(key@),
            parity >= 2 ==> recovered_point_of(prehash@, sig@, 1) != Some(key@),
        decreases 2 - parity,
    {
        let got = recover_point(prehash.as_slice(), sig.as_slice(), parity);
        if same_bytes(&got, &key) {
            return Ok(parity);
        }
        parity = parity + 1;
    }
    Err(SigningError::ParityRecoveryFailed)
}

/// Whether `a` holds exactly the bytes of `b`.
fn same_bytes(a: &Option<Vec<u8>>, b: &Vec<u8>) -> (r: bool)
    ensures
        r == (opt_bytes(*a) == Some(b@)),
{
    match a {
        None => false,
        Some(x) => {
            if x.len() != b.len() {
                return false;
            }
            let mut i: usize = 0;
            while i < x.len()
                invariant
                    i <= x@.len(),
                    x@.len() == b@.len(),
                    opt_bytes(*a) == Some(x@),
                    forall|j: int| 0 <= j < i ==> x@[j] == b@[j],
                decreases x@.len() - i,
            {
                if x[i] != b[i] {
                    proof {
                        assert(x@[i as int] != b@[i as int]);
                    }
                    return false;
                }
                i = i + 1;
            }
            proof {
                assert(x@ =~= b@);
            }
            true
        },
    }
}

/// Bytes `from` to `to` of `b`.
fn slice_of(b: &Vec<u8>, from: usize, to: usize) -> (r: Vec<u8>)
    requires
        from <= to <= b@.len(),
    ensures
        r@ == b@.subrange(from as int, to as int),
{
    let mut out: Vec<u8> = Vec::new();
    let mut i: usize = from;
    while i < to
        invariant
            from <= i <= to,
            to <= b@.len(),
            out@ == b@.subrange(from as int, i as int),
        decreases to - i,
    {
        out.push(b[i]);
        i = i + 1;
        proof {
            assert(out@ =~= b@.subrange(from as int, i as int));
        }
    }
    out
}

/// The signed transaction to `to` carrying `data` on chain `chain_id`, given the
/// threshold key `pubkey` (SEC1) and its 64-byte signature `(r, s)` over
/// `transaction_hash`: `0x` and the hexadecimal type-prefixed RLP encoding, ready
/// for broadcast.
pub fn sign_transaction(
    to: &Vec<u8>,
    data: &Vec<u8>,
    chain_id: u64,
    pubkey: &Vec<u8>,
    signature: &Vec<u8>,
) -> (r: Result<String, SigningError>)
    requires
        to@.len() == 20,
    ensures
        signature@.len() != 64 ==> r == Err::<String, SigningError>(
            SigningError::SignRequestFailed,
        ),
        signature@.len() == 64 ==> match sec1_point_of(pubkey@) {
            None => r == Err::<String, SigningError>(SigningError::KeyFetchFailed),
            Some(_) => match parity_of(signing_hash(to@, data@, chain_id), signature@, pubkey@) {
                Some(p) => r matches Ok(t) && t@ == signed_transaction_text(
                    to@,
                    data@,
                    chain_id,
                    p,
                    signature@,
                ),
                None => r == Err::<String, SigningError>(SigningError::ParityRecoveryFailed),
            },
        },
{
    if signature.len() != 64 {
        return Err(SigningError::SignRequestFailed);
    }
    let hash = transaction_hash(to, data, chain_id);
    let parity = match y_parity(&hash, signature, pubkey) {
        Ok(p) => p,
        Err(e) => return Err(e),
    };
    let r = slice_of(signature, 0, 32);
    let s = slice_of(signature, 32, 64);
    let signed = with_type_byte(
        eip1559_signed_rlp(
            to.as_slice(),
            data.as_slice(),
            chain_id,
            GAS_LIMIT,
            parity as u64,
            r.as_slice(),
            s.as_slice(),
        ),
    );
    let mut out = String::new();
    out.append("0x");
    out.append(encode_hex(signed.as_slice()).as_str());
    Ok(out)
}

/// The address of the key `pubkey`: the last 20 bytes of the Keccak-256 hash of its
/// uncompressed point without the tag byte, in checksum form.
pub open spec fn address_of_key(point: Seq<u8>) -> Seq<char> {
    checksum_text(keccak256_of(point.subrange(1, 65)).subrange(12, 32))
}

/// The address of the threshold key `pubkey` (SEC1), in checksum form.
pub fn eth_address_of(pubkey: &Vec<u8>) -> (r: Result<String, SigningError>)
    ensures
        match sec1_point_of(pubkey@) {
            None => r == Err::<String, SigningError>(SigningError::KeyFetchFailed),
            Some(point) => r matches Ok(a) && a@ == address_of_key(point),
        },
{
    let point = match sec1_point(pubkey.as_slice()) {
        Some(p) => p,
        None => return Err(SigningError::KeyFetchFailed),
    };
    let coords = slice_of(&point, 1, 65);
    let hash = keccak256(coords.as_slice());
    let tail = slice_of(&hash, 12, 32);
    Ok(checksum_address(tail.as_slice()))
}

/// A once-filled cell for this process's own address.
pub struct AddressCell {
    value: Option<String>,
}

impl AddressCell {
    /// What the cell holds.
    pub closed spec fn held(&self) -> Option<Seq<char>> {
        opt_text(self.value)
    }

    /// An empty cell.
    pub fn new() -> (r: AddressCell)
        ensures
            r.held() is None,
    {
        AddressCell { value: None }
    }

    /// The address held, if the cell was filled.
    pub fn cached(&self) -> (r: Option<String>)
        ensures
            opt_text(r) == self.held(),
    {
        match &self.value {
            Some(a) => Some(a.clone()),
            None => None,
        }
    }
}

/// This process's own address: the one held, else the address of the threshold key
/// `pubkey`, which is then held for good.
pub fn get_self_eth_address(cell: &mut AddressCell, pubkey: &Vec<u8>) -> (r: Result<
    String,
    SigningError,
>)
    ensures
        match old(cell).held() {
            Some(a) => r matches Ok(s) && s@ == a && final(cell).held() == Some(a),
            None => match sec1_point_of(pubkey@) {
                None => r == Err::<String, SigningError>(SigningError::KeyFetchFailed)
                    && final(cell).held() is None,
                Some(point) => {
                    let a = address_of_key(point);
                    r matches Ok(s) && s@ == a && final(cell).held() == Some(a)
                },
            },
        },
{
    if let Some(a) = cell.cached() {
        return Ok(a);
    }
    let address = match eth_address_of(pubkey) {
        Ok(a) => a,
        Err(e) => return Err(e),
    };
    cell.value = Some(address.clone());
    Ok(address)
}

} // verus!
