use decgov_backend::gateway::{
    eth_address_of, eth_call_request, eth_call_result, get_self_eth_address, sign_transaction,
    transaction_hash, y_parity, AddressCell, RpcError, SigningError,
};
use decgov_backend::utils::{from_hex, to_hex, HexError};
use ethers_core::k256::ecdsa::SigningKey;
use ethers_core::k256::elliptic_curve::sec1::ToEncodedPoint;
use ethers_core::types::transaction::eip2718::TypedTransaction;
use ethers_core::types::{NameOrAddress, H160};

#[test]
fn eth_call_request_is_json_rpc() {
    let r = eth_call_request(7, "0xabc", "0x01", &None);
    assert_eq!(
        r,
        "{\"id\":7,\"jsonrpc\":\"2.0\",\"method\":\"eth_call\",\"params\":[{\"to\":\"0xabc\",\"data\":\"0x01\"},\"latest\"]}"
    );
    let r = eth_call_request(0, "a\"b", "\n", &Some("0x10".to_string()));
    assert_eq!(
        r,
        "{\"id\":0,\"jsonrpc\":\"2.0\",\"method\":\"eth_call\",\"params\":[{\"to\":\"a\\\"b\",\"data\":\"\\n\"},\"0x10\"]}"
    );
}

#[test]
fn eth_call_result_reads_the_envelope() {
    assert_eq!(eth_call_result("{\"jsonrpc\":\"2.0\",\"id\":1,\"result\":\"0x10\"}"), Ok("0x10".to_string()));
    assert_eq!(
        eth_call_result("{\"jsonrpc\":\"2.0\",\"id\":1,\"error\":{\"code\":-32000,\"message\":\"x\"}}"),
        Err(RpcError::RequestFailed)
    );
    assert_eq!(eth_call_result("not json"), Err(RpcError::RequestFailed));
}

fn key() -> SigningKey {
    SigningKey::from_slice(&[3u8; 32]).unwrap()
}

fn pubkey(k: &SigningKey) -> Vec<u8> {
    k.verifying_key().to_encoded_point(true).as_bytes().to_vec()
}

#[test]
fn signed_transaction_round_trips() {
    let k = key();
    let to = vec![0x11u8; 20];
    let data = vec![1u8, 2, 3];
    let hash = transaction_hash(&to, &data, 11155111);
    let (sig, _) = k.sign_prehash_recoverable(&hash).unwrap();
    let sig = sig.to_bytes().to_vec();
    let raw = sign_transaction(&to, &data, 11155111, &pubkey(&k), &sig).unwrap();
    assert!(raw.starts_with("0x02"));
    let bytes = hex::decode(&raw[2..]).unwrap();
    let (tx, signature) =
        TypedTransaction::decode_signed(&ethers_core::utils::rlp::Rlp::new(&bytes)).unwrap();
    assert_eq!(tx.to(), Some(&NameOrAddress::Address(H160::from_slice(&to))));
    assert_eq!(tx.data().unwrap().to_vec(), data);
    assert_eq!(tx.chain_id().unwrap().as_u64(), 11155111);
    assert_eq!(tx.gas().unwrap().as_u64(), 300000);
    let signer = signature.recover(tx.sighash()).unwrap();
    assert_eq!(signer, ethers_core::utils::secret_key_to_address(&k));
    let own = eth_address_of(&pubkey(&k)).unwrap();
    assert_eq!(own, ethers_core::utils::to_checksum(&signer, None));
}

#[test]
fn parity_fails_for_another_key() {
    let k = key();
    let other = SigningKey::from_slice(&[4u8; 32]).unwrap();
    let hash = vec![9u8; 32];
    let (sig, recid) = k.sign_prehash_recoverable(&hash).unwrap();
    let sig = sig.to_bytes().to_vec();
    assert_eq!(y_parity(&hash, &sig, &pubkey(&k)), Ok(recid.to_byte()));
    assert_eq!(y_parity(&hash, &sig, &pubkey(&other)), Err(SigningError::ParityRecoveryFailed));
    assert_eq!(y_parity(&hash, &sig, &vec![1, 2, 3]), Err(SigningError::KeyFetchFailed));
    let to = vec![0u8; 20];
    assert_eq!(
        sign_transaction(&to, &vec![], 1, &pubkey(&k), &vec![0u8; 10]),
        Err(SigningError::SignRequestFailed)
    );
}

#[test]
fn self_address_is_derived_once() {
    let k = key();
    let mut cell = AddressCell::new();
    assert_eq!(cell.cached(), None);
    let a = get_self_eth_address(&mut cell, &pubkey(&k)).unwrap();
    assert_eq!(
        a,
        ethers_core::utils::to_checksum(&ethers_core::utils::secret_key_to_address(&k), None)
    );
    let other = SigningKey::from_slice(&[4u8; 32]).unwrap();
    assert_eq!(get_self_eth_address(&mut cell, &pubkey(&other)).unwrap(), a);
    assert_eq!(cell.cached(), Some(a));
    let mut empty = AddressCell::new();
    assert_eq!(get_self_eth_address(&mut empty, &vec![0u8; 5]), Err(SigningError::KeyFetchFailed));
}

#[test]
fn hex_helpers() {
    assert_eq!(from_hex("0x0a0B"), Ok(vec![10, 11]));
    assert_eq!(from_hex("0"), Err(HexError::TooShort));
    assert_eq!(from_hex("0xzz"), Err(HexError::InvalidHex));
    assert_eq!(from_hex("0xabc"), Err(HexError::InvalidHex));
    assert_eq!(to_hex(&[1, 255]), "0x01ff");
    assert_eq!(to_hex(&[]), "0x");
}
