use decgov_backend::admission::{admit_vote, check_vote, message_text_of, precheck_vote, vote};
use decgov_backend::error::{StrategyError, VoteError};
use decgov_backend::power::Power;
use decgov_backend::store::Store;
use decgov_backend::types::{VoteData, VoteMessage};
use ethers_core::k256::ecdsa::SigningKey;

const T: u64 = 1_000;
const ADDRESS: &str = "0x00000000000000000000000000000000000000aa";

fn address_bytes(a: &str) -> Vec<u8> {
    hex::decode(&a[2..]).unwrap()
}

/// A space with delay 3 and duration 60, minimum power 10, and one proposal created
/// at `T` with two options.
fn setup() -> Store {
    let mut store = Store::new();
    store.insert_space(
        "S".to_string(),
        String::new(),
        String::new(),
        3,
        60,
        0,
        Power::from_u64(10),
        Power::zero(),
    );
    store.insert_proposal(
        1,
        "P".to_string(),
        String::new(),
        0,
        vec!["yes".to_string(), "no".to_string()],
        T,
    );
    store
}

fn data(address: &str, option_id: u32) -> VoteData {
    VoteData {
        signature: "0x00".to_string(),
        message: VoteMessage {
            proposal_id: 1,
            space_id: 1,
            option_id,
            address: address.to_string(),
        },
    }
}

fn cast(store: &mut Store, d: &VoteData, now: u64, power: u64) -> Result<Power, VoteError> {
    let signer = Some(address_bytes(&d.message.address));
    admit_vote(store, d, signer, now, Ok(Power::from_u64(power)))
}

#[test]
fn voting_window_bounds() {
    let d = data(ADDRESS, 1);
    let mut store = setup();
    assert_eq!(cast(&mut store, &d, T + 2, 50), Err(VoteError::VotingWindowClosed));
    assert_eq!(cast(&mut store, &d, T + 63, 50), Err(VoteError::VotingWindowClosed));
    assert_eq!(cast(&mut store, &d, T + 3, 50), Ok(Power::from_u64(50)));
    let mut late = setup();
    assert_eq!(cast(&mut late, &d, T + 62, 50), Ok(Power::from_u64(50)));
}

#[test]
fn second_vote_on_other_option_is_already_voted() {
    let mut store = setup();
    assert_eq!(cast(&mut store, &data(ADDRESS, 1), T + 10, 50), Ok(Power::from_u64(50)));
    assert_eq!(
        cast(&mut store, &data(ADDRESS, 2), T + 11, 50),
        Err(VoteError::AlreadyVoted)
    );
    assert_eq!(store.get_votes(1, 1, 2).unwrap().len(), 0);
}

#[test]
fn admitted_vote_is_appended_once() {
    let mut store = setup();
    let d = data(ADDRESS, 2);
    assert_eq!(cast(&mut store, &d, T + 5, 12), Ok(Power::from_u64(12)));
    let votes = store.get_votes(1, 1, 2).unwrap();
    assert_eq!(votes.len(), 1);
    assert_eq!(votes[0].id, 1);
    assert_eq!(votes[0].user_address, ADDRESS);
    assert_eq!(votes[0].vote_type, 0);
    assert_eq!(votes[0].timestamp, T + 5);
    assert_eq!(votes[0].signature, "0x00");
    assert_eq!(votes[0].voting_power, Power::from_u64(12));
    assert_eq!(votes[0].option_id, 2);
    assert_eq!(store.get_votes(1, 1, 1).unwrap().len(), 0);
    let other = "0x00000000000000000000000000000000000000bb";
    assert_eq!(cast(&mut store, &data(other, 2), T + 6, 12), Ok(Power::from_u64(12)));
    assert_eq!(store.get_votes(1, 1, 2).unwrap()[1].id, 2);
}

#[test]
fn refused_votes_leave_the_store_unchanged() {
    let mut store = setup();
    let before = format!("{:?}", store.spaces);
    let d = data(ADDRESS, 1);
    assert_eq!(cast(&mut store, &d, T + 10, 9), Err(VoteError::InsufficientPower));
    assert_eq!(
        admit_vote(&mut store, &d, Some(vec![0u8; 20]), T + 10, Ok(Power::from_u64(50))),
        Err(VoteError::InvalidSignature)
    );
    assert_eq!(
        admit_vote(&mut store, &d, None, T + 10, Ok(Power::from_u64(50))),
        Err(VoteError::InvalidSignature)
    );
    assert_eq!(
        admit_vote(&mut store, &d, Some(address_bytes(ADDRESS)), T + 10, Err(StrategyError::EvmCallFailed)),
        Err(VoteError::Strategy(StrategyError::EvmCallFailed))
    );
    let mut missing = data(ADDRESS, 1);
    missing.message.space_id = 2;
    assert_eq!(cast(&mut store, &missing, T + 10, 50), Err(VoteError::SpaceNotFound));
    let mut missing = data(ADDRESS, 1);
    missing.message.proposal_id = 2;
    assert_eq!(cast(&mut store, &missing, T + 10, 50), Err(VoteError::ProposalNotFound));
    assert_eq!(cast(&mut store, &data(ADDRESS, 3), T + 10, 50), Err(VoteError::OptionNotFound));
    assert_eq!(format!("{:?}", store.spaces), before);
}

#[test]
fn non_canonical_address_is_invalid_signature() {
    let mut store = setup();
    let upper = "0x00000000000000000000000000000000000000AA";
    assert_eq!(cast(&mut store, &data(upper, 1), T + 10, 50), Err(VoteError::InvalidSignature));
    let short = "0x00aa";
    assert_eq!(cast(&mut store, &data(short, 1), T + 10, 50), Err(VoteError::InvalidSignature));
}

#[test]
fn message_text_is_the_json_of_the_message() {
    let d = data(ADDRESS, 2);
    assert_eq!(
        message_text_of(&d.message),
        format!("{{\"proposal_id\":1,\"space_id\":1,\"option_id\":2,\"address\":\"{}\"}}", ADDRESS)
    );
}

fn signed_vote(key: &SigningKey, option_id: u32) -> VoteData {
    let address = format!("{:?}", ethers_core::utils::secret_key_to_address(key));
    let mut d = data(&address, option_id);
    let text = message_text_of(&d.message);
    let hash = ethers_core::utils::hash_message(text.as_bytes());
    let (sig, recid) = key.sign_prehash_recoverable(hash.as_bytes()).unwrap();
    let mut bytes = sig.to_bytes().to_vec();
    bytes.push(27 + recid.to_byte());
    d.signature = format!("0x{}", hex::encode(bytes));
    d
}

#[test]
fn vote_recovers_the_signer() {
    let key = SigningKey::from_slice(&[7u8; 32]).unwrap();
    let d = signed_vote(&key, 1);
    let mut store = setup();
    assert_eq!(vote(&mut store, &d, T + 4, Ok(Power::from_u64(11))), Ok(Power::from_u64(11)));
    assert_eq!(store.get_votes(1, 1, 1).unwrap()[0].user_address, d.message.address);
    assert_eq!(
        vote(&mut store, &signed_vote(&key, 2), T + 5, Ok(Power::from_u64(11))),
        Err(VoteError::AlreadyVoted)
    );
}

#[test]
fn vote_signed_by_another_key_is_refused() {
    let key = SigningKey::from_slice(&[7u8; 32]).unwrap();
    let mut d = signed_vote(&key, 1);
    d.message.address = ADDRESS.to_string();
    let mut store = setup();
    assert_eq!(vote(&mut store, &d, T + 4, Ok(Power::from_u64(11))), Err(VoteError::InvalidSignature));
    let mut bad = signed_vote(&key, 1);
    bad.signature = "0x1234".to_string();
    assert_eq!(vote(&mut store, &bad, T + 4, Ok(Power::from_u64(11))), Err(VoteError::InvalidSignature));
}

#[test]
fn window_is_checked_before_the_option() {
    let mut store = setup();
    assert_eq!(cast(&mut store, &data(ADDRESS, 9), T + 100, 50), Err(VoteError::VotingWindowClosed));
    assert_eq!(cast(&mut store, &data(ADDRESS, 9), T + 10, 50), Err(VoteError::OptionNotFound));
    assert_eq!(cast(&mut store, &data(ADDRESS, 9), T + 10, 5), Err(VoteError::InsufficientPower));
    assert_eq!(cast(&mut store, &data(ADDRESS, 1), T + 10, 50), Ok(Power::from_u64(50)));
    assert_eq!(cast(&mut store, &data(ADDRESS, 9), T + 10, 50), Err(VoteError::AlreadyVoted));
}

#[test]
fn precheck_stops_before_power() {
    let store = setup();
    let d = data(ADDRESS, 1);
    let signer = Some(address_bytes(ADDRESS));
    assert_eq!(precheck_vote(&store, &d, &signer, T + 3), Ok(()));
    assert_eq!(precheck_vote(&store, &d, &signer, T + 63), Err(VoteError::VotingWindowClosed));
    assert_eq!(precheck_vote(&store, &d, &None, T + 3), Err(VoteError::InvalidSignature));
    let mut missing = data(ADDRESS, 1);
    missing.message.proposal_id = 5;
    assert_eq!(precheck_vote(&store, &missing, &signer, T + 3), Err(VoteError::ProposalNotFound));
    let key = SigningKey::from_slice(&[7u8; 32]).unwrap();
    assert_eq!(check_vote(&store, &signed_vote(&key, 1), T + 3), Ok(()));
    assert_eq!(check_vote(&store, &d, T + 3), Err(VoteError::InvalidSignature));
}
