use decgov_backend::power::Power;
use decgov_backend::store::Store;
use decgov_backend::types::{EvmStrategy, StrategyData};

fn populated() -> Store {
    let mut store = Store::new();
    store.insert_space(
        "S".to_string(),
        String::new(),
        String::new(),
        1,
        100,
        0,
        Power::zero(),
        Power::zero(),
    );
    store.insert_proposal(1, "P".to_string(), "d".to_string(), 0, vec!["a".to_string()], 5);
    store.insert_vote(
        1,
        1,
        1,
        "0x01".to_string(),
        0,
        9,
        "sig".to_string(),
        Power::from_u64(3),
    );
    store.insert_evm_strategy(
        1,
        "st".to_string(),
        String::new(),
        EvmStrategy {
            strategy_id: 1,
            chain_id: 1,
            contract_address: "0x1".to_string(),
            bytecode: "0x".to_string(),
        },
    );
    store
}

#[test]
fn update_and_delete_vote() {
    let mut store = populated();
    assert_eq!(store.get_vote(1, 1, 1, 1).unwrap().timestamp, 9);
    assert!(store.update_vote(
        1,
        1,
        1,
        1,
        "0x02".to_string(),
        1,
        10,
        "s2".to_string(),
        Power::from_u64(4)
    ));
    let v = store.get_vote(1, 1, 1, 1).unwrap();
    assert_eq!((v.id, v.option_id, v.timestamp), (1, 1, 10));
    assert_eq!(v.user_address, "0x02");
    assert!(!store.update_vote(1, 1, 1, 2, String::new(), 0, 0, String::new(), Power::zero()));
    assert_eq!(store.delete_vote(1, 1, 1, 1).unwrap().signature, "s2");
    assert!(store.get_vote(1, 1, 1, 1).is_none());
}

#[test]
fn update_and_delete_proposal_parts() {
    let mut store = populated();
    assert!(store.update_proposal(1, 1, "Q".to_string(), "e".to_string(), 2));
    let p = store.get_proposal(1, 1).unwrap();
    assert_eq!((p.title.as_str(), p.mechanism, p.date_created), ("Q", 2, 5));
    assert_eq!(p.options[0].votes.len(), 1);
    assert_eq!(store.get_proposal_options(1, 1).unwrap().len(), 1);
    assert_eq!(store.delete_proposal_option(1, 1, 1).unwrap().name, "a");
    assert!(store.get_proposal_option(1, 1, 1).is_none());
    assert_eq!(store.delete_proposal(1, 1).unwrap().title, "Q");
    assert_eq!(store.get_proposals(1).unwrap().len(), 0);
}

#[test]
fn update_and_delete_strategy_and_space() {
    let mut store = populated();
    assert!(store.update_evm_strategy(
        1,
        1,
        "st2".to_string(),
        String::new(),
        EvmStrategy {
            strategy_id: 1,
            chain_id: 5,
            contract_address: "0x2".to_string(),
            bytecode: "0x".to_string(),
        }
    ));
    let st = store.get_strategy(1, 1).unwrap();
    assert_eq!((st.id, st.name.as_str()), (1, "st2"));
    match &st.data {
        StrategyData::Evm(e) => assert_eq!(e.chain_id, 5),
    }
    assert!(!store.update_evm_strategy(
        1,
        7,
        String::new(),
        String::new(),
        EvmStrategy {
            strategy_id: 7,
            chain_id: 5,
            contract_address: String::new(),
            bytecode: String::new(),
        }
    ));
    assert_eq!(store.delete_strategy(1, 1).unwrap().name, "st2");
    assert_eq!(store.get_strategies(1).unwrap().len(), 0);
    assert!(store.update_space(
        1,
        "T".to_string(),
        String::new(),
        String::new(),
        2,
        3,
        4,
        Power::from_u64(1),
        Power::from_u64(2)
    ));
    let s = store.get_space(1).unwrap();
    assert_eq!((s.name.as_str(), s.vote_delay, s.proposals.len()), ("T", 2, 1));
    assert_eq!(store.delete_space(1).unwrap().name, "T");
    assert_eq!(store.get_spaces().len(), 0);
}
