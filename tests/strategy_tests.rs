use decgov_backend::error::StrategyError;
use decgov_backend::power::Power;
use decgov_backend::store::Store;
use decgov_backend::strategy::{parse_call_result, power_calls, replace_all_str, total_power};
use decgov_backend::types::EvmStrategy;

#[test]
fn empty_result_is_zero_power() {
    assert_eq!(parse_call_result("0x").unwrap(), Power::zero());
    let total = total_power(&vec![Some("0x".to_string())]).unwrap();
    assert!(total.is_zero());
}

#[test]
fn call_result_parses_hex() {
    assert_eq!(parse_call_result("0x1a").unwrap(), Power::from_u64(26));
    assert_eq!(parse_call_result("ff").unwrap(), Power::from_u64(255));
    assert_eq!(parse_call_result("0xzz"), Err(StrategyError::ResultParseError));
    assert_eq!(parse_call_result(""), Err(StrategyError::ResultParseError));
}

#[test]
fn aggregation_sums_every_strategy() {
    let replies = vec![
        Some("0x10".to_string()),
        Some("0x".to_string()),
        Some("0x05".to_string()),
    ];
    assert_eq!(total_power(&replies).unwrap(), Power::from_u64(21));
    assert!(total_power(&vec![]).unwrap().is_zero());
}

#[test]
fn aggregation_is_exact_past_256_bits() {
    let max = format!("0x{}", "f".repeat(64));
    let replies = vec![Some(max.clone()), Some(max.clone()), Some("0x2".to_string())];
    let total = total_power(&replies).unwrap();
    // 2 * (2^256 - 1) + 2 = 2^257
    let mut expected = vec![0u8; 64];
    expected.push(2);
    assert_eq!(total.hex_digits(), expected);
}

#[test]
fn one_failing_strategy_aborts_aggregation() {
    let replies = vec![Some("0x10".to_string()), None, Some("0x05".to_string())];
    assert_eq!(total_power(&replies), Err(StrategyError::EvmCallFailed));
    let replies = vec![Some("0x10".to_string()), Some("nope".to_string())];
    assert_eq!(total_power(&replies), Err(StrategyError::ResultParseError));
}

#[test]
fn same_replies_give_same_power() {
    let replies = vec![Some("0xabc".to_string()), Some("0x1".to_string())];
    assert_eq!(total_power(&replies), total_power(&replies));
}

#[test]
fn replace_all_substitutes_every_occurrence() {
    assert_eq!(replace_all_str("a$xb$x", "$x", "1"), "a1b1");
    assert_eq!(replace_all_str("aaa", "aa", "b"), "ba");
    assert_eq!(replace_all_str("abc", "", "z"), "abc");
}

#[test]
fn power_calls_substitute_the_voter() {
    let mut store = Store::new();
    store.insert_space(
        "S".to_string(),
        String::new(),
        String::new(),
        0,
        10,
        0,
        Power::zero(),
        Power::zero(),
    );
    store.insert_evm_strategy(
        1,
        "balance".to_string(),
        String::new(),
        EvmStrategy {
            strategy_id: 1,
            chain_id: 1,
            contract_address: "0xc0ffee0000000000000000000000000000000000".to_string(),
            bytecode: "0x70a08231000000000000000000000000$voterAddress".to_string(),
        },
    );
    let voter = vec![0xabu8; 20];
    let calls = power_calls(&store, 1, &voter, &None).unwrap();
    assert_eq!(calls.len(), 1);
    assert_eq!(
        calls[0].data,
        format!("0x70a08231000000000000000000000000{}", "ab".repeat(20))
    );
    assert_eq!(calls[0].contract_address, "0xc0ffee0000000000000000000000000000000000");
    assert_eq!(calls[0].block_height, None);
    let at = power_calls(&store, 1, &voter, &Some("0x10".to_string())).unwrap();
    assert_eq!(at[0].block_height, Some("0x10".to_string()));
    assert!(power_calls(&store, 2, &voter, &None).is_none());
}
