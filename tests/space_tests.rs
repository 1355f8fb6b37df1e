use decgov_backend::power::Power;
use decgov_backend::store::Store;

#[test]
pub fn test_insert_space() {
    let mut store = Store::new();
    store.insert_space(
        "Space 1".to_string(),
        "https://space1.com/icon".to_string(),
        "https://space1.com".to_string(),
        10,
        20,
        1,
        Power::from_u64(100),
        Power::from_u64(10),
    );

    assert!(store.get_space(1).is_some());
    assert_eq!(store.get_space(1).unwrap().name, "Space 1");
    assert_eq!(store.spaces.len(), 1);
}

#[test]
fn insert_space_numbers_spaces_in_order() {
    let mut store = Store::new();
    let a = store.insert_space(
        "A".to_string(),
        String::new(),
        String::new(),
        1,
        2,
        0,
        Power::zero(),
        Power::zero(),
    );
    let b = store.insert_space(
        "B".to_string(),
        String::new(),
        String::new(),
        1,
        2,
        0,
        Power::zero(),
        Power::zero(),
    );
    assert_eq!((a, b), (1, 2));
    assert_eq!(store.get_space(2).unwrap().name, "B");
    assert!(store.get_space(3).is_none());
}

#[test]
fn insert_proposal_numbers_options_from_one() {
    let mut store = Store::new();
    store.insert_space(
        "A".to_string(),
        String::new(),
        String::new(),
        1,
        2,
        0,
        Power::zero(),
        Power::zero(),
    );
    let id = store.insert_proposal(
        1,
        "T".to_string(),
        "D".to_string(),
        0,
        vec!["yes".to_string(), "no".to_string()],
        1000,
    );
    assert_eq!(id, Some(1));
    let p = store.get_proposal(1, 1).unwrap();
    assert_eq!(p.date_created, 1000);
    assert_eq!(p.options.len(), 2);
    assert_eq!(p.options[1].id, 2);
    assert_eq!(p.options[1].name, "no");
    assert_eq!(store.insert_proposal(9, "T".to_string(), "D".to_string(), 0, vec![], 0), None);
    let o = store.insert_proposal_option(
        1,
        1,
        "maybe".to_string(),
        String::new(),
        String::new(),
        0,
    );
    assert_eq!(o, Some(3));
    assert_eq!(store.get_votes(1, 1, 3).unwrap().len(), 0);
    assert!(store.get_votes(1, 1, 4).is_none());
}
