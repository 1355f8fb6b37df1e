use decgov_backend::power::Power;

fn chars(s: &str) -> Vec<char> {
    s.chars().collect()
}

#[test]
fn power_from_u64_and_digits() {
    let p = Power::from_u64(0x1a2b);
    assert_eq!(p.hex_digits(), vec![0xb, 0x2, 0xa, 0x1]);
    assert!(Power::from_u64(0).is_zero());
    assert_eq!(Power::from_u64(0).hex_digits(), Vec::<u8>::new());
}

#[test]
fn power_add_carries() {
    let a = Power::from_u64(u64::MAX);
    let b = Power::from_u64(1);
    let s = a.add(&b);
    // 2^64
    let mut expected = vec![0u8; 16];
    expected.push(1);
    assert_eq!(s.hex_digits(), expected);
}

#[test]
fn power_add_beyond_256_bits() {
    let max = Power::from_hex_digits(&chars(&"f".repeat(64)), 0).unwrap();
    let s = max.add(&max);
    // (2^256 - 1) * 2 = 2^257 - 2 = 0x1fff...fe
    let expected = Power::from_hex_digits(&chars(&format!("1{}e", "f".repeat(63))), 0).unwrap();
    assert_eq!(s, expected);
    assert!(max.less_than(&s));
    assert!(!s.less_than(&max));
}

#[test]
fn power_less_than() {
    assert!(Power::from_u64(99).less_than(&Power::from_u64(100)));
    assert!(!Power::from_u64(100).less_than(&Power::from_u64(100)));
    assert!(!Power::from_u64(0x100).less_than(&Power::from_u64(0xff)));
    assert!(Power::from_u64(0x1ff).less_than(&Power::from_u64(0x200)));
    assert!(Power::zero().less_than(&Power::from_u64(1)));
}

#[test]
fn power_from_hex_digits_rejects_non_digits() {
    assert!(Power::from_hex_digits(&chars("12g4"), 0).is_none());
    assert_eq!(
        Power::from_hex_digits(&chars("0x00FF"), 2).unwrap(),
        Power::from_u64(255)
    );
    assert_eq!(Power::from_hex_digits(&chars("0x"), 2).unwrap(), Power::zero());
}

#[test]
fn power_from_digits() {
    assert_eq!(Power::from_digits(vec![5, 1, 0]).unwrap(), Power::from_u64(0x15));
    assert!(Power::from_digits(vec![16]).is_none());
    assert_eq!(Power::from_u64(7).clone(), Power::from_u64(7));
}
