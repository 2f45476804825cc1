use vida_ledger::balance::Balance;

#[test]
fn parse_decimal_follows_bigint_grammar() {
    assert_eq!(Balance::parse_decimal("1000").unwrap().to_be_bytes(), vec![0x03, 0xe8]);
    assert_eq!(Balance::parse_decimal("1_000").unwrap().to_decimal_string(), "1000");
    assert_eq!(Balance::parse_decimal("+5").unwrap().to_decimal_string(), "5");
    assert_eq!(Balance::parse_decimal("007").unwrap().to_decimal_string(), "7");
    assert!(Balance::parse_decimal("").is_none());
    assert!(Balance::parse_decimal("+").is_none());
    assert!(Balance::parse_decimal("++5").is_none());
    assert!(Balance::parse_decimal("_1").is_none());
    assert!(Balance::parse_decimal("-1").is_none());
    assert!(Balance::parse_decimal("12a").is_none());
    assert!(Balance::parse_decimal(" 1").is_none());
}

#[test]
fn parse_decimal_beyond_u64() {
    let b = Balance::parse_decimal("18446744073709551616").unwrap();
    assert_eq!(b.to_be_bytes(), vec![1, 0, 0, 0, 0, 0, 0, 0, 0]);
    assert_eq!(b.to_decimal_string(), "18446744073709551616");
}

#[test]
fn arithmetic_and_order() {
    let a = Balance::from_u64(250);
    let b = Balance::from_u64(10);
    assert_eq!(a.plus(&b).to_be_bytes(), vec![1, 4]);
    assert_eq!(a.minus(&b).to_decimal_string(), "240");
    assert_eq!(a.minus(&a).to_be_bytes(), vec![0]);
    assert!(b.less_than(&a));
    assert!(!a.less_than(&b));
    assert!(!a.less_than(&a));
}

#[test]
fn from_be_bytes_normalizes() {
    assert_eq!(Balance::from_be_bytes(&[0, 0, 5]).to_be_bytes(), vec![5]);
    assert_eq!(Balance::from_be_bytes(&[]).to_be_bytes(), vec![0]);
    assert_eq!(Balance::zero().to_decimal_string(), "0");
    assert_eq!(Balance::from_u64(0).to_be_bytes(), vec![0]);
}
