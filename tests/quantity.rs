use kube_audit::quantity::ParseError;

fn normalise(input: &str) -> Result<u64, ParseError> {
    kube_audit::quantity::quantity_to_number(input)
}

#[test]
fn quantity_to_number() {
    let testcases = vec![
        ("1500m", 1500),
        ("1k", 1_000_000),
        ("1", 1000),
        ("1Ki", 1024),
    ];

    for (input, expected) in testcases {
        let output = kube_audit::quantity::quantity_to_number(input).unwrap();
        assert_eq!(expected, output);
    }
}

#[test]
fn quantity_table_of_suffixes() {
    assert_eq!(normalise("1n"), Ok(0));
    assert_eq!(normalise("2500000000n"), Ok(2500));
    assert_eq!(normalise("250m"), Ok(250));
    assert_eq!(normalise("3k"), Ok(3_000_000));
    assert_eq!(normalise("2Ki"), Ok(2048));
    assert_eq!(normalise("1Mi"), Ok(1_048_576));
    assert_eq!(normalise("512Mi"), Ok(536_870_912));
    assert_eq!(normalise("1Gi"), Ok(1_073_741_824));
    assert_eq!(normalise("0"), Ok(0));
}

#[test]
fn quantity_without_suffix_is_scaled_by_a_thousand() {
    assert_eq!(normalise("2"), Ok(2000));
    assert_eq!(normalise("1048576"), Ok(1_048_576_000));
}

#[test]
fn quantity_unknown_suffix() {
    assert_eq!(normalise("1Qi"), Err(ParseError::UnknownSuffix));
    assert_eq!(normalise("1k2"), Err(ParseError::UnknownSuffix));
    assert_eq!(normalise("1Ti"), Err(ParseError::UnknownSuffix));
    assert_eq!(normalise("1ki"), Err(ParseError::UnknownSuffix));
    assert_eq!(normalise("1.5"), Err(ParseError::UnknownSuffix));
}

#[test]
fn quantity_not_a_number() {
    assert_eq!(normalise(""), Err(ParseError::NotANumber));
    assert_eq!(normalise("k"), Err(ParseError::NotANumber));
    assert_eq!(normalise("-1"), Err(ParseError::NotANumber));
}

#[test]
fn quantity_overflow() {
    assert_eq!(normalise("18446744073709551615m"), Ok(u64::MAX));
    assert_eq!(normalise("18446744073709551616m"), Err(ParseError::Overflow));
    assert_eq!(normalise("18446744073709551615"), Err(ParseError::Overflow));
    assert_eq!(normalise("18446744073709551615Gi"), Err(ParseError::Overflow));
    assert_eq!(normalise("99999999999999999999999n"), Err(ParseError::Overflow));
}
