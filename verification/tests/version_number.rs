use args_filter::version::parse_version_number;

#[test]
fn parses_expected_number() {
    assert_eq!(parse_version_number("1028001"), 1_028_001);
}

#[test]
fn parses_zero_and_single_digits() {
    assert_eq!(parse_version_number(""), 0);
    assert_eq!(parse_version_number("7"), 7);
    assert_eq!(parse_version_number("0007"), 7);
}
