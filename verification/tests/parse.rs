use guessing_game::parse_guess;

#[test]
fn plain_digits() {
    assert_eq!(parse_guess("7"), Some(7));
    assert_eq!(parse_guess("10"), Some(10));
    assert_eq!(parse_guess("0"), Some(0));
    assert_eq!(parse_guess("007"), Some(7));
}

#[test]
fn surrounding_whitespace_is_trimmed() {
    assert_eq!(parse_guess(" 7 "), Some(7));
    assert_eq!(parse_guess("3\n"), Some(3));
    assert_eq!(parse_guess("\t 9 \r\n"), Some(9));
    assert_eq!(parse_guess("\u{00A0}5\u{3000}"), Some(5));
}

#[test]
fn leading_plus_is_accepted() {
    assert_eq!(parse_guess("+3"), Some(3));
    assert_eq!(parse_guess(" +10 "), Some(10));
}

#[test]
fn largest_value_fits_and_one_more_does_not() {
    assert_eq!(parse_guess("4294967295"), Some(u32::MAX));
    assert_eq!(parse_guess("4294967296"), None);
    assert_eq!(parse_guess("99999999999999999999"), None);
}

#[test]
fn malformed_lines_are_rejected() {
    assert_eq!(parse_guess(""), None);
    assert_eq!(parse_guess("   "), None);
    assert_eq!(parse_guess("abc"), None);
    assert_eq!(parse_guess("3.5"), None);
    assert_eq!(parse_guess("-1"), None);
    assert_eq!(parse_guess("+"), None);
    assert_eq!(parse_guess("++3"), None);
    assert_eq!(parse_guess("x7"), None);
    assert_eq!(parse_guess("7x"), None);
    assert_eq!(parse_guess("3 5"), None);
}
