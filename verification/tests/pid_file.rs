use entrypoint::pid::parse_pid;

#[test]
fn parses_trimmed_positive_integer() {
    assert_eq!(parse_pid("123"), Some(123));
    assert_eq!(parse_pid("123\n"), Some(123));
    assert_eq!(parse_pid("  42 \t\n"), Some(42));
    assert_eq!(parse_pid("+7"), Some(7));
    assert_eq!(parse_pid("2147483647"), Some(i32::MAX));
}

#[test]
fn rejects_non_positive_values() {
    assert_eq!(parse_pid("0"), None);
    assert_eq!(parse_pid("-5"), None);
    assert_eq!(parse_pid("+0"), None);
}

#[test]
fn rejects_garbage() {
    assert_eq!(parse_pid(""), None);
    assert_eq!(parse_pid("   "), None);
    assert_eq!(parse_pid("abc"), None);
    assert_eq!(parse_pid("12x"), None);
    assert_eq!(parse_pid("12 3"), None);
    assert_eq!(parse_pid("++1"), None);
}

#[test]
fn rejects_out_of_range_values() {
    assert_eq!(parse_pid("2147483648"), None);
    assert_eq!(parse_pid("99999999999999999999"), None);
}
