use yas_scan::record::{parse_count, parse_decimal, parse_level};

#[test]
fn level_text_with_plus() {
    assert_eq!(parse_level("+20"), Some(20));
    assert_eq!(parse_level("+0"), Some(0));
}

#[test]
fn level_text_without_plus() {
    assert_eq!(parse_level("16"), Some(16));
}

#[test]
fn level_text_rejected() {
    assert_eq!(parse_level(""), None);
    assert_eq!(parse_level("+"), None);
    assert_eq!(parse_level("+2a"), None);
    assert_eq!(parse_level("++2"), None);
    assert_eq!(parse_level("99999999999"), None);
}

#[test]
fn level_text_largest() {
    assert_eq!(parse_level("4294967295"), Some(4294967295));
    assert_eq!(parse_level("4294967296"), None);
}

#[test]
fn count_text_before_slash() {
    assert_eq!(parse_count("Artifacts 1234/1500"), Some(1234));
    assert_eq!(parse_count("7/1500"), Some(7));
    assert_eq!(parse_count("a12b34/99/5"), Some(34));
}

#[test]
fn count_text_rejected() {
    assert_eq!(parse_count("1234"), None);
    assert_eq!(parse_count("abc /1500"), None);
    assert_eq!(parse_count(""), None);
    assert_eq!(parse_count("/"), None);
    assert_eq!(parse_count("5000000000/1"), None);
}

#[test]
fn decimal_text() {
    assert_eq!(parse_decimal("1080"), Some(1080));
    assert_eq!(parse_decimal("+1080"), None);
    assert_eq!(parse_decimal(""), None);
    assert_eq!(parse_decimal("-3"), None);
}
