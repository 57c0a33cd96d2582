use chook::identity::{format_identity, parse_identity};

#[test]
fn formats_decimal() {
    assert_eq!(format_identity(0), "0");
    assert_eq!(format_identity(7), "7");
    assert_eq!(format_identity(12345), "12345");
    assert_eq!(format_identity(-42), "-42");
    assert_eq!(format_identity(i32::MAX), "2147483647");
    assert_eq!(format_identity(i32::MIN), "-2147483648");
}

#[test]
fn parses_decimal() {
    assert_eq!(parse_identity("0").unwrap(), 0);
    assert_eq!(parse_identity("12345").unwrap(), 12345);
    assert_eq!(parse_identity("+7").unwrap(), 7);
    assert_eq!(parse_identity("007").unwrap(), 7);
    assert_eq!(parse_identity("-42").unwrap(), -42);
    assert_eq!(parse_identity("2147483647").unwrap(), i32::MAX);
    assert_eq!(parse_identity("-2147483648").unwrap(), i32::MIN);
}

#[test]
fn rejects_malformed_identity() {
    assert!(parse_identity("").is_err());
    assert!(parse_identity("-").is_err());
    assert!(parse_identity("+").is_err());
    assert!(parse_identity("12a").is_err());
    assert!(parse_identity(" 12").is_err());
    assert!(parse_identity("2147483648").is_err());
    assert!(parse_identity("-2147483649").is_err());
    assert!(parse_identity("99999999999999999999x").is_err());
}

#[test]
fn identity_round_trip() {
    for n in [0, 1, -1, 9, 10, 99, 100, 4242, -31337, i32::MAX, i32::MIN] {
        assert_eq!(parse_identity(&format_identity(n)).unwrap(), n);
    }
}
