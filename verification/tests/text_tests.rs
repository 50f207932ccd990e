use squirreldb::text::{append_decimal, decimal_string, parse_decimal, push_decimal, signed_decimal_string};

#[test]
fn decimal_text_of_numbers() {
    assert_eq!(decimal_string(0), "0");
    assert_eq!(decimal_string(7), "7");
    assert_eq!(decimal_string(10), "10");
    assert_eq!(decimal_string(1234567890), "1234567890");
    assert_eq!(decimal_string(u64::MAX), "18446744073709551615");
    assert_eq!(signed_decimal_string(0), "0");
    assert_eq!(signed_decimal_string(-1), "-1");
    assert_eq!(signed_decimal_string(i64::MAX), "9223372036854775807");
    assert_eq!(signed_decimal_string(i64::MIN), "-9223372036854775808");
    let mut buf = b"n=".to_vec();
    push_decimal(&mut buf, 405);
    assert_eq!(buf, b"n=405");
    let mut text = String::from("n=");
    append_decimal(&mut text, 405);
    assert_eq!(text, "n=405");
}

#[test]
fn reading_decimal_literals() {
    assert_eq!(parse_decimal(b"0"), Some(0));
    assert_eq!(parse_decimal(b"42"), Some(42));
    assert_eq!(parse_decimal(b"+42"), Some(42));
    assert_eq!(parse_decimal(b"-42"), Some(-42));
    assert_eq!(parse_decimal(b"007"), Some(7));
    assert_eq!(parse_decimal(b"-0"), Some(0));
    assert_eq!(parse_decimal(b"9223372036854775807"), Some(i64::MAX));
    assert_eq!(parse_decimal(b"-9223372036854775808"), Some(i64::MIN));
    assert_eq!(parse_decimal(b"9223372036854775808"), None);
    assert_eq!(parse_decimal(b"-9223372036854775809"), None);
    assert_eq!(parse_decimal(b"99999999999999999999999"), None);
    assert_eq!(parse_decimal(b""), None);
    assert_eq!(parse_decimal(b"-"), None);
    assert_eq!(parse_decimal(b"+"), None);
    assert_eq!(parse_decimal(b"1 "), None);
    assert_eq!(parse_decimal(b" 1"), None);
    assert_eq!(parse_decimal(b"1a"), None);
    assert_eq!(parse_decimal(b"--1"), None);
    assert_eq!(parse_decimal(b"1.0"), None);
}

#[test]
fn reading_agrees_with_the_standard_parser() {
    let samples: [&str; 12] =
        ["0", "-0", "+0", "12", "-12", "+12", "0012", "", "-", "1-", "9223372036854775807", "-9223372036854775808"];
    for s in samples {
        assert_eq!(parse_decimal(s.as_bytes()), s.parse::<i64>().ok());
    }
    for n in [0i64, 1, -1, 99, -100, 1 << 40, i64::MAX, i64::MIN] {
        assert_eq!(parse_decimal(signed_decimal_string(n).as_bytes()), Some(n));
        assert_eq!(signed_decimal_string(n), n.to_string());
    }
}
