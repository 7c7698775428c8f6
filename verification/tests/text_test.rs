use sequences_rs::decimal::{decimal_string, parse_i64, parse_u32, parse_u64};

#[test]
fn decimal_strings() {
    assert_eq!(decimal_string(0), "0");
    assert_eq!(decimal_string(7), "7");
    assert_eq!(decimal_string(10), "10");
    assert_eq!(decimal_string(1234567890), "1234567890");
    assert_eq!(decimal_string(u64::MAX), "18446744073709551615");
}

#[test]
fn decimal_strings_match_to_string() {
    for n in [0u64, 1, 9, 99, 100, 101, 4096, 65535, 1 << 40, u64::MAX - 1] {
        assert_eq!(decimal_string(n), n.to_string());
    }
}

#[test]
fn parsing_agrees_with_std() {
    let cases = [
        "", "+", "-", "0", "00", "+0", "-0", "42", "+42", "-42", " 42", "42 ", "4a", "1_000",
        "18446744073709551615", "18446744073709551616", "4294967295", "4294967296",
        "9223372036854775807", "9223372036854775808", "-9223372036854775808", "-9223372036854775809",
        "++1", "+-1", "-+1", "٣",
    ];
    for s in cases {
        assert_eq!(parse_u64(s), s.parse::<u64>().ok(), "u64 {:?}", s);
        assert_eq!(parse_u32(s), s.parse::<u32>().ok(), "u32 {:?}", s);
        assert_eq!(parse_i64(s), s.parse::<i64>().ok(), "i64 {:?}", s);
    }
}

#[test]
fn parse_edge_values() {
    assert_eq!(parse_i64("-9223372036854775808"), Some(i64::MIN));
    assert_eq!(parse_i64("9223372036854775807"), Some(i64::MAX));
    assert_eq!(parse_i64("9223372036854775808"), None);
    assert_eq!(parse_u32("4294967296"), None);
    assert_eq!(parse_u64("+7"), Some(7));
}
