use stream_http::number::{decimal_string, parse_decimal};

fn chars(text: &str) -> Vec<char> {
    text.chars().collect()
}

#[test]
fn decimal_is_read() {
    assert_eq!(parse_decimal(&chars("0"), 255), Some(0));
    assert_eq!(parse_decimal(&chars("255"), 255), Some(255));
    assert_eq!(parse_decimal(&chars("+12"), 255), Some(12));
    assert_eq!(parse_decimal(&chars("00012"), 255), Some(12));
    assert_eq!(
        parse_decimal(&chars("18446744073709551615"), u64::MAX),
        Some(u64::MAX)
    );
}

#[test]
fn decimal_above_the_limit_is_refused() {
    assert_eq!(parse_decimal(&chars("256"), 255), None);
    assert_eq!(parse_decimal(&chars("18446744073709551616"), u64::MAX), None);
    assert_eq!(parse_decimal(&chars("99999999999999999999999999"), u64::MAX), None);
}

#[test]
fn what_is_no_decimal_is_refused() {
    assert_eq!(parse_decimal(&chars(""), 255), None);
    assert_eq!(parse_decimal(&chars("+"), 255), None);
    assert_eq!(parse_decimal(&chars("-1"), 255), None);
    assert_eq!(parse_decimal(&chars("++1"), 255), None);
    assert_eq!(parse_decimal(&chars("1+"), 255), None);
    assert_eq!(parse_decimal(&chars(" 1"), 255), None);
    assert_eq!(parse_decimal(&chars("1 "), 255), None);
    assert_eq!(parse_decimal(&chars("1_0"), 255), None);
    assert_eq!(parse_decimal(&chars("0x10"), 255), None);
    assert_eq!(parse_decimal(&chars("\u{661}"), 255), None);
}

#[test]
fn decimal_is_written() {
    assert_eq!(decimal_string(0), "0");
    assert_eq!(decimal_string(7), "7");
    assert_eq!(decimal_string(10), "10");
    assert_eq!(decimal_string(140), "140");
    assert_eq!(decimal_string(1_000_000), "1000000");
    assert_eq!(
        decimal_string(u128::MAX),
        "340282366920938463463374607431768211455"
    );
}

#[test]
fn written_decimal_reads_back() {
    for n in [0u64, 1, 9, 10, 99, 100, 4096, 65535, u64::MAX] {
        let text = decimal_string(n as u128);
        assert_eq!(parse_decimal(&chars(&text), u64::MAX), Some(n));
    }
}
