use kantyna::decimal::{i32_to_decimal, parse_i32, u64_to_decimal};

#[test]
fn decimal_text_of_i32_matches_to_string() {
    let samples = [0, 1, -1, 9, 10, -10, 42, -42, 1000, 2147483647, -2147483648, 123456789];
    for x in samples {
        assert_eq!(i32_to_decimal(x), x.to_string());
    }
}

#[test]
fn decimal_text_of_u64() {
    assert_eq!(u64_to_decimal(0), "0");
    assert_eq!(u64_to_decimal(1700000060), "1700000060");
    assert_eq!(u64_to_decimal(u64::MAX), "18446744073709551615");
}

#[test]
fn parse_i32_exact_values() {
    assert_eq!(parse_i32("123"), Some(123));
    assert_eq!(parse_i32("-42"), Some(-42));
    assert_eq!(parse_i32("+5"), Some(5));
    assert_eq!(parse_i32("0007"), Some(7));
    assert_eq!(parse_i32("2147483647"), Some(i32::MAX));
    assert_eq!(parse_i32("-2147483648"), Some(i32::MIN));
}

#[test]
fn parse_i32_refusals() {
    for s in ["", "-", "+", "12a", " 1", "1 ", "2147483648", "-2147483649", "--1", "+-1", "1_000", "٣", "99999999999999999999"] {
        assert_eq!(parse_i32(s), None, "{:?}", s);
    }
}

#[test]
fn parse_i32_agrees_with_std() {
    let samples = [
        "0", "-0", "+0", "12", "-12", "+12", "", "-", "+", "a", "1a", "a1", "2147483647",
        "2147483648", "-2147483648", "-2147483649", "00000000000000000000001", "1e3", "١",
        "  7", "7\n", "+-3", "3-", "4294967296",
    ];
    for s in samples {
        assert_eq!(parse_i32(s), s.parse::<i32>().ok(), "{:?}", s);
    }
}

#[test]
fn parse_reads_back_decimal_text() {
    let mut x: i64 = i32::MIN as i64;
    while x <= i32::MAX as i64 {
        let v = x as i32;
        assert_eq!(parse_i32(&i32_to_decimal(v)), Some(v));
        x += 65_537;
    }
    assert_eq!(parse_i32(&i32_to_decimal(i32::MAX)), Some(i32::MAX));
}
