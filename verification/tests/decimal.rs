use xkcdfs::decimal::{decimal_string, parse_i32, parse_u32, push_decimal};

#[test]
fn decimal_string_matches_std() {
    for n in [0u32, 1, 9, 10, 11, 99, 100, 101, 999, 1000, 65535, 1_000_000, u32::MAX] {
        assert_eq!(decimal_string(n), n.to_string());
    }
}

#[test]
fn push_decimal_appends() {
    let mut text = String::from("n=");
    push_decimal(&mut text, 2048);
    assert_eq!(text, "n=2048");
    push_decimal(&mut text, 0);
    assert_eq!(text, "n=20480");
}

#[test]
fn parse_u32_reads_digits() {
    assert_eq!(parse_u32("0"), Some(0));
    assert_eq!(parse_u32("7"), Some(7));
    assert_eq!(parse_u32("007"), Some(7));
    assert_eq!(parse_u32("+12"), Some(12));
    assert_eq!(parse_u32("4294967295"), Some(u32::MAX));
    assert_eq!(parse_u32("0000000000000000000004294967295"), Some(u32::MAX));
}

#[test]
fn parse_u32_rejects_everything_else() {
    for text in [
        "", "+", "-", "-1", "-0", " 1", "1 ", "1a", "a1", "1.0", "4294967296", "99999999999",
        "99999999999999999999999999", "++1", "+-1", "١", "1é", "é",
    ] {
        assert_eq!(parse_u32(text), None, "{text:?}");
    }
}

#[test]
fn parse_i32_reads_signed_digits() {
    assert_eq!(parse_i32("0"), Some(0));
    assert_eq!(parse_i32("-0"), Some(0));
    assert_eq!(parse_i32("+0"), Some(0));
    assert_eq!(parse_i32("2006"), Some(2006));
    assert_eq!(parse_i32("-44"), Some(-44));
    assert_eq!(parse_i32("2147483647"), Some(i32::MAX));
    assert_eq!(parse_i32("-2147483648"), Some(i32::MIN));
    assert_eq!(parse_i32("-0002147483648"), Some(i32::MIN));
}

#[test]
fn parse_i32_rejects_everything_else() {
    for text in [
        "", "+", "-", "--1", "-+1", "+-1", "2147483648", "-2147483649", "12x", "x", " 5", "5 ",
        "-é", "é5",
    ] {
        assert_eq!(parse_i32(text), None, "{text:?}");
    }
}

#[test]
fn parsing_agrees_with_std() {
    let texts = [
        "", "0", "1", "+1", "-1", "+", "-", "00", "010", "4294967295", "4294967296",
        "2147483647", "2147483648", "-2147483648", "-2147483649", "1_000", "0x10", "１２", "12 ",
        "\t12", "+0012", "-0012", "18446744073709551616", "-", "+-", "1e3",
    ];
    for text in texts {
        assert_eq!(parse_u32(text), text.parse::<u32>().ok(), "{text:?}");
        assert_eq!(parse_i32(text), text.parse::<i32>().ok(), "{text:?}");
    }
}
