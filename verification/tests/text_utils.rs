use autoclicker::text::{decimal_string, parse_decimal, same_text, trim};

#[test]
fn renders_decimals() {
    assert_eq!(decimal_string(0), "0");
    assert_eq!(decimal_string(7), "7");
    assert_eq!(decimal_string(10), "10");
    assert_eq!(decimal_string(60000), "60000");
    assert_eq!(decimal_string(u64::MAX), u64::MAX.to_string());
}

#[test]
fn parses_like_std() {
    for s in ["0", "15", "+15", "007", "65535", "65536", "", "+", "-1", "1 2", "abc", "18446744073709551615", "18446744073709551616", "++1"] {
        assert_eq!(parse_decimal(s, u64::MAX), s.parse::<u64>().ok(), "{:?}", s);
        assert_eq!(parse_decimal(s, u16::MAX as u64), s.parse::<u16>().ok().map(|v| v as u64), "{:?}", s);
    }
}

#[test]
fn trims_like_std() {
    for s in ["", "  ", " a ", "\t15\n", "\u{3000}x\u{a0}", "a b", "\u{2028}\u{85}z"] {
        assert_eq!(trim(s), s.trim(), "{:?}", s);
    }
}

#[test]
fn compares_texts() {
    assert!(same_text("abc", "abc"));
    assert!(!same_text("abc", "abd"));
    assert!(!same_text("abc", "ab"));
    assert!(same_text("", ""));
}
