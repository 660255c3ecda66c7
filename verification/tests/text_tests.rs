use dronechain::digest::to_hex_lower;
use dronechain::text::{is_whitespace_char, str_greater, trim_str, u64_to_decimal};

#[test]
fn decimal_rendering() {
    assert_eq!(u64_to_decimal(0), "0");
    assert_eq!(u64_to_decimal(7), "7");
    assert_eq!(u64_to_decimal(10), "10");
    assert_eq!(u64_to_decimal(12345), "12345");
    assert_eq!(u64_to_decimal(u64::MAX), u64::MAX.to_string());
}

#[test]
fn hex_rendering() {
    assert_eq!(to_hex_lower(&[10, 20, 30]), "0a141e");
    assert_eq!(to_hex_lower(&[]), "");
    assert_eq!(to_hex_lower(&[0xff, 0x00]), "ff00");
}

#[test]
fn trimming() {
    assert_eq!(trim_str("  a b \t\n"), "a b");
    assert_eq!(trim_str(""), "");
    assert_eq!(trim_str(" \u{3000} "), "");
    assert_eq!(trim_str("\u{a0}x\u{2009}"), "x");
    for s in ["  q ", "\r\nz\u{85}", "é ", " \u{200b} "] {
        assert_eq!(trim_str(s), s.trim());
    }
}

#[test]
fn whitespace_is_std_whitespace() {
    for u in 0..0x3100u32 {
        if let Some(c) = char::from_u32(u) {
            assert_eq!(is_whitespace_char(c), c.is_whitespace(), "{}", u);
        }
    }
}

#[test]
fn string_order_is_byte_order() {
    assert!(str_greater("2", "10"));
    assert!(!str_greater("10", "2"));
    assert!(!str_greater("5", "5"));
    assert!(str_greater("ab", "a"));
    assert!(!str_greater("", ""));
    for (a, b) in [("é", "z"), ("z", "é"), ("abc", "abd"), ("", "x")] {
        assert_eq!(str_greater(a, b), a > b);
    }
}
