use lumina::text::{decimal_string, join, parse_i32, parse_u16, str_less, trim, white_space};

#[test]
fn decimal_renders_numbers() {
    assert_eq!(decimal_string(0), "0");
    assert_eq!(decimal_string(7), "7");
    assert_eq!(decimal_string(6888), "6888");
    assert_eq!(decimal_string(u64::MAX), "18446744073709551615");
}

#[test]
fn parse_i32_matches_std() {
    let cases = [
        "0", "-0", "+5", "-42", "2147483647", "2147483648", "-2147483648", "-2147483649", "", "+",
        "-", "12a", " 1", "1 ", "007", "99999999999999999999", "--1", "+-1",
    ];
    for c in cases {
        assert_eq!(parse_i32(c), c.parse::<i32>().ok(), "input {:?}", c);
    }
}

#[test]
fn parse_u16_matches_std() {
    let cases = ["0", "65535", "65536", "-0", "-1", "+80", "6888", "", "x", "4294967296"];
    for c in cases {
        assert_eq!(parse_u16(c), c.parse::<u16>().ok(), "input {:?}", c);
    }
}

#[test]
fn trim_matches_std() {
    let cases = ["", "  ", " 12 ", "\t\n7\r", "\u{3000}a b\u{2028}", "x", "\u{85}y\u{a0}"];
    for c in cases {
        assert_eq!(trim(c), c.trim(), "input {:?}", c);
    }
}

#[test]
fn white_space_matches_std() {
    for u in 0u32..0x3100 {
        if let Some(c) = char::from_u32(u) {
            assert_eq!(white_space(c), c.is_whitespace(), "char {:x}", u);
        }
    }
}

#[test]
fn str_less_matches_std() {
    let words = ["", "a", "ab", "b", "0", "10", "9", "é", "z", "ä", "\u{10000}", "\u{ffff}"];
    for a in words {
        for b in words {
            assert_eq!(str_less(a, b), a < b, "{:?} < {:?}", a, b);
        }
    }
}

#[test]
fn join_matches_std() {
    let parts: Vec<String> = vec!["Ctrl".into(), "Shift".into(), "K".into()];
    assert_eq!(join(&parts, " + "), "Ctrl + Shift + K");
    assert_eq!(join(&Vec::new(), " + "), "");
    assert_eq!(join(&vec!["A".to_string()], " + "), "A");
}

#[test]
fn parse_reads_back_rendering() {
    for n in [0i32, 1, -1, 200, -200, i32::MAX, i32::MIN] {
        let mut s = String::new();
        lumina::text::push_signed_decimal(&mut s, n as i64);
        assert_eq!(parse_i32(&s), Some(n));
    }
}
