use sunny::text;

#[test]
fn trim_removes_white_space_at_both_ends() {
    assert_eq!(text::trim("  a b \n"), "a b");
    assert_eq!(text::trim("a"), "a");
    assert_eq!(text::trim(""), "");
    assert_eq!(text::trim(" \t\r\n\u{b}\u{c}"), "");
    assert_eq!(text::trim("\u{85}\u{a0}\u{1680}\u{2000}\u{200a}x\u{2028}\u{2029}\u{202f}\u{205f}\u{3000}"), "x");
    assert_eq!(text::trim("\u{200b}x\u{feff}"), "\u{200b}x\u{feff}");
    assert_eq!(text::trim(" é ü "), "é ü");
}

#[test]
fn trim_agrees_with_the_standard_library() {
    for code in 0u32..0x3100 {
        if let Some(c) = char::from_u32(code) {
            assert_eq!(text::is_white_space(c), c.is_whitespace(), "code point {:#x}", code);
            let sample = format!("{}a{}", c, c);
            assert_eq!(text::trim(&sample), sample.trim());
        }
    }
}

#[test]
fn decimal_text_is_the_number_in_decimal() {
    assert_eq!(text::decimal_text(0), "0");
    assert_eq!(text::decimal_text(7), "7");
    assert_eq!(text::decimal_text(10), "10");
    assert_eq!(text::decimal_text(-1), "-1");
    assert_eq!(text::decimal_text(1_000_000), "1000000");
    assert_eq!(text::decimal_text(i32::MAX), "2147483647");
    assert_eq!(text::decimal_text(i32::MIN), "-2147483648");
    for value in -1100..1100 {
        assert_eq!(text::decimal_text(value), value.to_string());
    }
}

#[test]
fn join_puts_the_separator_between_pieces() {
    let pieces = vec!["a".to_string(), String::new(), "c".to_string()];
    assert_eq!(text::join(&pieces, ", "), "a, , c");
    assert_eq!(text::join(&vec!["x".to_string()], ", "), "x");
    assert_eq!(text::join(&vec![], ", "), "");
}

#[test]
fn starts_with_compares_the_first_characters() {
    assert!(text::starts_with("released May 1, 2000", "released "));
    assert!(text::starts_with("abc", ""));
    assert!(text::starts_with("", ""));
    assert!(!text::starts_with("release", "released "));
    assert!(!text::starts_with("Released x", "released "));
    assert!(text::starts_with("éa", "é"));
}

#[test]
fn precedes_is_the_order_of_strings() {
    let samples = ["", "a", "A", "ab", "b", "é", "z", "aa", "\u{10000}", "\u{ffff}", "a\u{0}"];
    for left in samples {
        for right in samples {
            assert_eq!(text::precedes(left, right), left <= right, "{:?} <= {:?}", left, right);
        }
    }
}
