use handy_core::text::{
    blank_between, chars_of, decimal_chars, is_whitespace, push_chars, push_decimal,
    push_padded_decimal, push_signed_decimal, push_text, same_text, string_between, string_of,
    trim_bounds,
};

#[test]
fn chars_and_strings_convert_both_ways() {
    let text = "héllo 你好 🌍";
    let chars = chars_of(text);
    assert_eq!(chars, text.chars().collect::<Vec<char>>());
    assert_eq!(string_of(&chars), text);
    assert_eq!(string_between(&chars, 6, 8), "你好");
    assert_eq!(string_between(&chars, 3, 3), "");
    assert!(chars_of("").is_empty());
}

#[test]
fn white_space_is_what_unicode_says() {
    for code in 0..=0x11_0000u32 {
        if let Some(c) = char::from_u32(code) {
            assert_eq!(is_whitespace(c), c.is_whitespace(), "U+{:04X}", code);
        }
    }
}

#[test]
fn trim_bounds_match_trim() {
    for text in ["", " ", "a", "  a b \n", "\u{3000}x\u{a0}", "no space", "\t\t", " x"] {
        let chars = chars_of(text);
        let (lo, hi) = trim_bounds(&chars);
        assert_eq!(string_between(&chars, lo, hi), text.trim(), "{:?}", text);
        assert_eq!(blank_between(&chars, 0, chars.len()), text.trim().is_empty());
    }
}

#[test]
fn decimal_notation() {
    let mut s = String::from("n=");
    push_decimal(&mut s, 0);
    push_text(&mut s, ",");
    push_decimal(&mut s, 907);
    push_text(&mut s, ",");
    push_decimal(&mut s, u64::MAX);
    assert_eq!(s, "n=0,907,18446744073709551615");
    assert_eq!(decimal_chars(10), vec!['1', '0']);
    let mut s = String::new();
    push_signed_decimal(&mut s, -15);
    push_chars(&mut s, &[' ']);
    push_signed_decimal(&mut s, i64::MIN);
    push_chars(&mut s, &[' ']);
    push_signed_decimal(&mut s, i64::MAX);
    assert_eq!(s, "-15 -9223372036854775808 9223372036854775807");
}

#[test]
fn padded_decimal_notation() {
    let mut s = String::new();
    push_padded_decimal(&mut s, 7, 2);
    push_text(&mut s, ":");
    push_padded_decimal(&mut s, 0, 3);
    push_text(&mut s, ":");
    push_padded_decimal(&mut s, 12345, 2);
    push_text(&mut s, ":");
    push_padded_decimal(&mut s, 5, 0);
    assert_eq!(s, "07:000:12345:5");
}

#[test]
fn same_text_compares_characters() {
    assert!(same_text("", ""));
    assert!(same_text("zh-Hans", "zh-Hans"));
    assert!(!same_text("zh-Hans", "zh-Hant"));
    assert!(!same_text("a", "ab"));
    assert!(!same_text("A", "a"));
}
