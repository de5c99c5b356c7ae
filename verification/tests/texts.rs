use focusd::text::{
    class_name, count_digits, digit_str, is_blank, is_white_space, push_decimal, push_signed,
    push_zero_padded, same_text, to_chars, trim,
};

#[test]
fn identity_normalization() {
    assert_eq!(class_name("firefox\0Firefox"), "Firefox");
    assert_eq!(class_name("Firefox"), "Firefox");
    assert_eq!(class_name("gnome-terminal\0Gnome-terminal"), "Gnome-terminal");
}

#[test]
fn class_name_edge_cases() {
    assert_eq!(class_name(""), "");
    assert_eq!(class_name("firefox\0Firefox\0"), "");
    assert_eq!(class_name("\0"), "");
    assert_eq!(class_name("\0x"), "x");
    assert_eq!(class_name("a\0b\0c"), "c");
    assert_eq!(class_name("caf\u{e9}\0Caf\u{e9}"), "Caf\u{e9}");
}

#[test]
fn class_name_is_the_last_piece_of_a_split() {
    for s in ["", "a", "a\0", "\0a", "a\0b", "a\0\0b", "\0\0"] {
        assert_eq!(class_name(s), s.split('\0').last().unwrap());
    }
}

#[test]
fn trimming() {
    assert_eq!(trim("  {}\n"), "{}");
    assert_eq!(trim("IdleHint=yes\n"), "IdleHint=yes");
    assert_eq!(trim(""), "");
    assert_eq!(trim(" \t\r\n"), "");
    assert_eq!(trim("a b"), "a b");
    assert_eq!(trim("\u{a0}x\u{3000}"), "x");
    assert_eq!(trim("\u{200b}x"), "\u{200b}x");
}

#[test]
fn trimming_is_that_of_the_standard_library() {
    for s in ["", " ", " a ", "\u{85}a\u{2028}", "\u{1680}\u{2000}x\u{200a}\u{205f}", "\u{feff}x", "x\u{b}"] {
        assert_eq!(trim(s), s.trim());
    }
    for code in 0..0x3100u32 {
        if let Some(c) = char::from_u32(code) {
            assert_eq!(is_white_space(c), c.is_whitespace());
        }
    }
}

#[test]
fn blank_texts() {
    assert!(is_blank(""));
    assert!(is_blank("  \n"));
    assert!(!is_blank(" a "));
}

#[test]
fn texts_compare_by_their_characters() {
    assert!(same_text("", ""));
    assert!(same_text("{}", "{}"));
    assert!(!same_text("{}", "{ }"));
    assert!(!same_text("a", "ab"));
    assert!(same_text("\u{e9}", "\u{e9}"));
    assert!(!same_text("\u{e9}", "\u{e8}"));
}

#[test]
fn characters_of_a_text() {
    assert_eq!(to_chars("a\u{e9}\0"), vec!['a', '\u{e9}', '\0']);
    assert!(to_chars("").is_empty());
}

#[test]
fn numbers_in_decimal() {
    let decimal = |n: u64| {
        let mut s = String::from("x");
        push_decimal(&mut s, n);
        s
    };
    assert_eq!(decimal(0), "x0");
    assert_eq!(decimal(7), "x7");
    assert_eq!(decimal(10), "x10");
    assert_eq!(decimal(1234567890), "x1234567890");
    assert_eq!(decimal(u64::MAX), "x18446744073709551615");
    assert_eq!(count_digits(0), 1);
    assert_eq!(count_digits(9), 1);
    assert_eq!(count_digits(10), 2);
    assert_eq!(count_digits(u64::MAX), 20);
    assert_eq!(digit_str(0), "0");
    assert_eq!(digit_str(9), "9");
}

#[test]
fn numbers_with_zeros_in_front() {
    let padded = |n: u64, w: usize| {
        let mut s = String::new();
        push_zero_padded(&mut s, n, w);
        s
    };
    assert_eq!(padded(5, 2), "05");
    assert_eq!(padded(12, 2), "12");
    assert_eq!(padded(123, 2), "123");
    assert_eq!(padded(0, 4), "0000");
    assert_eq!(padded(7, 0), "7");
}

#[test]
fn numbers_with_sign() {
    let signed = |n: i64| {
        let mut s = String::new();
        push_signed(&mut s, n);
        s
    };
    assert_eq!(signed(0), "0");
    assert_eq!(signed(42), "42");
    assert_eq!(signed(-42), "-42");
    assert_eq!(signed(i64::MAX), "9223372036854775807");
    assert_eq!(signed(i64::MIN), "-9223372036854775808");
}
