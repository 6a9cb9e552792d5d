use alumet::text::{
    any_numeric, chars_of, contains_char, parse_u64, split_once, str_eq, trim, u64_to_string,
};

#[test]
fn decimal_text_of_numbers() {
    assert_eq!(u64_to_string(0), "0");
    assert_eq!(u64_to_string(7), "7");
    assert_eq!(u64_to_string(10), "10");
    assert_eq!(u64_to_string(1234567890), "1234567890");
    assert_eq!(u64_to_string(u64::MAX), "18446744073709551615");
}

#[test]
fn decimal_text_is_what_std_writes() {
    for n in [0u64, 1, 9, 10, 99, 100, 101, 4096, 999_999, u64::MAX - 1, u64::MAX] {
        assert_eq!(u64_to_string(n), format!("{}", n));
    }
}

#[test]
fn parse_reads_what_was_written() {
    for n in [0u64, 5, 10, 42, 1000, 18446744073709551615] {
        assert_eq!(parse_u64(&u64_to_string(n)), Some(n));
    }
}

#[test]
fn parse_agrees_with_std() {
    let cases = [
        "", "+", "-", "0", "007", "+5", "-5", "12a", "a12", " 12", "12 ", "1_000",
        "18446744073709551615", "18446744073709551616", "99999999999999999999999", "+0", "++1",
        "1+", "٣", "4²",
    ];
    for text in cases {
        assert_eq!(parse_u64(text), text.parse::<u64>().ok(), "{:?}", text);
    }
}

#[test]
fn trim_agrees_with_std() {
    let cases = [
        "", " ", "abc", "  abc", "abc  ", " a b c ", "\t\n12345\r\n", "\u{a0}x\u{3000}",
        "\u{2003}\u{85}y", "x\u{200b}", "\u{1680}z\u{205f}\u{2028}\u{2029}\u{202f}", "\u{b}\u{c}",
    ];
    for text in cases {
        assert_eq!(trim(text), text.trim(), "{:?}", text);
    }
}

#[test]
fn split_once_agrees_with_std() {
    let cases = ["", "_", "a_b", "user_42", "a_b_c", "_x", "x_", "abc"];
    for text in cases {
        let expected = text.split_once('_').map(|(a, b)| (a.to_string(), b.to_string()));
        assert_eq!(split_once(text, '_'), expected, "{:?}", text);
    }
}

#[test]
fn numeric_characters_are_found() {
    assert!(any_numeric("job_42"));
    assert!(any_numeric("a①"));
    assert!(!any_numeric("system.slice"));
    assert!(!any_numeric(""));
}

#[test]
fn characters_and_equality() {
    assert_eq!(chars_of("héllo"), vec!['h', 'é', 'l', 'l', 'o']);
    assert!(str_eq("abc", "abc"));
    assert!(!str_eq("abc", "abd"));
    assert!(!str_eq("abc", "ab"));
    assert!(contains_char("a b", ' '));
    assert!(!contains_char("ab", ' '));
}
