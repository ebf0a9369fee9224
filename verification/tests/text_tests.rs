use kmrp::text::{format_i64, format_u64, parse_i64, ends_with, same_text, string_of, chars_of, starts_with, trim,
    is_white_space, contains_text};

#[test]
fn formats_integers_in_decimal() {
    assert_eq!(format_i64(0), "0");
    assert_eq!(format_i64(42), "42");
    assert_eq!(format_i64(-42), "-42");
    assert_eq!(format_i64(i64::MAX), "9223372036854775807");
    assert_eq!(format_i64(i64::MIN), "-9223372036854775808");
    assert_eq!(format_u64(1000), "1000");
    assert_eq!(format_u64(u64::MAX), "18446744073709551615");
}

#[test]
fn parses_integers_like_std() {
    let cases = [
        "0", "42", "-42", "+7", "", "-", "+", "1a", " 1", "007", "-0",
        "9223372036854775807", "9223372036854775808", "-9223372036854775808",
        "-9223372036854775809", "99999999999999999999999", "+-1", "1.5",
    ];
    for c in cases.iter() {
        assert_eq!(parse_i64(c), c.parse::<i64>().ok(), "input {:?}", c);
    }
    assert_eq!(parse_i64("-1500"), Some(-1500));
    assert_eq!(parse_i64("abc"), None);
}

#[test]
fn parse_reads_back_formatted_values() {
    for v in [0i64, 1, -1, 9, 10, -10, 123456789, i64::MAX, i64::MIN] {
        assert_eq!(parse_i64(&format_i64(v)), Some(v));
    }
}

#[test]
fn compares_and_converts_text() {
    assert!(ends_with("macro.json", ".json"));
    assert!(!ends_with("json", ".json"));
    assert!(same_text("root", "root"));
    assert!(!same_text("root", "roots"));
    let cs = chars_of("héllo");
    assert_eq!(cs, vec!['h', 'é', 'l', 'l', 'o']);
    assert_eq!(string_of(&cs), "héllo");
}

#[test]
fn trims_like_std() {
    for s in ["", "  a b  ", "\u{2003}x\u{2003}", "none", "\n\t", " é "] {
        assert_eq!(trim(s), s.trim());
    }
    assert!(starts_with("event7", "event"));
    assert!(!starts_with("ev", "event"));
}

#[test]
fn white_space_is_std_white_space() {
    for n in 0u32..=0x10FFFF {
        if let Some(c) = char::from_u32(n) {
            assert_eq!(is_white_space(c), c.is_whitespace(), "U+{:04X}", n);
        }
    }
}

#[test]
fn finds_text_inside_text() {
    assert!(contains_text("abcdef", "cde"));
    assert!(contains_text("abcdef", "abcdef"));
    assert!(contains_text("abc", ""));
    assert!(contains_text("", ""));
    assert!(!contains_text("abc", "abcd"));
    assert!(!contains_text("abcdef", "ce"));
    assert!(contains_text("aab", "ab"));
}
