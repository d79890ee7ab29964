use cursor_bridge::text::{
    chars_of, find_chars, has, is_white_space, matches_at, parse_unsigned, same, split_once,
    starts_with, to_ascii_lower, to_decimal, trim,
};

#[test]
fn whitespace_is_what_std_takes_for_it() {
    for n in 0..=0x10ffffu32 {
        if let Some(c) = char::from_u32(n) {
            assert_eq!(is_white_space(c), c.is_whitespace(), "{n:x}");
        }
    }
}

#[test]
fn trimming() {
    assert_eq!(trim("  a b\t\r\n"), "a b");
    assert_eq!(trim("\u{3000}é\u{85}"), "é");
    assert_eq!(trim(" \n "), "");
    assert_eq!(trim(""), "");
    assert_eq!(trim("\u{200b}x"), "\u{200b}x");
}

#[test]
fn searching() {
    let s = chars_of("abcabc");
    assert_eq!(find_chars(&s, &chars_of("ca"), 0), Some(2));
    assert_eq!(find_chars(&s, &chars_of("abc"), 1), Some(3));
    assert_eq!(find_chars(&s, &chars_of("abc"), 4), None);
    assert_eq!(find_chars(&s, &chars_of(""), 6), Some(6));
    assert!(matches_at(&s, &chars_of("bc"), 4));
    assert!(!matches_at(&s, &chars_of("bcd"), 4));
    assert!(has(&s, "bca"));
    assert!(has(&s, ""));
    assert!(!has(&s, "acb"));
    assert!(starts_with("héllo", "hé"));
    assert!(!starts_with("h", "he"));
    assert!(same("é", "é"));
    assert!(!same("a", "A"));
    assert!(!same("a", "ab"));
}

#[test]
fn splitting() {
    assert_eq!(split_once("a: b: c", ':'), ("a", Some(" b: c")));
    assert_eq!(split_once("é:", ':'), ("é", Some("")));
    assert_eq!(split_once("none", ':'), ("none", None));
    assert_eq!(split_once("", ':'), ("", None));
}

#[test]
fn only_ascii_letters_change_case() {
    let lower: String = to_ascii_lower("AZaz09É[@`{").into_iter().collect();
    assert_eq!(lower, "AZaz09É[@`{".to_ascii_lowercase());
}

#[test]
fn unsigned_numbers_are_read_as_std_reads_them() {
    let inputs = [
        "", "0", "7", "+7", "-7", "+", "++1", "007", "18446744073709551615", "18446744073709551616",
        "00000000000000000000000000000001", "1 ", " 1", "1_0", "a", "1a", "٣", "99999999999999999999999x",
    ];
    for s in inputs {
        assert_eq!(parse_unsigned(s, 10), s.parse::<usize>().ok(), "{s}");
        assert_eq!(parse_unsigned(s, 16), usize::from_str_radix(s, 16).ok(), "{s}");
    }
    assert_eq!(parse_unsigned("1aF", 16), Some(0x1af));
    assert_eq!(parse_unsigned("ffffffffffffffff", 16), Some(usize::MAX));
    assert_eq!(parse_unsigned("10000000000000000", 16), None);
    assert_eq!(parse_unsigned("z", 36), Some(35));
    assert_eq!(parse_unsigned("101", 2), Some(5));
    assert_eq!(parse_unsigned("102", 2), None);
}

#[test]
fn decimal_notation() {
    for n in [0u64, 9, 10, 99, 100, 12345, 1_000_000_007, u64::MAX] {
        assert_eq!(to_decimal(n), n.to_string());
        assert_eq!(parse_unsigned(&to_decimal(n), 10), Some(n as usize));
    }
}
