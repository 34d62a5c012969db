use backend_kvm::actions::join_path;
use backend_kvm::decimal::{
    parse_u32, parse_u64, parse_usize, print_i32, print_u64, print_usize, NumberError,
};
use backend_kvm::text::{
    contains, has_word_prefix, join_strings, matches_word, next_word, split, trim,
};

#[test]
fn numbers_are_read() {
    assert_eq!(parse_u64("0"), Ok(0));
    assert_eq!(parse_u64("+007"), Ok(7));
    assert_eq!(parse_u64("18446744073709551615"), Ok(u64::MAX));
    assert_eq!(parse_u32("4294967295"), Ok(u32::MAX));
    assert_eq!(parse_usize("12"), Ok(12));
}

#[test]
fn what_is_no_number() {
    assert_eq!(parse_u64(""), Err(NumberError::Empty));
    assert_eq!(parse_u64("+"), Err(NumberError::InvalidDigit));
    assert_eq!(parse_u64("-1"), Err(NumberError::InvalidDigit));
    assert_eq!(parse_u64("1 "), Err(NumberError::InvalidDigit));
    assert_eq!(parse_u64("\u{661}"), Err(NumberError::InvalidDigit));
    assert_eq!(parse_u64("18446744073709551616"), Err(NumberError::TooLarge));
    assert_eq!(parse_u32("4294967296"), Err(NumberError::TooLarge));
    assert_eq!(NumberError::Empty.message(), "cannot parse integer from empty string");
    assert_eq!(NumberError::InvalidDigit.message(), "invalid digit found in string");
    assert_eq!(NumberError::TooLarge.message(), "number too large to fit in target type");
}

#[test]
fn errors_of_numbers_are_those_of_the_standard_library() {
    for text in ["", "+", "-", "x", "1x", "99999999999999999999x", "99999999999999999999", "+1"] {
        let here = parse_u64(text).map_err(|e| e.message());
        let there = text.parse::<u64>().map_err(|e| e.to_string());
        assert_eq!(here, there);
    }
}

#[test]
fn numbers_are_written_and_read_back() {
    for n in [0, 9, 10, 1234567890, u64::MAX] {
        assert_eq!(print_u64(n), format!("{}", n));
        assert_eq!(parse_u64(&print_u64(n)), Ok(n));
    }
    assert_eq!(print_usize(42), "42");
    assert_eq!(print_i32(-1), "-1");
    assert_eq!(print_i32(i32::MIN), "-2147483648");
    assert_eq!(print_i32(7), "7");
}

#[test]
fn whitespace_is_trimmed_as_by_the_standard_library() {
    for text in ["", " ", " a b ", "\u{3000}x\u{85}", "\u{200b}x", "\ta\n"] {
        assert_eq!(trim(text), text.trim());
    }
}

#[test]
fn words_are_compared_without_case() {
    assert!(matches_word("UsEr", "user"));
    assert!(!matches_word("users", "user"));
    assert!(has_word_prefix("Bridge:X", "bridge:"));
    assert!(!has_word_prefix("bridge", "bridge:"));
    assert!(matches_word("net\u{57}or\u{212a}", "network"));
}

#[test]
fn texts_are_taken_apart_and_put_together() {
    assert_eq!(split("a,,b,", ','), vec!["a", "", "b", ""]);
    assert_eq!(split("", ','), vec![""]);
    assert_eq!(next_word("  ab  c "), Some(("ab", "  c ")));
    assert_eq!(next_word("  "), None);
    assert_eq!(join_strings(&vec!["a".to_string(), "b".to_string()], "--"), "a--b");
    assert_eq!(join_strings(&Vec::new(), "--"), "");
    assert!(contains("abcabd", "abd"));
    assert!(contains("abc", ""));
    assert!(!contains("ab", "abc"));
}

#[test]
fn paths_are_joined() {
    assert_eq!(join_path("/run/x", "disk"), "/run/x/disk");
    assert_eq!(join_path("/run/x/", "disk"), "/run/x/disk");
    assert_eq!(join_path("", "disk"), "disk");
}
