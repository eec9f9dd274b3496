use ddagrab_proxy::text::{
    contains, ends_with, eq_ignore_ascii_case, is_whitespace, parse_number, push_decimal,
    same_text, starts_with, substring, to_chars, to_decimal, to_signed_decimal, trim, NumberError,
};

#[test]
fn numbers_are_read_as_the_standard_library_reads_them() {
    let inputs = [
        "", "0", "7", "007", "+7", "+", "-", "-1", "++1", "1+", "12a", "a12", " 1", "1 ", "1.5",
        "4294967295", "4294967296", "99999999999999999999", "18446744073709551615",
        "18446744073709551616", "99999999999x", "+4294967295", "１",
    ];
    for text in inputs {
        let ours = parse_number(text, u32::MAX as u64);
        match text.parse::<u32>() {
            Ok(n) => assert_eq!(ours, Ok(n as u64), "{text:?}"),
            Err(e) => assert_eq!(ours.unwrap_err().message(), e.to_string(), "{text:?}"),
        }
        let ours = parse_number(text, u64::MAX);
        match text.parse::<u64>() {
            Ok(n) => assert_eq!(ours, Ok(n), "{text:?}"),
            Err(e) => assert_eq!(ours.unwrap_err().message(), e.to_string(), "{text:?}"),
        }
    }
}

#[test]
fn number_errors() {
    assert_eq!(parse_number("", 10), Err(NumberError::Empty));
    assert_eq!(parse_number("x", 10), Err(NumberError::InvalidDigit));
    assert_eq!(parse_number("11", 10), Err(NumberError::TooLarge));
    assert_eq!(parse_number("10", 10), Ok(10));
}

#[test]
fn decimal_forms() {
    assert_eq!(to_decimal(0), "0");
    assert_eq!(to_decimal(1920), "1920");
    assert_eq!(to_decimal(u128::MAX), u128::MAX.to_string());
    assert_eq!(to_signed_decimal(-1), "-1");
    assert_eq!(to_signed_decimal(i64::MIN), i64::MIN.to_string());
    assert_eq!(to_signed_decimal(42), "42");
    let mut out = String::from("n=");
    push_decimal(&mut out, 10);
    assert_eq!(out, "n=10");
}

#[test]
fn decimal_forms_are_read_back() {
    for n in [0u64, 9, 10, 99, 100, 12345, u64::MAX] {
        assert_eq!(parse_number(&to_decimal(n as u128), u64::MAX), Ok(n));
    }
}

#[test]
fn whitespace_is_that_of_the_standard_library() {
    for code in 0..=0x10ffffu32 {
        if let Some(c) = char::from_u32(code) {
            assert_eq!(is_whitespace(c), c.is_whitespace(), "{code:x}");
        }
    }
}

#[test]
fn trimming() {
    for text in ["", " ", "a", " a ", "\t a b \r\n", "\u{3000}x\u{85}", "no"] {
        assert_eq!(trim(text), text.trim());
    }
}

#[test]
fn comparing_without_case() {
    for (a, b) in [("Winlogon", "WINLOGON"), ("a", "b"), ("", ""), ("É", "é"), ("a", "ab"), ("k", "\u{212a}")] {
        assert_eq!(eq_ignore_ascii_case(a, b), a.eq_ignore_ascii_case(b), "{a} {b}");
    }
}

#[test]
fn searching() {
    assert!(contains("ffmpeg-win64-lgpl-shared.zip", "win64-lgpl-shared"));
    assert!(!contains("ffmpeg-win64-gpl-shared.zip", "win64-lgpl-shared"));
    assert!(contains("abc", ""));
    assert!(!contains("", "a"));
    assert!(starts_with("latencypoc-viewer._udp", "latencypoc-viewer"));
    assert!(!starts_with("latency", "latencypoc-viewer"));
    assert!(ends_with("a.zip", ".zip"));
    assert!(!ends_with("zip", ".zip"));
}

#[test]
fn pieces_of_text() {
    assert!(same_text("a", "a"));
    assert!(!same_text("a", "b"));
    let chars = to_chars("dësk");
    assert_eq!(chars, vec!['d', 'ë', 's', 'k']);
    assert_eq!(substring(&chars, 1, 3), "ës");
}
