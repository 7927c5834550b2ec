use i18n_editor::text::{
    align_left, align_right, decimal_text, is_blank, is_whitespace, join, lines,
    parse_number, same_text, signed_text, trim, trim_end, trim_start, without_whitespace, Class,
};

#[test]
fn whitespace_is_that_of_unicode() {
    for code in 0..0x110000u32 {
        if let Some(c) = char::from_u32(code) {
            assert_eq!(is_whitespace(c), c.is_whitespace(), "{code:x}");
        }
    }
}

#[test]
fn trims_both_ends() {
    for s in ["", "  a ", "\u{3000}\t中 文\n", " \r\n", "x", "\u{feff}a", "\u{200b} a"] {
        assert_eq!(trim(s), s.trim());
        assert_eq!(trim(trim(s)), trim(s));
        assert_eq!(is_blank(s), s.trim().is_empty());
    }
}

#[test]
fn trims_one_class() {
    assert_eq!(trim_end("a \r\n\n", Class::LineEnd), "a ");
    assert_eq!(trim_end("\r\n", Class::LineEnd), "");
    assert_eq!(trim_start("\u{feff}\u{feff}a", Class::Mark), "a");
    assert_eq!(trim_start(" a", Class::Mark), " a");
}

#[test]
fn splits_lines_like_std() {
    for s in ["", "\n", "a", "a\n", "a\r\nb", "a\r", "\r\n\r\n", "a\n\nb\n", "中\r\r\n文", "x\rb\n"] {
        let expected: Vec<&str> = s.lines().collect();
        assert_eq!(lines(s), expected, "{s:?}");
    }
}

#[test]
fn joins_parts() {
    assert_eq!(join(&vec![], ", "), "");
    assert_eq!(join(&vec!["a".to_string()], ", "), "a");
    assert_eq!(join(&vec!["a".to_string(), "".to_string(), "b".to_string()], ", "), "a, , b");
}

#[test]
fn drops_inner_whitespace() {
    assert_eq!(without_whitespace(" a\nb\u{3000}c\t"), "abc");
    assert_eq!(without_whitespace("abc"), "abc");
}

#[test]
fn writes_numbers() {
    assert_eq!(decimal_text(0), "0");
    assert_eq!(decimal_text(1716850936), "1716850936");
    assert_eq!(decimal_text(u64::MAX), u64::MAX.to_string());
    assert_eq!(signed_text(404), "404");
    assert_eq!(signed_text(-1), "-1");
    assert_eq!(signed_text(i32::MIN), i32::MIN.to_string());
}

#[test]
fn reads_numbers_like_std() {
    for s in [
        "", "0", "1", "+1", "-1", "007", "+", "1a", " 1", "１", "++1",
        "18446744073709551615", "18446744073709551616", "99999999999999999999999",
    ] {
        assert_eq!(parse_number(s), s.parse::<usize>().ok(), "{s:?}");
    }
    for n in [0u64, 9, 10, 123456789] {
        assert_eq!(parse_number(&decimal_text(n)), Some(n as usize));
    }
}

#[test]
fn aligns_by_characters() {
    assert_eq!(align_left("模组", 4), format!("{:<4}", "模组"));
    assert_eq!(align_right("模组", 4), format!("{:>4}", "模组"));
    assert_eq!(align_left("abcde", 4), "abcde");
    assert_eq!(align_right("", 0), "");
}

#[test]
fn compares_texts() {
    assert!(same_text("中文", "中文"));
    assert!(!same_text("a", "b"));
    assert!(!same_text("a", "ab"));
}
