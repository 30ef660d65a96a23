use bluehash::text::{contains, decimal, lines, split_after, strip_end, trim, white_space};

#[test]
fn white_space_is_that_of_unicode() {
    for code in 0..=0x10ffffu32 {
        if let Some(c) = char::from_u32(code) {
            assert_eq!(white_space(c), c.is_whitespace(), "{code:x}");
        }
    }
}

#[test]
fn trimming() {
    for text in ["", " ", " a b\t\r\n", "a", "\u{a0}x\u{3000}", "\u{200b}x"] {
        assert_eq!(trim(text), text.trim());
    }
}

#[test]
fn cutting_into_lines() {
    for text in ["", "\n", "a", "a\n", "a\nb", "a\r\nb\r", "\n\n", "a\r\r\nb\n\nc"] {
        let expected: Vec<String> = text.lines().map(|l| l.to_string()).collect();
        assert_eq!(lines(text), expected, "{text:?}");
    }
}

#[test]
fn numbers_in_decimal() {
    for n in [0u64, 9, 10, 5121, u64::MAX] {
        assert_eq!(decimal(n), n.to_string());
    }
}

#[test]
fn searching() {
    assert!(contains("LOCALSYSTEM system", "system"));
    assert!(!contains("syste", "system"));
    assert!(contains("x", ""));
    assert_eq!(split_after("a[b[c", "["), Some("b[c".to_string()));
    assert_eq!(split_after("abc", "["), None);
    assert_eq!(split_after("", ""), Some(String::new()));
    assert_eq!(strip_end("1.2]", ']'), Some("1.2".to_string()));
    assert_eq!(strip_end("1.2", ']'), None);
    assert_eq!(strip_end("", ']'), None);
}
