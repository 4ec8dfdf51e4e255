use etcherus::text::{contains, equals, parse_u64, split_lines, split_words, starts_with, trim};

#[test]
fn trim_removes_unicode_whitespace_at_both_ends() {
    assert_eq!(trim("  hello world \t\n"), "hello world");
    assert_eq!(trim("\u{3000}x\u{A0}"), "x");
    assert_eq!(trim(" \t "), "");
    assert_eq!(trim(""), "");
    assert_eq!(trim("a"), "a");
}

#[test]
fn lines_follow_str_lines() {
    let text = "first\r\nsecond\n\nlast";
    assert_eq!(split_lines(text), text.lines().collect::<Vec<_>>());
    assert_eq!(split_lines("a\n"), vec!["a"]);
    assert_eq!(split_lines("\n"), vec![""]);
    assert_eq!(split_lines(""), Vec::<&str>::new());
    assert_eq!(split_lines("a\r"), "a\r".lines().collect::<Vec<_>>());
}

#[test]
fn words_follow_split_whitespace() {
    let text = "  Filesystem 1K-blocks\tUsed  Available ";
    assert_eq!(split_words(text), text.split_whitespace().collect::<Vec<_>>());
    assert_eq!(split_words(""), Vec::<&str>::new());
    assert_eq!(split_words("   "), Vec::<&str>::new());
}

#[test]
fn substring_search() {
    assert!(contains("NAME=\"sdb\" RM=\"1\"", "RM=\"1\""));
    assert!(!contains("RM=\"0\"", "RM=\"1\""));
    assert!(contains("abc", ""));
    assert!(!contains("ab", "abc"));
    assert!(starts_with("com.apple.TimeMachine", "com.apple"));
    assert!(!starts_with("Apple", "com.apple"));
    assert!(equals("iso", "iso"));
    assert!(!equals("iso", "ISO"));
}

#[test]
fn decimal_parsing_matches_str_parse() {
    for text in ["0", "42", "+7", "007", "18446744073709551615", "18446744073709551616", "", "+", "-1", "1 2", "12a", "99999999999999999999999"] {
        assert_eq!(parse_u64(text), text.parse::<u64>().ok(), "{text}");
    }
}
