use orion::text::{
    chars_of, contains, decimal_string, find, is_whitespace, lines, parse_i64, parse_u64,
    split_whitespace, trim,
};

#[test]
fn chars_of_keeps_every_character_in_order() {
    assert_eq!(chars_of("a\u{e9}b"), vec!['a', '\u{e9}', 'b']);
    assert_eq!(chars_of(""), Vec::<char>::new());
}

#[test]
fn whitespace_is_the_unicode_property() {
    for c in ['\t', '\n', '\u{b}', '\u{c}', '\r', ' ', '\u{85}', '\u{a0}', '\u{1680}', '\u{2000}',
        '\u{200a}', '\u{2028}', '\u{2029}', '\u{202f}', '\u{205f}', '\u{3000}']
    {
        assert!(is_whitespace(c));
    }
    for c in ['a', '0', '\u{200b}', '\u{1c}', '\u{8}', '\u{e}'] {
        assert!(!is_whitespace(c));
    }
}

#[test]
fn whitespace_agrees_with_std_on_every_char() {
    let mut u: u32 = 0;
    while u <= 0x10ffff {
        if let Some(c) = char::from_u32(u) {
            assert_eq!(is_whitespace(c), c.is_whitespace());
        }
        u += 1;
    }
}

#[test]
fn find_gives_the_first_occurrence() {
    assert_eq!(find("abcabc", "bc"), Some(1));
    assert_eq!(find("abcabc", "abc"), Some(0));
    assert_eq!(find("abcabc", "cab"), Some(2));
    assert_eq!(find("abcabc", "x"), None);
    assert_eq!(find("abc", ""), Some(0));
    assert_eq!(find("", ""), Some(0));
    assert_eq!(find("ab", "abc"), None);
    assert_eq!(find("\u{e9}\u{e9}x", "x"), Some(2));
}

#[test]
fn contains_matches_contiguous_runs_only() {
    assert!(contains("connection timed out", "timed out"));
    assert!(!contains("timed  out", "timed out"));
    assert!(contains("x", ""));
}

#[test]
fn trim_removes_whitespace_at_both_ends() {
    assert_eq!(trim("  a b \n"), "a b");
    assert_eq!(trim("\u{a0}x\u{3000}"), "x");
    assert_eq!(trim("   "), "");
    assert_eq!(trim(""), "");
    assert_eq!(trim("x"), "x");
}

#[test]
fn split_whitespace_gives_the_runs_between_blanks() {
    assert_eq!(split_whitespace("cpu  1 2\t3\n"), vec!["cpu", "1", "2", "3"]);
    assert_eq!(split_whitespace("   "), Vec::<&str>::new());
    assert_eq!(split_whitespace(""), Vec::<&str>::new());
    assert_eq!(split_whitespace("one"), vec!["one"]);
}

#[test]
fn split_whitespace_agrees_with_std() {
    for s in ["", " ", "a", " a", "a ", " a  b\tc\n", "\u{a0}x\u{2003}y", "cpu  10 20 30"] {
        let ours = split_whitespace(s);
        let theirs: Vec<&str> = s.split_whitespace().collect();
        assert_eq!(ours, theirs);
    }
}

#[test]
fn lines_end_at_line_feeds() {
    assert_eq!(lines("a\nb"), vec!["a", "b"]);
    assert_eq!(lines("a\nb\n"), vec!["a", "b"]);
    assert_eq!(lines("a\r\nb\r\n"), vec!["a", "b"]);
    assert_eq!(lines("a\n\nb"), vec!["a", "", "b"]);
    assert_eq!(lines("\n"), vec![""]);
    assert_eq!(lines(""), Vec::<&str>::new());
    assert_eq!(lines("a\r"), vec!["a\r"]);
    assert_eq!(lines("a\r\r\n"), vec!["a\r"]);
}

#[test]
fn lines_agree_with_std() {
    for s in ["", "\n", "\r\n", "a", "a\n", "a\r", "a\r\n", "a\rb\n", "x\n\ny\r\n\r\nz", "\r"] {
        let ours = lines(s);
        let theirs: Vec<&str> = s.lines().collect();
        assert_eq!(ours, theirs);
    }
}

#[test]
fn parse_u64_reads_plain_decimal() {
    assert_eq!(parse_u64("0"), Some(0));
    assert_eq!(parse_u64("007"), Some(7));
    assert_eq!(parse_u64("+15"), Some(15));
    assert_eq!(parse_u64("18446744073709551615"), Some(u64::MAX));
    assert_eq!(parse_u64("18446744073709551616"), None);
    assert_eq!(parse_u64("99999999999999999999999"), None);
    assert_eq!(parse_u64(""), None);
    assert_eq!(parse_u64("+"), None);
    assert_eq!(parse_u64("-1"), None);
    assert_eq!(parse_u64("12a"), None);
    assert_eq!(parse_u64(" 12"), None);
    assert_eq!(parse_u64("++1"), None);
    assert_eq!(parse_u64("\u{661}"), None);
}

#[test]
fn parse_u64_agrees_with_std() {
    for s in ["", "+", "-", "0", "+0", "-0", "12", "1_2", "1.5", "18446744073709551615",
        "18446744073709551616", "000000000000000000000000001", "9x"]
    {
        assert_eq!(parse_u64(s), s.parse::<u64>().ok());
    }
}

#[test]
fn parse_i64_reads_signed_decimal() {
    assert_eq!(parse_i64("0"), Some(0));
    assert_eq!(parse_i64("-0"), Some(0));
    assert_eq!(parse_i64("+42"), Some(42));
    assert_eq!(parse_i64("-42"), Some(-42));
    assert_eq!(parse_i64("9223372036854775807"), Some(i64::MAX));
    assert_eq!(parse_i64("9223372036854775808"), None);
    assert_eq!(parse_i64("-9223372036854775808"), Some(i64::MIN));
    assert_eq!(parse_i64("-9223372036854775809"), None);
    assert_eq!(parse_i64("-"), None);
    assert_eq!(parse_i64("+-1"), None);
    assert_eq!(parse_i64("-+1"), None);
    assert_eq!(parse_i64(""), None);
}

#[test]
fn parse_i64_agrees_with_std() {
    for s in ["", "+", "-", "0", "+0", "-0", "12", "-12", "--12", "9223372036854775807",
        "9223372036854775808", "-9223372036854775808", "-9223372036854775809", "7772", "x"]
    {
        assert_eq!(parse_i64(s), s.parse::<i64>().ok());
    }
}

#[test]
fn decimal_string_writes_base_ten() {
    assert_eq!(decimal_string(0), "0");
    assert_eq!(decimal_string(7), "7");
    assert_eq!(decimal_string(10), "10");
    assert_eq!(decimal_string(-1), "-1");
    assert_eq!(decimal_string(1234567890), "1234567890");
    assert_eq!(decimal_string(i64::MAX), "9223372036854775807");
    assert_eq!(decimal_string(i64::MIN), "-9223372036854775808");
}
