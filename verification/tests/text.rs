use cmt::text::{
    char_count, decimal_string, first_line_of, join_strings, lines_of, parse_usize,
    str_contains, str_eq_ignore_ascii_case, str_starts_with, trim_end_of, trim_newlines_of, trim_of,
    white,
};

#[test]
fn numbers_print_and_parse() {
    assert_eq!(decimal_string(0), "0");
    assert_eq!(decimal_string(1234), "1234");
    assert_eq!(parse_usize("042"), Some(42));
    assert_eq!(parse_usize(""), None);
    assert_eq!(parse_usize("4a"), None);
    assert_eq!(parse_usize("-1"), None);
    assert_eq!(parse_usize("+5"), Some(5));
    assert_eq!(parse_usize("+"), None);
    assert_eq!(parse_usize("18446744073709551616"), None);
    assert_eq!(parse_usize(&decimal_string(usize::MAX)), Some(usize::MAX));
}

#[test]
fn lines_follow_str_lines() {
    for s in ["", "a", "a\n", "a\n\nb", "a\r\nb\r\n", "\n", "a\rb"] {
        let expected: Vec<String> = s.lines().map(|l| l.to_string()).collect();
        assert_eq!(lines_of(s), expected, "for {s:?}");
    }
    assert_eq!(first_line_of("x\ny"), "x");
    assert_eq!(first_line_of(""), "");
}

#[test]
fn join_and_trim() {
    let parts: Vec<String> = vec!["a".into(), "".into(), "c".into()];
    assert_eq!(join_strings(&parts, ","), "a,,c");
    assert_eq!(join_strings(&vec![], ","), "");
    assert_eq!(trim_newlines_of("x\r\n\n"), "x");
    assert_eq!(trim_end_of(" x \t\u{3000}"), " x");
    assert_eq!(trim_of("\u{a0} x y \n"), "x y");
    assert!(white('\u{2028}'));
    assert!(!white('x'));
}

#[test]
fn string_helpers() {
    assert_eq!(char_count("a✨"), 2);
    assert!(str_contains("feat!: x", "!:"));
    assert!(str_contains("abc", ""));
    assert!(!str_contains("ab", "abc"));
    assert!(str_starts_with("# >>> cmt x", "# >>> cmt"));
    assert!(str_eq_ignore_ascii_case("YeS", "yes"));
    assert!(!str_eq_ignore_ascii_case("É", "é"));
}
