use process_control::chars::lower_char_exec;
use process_control::match_ci::contains_ci;
use process_control::num::{decimal_string, parse_u32};
use process_control::scan::{
    first_word_str, split_lines, split_str, trim_quotes_str, trim_start_ws_str, trim_ws_str,
};

#[test]
fn lower_char_folds_ascii_upper_case_only() {
    assert_eq!(lower_char_exec('A'), 'a');
    assert_eq!(lower_char_exec('Z'), 'z');
    assert_eq!(lower_char_exec('a'), 'a');
    assert_eq!(lower_char_exec('0'), '0');
    assert_eq!(lower_char_exec('/'), '/');
}

#[test]
fn contains_ci_ignores_case_both_sides() {
    assert!(contains_ci("BASH", "bash"));
    assert!(contains_ci("/usr/bin/Bash", "bash"));
    assert!(contains_ci("bash", "BASH"));
    assert!(contains_ci("/usr/bin/bash --login", "Bin/BA"));
    assert!(!contains_ci("zsh", "bash"));
}

#[test]
fn contains_ci_empty_query_matches_everything() {
    assert!(contains_ci("anything", ""));
    assert!(contains_ci("", ""));
    assert!(!contains_ci("", "x"));
}

#[test]
fn parse_u32_accepts_digits_only() {
    assert_eq!(parse_u32("0"), Some(0));
    assert_eq!(parse_u32("123"), Some(123));
    assert_eq!(parse_u32("4294967295"), Some(u32::MAX));
    assert_eq!(parse_u32("4294967296"), None);
    assert_eq!(parse_u32("99999999999999999999"), None);
    assert_eq!(parse_u32(""), None);
    assert_eq!(parse_u32("12a"), None);
    assert_eq!(parse_u32("-1"), None);
    assert_eq!(parse_u32("+1"), None);
}

#[test]
fn decimal_string_renders_exactly() {
    assert_eq!(decimal_string(0), "0");
    assert_eq!(decimal_string(7), "7");
    assert_eq!(decimal_string(42), "42");
    assert_eq!(decimal_string(4294967295), "4294967295");
}

#[test]
fn decimal_then_parse_round_trips() {
    for n in [0u32, 1, 9, 10, 99, 100, 65535, u32::MAX] {
        assert_eq!(parse_u32(&decimal_string(n)), Some(n));
    }
}

#[test]
fn trims_and_words() {
    assert_eq!(trim_ws_str("  12 \t"), "12");
    assert_eq!(trim_ws_str("\t\r "), "");
    assert_eq!(trim_start_ws_str("  a b "), "a b ");
    assert_eq!(trim_quotes_str("\"bash.exe\""), "bash.exe");
    assert_eq!(trim_quotes_str("\"\"12\"\""), "12");
    assert_eq!(trim_quotes_str("plain"), "plain");
    assert_eq!(first_word_str("  123 Console"), "123");
    assert_eq!(first_word_str("   "), "");
}

#[test]
fn split_str_keeps_every_part() {
    let parts = split_str("a,b,,c", ',');
    assert_eq!(parts, vec!["a", "b", "", "c"]);
    let one = split_str("abc", ',');
    assert_eq!(one, vec!["abc"]);
    let empty = split_str("", ',');
    assert_eq!(empty, vec![""]);
}

#[test]
fn split_lines_like_the_tools_print_them() {
    assert_eq!(split_lines(""), Vec::<String>::new());
    assert_eq!(split_lines("a\nb"), vec!["a", "b"]);
    assert_eq!(split_lines("a\nb\n"), vec!["a", "b"]);
    assert_eq!(split_lines("a\r\nb\r\n"), vec!["a", "b"]);
    assert_eq!(split_lines("\n"), vec![""]);
    assert_eq!(split_lines("\n\n"), vec!["", ""]);
}
