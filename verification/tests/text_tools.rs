use agent_engine::text::contains_sub;
use agent_engine::text::count_char;
use agent_engine::text::decimal_string;
use agent_engine::text::decimal_string_i64;
use agent_engine::text::str_eq;

#[test]
fn substring_search_finds_inner_pattern() {
    assert!(contains_sub("the quick brown fox", "quick"));
    assert!(contains_sub("abc", "abc"));
    assert!(contains_sub("abc", ""));
    assert!(!contains_sub("abc", "abcd"));
    assert!(!contains_sub("aaab", "ab a"));
}

#[test]
fn substring_search_is_case_sensitive() {
    assert!(!contains_sub("TODO later", "todo"));
    assert!(contains_sub("TODO later", "TODO"));
}

#[test]
fn count_char_counts_every_occurrence() {
    assert_eq!(count_char("{a{b}}", '{'), 2);
    assert_eq!(count_char("{a{b}}", '}'), 2);
    assert_eq!(count_char("", 'x'), 0);
    assert_eq!(count_char("xxx", 'x'), 3);
}

#[test]
fn decimal_rendering_matches_expected_digits() {
    assert_eq!(decimal_string(0).as_str(), "0");
    assert_eq!(decimal_string(7).as_str(), "7");
    assert_eq!(decimal_string(1234).as_str(), "1234");
    assert_eq!(decimal_string(u64::MAX).as_str(), "18446744073709551615");
}

#[test]
fn decimal_rendering_handles_signs() {
    assert_eq!(decimal_string_i64(0).as_str(), "0");
    assert_eq!(decimal_string_i64(-56).as_str(), "-56");
    assert_eq!(decimal_string_i64(i64::MIN).as_str(), "-9223372036854775808");
    assert_eq!(decimal_string_i64(i64::MAX).as_str(), "9223372036854775807");
}

#[test]
fn string_equality_compares_characters() {
    assert!(str_eq("abc", "abc"));
    assert!(!str_eq("abc", "abd"));
    assert!(!str_eq("abc", "ab"));
    assert!(str_eq("", ""));
}
