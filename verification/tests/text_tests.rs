use clounar::planner::utils::sanitize;
use clounar::text::{
    collapse_whitespace, join, lex_le_str, lines, replace_all, sort_strings, strip_tag_from,
    trim, without_prefix, without_suffix,
};

fn chars(s: &str) -> Vec<char> {
    s.chars().collect()
}

#[test]
fn sanitize_drops_tags_and_collapses_whitespace() {
    assert_eq!(sanitize("  src/<b>main</b>.rs \n"), "src/main.rs");
    assert_eq!(sanitize("a   b\t\tc"), "a b c");
}

#[test]
fn sanitize_unclosed_tag_drops_the_rest() {
    assert_eq!(sanitize("path/to<file"), "path/to");
}

#[test]
fn sanitize_reads_each_byte_as_a_character() {
    // "é" is two bytes in UTF-8; each becomes the Latin-1 character of its value.
    assert_eq!(sanitize("é"), "\u{c3}\u{a9}");
}

#[test]
fn collapse_whitespace_joins_words_with_single_spaces() {
    assert_eq!(collapse_whitespace("  one \n two   three  "), "one two three");
    assert_eq!(collapse_whitespace("   "), "");
}

#[test]
fn lines_splits_like_str_lines() {
    assert_eq!(lines("a\r\nb\n\nc\n"), vec!["a", "b", "", "c"]);
    assert_eq!(lines(""), Vec::<String>::new());
    assert_eq!(lines("x\r"), vec!["x\r"]);
}

#[test]
fn join_puts_the_separator_between_parts() {
    let parts = vec!["a".to_string(), "b".to_string(), "c".to_string()];
    assert_eq!(join(&parts, ", "), "a, b, c");
    assert_eq!(join(&Vec::new(), ", "), "");
}

#[test]
fn replace_all_replaces_left_to_right_without_overlap() {
    assert_eq!(replace_all("aaa", "aa", "b"), "ba");
    assert_eq!(replace_all("{x} and {x}", "{x}", "1"), "1 and 1");
    assert_eq!(replace_all("none", "{x}", "1"), "none");
}

#[test]
fn strip_tag_removes_tagged_parts() {
    let r = strip_tag_from(&chars("a<t>x</t>b<t>y"), &chars("<t>"), &chars("</t>"));
    assert_eq!(r, "ab");
}

#[test]
fn prefixes_and_suffixes_are_stripped_once() {
    assert_eq!(without_prefix("```json{}", "```json"), "{}");
    assert_eq!(without_prefix("{}", "```"), "{}");
    assert_eq!(without_suffix("x``````", "```"), "x```");
    assert_eq!(trim("  a b  "), "a b");
}

#[test]
fn strings_sort_in_str_order() {
    let v = vec!["b".to_string(), "a".to_string(), "B".to_string(), "ab".to_string()];
    assert_eq!(sort_strings(v), vec!["B", "a", "ab", "b"]);
    assert!(lex_le_str("a", "ab"));
    assert!(!lex_le_str("b", "ab"));
}
