use alavai::order::{sort_by_number, sort_by_text_keys, text_less};
use alavai::text::{
    after_last_char, contains_text, first_chars, join_strings, padded, replaced, starts_with,
    trim_end_matches_char, trimmed,
};

fn chars(x: &str) -> Vec<char> {
    x.chars().collect()
}

#[test]
fn text_order() {
    assert!(text_less(&chars("abc"), &chars("abd")));
    assert!(text_less(&chars("ab"), &chars("abc")));
    assert!(!text_less(&chars("abc"), &chars("abc")));
    assert!(!text_less(&chars("b"), &chars("abc")));
    assert!(text_less(&chars("Z"), &chars("a")));
}

#[test]
fn stable_text_sort() {
    let items = vec!["b1", "a1", "b2", "a2"];
    let keys = vec![chars("b"), chars("a"), chars("b"), chars("a")];
    assert_eq!(sort_by_text_keys(items, keys), vec!["a1", "a2", "b1", "b2"]);
}

#[test]
fn number_sort() {
    assert_eq!(sort_by_number(vec!["x", "y", "z"], vec![30, -5, 7]), vec!["y", "z", "x"]);
}

#[test]
fn string_helpers() {
    assert_eq!(trimmed("  a b \t"), "a b");
    assert_eq!(trim_end_matches_char("host.ts.net..", '.'), "host.ts.net");
    assert!(starts_with("0001-01-01T", "0001-01-01"));
    assert!(contains_text("fileserver", "lese"));
    assert!(!contains_text("file", "files"));
    assert_eq!(join_strings(&vec!["a".to_string(), "b".to_string()], ", "), "a, b");
    assert_eq!(join_strings(&Vec::new(), ", "), "");
    assert_eq!(padded("ab", 4), "ab  ");
    assert_eq!(padded("abcdef", 4), "abcdef");
    assert_eq!(padded("é", 3), "é  ");
    assert_eq!(replaced("aTbT", 'T', ' '), "a b ");
    assert_eq!(first_chars("héllo", 2), "hé");
    assert_eq!(after_last_char("a.b.c", '.'), "c");
    assert_eq!(after_last_char("abc", '.'), "abc");
    assert_eq!(after_last_char("abc.", '.'), "");
}
