use operator_deploy::text::{contains, find_char, join, same_text, starts_with, tail_after};

#[test]
fn same_text_compares_characters() {
    assert!(same_text("a", "a"));
    assert!(!same_text("a", "A"));
    assert!(same_text("", ""));
}

#[test]
fn prefixes() {
    assert!(starts_with("pipeline-pre-1", "pipeline-pre-"));
    assert!(starts_with("x", ""));
    assert!(!starts_with("pipe", "pipeline"));
    assert!(!starts_with("apipeline", "pipeline"));
}

#[test]
fn parts() {
    assert!(contains("abc", "bc"));
    assert!(contains("abc", ""));
    assert!(contains("", ""));
    assert!(!contains("abc", "cb"));
    assert!(!contains("ab", "abc"));
}

#[test]
fn first_place_counts_characters() {
    assert_eq!(find_char("a/b/c", '/'), Some(1));
    assert_eq!(find_char("äö/b", '/'), Some(2));
    assert_eq!(find_char("abc", '/'), None);
}

#[test]
fn tail_after_the_last() {
    assert_eq!(tail_after("a/b/c", '/'), "c");
    assert_eq!(tail_after("abc", '/'), "abc");
    assert_eq!(tail_after("a/", '/'), "");
}

#[test]
fn joined_with_separator() {
    assert_eq!(join(&[], ", "), "");
    assert_eq!(join(&["a".to_string()], ", "), "a");
    assert_eq!(join(&["a".to_string(), "".to_string(), "b".to_string()], ", "), "a, , b");
}
