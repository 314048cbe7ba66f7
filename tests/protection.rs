use std::collections::HashSet;

use skyscraper::{is_protected, load_keep_list};

#[test]
fn is_protected_platform_prefixed_match() {
    let keep = HashSet::from(["bluesky:abc123".to_string()]);
    assert!(is_protected(&keep, "bluesky", "abc123"));
}

#[test]
fn is_protected_bare_id_match() {
    let keep = HashSet::from(["abc123".to_string()]);
    assert!(is_protected(&keep, "bluesky", "abc123"));
}

#[test]
fn is_protected_no_match() {
    let keep = HashSet::from(["bluesky:other".to_string()]);
    assert!(!is_protected(&keep, "bluesky", "abc123"));
}

#[test]
fn is_protected_wrong_platform_prefix() {
    let keep = HashSet::from(["mastodon:abc123".to_string()]);
    assert!(!is_protected(&keep, "bluesky", "abc123"));
}

#[test]
fn is_protected_empty_list() {
    let keep: HashSet<String> = HashSet::new();
    assert!(!is_protected(&keep, "bluesky", "abc123"));
}

#[test]
fn is_protected_needs_whole_id() {
    let keep = HashSet::from(["bluesky:abc".to_string()]);
    assert!(!is_protected(&keep, "bluesky", "abc123"));
    assert!(is_protected(&keep, "bluesky", "abc"));
}

#[test]
fn load_keep_list_parses_entries_skipping_comments_and_blanks() {
    let contents = "# comment\n\nbluesky:abc123\nmastodon:456\n";
    let result = load_keep_list(Some(contents));
    assert_eq!(result.len(), 2);
    assert!(result.contains("bluesky:abc123"));
    assert!(result.contains("mastodon:456"));
}

#[test]
fn load_keep_list_trims_whitespace() {
    let contents = "  bluesky:abc123  \n";
    let result = load_keep_list(Some(contents));
    assert!(result.contains("bluesky:abc123"));
}

#[test]
fn load_keep_list_nonexistent_file_returns_empty() {
    let result = load_keep_list(None);
    assert!(result.is_empty());
}

#[test]
fn load_keep_list_empty_file_returns_empty() {
    let result = load_keep_list(Some(""));
    assert!(result.is_empty());
}

#[test]
fn load_keep_list_handles_crlf_tabs_and_no_final_newline() {
    let contents = "\tthreads:1\r\n  # not this\r\n\r\n12345";
    let result = load_keep_list(Some(contents));
    assert_eq!(result.len(), 2);
    assert!(result.contains("threads:1"));
    assert!(result.contains("12345"));
}

#[test]
fn load_keep_list_keeps_inner_spaces_and_hash() {
    let contents = "a b\nx#y\n   #z\n";
    let result = load_keep_list(Some(contents));
    assert_eq!(result.len(), 2);
    assert!(result.contains("a b"));
    assert!(result.contains("x#y"));
}

#[test]
fn load_keep_list_duplicate_entries_count_once() {
    let result = load_keep_list(Some("abc\n abc \nabc"));
    assert_eq!(result.len(), 1);
}
