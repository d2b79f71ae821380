use harbor_cache::text::{
    count_occurrences, ends_with, join_strings, starts_with, str_eq,
};

#[test]
fn text_helpers() {
    assert_eq!(join_strings(&vec!["a".to_string(), "b".to_string(), "c".to_string()], ", "), "a, b, c");
    assert_eq!(join_strings(&vec![], ", "), "");
    assert!(starts_with("Bearer x", "Bearer "));
    assert!(!starts_with("Bear", "Bearer "));
    assert!(ends_with("host.local", ".local"));
    assert!(!ends_with("local", ".local"));
    assert_eq!(count_occurrences("a/**/b/*", '*'), 3);
    assert!(str_eq("x", "x") && !str_eq("x", "y"));
}

#[test]
fn lowering_text() {
    assert_eq!(harbor_cache::text::lower_text("LRU"), "lru");
    assert_eq!(harbor_cache::text::lower_text("MiXeD-42"), "mixed-42");
    assert_eq!(harbor_cache::text::lower_text("ÄB"), "äb");
}
