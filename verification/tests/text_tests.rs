use cc2api::text::{i64_to_text, text_eq, trim_start_matches};

#[test]
fn decimal_text_matches_std() {
    for n in [0i64, 7, 10, 42, -1, -90, 1234567890, i64::MAX, i64::MIN] {
        assert_eq!(i64_to_text(n), n.to_string());
    }
}

#[test]
fn trim_start_matches_removes_every_leading_copy() {
    assert_eq!(trim_start_matches("redis://redis://h:1", "redis://"), "h:1");
    assert_eq!(trim_start_matches("h:1", "redis://"), "h:1");
    assert_eq!(trim_start_matches("abc", ""), "abc");
    assert_eq!(trim_start_matches("aaa", "a"), "");
}

#[test]
fn text_equality() {
    assert!(text_eq("abc", "abc"));
    assert!(!text_eq("abc", "abd"));
}
