use mikomi::text::{strip_prefix, text_eq};

#[test]
fn text_eq_tells_equal_from_different() {
    assert!(text_eq("href", "href"));
    assert!(!text_eq("href", "src"));
    assert!(!text_eq("href", "hrefs"));
    assert!(text_eq("", ""));
}

#[test]
fn strip_prefix_takes_the_prefix_off() {
    assert_eq!(strip_prefix("pkg://img/cover.png", "pkg://"), Some("img/cover.png"));
    assert_eq!(strip_prefix("pkg://", "pkg://"), Some(""));
    assert_eq!(strip_prefix("img/cover.png", "pkg://"), None);
    assert_eq!(strip_prefix("pkg:/", "pkg://"), None);
    assert_eq!(strip_prefix("épub", "\u{e9}"), Some("pub"));
    assert_eq!(strip_prefix("épub", "\u{c3}"), None);
}
