use mikomi::package::{DocumentCursor, ManifestEntry, Package, SpineEntry};

fn entry(path: &str, markup: &str) -> SpineEntry {
    SpineEntry { path: String::from(path), markup: markup.as_bytes().to_vec() }
}

#[test]
fn a_new_package_holds_nothing() {
    let package = Package::new(String::from("pkg://"));
    assert_eq!(package.uri_prefix, "pkg://");
    assert!(package.spine.is_empty());
    assert_eq!(package.archive.len(), 0);
    assert_eq!(package.manifest.len(), 0);
    assert!(package.outline.is_none());
    assert!(package.fetch_resource("a").is_none());
    assert!(package.manifest_entry("a").is_none());
}

#[test]
fn resources_and_manifest_entries_are_found_by_their_keys() {
    let mut package = Package::new(String::from("pkg://"));
    package.archive.insert(String::from("img/a.png"), vec![1, 2, 3]);
    package.manifest.insert(
        String::from("cover"),
        ManifestEntry { path: String::from("img/a.png"), media_type: String::from("image/png") },
    );
    assert_eq!(package.fetch_resource("img/a.png"), Some(&vec![1, 2, 3]));
    assert_eq!(package.fetch_resource("pkg://img/a.png"), None);
    assert_eq!(package.manifest_entry("cover").unwrap().path, "img/a.png");
    assert_eq!(package.manifest_entry("cover").unwrap().media_type, "image/png");
    assert!(package.manifest_entry("img/a.png").is_none());
}

#[test]
fn there_is_no_cursor_on_an_empty_spine() {
    assert!(DocumentCursor::first(&Vec::new()).is_none());
}

#[test]
fn the_cursor_walks_the_spine_once_and_stays_on_the_last_document() {
    let spine = vec![entry("a", "<a/>"), entry("b", "<b/>"), entry("c", "<c/>")];
    let mut cursor = DocumentCursor::first(&spine).unwrap();
    assert_eq!(cursor.current_document_path(), "a");
    assert_eq!(cursor.current_document_rewritten_bytes(), b"<a/>");
    assert!(cursor.advance());
    assert_eq!(cursor.current_document_path(), "b");
    assert!(cursor.advance());
    assert_eq!(cursor.current_document_path(), "c");
    assert_eq!(cursor.current_document_rewritten_bytes(), b"<c/>");
    assert!(!cursor.advance());
    assert!(!cursor.advance());
    assert_eq!(cursor.current_document_path(), "c");
}

#[test]
fn a_cursor_on_one_document_cannot_advance() {
    let spine = vec![entry("only", "")];
    let mut cursor = DocumentCursor::first(&spine).unwrap();
    assert!(!cursor.advance());
    assert_eq!(cursor.current_document_path(), "only");
}
