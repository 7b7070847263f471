use mikomi::epub::{extract_document, wanted_paths};
use mikomi::error::ExtractError;
use mikomi::markup::{Attribute, MarkupEvent};
use mikomi::model::{ImageData, Resources};
use mikomi::package::{ManifestEntry, Package, SpineEntry};
use mikomi::resolver::{image_from_probe, resolve_reference, resolve_references};
use mikomi::scanner::{Reference, ReferenceKind};
use mikomi::table::StringMap;
use mikomi::text::decode_text;

fn gif(width: u16, height: u16) -> Vec<u8> {
    let pixels = vec![0u8; usize::from(width) * usize::from(height) * 4];
    let mut picture = std::io::Cursor::new(Vec::new());
    image::codecs::gif::GifEncoder::new(&mut picture)
        .encode(&pixels, u32::from(width), u32::from(height), image::ColorType::Rgba8)
        .unwrap();
    picture.into_inner()
}

fn nothing() -> Resources {
    Resources { img: StringMap::new(), css: StringMap::new() }
}

fn reference(kind: ReferenceKind, path: &str) -> Reference {
    Reference { kind, reference: format!("pkg://{}", path), archive_path: String::from(path) }
}

#[test]
fn decode_text_takes_valid_utf8_only() {
    assert_eq!(decode_text(b"plain".to_vec()), Some(String::from("plain")));
    assert_eq!(decode_text(vec![0xc3, 0xa9]), Some(String::from("\u{e9}")));
    assert_eq!(decode_text(Vec::new()), Some(String::new()));
    assert_eq!(decode_text(vec![0xc3]), None);
    assert_eq!(decode_text(vec![0xed, 0xa0, 0x80]), None);
    assert_eq!(decode_text(vec![0xc0, 0x80]), None);
    assert_eq!(decode_text(vec![b'a', 0xff]), None);
}

#[test]
fn an_image_is_its_bytes_with_the_size_that_the_decoder_found() {
    let bytes = vec![1, 2, 3];
    assert_eq!(
        image_from_probe(&bytes, Some((120, 80))),
        Ok(ImageData { data: vec![1, 2, 3], width: 120, height: 80 })
    );
    assert_eq!(
        image_from_probe(&Vec::new(), Some((0, u32::MAX))),
        Ok(ImageData { data: Vec::new(), width: 0, height: u32::MAX })
    );
    assert_eq!(image_from_probe(&bytes, None), Err(ExtractError::UnsupportedImageFormat));
}

#[test]
fn an_image_reference_is_bound_to_the_decoded_image() {
    let picture = gif(6, 4);
    let mut archive = StringMap::new();
    archive.insert(String::from("a.gif"), picture.clone());
    let resources =
        resolve_reference(&reference(ReferenceKind::Image, "a.gif"), &archive, nothing()).unwrap();
    assert_eq!(resources.img.len(), 1);
    assert_eq!(resources.css.len(), 0);
    assert_eq!(
        resources.img.get("pkg://a.gif"),
        Some(&ImageData { data: picture, width: 6, height: 4 })
    );
}

#[test]
fn a_missing_image_fails_and_a_missing_stylesheet_does_not() {
    let archive = StringMap::new();
    assert_eq!(
        resolve_reference(&reference(ReferenceKind::Image, "a.png"), &archive, nothing()).err(),
        Some(ExtractError::ResourceNotFound)
    );
    let resources =
        resolve_reference(&reference(ReferenceKind::Stylesheet, "a.css"), &archive, nothing()).unwrap();
    assert_eq!(resources.img.len(), 0);
    assert_eq!(resources.css.len(), 0);
}

#[test]
fn a_stylesheet_reference_is_bound_to_its_text() {
    let mut archive = StringMap::new();
    archive.insert(String::from("a.css"), "a { content: \"\u{2014}\" }".as_bytes().to_vec());
    archive.insert(String::from("b.css"), vec![0x80]);
    let resources =
        resolve_reference(&reference(ReferenceKind::Stylesheet, "a.css"), &archive, nothing()).unwrap();
    assert_eq!(resources.css.get("pkg://a.css").unwrap(), "a { content: \"\u{2014}\" }");
    assert_eq!(
        resolve_reference(&reference(ReferenceKind::Stylesheet, "b.css"), &archive, resources).err(),
        Some(ExtractError::InvalidEncoding)
    );
}

#[test]
fn the_archive_is_asked_for_the_archive_path_and_the_entry_stands_under_the_reference() {
    let mut archive = StringMap::new();
    archive.insert(String::from("real.css"), b"x".to_vec());
    let odd = Reference {
        kind: ReferenceKind::Stylesheet,
        reference: String::from("as-written"),
        archive_path: String::from("real.css"),
    };
    let resources = resolve_reference(&odd, &archive, nothing()).unwrap();
    assert_eq!(resources.css.get("as-written").unwrap(), "x");
    assert!(resources.css.get("real.css").is_none());
}

#[test]
fn references_are_resolved_in_order_and_later_ones_overwrite() {
    let mut archive = StringMap::new();
    archive.insert(String::from("a.css"), b"first".to_vec());
    archive.insert(String::from("b.css"), b"second".to_vec());
    let same_key = |path: &str| Reference {
        kind: ReferenceKind::Stylesheet,
        reference: String::from("key"),
        archive_path: String::from(path),
    };
    let resources =
        resolve_references(&vec![same_key("a.css"), same_key("b.css")], &archive, nothing()).unwrap();
    assert_eq!(resources.css.len(), 1);
    assert_eq!(resources.css.get("key").unwrap(), "second");
    let resources =
        resolve_references(&vec![same_key("b.css"), same_key("a.css")], &archive, nothing()).unwrap();
    assert_eq!(resources.css.get("key").unwrap(), "first");
    let resources = resolve_references(&Vec::new(), &archive, resources).unwrap();
    assert_eq!(resources.css.get("key").unwrap(), "first");
}

#[test]
fn resolving_stops_at_the_first_failure() {
    let mut archive = StringMap::new();
    archive.insert(String::from("bad.css"), vec![0xff]);
    archive.insert(String::from("bad.png"), b"GIF89a".to_vec());
    let references = |from: usize| -> Vec<Reference> {
        let all = [
            (ReferenceKind::Stylesheet, "gone.css"),
            (ReferenceKind::Image, "bad.png"),
            (ReferenceKind::Stylesheet, "bad.css"),
            (ReferenceKind::Image, "gone.png"),
        ];
        all[from..].iter().map(|(kind, path)| reference(*kind, path)).collect()
    };
    assert_eq!(
        resolve_references(&references(0), &archive, nothing()).err(),
        Some(ExtractError::UnsupportedImageFormat)
    );
    assert_eq!(
        resolve_references(&references(2), &archive, nothing()).err(),
        Some(ExtractError::InvalidEncoding)
    );
    assert_eq!(
        resolve_references(&references(3), &archive, nothing()).err(),
        Some(ExtractError::ResourceNotFound)
    );
}

#[test]
fn a_document_is_extracted_from_given_events() {
    let mut package = Package::new(String::from("pkg://"));
    package.archive.insert(String::from("s.css"), b"p { }".to_vec());
    let events = vec![
        MarkupEvent::StartElement {
            name: String::from("link"),
            attributes: vec![
                Attribute { name: String::from("rel"), value: String::from("stylesheet") },
                Attribute { name: String::from("type"), value: String::from("text/css") },
                Attribute { name: String::from("href"), value: String::from("pkg://s.css") },
            ],
        },
        MarkupEvent::Other,
    ];
    let markup = b"anything that is text".to_vec();
    let (document, resources) =
        extract_document(&String::from("doc"), &markup, &events, &package, nothing()).unwrap();
    assert_eq!(document.id, "doc");
    assert_eq!(document.html_content, "anything that is text");
    assert_eq!(resources.css.get("pkg://s.css").unwrap(), "p { }");

    let outcome = extract_document(&String::from("doc"), &vec![0xff], &events, &package, nothing());
    assert_eq!(outcome.err(), Some(ExtractError::InvalidEncoding));

    let stopped = vec![MarkupEvent::Malformed];
    let outcome = extract_document(&String::from("doc"), &vec![0xff], &stopped, &package, nothing());
    assert_eq!(outcome.err(), Some(ExtractError::InvalidEncoding));
    let outcome = extract_document(&String::from("doc"), &markup, &stopped, &package, nothing());
    assert_eq!(outcome.err(), Some(ExtractError::OpenError));
}

#[test]
fn the_wanted_paths_are_those_of_the_references_and_of_the_navigation_files() {
    let mut package = Package::new(String::from("pkg://"));
    package.spine.push(SpineEntry {
        path: String::from("one"),
        markup: b"<r><img src=\"pkg://a.png\"/><link rel=\"x\" type=\"text/css\" href=\"pkg://s.css\"/></r>"
            .to_vec(),
    });
    package.spine.push(SpineEntry {
        path: String::from("two"),
        markup: b"<r><img src=\"pkg://a.png\"/><image href=\"pkg://b.png\"/><img src=\"c.png\"/><img src=\"pkg://d.png\"/></r>"
            .to_vec(),
    });
    for (id, path) in [("toc", "nav/toc.xhtml"), ("cover", "cover.png"), ("ncx", "toc.ncx")] {
        package.manifest.insert(
            String::from(id),
            ManifestEntry { path: String::from(path), media_type: String::new() },
        );
    }
    assert_eq!(wanted_paths(&package), ["a.png", "s.css", "a.png", "b.png", "toc.ncx", "nav/toc.xhtml"]);
    assert!(wanted_paths(&Package::new(String::new())).is_empty());
}
