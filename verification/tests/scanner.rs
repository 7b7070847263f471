use mikomi::error::ExtractError;
use mikomi::markup::{Attribute, MarkupEvent};
use mikomi::scanner::{
    find_last_value, scan_event, scan_image, scan_link, scan_reference, scan_references, Reference,
    ReferenceKind, ReferenceScan,
};

fn attribute(name: &str, value: &str) -> Attribute {
    Attribute { name: String::from(name), value: String::from(value) }
}

fn tag(name: &str, attributes: &[(&str, &str)]) -> MarkupEvent {
    MarkupEvent::StartElement {
        name: String::from(name),
        attributes: attributes.iter().map(|(n, v)| attribute(n, v)).collect(),
    }
}

fn image(reference: &str, archive_path: &str) -> Reference {
    Reference {
        kind: ReferenceKind::Image,
        reference: String::from(reference),
        archive_path: String::from(archive_path),
    }
}

fn stylesheet(reference: &str, archive_path: &str) -> Reference {
    Reference {
        kind: ReferenceKind::Stylesheet,
        reference: String::from(reference),
        archive_path: String::from(archive_path),
    }
}

#[test]
fn the_last_attribute_of_a_name_counts() {
    let attributes = vec![attribute("href", "1"), attribute("rel", "x"), attribute("href", "2")];
    assert_eq!(find_last_value(&attributes, "href").unwrap(), "2");
    assert_eq!(find_last_value(&attributes, "rel").unwrap(), "x");
    assert!(find_last_value(&attributes, "type").is_none());
    assert!(find_last_value(&attributes, "HREF").is_none());
    assert!(find_last_value(&Vec::new(), "href").is_none());
}

#[test]
fn a_reference_keeps_its_string_and_loses_the_prefix_for_its_path() {
    let mut found = Vec::new();
    let failure =
        scan_reference(ReferenceKind::Image, &String::from("pkg://img/a.png"), "pkg://", &mut found);
    assert_eq!(failure, None);
    assert_eq!(found, vec![image("pkg://img/a.png", "img/a.png")]);
    let failure =
        scan_reference(ReferenceKind::Stylesheet, &String::from("img/a.png"), "pkg://", &mut found);
    assert_eq!(failure, Some(ExtractError::ReferenceResolutionError));
    assert_eq!(found, vec![image("pkg://img/a.png", "img/a.png")]);
    let failure = scan_reference(ReferenceKind::Stylesheet, &String::from("pkg://"), "pkg://", &mut found);
    assert_eq!(failure, None);
    assert_eq!(found, vec![image("pkg://img/a.png", "img/a.png"), stylesheet("pkg://", "")]);
}

#[test]
fn an_image_tag_gives_its_href_and_then_its_src() {
    let attributes = vec![
        attribute("src", "pkg://1.png"),
        attribute("alt", "pkg://no.png"),
        attribute("href", "pkg://2.png"),
    ];
    let mut found = vec![image("pkg://0.png", "0.png")];
    assert_eq!(scan_image(&attributes, "pkg://", &mut found), None);
    assert_eq!(
        found,
        vec![
            image("pkg://0.png", "0.png"),
            image("pkg://2.png", "2.png"),
            image("pkg://1.png", "1.png"),
        ]
    );

    let mut found = Vec::new();
    assert_eq!(scan_image(&vec![attribute("src", "pkg://1.png")], "pkg://", &mut found), None);
    assert_eq!(scan_image(&vec![attribute("href", "pkg://2.png")], "pkg://", &mut found), None);
    assert_eq!(scan_image(&vec![attribute("alt", "pkg://3.png")], "pkg://", &mut found), None);
    assert_eq!(scan_image(&Vec::new(), "pkg://", &mut found), None);
    assert_eq!(found, vec![image("pkg://1.png", "1.png"), image("pkg://2.png", "2.png")]);
}

#[test]
fn of_a_repeated_attribute_of_an_image_tag_the_last_counts() {
    let attributes = vec![
        attribute("src", "no-prefix.png"),
        attribute("href", "pkg://h1.png"),
        attribute("src", "pkg://s2.png"),
        attribute("href", "pkg://h2.png"),
    ];
    let mut found = Vec::new();
    assert_eq!(scan_image(&attributes, "pkg://", &mut found), None);
    assert_eq!(found, vec![image("pkg://h2.png", "h2.png"), image("pkg://s2.png", "s2.png")]);
}

#[test]
fn an_image_tag_stops_at_the_first_reference_without_the_prefix() {
    let attributes = vec![attribute("src", "pkg://1.png"), attribute("href", "2.png")];
    let mut found = Vec::new();
    assert_eq!(
        scan_image(&attributes, "pkg://", &mut found),
        Some(ExtractError::ReferenceResolutionError)
    );
    assert!(found.is_empty());

    let attributes = vec![attribute("src", "1.png"), attribute("href", "pkg://2.png")];
    let mut found = Vec::new();
    assert_eq!(
        scan_image(&attributes, "pkg://", &mut found),
        Some(ExtractError::ReferenceResolutionError)
    );
    assert_eq!(found, vec![image("pkg://2.png", "2.png")]);
}

#[test]
fn the_order_of_the_attributes_of_a_link_does_not_matter() {
    let orders: [[(&str, &str); 3]; 3] = [
        [("rel", "stylesheet"), ("type", "text/css"), ("href", "pkg://a.css")],
        [("href", "pkg://a.css"), ("rel", "stylesheet"), ("type", "text/css")],
        [("type", "text/css"), ("href", "pkg://a.css"), ("rel", "alternate")],
    ];
    for order in orders {
        let attributes: Vec<Attribute> = order.iter().map(|(n, v)| attribute(n, v)).collect();
        let mut found = Vec::new();
        assert_eq!(scan_link(&attributes, "pkg://", &mut found), None);
        assert_eq!(found, vec![stylesheet("pkg://a.css", "a.css")]);
    }
}

#[test]
fn of_a_repeated_attribute_of_a_link_the_last_counts() {
    let cases: [(&[(&str, &str)], Option<&str>); 4] = [
        (&[("rel", "a"), ("type", "text/css"), ("href", "pkg://1.css"), ("href", "pkg://2.css")], Some("2.css")),
        (&[("rel", "a"), ("type", "text/plain"), ("href", "pkg://1.css"), ("type", "text/css")], Some("1.css")),
        (&[("rel", "a"), ("type", "text/css"), ("href", "pkg://1.css"), ("type", "text/plain")], None),
        (&[("type", "text/css"), ("href", "pkg://1.css")], None),
    ];
    for (attributes, expected) in cases {
        let attributes: Vec<Attribute> = attributes.iter().map(|(n, v)| attribute(n, v)).collect();
        let mut found = Vec::new();
        assert_eq!(scan_link(&attributes, "pkg://", &mut found), None);
        match expected {
            Some(path) => assert_eq!(found, vec![stylesheet(&format!("pkg://{}", path), path)]),
            None => assert!(found.is_empty()),
        }
    }
}

#[test]
fn a_stylesheet_link_without_the_prefix_fails() {
    let attributes =
        vec![attribute("rel", "stylesheet"), attribute("type", "text/css"), attribute("href", "a.css")];
    let mut found = Vec::new();
    assert_eq!(
        scan_link(&attributes, "pkg://", &mut found),
        Some(ExtractError::ReferenceResolutionError)
    );
    assert!(found.is_empty());
}

#[test]
fn only_image_and_link_tags_are_scanned() {
    let mut found = Vec::new();
    for name in ["a", "script", "IMG", "Image", "links", "picture", ""] {
        let event = tag(name, &[("href", "x"), ("src", "y"), ("rel", "r"), ("type", "text/css")]);
        assert_eq!(scan_event(&event, "pkg://", &mut found), None);
    }
    assert_eq!(scan_event(&MarkupEvent::Other, "pkg://", &mut found), None);
    assert!(found.is_empty());
    assert_eq!(scan_event(&tag("img", &[("src", "pkg://a")]), "pkg://", &mut found), None);
    assert_eq!(scan_event(&tag("image", &[("href", "pkg://b")]), "pkg://", &mut found), None);
    assert_eq!(found, vec![image("pkg://a", "a"), image("pkg://b", "b")]);
    assert_eq!(
        scan_event(&MarkupEvent::Malformed, "pkg://", &mut found),
        Some(ExtractError::OpenError)
    );
    assert_eq!(found.len(), 2);
}

#[test]
fn a_scan_runs_through_the_events_in_order() {
    let events = vec![
        MarkupEvent::Other,
        tag("html", &[]),
        tag("link", &[("rel", "stylesheet"), ("href", "pkg://s.css"), ("type", "text/css")]),
        MarkupEvent::Other,
        tag("img", &[("src", "pkg://a.png")]),
        tag("image", &[("href", "pkg://b.png")]),
        tag("link", &[("rel", "icon"), ("href", "pkg://icon.png")]),
    ];
    assert_eq!(
        scan_references(&events, "pkg://"),
        ReferenceScan {
            references: vec![
                stylesheet("pkg://s.css", "s.css"),
                image("pkg://a.png", "a.png"),
                image("pkg://b.png", "b.png"),
            ],
            failure: None,
        }
    );
    assert_eq!(
        scan_references(&Vec::new(), "pkg://"),
        ReferenceScan { references: Vec::new(), failure: None }
    );
}

#[test]
fn a_scan_stops_where_it_fails() {
    let events = vec![
        tag("img", &[("src", "pkg://a.png")]),
        MarkupEvent::Malformed,
        tag("img", &[("src", "pkg://b.png")]),
    ];
    assert_eq!(
        scan_references(&events, "pkg://"),
        ReferenceScan {
            references: vec![image("pkg://a.png", "a.png")],
            failure: Some(ExtractError::OpenError),
        }
    );
    let events = vec![
        tag("img", &[("src", "b.png"), ("href", "pkg://a.png")]),
        tag("img", &[("src", "pkg://c.png")]),
        MarkupEvent::Malformed,
    ];
    assert_eq!(
        scan_references(&events, "pkg://"),
        ReferenceScan {
            references: vec![image("pkg://a.png", "a.png")],
            failure: Some(ExtractError::ReferenceResolutionError),
        }
    );
}

#[test]
fn the_prefix_is_the_one_that_the_caller_names() {
    let events = vec![tag("img", &[("src", "epub://OEBPS/a.png")])];
    assert_eq!(
        scan_references(&events, "epub://").references,
        vec![image("epub://OEBPS/a.png", "OEBPS/a.png")]
    );
    assert_eq!(
        scan_references(&events, "pkg://").failure,
        Some(ExtractError::ReferenceResolutionError)
    );
    assert_eq!(scan_references(&events, "").references, vec![image("epub://OEBPS/a.png", "epub://OEBPS/a.png")]);
}
