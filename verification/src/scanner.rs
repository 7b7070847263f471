//! The scan of markup events for references to images and stylesheets.

use crate::error::ExtractError;
use crate::markup::{Attribute, AttributeView, MarkupEvent, MarkupEventView};
use crate::text::{strip_prefix, text_eq, without_prefix};
use vstd::prelude::*;

verus! {

/// What a reference leads to.
#[derive(Debug, Clone, Copy, PartialEq, Eq, Structural)]
pub enum ReferenceKind {
    /// An image, which the archive must hold.
    Image,
    /// A stylesheet, which the archive may lack.
    Stylesheet,
}

/// A reference found in markup: the reference string exactly as it stands
/// there, and the archive path that is left of it without the URI prefix.
#[derive(Debug, PartialEq, Eq)]
pub struct Reference {
    /// What the reference leads to.
    pub kind: ReferenceKind,
    /// The reference string as it stands in the markup.
    pub reference: String,
    /// The reference string without the URI prefix.
    pub archive_path: String,
}

/// The mathematical value of a [`Reference`].
pub ghost struct ReferenceView {
    pub kind: ReferenceKind,
    pub reference: Seq<char>,
    pub archive_path: Seq<char>,
}

impl View for Reference {
    type V = ReferenceView;

    open spec fn view(&self) -> ReferenceView {
        ReferenceView {
            kind: self.kind,
            reference: self.reference@,
            archive_path: self.archive_path@,
        }
    }
}

impl DeepView for Reference {
    type V = ReferenceView;

    open spec fn deep_view(&self) -> ReferenceView {
        self@
    }
}

/// The outcome of a scan: the references found, in the order in which the
/// markup holds them, and what stopped the scan, if anything did. Nothing is
/// found past the place where a scan stops.
#[derive(Debug, PartialEq, Eq)]
pub struct ReferenceScan {
    /// The references found before the scan ended.
    pub references: Vec<Reference>,
    /// What stopped the scan; none where it ran to the end.
    pub failure: Option<ExtractError>,
}

/// The mathematical value of a [`ReferenceScan`].
pub ghost struct ReferenceScanView {
    pub references: Seq<ReferenceView>,
    pub failure: Option<ExtractError>,
}

impl View for ReferenceScan {
    type V = ReferenceScanView;

    open spec fn view(&self) -> ReferenceScanView {
        ReferenceScanView { references: self.references.deep_view(), failure: self.failure }
    }
}

/// The scan that finds nothing and runs to the end.
pub open spec fn no_references() -> ReferenceScanView {
    ReferenceScanView { references: Seq::empty(), failure: None }
}

/// The scan that stops at once.
pub open spec fn stopped(failure: ExtractError) -> ReferenceScanView {
    ReferenceScanView { references: Seq::empty(), failure: Some(failure) }
}

/// One scan after another: where the first stops, the second never runs.
pub open spec fn scan_then(first: ReferenceScanView, second: ReferenceScanView)
    -> ReferenceScanView {
    if first.failure is Some {
        first
    } else {
        ReferenceScanView {
            references: first.references + second.references,
            failure: second.failure,
        }
    }
}

/// The scan of one reference string: the reference with its archive path
/// where the string starts with the prefix, a failure where it does not.
pub open spec fn reference_scan(kind: ReferenceKind, reference: Seq<char>, prefix: Seq<char>)
    -> ReferenceScanView {
    match without_prefix(reference, prefix) {
        Some(archive_path) => ReferenceScanView {
            references: seq![ReferenceView { kind, reference, archive_path }],
            failure: None,
        },
        None => stopped(ExtractError::ReferenceResolutionError),
    }
}

/// The value of the last attribute called `name`.
pub open spec fn last_value(attributes: Seq<AttributeView>, name: Seq<char>) -> Option<Seq<char>>
    decreases attributes.len(),
{
    if attributes.len() == 0 {
        None
    } else if attributes.last().name == name {
        Some(attributes.last().value)
    } else {
        last_value(attributes.drop_last(), name)
    }
}

/// Whether a tag of this name bears an image.
pub open spec fn is_image_tag(name: Seq<char>) -> bool {
    name == "image"@ || name == "img"@
}

/// The scan of the attribute called `name` of a tag that bears an image:
/// the image that its value refers to, if the tag has such an attribute. Of
/// an attribute that is written more than once the last one counts.
pub open spec fn image_attribute_scan(
    attributes: Seq<AttributeView>,
    name: Seq<char>,
    prefix: Seq<char>,
) -> ReferenceScanView {
    match last_value(attributes, name) {
        Some(reference) => reference_scan(ReferenceKind::Image, reference, prefix),
        None => no_references(),
    }
}

/// The scan of a tag that bears an image: its `href`, then its `src`,
/// wherever among the attributes they stand.
pub open spec fn image_scan(attributes: Seq<AttributeView>, prefix: Seq<char>)
    -> ReferenceScanView {
    scan_then(
        image_attribute_scan(attributes, "href"@, prefix),
        image_attribute_scan(attributes, "src"@, prefix),
    )
}

/// The stylesheet that a link tag refers to: the value of its `href`, where
/// the tag has a `rel`, a `type` that is `text/css`, and an `href`. Of an
/// attribute that is written more than once the last one counts.
pub open spec fn stylesheet_href(attributes: Seq<AttributeView>) -> Option<Seq<char>> {
    if last_value(attributes, "rel"@) is Some && last_value(attributes, "type"@) == Some(
        "text/css"@,
    ) {
        last_value(attributes, "href"@)
    } else {
        None
    }
}

/// The scan of a link tag.
pub open spec fn link_scan(attributes: Seq<AttributeView>, prefix: Seq<char>)
    -> ReferenceScanView {
    match stylesheet_href(attributes) {
        Some(href) => reference_scan(ReferenceKind::Stylesheet, href, prefix),
        None => no_references(),
    }
}

/// The scan of one event.
pub open spec fn event_scan(event: MarkupEventView, prefix: Seq<char>) -> ReferenceScanView {
    match event {
        MarkupEventView::StartElement { name, attributes } => {
            if is_image_tag(name) {
                image_scan(attributes, prefix)
            } else if name == "link"@ {
                link_scan(attributes, prefix)
            } else {
                no_references()
            }
        },
        MarkupEventView::Other => no_references(),
        MarkupEventView::Malformed => stopped(ExtractError::OpenError),
    }
}

/// The scan of a document: its events one after another.
pub open spec fn markup_scan(events: Seq<MarkupEventView>, prefix: Seq<char>)
    -> ReferenceScanView
    decreases events.len(),
{
    if events.len() == 0 {
        no_references()
    } else {
        scan_then(markup_scan(events.drop_last(), prefix), event_scan(events.last(), prefix))
    }
}

/// A scan of events that has stopped stays as it is, whatever follows.
pub proof fn lemma_markup_scan_stopped(events: Seq<MarkupEventView>, prefix: Seq<char>, n: int)
    requires
        0 <= n <= events.len(),
        markup_scan(events.take(n), prefix).failure is Some,
    ensures
        markup_scan(events, prefix) == markup_scan(events.take(n), prefix),
    decreases events.len(),
{
    if n < events.len() {
        assert(events.drop_last().take(n) =~= events.take(n));
        lemma_markup_scan_stopped(events.drop_last(), prefix, n);
    } else {
        assert(events.take(n) =~= events);
    }
}

/// The value of the last attribute called `name`.
pub fn find_last_value<'a>(attributes: &'a Vec<Attribute>, name: &str) -> (value: Option<
    &'a String,
>)
    ensures
        match value {
            Some(v) => last_value(attributes.deep_view(), name@) == Some(v@),
            None => last_value(attributes.deep_view(), name@) is None,
        },
{
    let ghost all = attributes.deep_view();
    let mut i: usize = attributes.len();
    assert(all.take(i as int) =~= all);
    while i > 0
        invariant
            i <= attributes.len(),
            all == attributes.deep_view(),
            last_value(all, name@) == last_value(all.take(i as int), name@),
        decreases i,
    {
        i -= 1;
        proof {
            assert(all.take(i + 1).drop_last() =~= all.take(i as int));
        }
        if text_eq(attributes[i].name.as_str(), name) {
            return Some(&attributes[i].value);
        }
    }
    None
}

/// Scans one reference string: adds the reference to `found`, or says why
/// it is none.
pub fn scan_reference(
    kind: ReferenceKind,
    reference: &String,
    prefix: &str,
    found: &mut Vec<Reference>,
) -> (failure: Option<ExtractError>)
    ensures
        final(found).deep_view() == old(found).deep_view() + reference_scan(
            kind,
            reference@,
            prefix@,
        ).references,
        failure == reference_scan(kind, reference@, prefix@).failure,
{
    match strip_prefix(reference.as_str(), prefix) {
        Some(rest) => {
            let entry = Reference {
                kind,
                reference: reference.clone(),
                archive_path: rest.to_owned(),
            };
            found.push(entry);
            None
        },
        None => {
            Some(ExtractError::ReferenceResolutionError)
        },
    }
}

/// Scans a tag that bears an image: its `href`, then its `src`, and stops at
/// the first of the two that lacks the prefix.
pub fn scan_image(
    attributes: &Vec<Attribute>,
    prefix: &str,
    found: &mut Vec<Reference>,
) -> (failure: Option<ExtractError>)
    ensures
        final(found).deep_view() == old(found).deep_view() + image_scan(
            attributes.deep_view(),
            prefix@,
        ).references,
        failure == image_scan(attributes.deep_view(), prefix@).failure,
{
    if let Some(href) = find_last_value(attributes, "href") {
        let failure = scan_reference(ReferenceKind::Image, href, prefix, found);
        if failure.is_some() {
            return failure;
        }
    }
    match find_last_value(attributes, "src") {
        Some(src) => scan_reference(ReferenceKind::Image, src, prefix, found),
        None => None,
    }
}

/// Scans a link tag: its `href`, where the tag refers to a stylesheet.
pub fn scan_link(
    attributes: &Vec<Attribute>,
    prefix: &str,
    found: &mut Vec<Reference>,
) -> (failure: Option<ExtractError>)
    ensures
        final(found).deep_view() == old(found).deep_view() + link_scan(
            attributes.deep_view(),
            prefix@,
        ).references,
        failure == link_scan(attributes.deep_view(), prefix@).failure,
{
    let is_stylesheet = find_last_value(attributes, "rel").is_some() && match find_last_value(
        attributes,
        "type",
    ) {
        Some(media_type) => text_eq(media_type.as_str(), "text/css"),
        None => false,
    };
    if is_stylesheet {
        match find_last_value(attributes, "href") {
            Some(href) => {
                return scan_reference(ReferenceKind::Stylesheet, href, prefix, found);
            },
            None => {},
        }
    }
    None
}

/// Scans one event.
pub fn scan_event(
    event: &MarkupEvent,
    prefix: &str,
    found: &mut Vec<Reference>,
) -> (failure: Option<ExtractError>)
    ensures
        final(found).deep_view() == old(found).deep_view() + event_scan(event@, prefix@).references,
        failure == event_scan(event@, prefix@).failure,
{
    match event {
        MarkupEvent::StartElement { name, attributes } => {
            if text_eq(name.as_str(), "image") || text_eq(name.as_str(), "img") {
                return scan_image(attributes, prefix, found);
            } else if text_eq(name.as_str(), "link") {
                return scan_link(attributes, prefix, found);
            }
        },
        MarkupEvent::Other => {},
        MarkupEvent::Malformed => {
            return Some(ExtractError::OpenError);
        },
    }
    None
}

/// Scans the events of a document for the references that it holds, in one
/// pass from front to back. The scan stops at the first reference that lacks
/// the prefix, and at the place where the markup is malformed.
pub fn scan_references(events: &Vec<MarkupEvent>, prefix: &str) -> (scan: ReferenceScan)
    ensures
        scan@ == markup_scan(events.deep_view(), prefix@),
{
    let ghost all = events.deep_view();
    let mut found: Vec<Reference> = Vec::new();
    let mut i: usize = 0;
    while i < events.len()
        invariant
            i <= events.len(),
            all == events.deep_view(),
            found.deep_view() == markup_scan(all.take(i as int), prefix@).references,
            markup_scan(all.take(i as int), prefix@).failure is None,
        decreases events.len() - i,
    {
        proof {
            assert(all.take(i + 1).drop_last() =~= all.take(i as int));
        }
        let failure = scan_event(&events[i], prefix, &mut found);
        if failure.is_some() {
            proof {
                lemma_markup_scan_stopped(all, prefix@, i + 1);
            }
            return ReferenceScan { references: found, failure };
        }
        i += 1;
    }
    assert(all.take(i as int) =~= all);
    ReferenceScan { references: found, failure: None }
}

} // verus!
