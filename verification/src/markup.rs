//! The events of a forward scan of markup, as far as references are
//! concerned, and the XML reader that yields them.

use vstd::prelude::*;
use xml::reader::{ParserConfig, XmlEvent};

verus! {

/// An attribute of a start tag: its local name and its value.
#[derive(Debug, PartialEq, Eq)]
pub struct Attribute {
    /// The name without its namespace prefix.
    pub name: String,
    /// The value, with character references resolved.
    pub value: String,
}

/// The mathematical value of an [`Attribute`].
pub ghost struct AttributeView {
    pub name: Seq<char>,
    pub value: Seq<char>,
}

impl View for Attribute {
    type V = AttributeView;

    open spec fn view(&self) -> AttributeView {
        AttributeView { name: self.name@, value: self.value@ }
    }
}

impl DeepView for Attribute {
    type V = AttributeView;

    open spec fn deep_view(&self) -> AttributeView {
        self@
    }
}

/// What a forward scan of markup meets, as far as references are concerned.
#[derive(Debug, PartialEq, Eq)]
pub enum MarkupEvent {
    /// A start tag, with its local name and its attributes in the order in
    /// which they are written.
    StartElement { name: String, attributes: Vec<Attribute> },
    /// Anything else that is well formed: text, an end tag, a comment.
    Other,
    /// The place where the markup stops being well formed.
    Malformed,
}

/// The mathematical value of a [`MarkupEvent`].
pub ghost enum MarkupEventView {
    StartElement { name: Seq<char>, attributes: Seq<AttributeView> },
    Other,
    Malformed,
}

impl View for MarkupEvent {
    type V = MarkupEventView;

    open spec fn view(&self) -> MarkupEventView {
        match self {
            MarkupEvent::StartElement { name, attributes } => MarkupEventView::StartElement {
                name: name@,
                attributes: attributes.deep_view(),
            },
            MarkupEvent::Other => MarkupEventView::Other,
            MarkupEvent::Malformed => MarkupEventView::Malformed,
        }
    }
}

impl DeepView for MarkupEvent {
    type V = MarkupEventView;

    open spec fn deep_view(&self) -> MarkupEventView {
        self@
    }
}

/// The events that the `xml` reader yields for `markup` under its default
/// configuration, each reduced to a [`MarkupEventView`].
pub uninterp spec fn markup_events(markup: Seq<u8>) -> Seq<MarkupEventView>;

/// Runs `xml::reader::ParserConfig::new().create_reader(..)` over `markup`
/// and walks the reader's iterator to its end. Each item becomes one event:
/// a start tag keeps its local name and, of each attribute, local name and
/// value; an error becomes [`MarkupEvent::Malformed`]; every other item
/// becomes [`MarkupEvent::Other`]. The contract claims only that the events
/// are a function of the bytes, and names that function.
#[verifier::external_body]
pub(crate) fn read_markup_events(markup: &[u8]) -> (events: Vec<MarkupEvent>)
    ensures
        events.deep_view() == markup_events(markup@),
{
    let mut events = Vec::new();
    for item in ParserConfig::new().create_reader(markup) {
        events.push(match item {
            Ok(XmlEvent::StartElement { name, attributes, .. }) => MarkupEvent::StartElement {
                name: name.local_name,
                attributes: attributes
                    .into_iter()
                    .map(|a| Attribute { name: a.name.local_name, value: a.value })
                    .collect(),
            },
            Ok(_) => MarkupEvent::Other,
            Err(_) => MarkupEvent::Malformed,
        });
    }
    events
}

} // verus!
