//! The document model that an extraction makes, and the mathematical value
//! of each of its parts.

use crate::table::StringMap;
use vstd::prelude::*;

verus! {

/// One content document, as it stands in the reading order.
#[derive(Debug, PartialEq, Eq)]
pub struct HtmlData {
    /// The path of the document in the archive.
    pub id: String,
    /// The markup of the document, with its internal references rewritten.
    pub html_content: String,
}

/// The mathematical value of an [`HtmlData`].
pub ghost struct HtmlDataView {
    pub id: Seq<char>,
    pub html_content: Seq<char>,
}

impl View for HtmlData {
    type V = HtmlDataView;

    open spec fn view(&self) -> HtmlDataView {
        HtmlDataView { id: self.id@, html_content: self.html_content@ }
    }
}

impl DeepView for HtmlData {
    type V = HtmlDataView;

    open spec fn deep_view(&self) -> HtmlDataView {
        self@
    }
}

/// An embedded image: its bytes as they stand in the archive, and its size
/// in pixels.
#[derive(Debug, PartialEq, Eq)]
pub struct ImageData {
    /// The bytes of the image file.
    pub data: Vec<u8>,
    /// The width in pixels.
    pub width: u32,
    /// The height in pixels.
    pub height: u32,
}

/// The mathematical value of an [`ImageData`].
pub ghost struct ImageDataView {
    pub data: Seq<u8>,
    pub width: u32,
    pub height: u32,
}

impl View for ImageData {
    type V = ImageDataView;

    open spec fn view(&self) -> ImageDataView {
        ImageDataView { data: self.data@, width: self.width, height: self.height }
    }
}

impl DeepView for ImageData {
    type V = ImageDataView;

    open spec fn deep_view(&self) -> ImageDataView {
        self@
    }
}

/// The two formats in which a package may hold its navigation file.
#[derive(Debug, Clone, Copy, PartialEq, Eq, Structural)]
pub enum TocKind {
    /// The older format, a navigation control file.
    Ncx,
    /// The newer format, a navigation document in markup.
    Nav,
}

/// A navigation file as it stands in the archive.
#[derive(Debug, PartialEq, Eq)]
pub struct Toc {
    /// The format of the file.
    pub kind: TocKind,
    /// The text of the file.
    pub content: String,
    /// The path of the file in the archive.
    pub path: String,
}

/// The mathematical value of a [`Toc`].
pub ghost struct TocView {
    pub kind: TocKind,
    pub content: Seq<char>,
    pub path: Seq<char>,
}

impl View for Toc {
    type V = TocView;

    open spec fn view(&self) -> TocView {
        TocView { kind: self.kind, content: self.content@, path: self.path@ }
    }
}

impl DeepView for Toc {
    type V = TocView;

    open spec fn deep_view(&self) -> TocView {
        self@
    }
}

/// A manifest id under which a navigation file may stand, and the format
/// that a file under that id has.
#[derive(Debug, Clone, Copy, PartialEq, Eq)]
pub struct PossibleTocId<'a> {
    /// The format of a file under this id.
    pub kind: TocKind,
    /// The manifest id.
    pub id: &'a str,
}

/// The mathematical value of a [`PossibleTocId`].
pub ghost struct PossibleTocIdView {
    pub kind: TocKind,
    pub id: Seq<char>,
}

impl<'a> View for PossibleTocId<'a> {
    type V = PossibleTocIdView;

    open spec fn view(&self) -> PossibleTocIdView {
        PossibleTocIdView { kind: self.kind, id: self.id@ }
    }
}

impl<'a> DeepView for PossibleTocId<'a> {
    type V = PossibleTocIdView;

    open spec fn deep_view(&self) -> PossibleTocIdView {
        self@
    }
}

/// One line of an outline: what the reader sees, and where it leads.
#[derive(Debug, PartialEq, Eq)]
pub struct TocEntry {
    /// What the reader sees.
    pub label: String,
    /// The path that the entry leads to.
    pub target: String,
}

/// The mathematical value of a [`TocEntry`].
pub ghost struct TocEntryView {
    pub label: Seq<char>,
    pub target: Seq<char>,
}

impl View for TocEntry {
    type V = TocEntryView;

    open spec fn view(&self) -> TocEntryView {
        TocEntryView { label: self.label@, target: self.target@ }
    }
}

impl DeepView for TocEntry {
    type V = TocEntryView;

    open spec fn deep_view(&self) -> TocEntryView {
        self@
    }
}

/// The table of contents of a package, in the one form that a consumer has
/// to match on.
#[derive(Debug, PartialEq, Eq)]
pub enum TocOutline {
    /// The outline as an ordered list of entries.
    Decomposed { entries: Vec<TocEntry> },
    /// The navigation file as it stands in the archive.
    Raw(Toc),
    /// The package has no table of contents.
    Absent,
}

/// The mathematical value of a [`TocOutline`].
pub ghost enum TocOutlineView {
    Decomposed { entries: Seq<TocEntryView> },
    Raw(TocView),
    Absent,
}

impl View for TocOutline {
    type V = TocOutlineView;

    open spec fn view(&self) -> TocOutlineView {
        match self {
            TocOutline::Decomposed { entries } => TocOutlineView::Decomposed {
                entries: entries.deep_view(),
            },
            TocOutline::Raw(toc) => TocOutlineView::Raw(toc@),
            TocOutline::Absent => TocOutlineView::Absent,
        }
    }
}

/// The images and stylesheets that the documents of a package refer to,
/// each under the reference string as it stands in the markup.
#[derive(Debug)]
pub struct Resources {
    /// The images.
    pub img: StringMap<ImageData>,
    /// The text of the stylesheets.
    pub css: StringMap<String>,
}

/// The mathematical value of a [`Resources`].
pub ghost struct ResourcesView {
    pub img: Map<Seq<char>, ImageDataView>,
    pub css: Map<Seq<char>, Seq<char>>,
}

impl View for Resources {
    type V = ResourcesView;

    open spec fn view(&self) -> ResourcesView {
        ResourcesView { img: self.img@, css: self.css@ }
    }
}

/// The document model of a package: its documents in reading order, the
/// images and stylesheets that they refer to, and its table of contents.
#[derive(Debug)]
pub struct EpubData {
    /// The documents, in reading order.
    pub html: Vec<HtmlData>,
    /// The images, each under its reference string.
    pub img: StringMap<ImageData>,
    /// The text of the stylesheets, each under its reference string.
    pub css: StringMap<String>,
    /// The table of contents.
    pub toc: TocOutline,
}

/// The mathematical value of an [`EpubData`].
pub ghost struct EpubDataView {
    pub html: Seq<HtmlDataView>,
    pub img: Map<Seq<char>, ImageDataView>,
    pub css: Map<Seq<char>, Seq<char>>,
    pub toc: TocOutlineView,
}

impl View for EpubData {
    type V = EpubDataView;

    open spec fn view(&self) -> EpubDataView {
        EpubDataView {
            html: self.html.deep_view(),
            img: self.img@,
            css: self.css@,
            toc: self.toc@,
        }
    }
}

} // verus!
