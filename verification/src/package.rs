//! A package as plain values, and the cursor that walks its spine.

use crate::model::{TocEntry, TocEntryView};
use crate::table::StringMap;
use vstd::prelude::*;

verus! {

/// One document of the spine: its path in the archive, and its markup with
/// every internal reference already rewritten to start with the package's
/// URI prefix.
#[derive(Debug, PartialEq, Eq)]
pub struct SpineEntry {
    /// The path of the document in the archive.
    pub path: String,
    /// The rewritten markup of the document.
    pub markup: Vec<u8>,
}

/// The mathematical value of a [`SpineEntry`].
pub ghost struct SpineEntryView {
    pub path: Seq<char>,
    pub markup: Seq<u8>,
}

impl View for SpineEntry {
    type V = SpineEntryView;

    open spec fn view(&self) -> SpineEntryView {
        SpineEntryView { path: self.path@, markup: self.markup@ }
    }
}

impl DeepView for SpineEntry {
    type V = SpineEntryView;

    open spec fn deep_view(&self) -> SpineEntryView {
        self@
    }
}

/// What the manifest says of one id: where the resource stands in the
/// archive, and its media type.
#[derive(Debug, PartialEq, Eq)]
pub struct ManifestEntry {
    /// The path of the resource in the archive.
    pub path: String,
    /// The media type of the resource.
    pub media_type: String,
}

/// The mathematical value of a [`ManifestEntry`].
pub ghost struct ManifestEntryView {
    pub path: Seq<char>,
    pub media_type: Seq<char>,
}

impl View for ManifestEntry {
    type V = ManifestEntryView;

    open spec fn view(&self) -> ManifestEntryView {
        ManifestEntryView { path: self.path@, media_type: self.media_type@ }
    }
}

impl DeepView for ManifestEntry {
    type V = ManifestEntryView;

    open spec fn deep_view(&self) -> ManifestEntryView {
        self@
    }
}

/// A package as its reader hands it over: everything that an extraction
/// reads, held as plain values.
#[derive(Debug)]
pub struct Package {
    /// What the reader put in front of every internal reference.
    pub uri_prefix: String,
    /// The documents, in reading order.
    pub spine: Vec<SpineEntry>,
    /// The bytes of each resource, by its path in the archive.
    pub archive: StringMap<Vec<u8>>,
    /// The manifest, by id.
    pub manifest: StringMap<ManifestEntry>,
    /// The outline that the reader made of the navigation file, if it made
    /// one.
    pub outline: Option<Vec<TocEntry>>,
}

/// The mathematical value of a [`Package`].
pub ghost struct PackageView {
    pub uri_prefix: Seq<char>,
    pub spine: Seq<SpineEntryView>,
    pub archive: Map<Seq<char>, Seq<u8>>,
    pub manifest: Map<Seq<char>, ManifestEntryView>,
    pub outline: Option<Seq<TocEntryView>>,
}

impl View for Package {
    type V = PackageView;

    open spec fn view(&self) -> PackageView {
        PackageView {
            uri_prefix: self.uri_prefix@,
            spine: self.spine.deep_view(),
            archive: self.archive@,
            manifest: self.manifest@,
            outline: match self.outline {
                Some(entries) => Some(entries.deep_view()),
                None => None,
            },
        }
    }
}

impl Package {
    /// A package without documents, resources or outline, whose references
    /// start with `uri_prefix`.
    pub fn new(uri_prefix: String) -> (package: Package)
        ensures
            package@ == (PackageView {
                uri_prefix: uri_prefix@,
                spine: Seq::empty(),
                archive: Map::empty(),
                manifest: Map::empty(),
                outline: None,
            }),
    {
        let package = Package {
            uri_prefix,
            spine: Vec::new(),
            archive: StringMap::new(),
            manifest: StringMap::new(),
            outline: None,
        };
        assert(package.spine.deep_view() =~= Seq::empty());
        package
    }

    /// The bytes of the resource at `path`, if the archive holds one there.
    pub fn fetch_resource(&self, path: &str) -> (bytes: Option<&Vec<u8>>)
        ensures
            match bytes {
                Some(b) => self@.archive.contains_key(path@) && self@.archive[path@] == b@,
                None => !self@.archive.contains_key(path@),
            },
    {
        self.archive.get(path)
    }

    /// What the manifest says of `id`, if it has that id.
    pub fn manifest_entry(&self, id: &str) -> (entry: Option<&ManifestEntry>)
        ensures
            match entry {
                Some(e) => self@.manifest.contains_key(id@) && self@.manifest[id@] == e@,
                None => !self@.manifest.contains_key(id@),
            },
    {
        self.manifest.get(id)
    }
}

/// A position in the spine of a package. It always stands on a document:
/// `advance` moves it to the next one, and leaves it where it is once it
/// stands on the last. There is no way back: a second walk takes a new
/// cursor. Whoever moves the cursor holds it alone.
#[derive(Debug)]
pub struct DocumentCursor<'a> {
    spine: &'a Vec<SpineEntry>,
    position: usize,
}

impl<'a> DocumentCursor<'a> {
    #[verifier::type_invariant]
    spec fn stands_on_a_document(self) -> bool {
        self.position < self.spine@.len()
    }

    /// The spine that the cursor walks.
    pub closed spec fn spine(self) -> Seq<SpineEntryView> {
        self.spine.deep_view()
    }

    /// The index of the document that the cursor stands on.
    pub closed spec fn position(self) -> int {
        self.position as int
    }

    /// A cursor on the first document of `spine`; none where the spine is
    /// empty.
    pub fn first(spine: &'a Vec<SpineEntry>) -> (cursor: Option<DocumentCursor<'a>>)
        ensures
            match cursor {
                Some(c) => spine@.len() > 0 && c.spine() == spine.deep_view() && c.position() == 0,
                None => spine@.len() == 0,
            },
    {
        if spine.len() == 0 {
            None
        } else {
            Some(DocumentCursor { spine, position: 0 })
        }
    }

    /// The path of the document that the cursor stands on.
    pub fn current_document_path(&self) -> (path: &'a String)
        ensures
            0 <= self.position() < self.spine().len(),
            path@ == self.spine()[self.position()].path,
    {
        proof {
            use_type_invariant(self);
        }
        &self.spine[self.position].path
    }

    /// The rewritten markup of the document that the cursor stands on.
    pub fn current_document_rewritten_bytes(&self) -> (markup: &'a Vec<u8>)
        ensures
            0 <= self.position() < self.spine().len(),
            markup@ == self.spine()[self.position()].markup,
    {
        proof {
            use_type_invariant(self);
        }
        &self.spine[self.position].markup
    }

    /// Moves to the next document and says `true`; on the last document the
    /// cursor stays and says `false`.
    pub fn advance(&mut self) -> (moved: bool)
        ensures
            final(self).spine() == old(self).spine(),
            moved == (old(self).position() + 1 < old(self).spine().len()),
            final(self).position() == if moved {
                old(self).position() + 1
            } else {
                old(self).position()
            },
    {
        proof {
            use_type_invariant(&*self);
        }
        let last = self.spine.len() - 1;
        if self.position < last {
            self.position = self.position + 1;
            true
        } else {
            false
        }
    }
}

} // verus!
