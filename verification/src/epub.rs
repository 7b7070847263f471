//! The extraction itself: one document at a time in the order of the spine,
//! then the table of contents, all or nothing.

use crate::error::ExtractError;
use crate::markup::{markup_events, read_markup_events, MarkupEvent, MarkupEventView};
use crate::model::{
    EpubData, EpubDataView, HtmlData, HtmlDataView, PossibleTocIdView, Resources, ResourcesView,
};
use crate::package::{DocumentCursor, ManifestEntryView, Package, PackageView, SpineEntryView};
use crate::resolver::{resolve_references, resolved_all};
use crate::scanner::{markup_scan, scan_references, ReferenceView};
use crate::table::StringMap;
use crate::text::{decode_text, text_of};
use crate::toc::{get_toc_data, possible_toc_ids, toc_candidates, toc_outline};
use vstd::prelude::*;

verus! {

/// No resources.
pub open spec fn no_resources() -> ResourcesView {
    ResourcesView { img: Map::empty(), css: Map::empty() }
}

/// What one document adds to an extraction, given the events of its markup:
/// the document itself, and the resources gathered so far together with
/// those that the document refers to.
///
/// The references are resolved in the order in which the markup holds them,
/// up to the place where the scan stops, and the first that cannot be
/// resolved is the outcome. Markup that is not valid UTF-8 fails as such,
/// whether or not the scan ran to its end; only markup that is text can fail
/// with what stopped its scan.
pub open spec fn document_extracted(
    path: Seq<char>,
    markup: Seq<u8>,
    events: Seq<MarkupEventView>,
    package: PackageView,
    resources: ResourcesView,
) -> Result<(HtmlDataView, ResourcesView), ExtractError> {
    let scan = markup_scan(events, package.uri_prefix);
    match resolved_all(scan.references, package.archive, resources) {
        Err(e) => Err(e),
        Ok(gathered) => match text_of(markup) {
            None => Err(ExtractError::InvalidEncoding),
            Some(text) => match scan.failure {
                Some(e) => Err(e),
                None => Ok((HtmlDataView { id: path, html_content: text }, gathered)),
            },
        },
    }
}

/// The references that the scan of a document finds.
pub open spec fn document_references(document: SpineEntryView, prefix: Seq<char>) -> Seq<
    ReferenceView,
> {
    markup_scan(markup_events(document.markup), prefix).references
}

/// What the documents of a spine make, one after another from empty hands:
/// the documents in the order of the spine, and the resources that they
/// refer to. The first failure is the outcome.
pub open spec fn documents_extracted(spine: Seq<SpineEntryView>, package: PackageView) -> Result<
    (Seq<HtmlDataView>, ResourcesView),
    ExtractError,
>
    decreases spine.len(),
{
    if spine.len() == 0 {
        Ok((Seq::empty(), no_resources()))
    } else {
        match documents_extracted(spine.drop_last(), package) {
            Err(e) => Err(e),
            Ok((documents, resources)) => match document_extracted(
                spine.last().path,
                spine.last().markup,
                markup_events(spine.last().markup),
                package,
                resources,
            ) {
                Err(e) => Err(e),
                Ok((document, gathered)) => Ok((documents.push(document), gathered)),
            },
        }
    }
}

/// The document model of a package, or the one failure that ends its
/// extraction: the documents with their resources, then the table of
/// contents.
pub open spec fn epub_extracted(package: PackageView) -> Result<EpubDataView, ExtractError> {
    match documents_extracted(package.spine, package) {
        Err(e) => Err(e),
        Ok((documents, resources)) => match toc_outline(package) {
            Err(e) => Err(e),
            Ok(toc) => Ok(
                EpubDataView { html: documents, img: resources.img, css: resources.css, toc },
            ),
        },
    }
}

/// The extraction of a spine fails as soon as the documents up to some
/// place fail.
pub proof fn lemma_documents_extracted_failed(
    spine: Seq<SpineEntryView>,
    package: PackageView,
    n: int,
)
    requires
        0 <= n <= spine.len(),
        documents_extracted(spine.take(n), package) is Err,
    ensures
        documents_extracted(spine, package) == documents_extracted(spine.take(n), package),
    decreases spine.len(),
{
    if n < spine.len() {
        assert(spine.drop_last().take(n) =~= spine.take(n));
        lemma_documents_extracted_failed(spine.drop_last(), package, n);
    } else {
        assert(spine.take(n) =~= spine);
    }
}

/// Extracts one document, given the events of its markup: resolves the
/// references that the events hold against the archive of the package, adds
/// them to the resources, and decodes the markup.
pub fn extract_document(
    path: &String,
    markup: &Vec<u8>,
    events: &Vec<MarkupEvent>,
    package: &Package,
    resources: Resources,
) -> (outcome: Result<(HtmlData, Resources), ExtractError>)
    ensures
        match outcome {
            Ok((document, gathered)) => document_extracted(
                path@,
                markup@,
                events.deep_view(),
                package@,
                resources@,
            ) == Ok::<(HtmlDataView, ResourcesView), ExtractError>((document@, gathered@)),
            Err(e) => document_extracted(
                path@,
                markup@,
                events.deep_view(),
                package@,
                resources@,
            ) == Err::<(HtmlDataView, ResourcesView), ExtractError>(e),
        },
{
    let scan = scan_references(events, package.uri_prefix.as_str());
    let gathered = match resolve_references(&scan.references, &package.archive, resources) {
        Ok(gathered) => gathered,
        Err(e) => {
            return Err(e);
        },
    };
    let text = match decode_text(markup.clone()) {
        Some(text) => text,
        None => {
            return Err(ExtractError::InvalidEncoding);
        },
    };
    match scan.failure {
        Some(e) => Err(e),
        None => Ok((HtmlData { id: path.clone(), html_content: text }, gathered)),
    }
}

/// Extracts the document model of a package.
///
/// The documents are walked in the order of the spine. Each one is scanned
/// for its references, the references are resolved against the archive, and
/// the markup is decoded. Then the table of contents is made. The first
/// failure ends the extraction, and nothing but the failure is handed back.
pub fn get_epub(package: &Package) -> (outcome: Result<EpubData, ExtractError>)
    ensures
        match outcome {
            Ok(data) => epub_extracted(package@) == Ok::<EpubDataView, ExtractError>(data@),
            Err(e) => epub_extracted(package@) == Err::<EpubDataView, ExtractError>(e),
        },
{
    let ghost spine = package@.spine;
    let mut documents: Vec<HtmlData> = Vec::new();
    let mut resources = Resources { img: StringMap::new(), css: StringMap::new() };
    assert(documents.deep_view() =~= Seq::empty());
    if let Some(start) = DocumentCursor::first(&package.spine) {
        let mut cursor = start;
        loop
            invariant_except_break
                cursor.spine() == spine,
                0 <= cursor.position() < spine.len(),
                documents_extracted(spine.take(cursor.position()), package@) == Ok::<
                    (Seq<HtmlDataView>, ResourcesView),
                    ExtractError,
                >((documents.deep_view(), resources@)),
            invariant
                spine == package@.spine,
            ensures
                documents_extracted(spine, package@) == Ok::<
                    (Seq<HtmlDataView>, ResourcesView),
                    ExtractError,
                >((documents.deep_view(), resources@)),
            decreases spine.len() - cursor.position(),
        {
            let ghost at = cursor.position();
            let ghost before = documents.deep_view();
            let path = cursor.current_document_path();
            let markup = cursor.current_document_rewritten_bytes();
            let events = read_markup_events(markup.as_slice());
            proof {
                assert(spine.take(at + 1).drop_last() =~= spine.take(at));
            }
            match extract_document(path, markup, &events, package, resources) {
                Ok((document, gathered)) => {
                    documents.push(document);
                    resources = gathered;
                    assert(documents.deep_view() =~= before.push(document@));
                },
                Err(e) => {
                    proof {
                        lemma_documents_extracted_failed(spine, package@, at + 1);
                    }
                    return Err(e);
                },
            }
            if !cursor.advance() {
                break;
            }
        }
    }
    match get_toc_data(package) {
        Ok(toc) => Ok(EpubData { html: documents, img: resources.img, css: resources.css, toc }),
        Err(e) => Err(e),
    }
}

/// The archive paths of references, in their order.
pub open spec fn reference_paths(references: Seq<ReferenceView>) -> Seq<Seq<char>> {
    Seq::new(references.len(), |r: int| references[r].archive_path)
}

/// The archive paths that the documents of a spine refer to, in the order of
/// the spine and, within a document, of its markup.
pub open spec fn spine_paths(spine: Seq<SpineEntryView>, prefix: Seq<char>) -> Seq<Seq<char>>
    decreases spine.len(),
{
    if spine.len() == 0 {
        Seq::empty()
    } else {
        spine_paths(spine.drop_last(), prefix) + reference_paths(
            document_references(spine.last(), prefix),
        )
    }
}

/// The archive paths that the manifest gives for the candidates that it
/// lists, in the order of the candidates.
pub open spec fn toc_paths(
    candidates: Seq<PossibleTocIdView>,
    manifest: Map<Seq<char>, ManifestEntryView>,
) -> Seq<Seq<char>>
    decreases candidates.len(),
{
    if candidates.len() == 0 {
        Seq::empty()
    } else if manifest.contains_key(candidates.last().id) {
        toc_paths(candidates.drop_last(), manifest).push(manifest[candidates.last().id].path)
    } else {
        toc_paths(candidates.drop_last(), manifest)
    }
}

/// Every archive path that the extraction of a package may ask the archive
/// for: those that its documents refer to, then those of its navigation
/// files. What the archive holds has no part in it.
pub open spec fn paths_read(package: PackageView) -> Seq<Seq<char>> {
    spine_paths(package.spine, package.uri_prefix) + toc_paths(toc_candidates(), package.manifest)
}

/// Lists the archive paths that the extraction of `package` may ask the
/// archive for, so that a reader can fetch those and no others before it
/// hands the package over.
pub fn wanted_paths(package: &Package) -> (paths: Vec<String>)
    ensures
        paths.deep_view() == paths_read(package@),
{
    let ghost spine = package@.spine;
    let ghost prefix = package@.uri_prefix;
    let mut paths: Vec<String> = Vec::new();
    let mut d: usize = 0;
    while d < package.spine.len()
        invariant
            d <= package.spine.len(),
            spine == package@.spine,
            prefix == package@.uri_prefix,
            paths.deep_view() == spine_paths(spine.take(d as int), prefix),
        decreases package.spine.len() - d,
    {
        let events = read_markup_events(package.spine[d].markup.as_slice());
        let scan = scan_references(&events, package.uri_prefix.as_str());
        let ghost before = paths.deep_view();
        let ghost found = reference_paths(scan@.references);
        proof {
            assert(spine.take(d + 1).drop_last() =~= spine.take(d as int));
        }
        let mut r: usize = 0;
        while r < scan.references.len()
            invariant
                r <= scan.references.len(),
                found == reference_paths(scan@.references),
                paths.deep_view() == before + found.take(r as int),
            decreases scan.references.len() - r,
        {
            let ghost so_far = paths.deep_view();
            let path = scan.references[r].archive_path.clone();
            paths.push(path);
            assert(paths.deep_view() =~= so_far.push(path@));
            r += 1;
        }
        d += 1;
    }
    assert(spine.take(d as int) =~= spine);
    let table = possible_toc_ids();
    let ghost documents = paths.deep_view();
    let ghost candidates = table.deep_view();
    let mut c: usize = 0;
    while c < table.len()
        invariant
            c <= table.len(),
            candidates == table.deep_view(),
            paths.deep_view() == documents + toc_paths(
                candidates.take(c as int),
                package@.manifest,
            ),
        decreases table.len() - c,
    {
        proof {
            assert(candidates.take(c + 1).drop_last() =~= candidates.take(c as int));
        }
        if let Some(entry) = package.manifest_entry(table[c].id) {
            let ghost so_far = paths.deep_view();
            let path = entry.path.clone();
            paths.push(path);
            assert(paths.deep_view() =~= so_far.push(path@));
        }
        c += 1;
    }
    assert(candidates.take(c as int) =~= candidates);
    paths
}

} // verus!
