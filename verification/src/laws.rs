//! What holds of every extraction, proved from the definitions of the other
//! modules.

use crate::epub::{
    document_references, documents_extracted, epub_extracted, lemma_documents_extracted_failed,
    paths_read, spine_paths, toc_paths,
};
use crate::error::ExtractError;
use crate::markup::{markup_events, AttributeView, MarkupEventView};
use crate::model::{
    EpubDataView, HtmlDataView, ImageDataView, PossibleTocIdView, ResourcesView, TocOutlineView,
    TocView,
};
use crate::package::{ManifestEntryView, PackageView, SpineEntryView};
use crate::resolver::{image_dimensions, image_of, lemma_resolved_all_failed, resolved_all};
use crate::scanner::{
    event_scan, last_value, link_scan, markup_scan, no_references, reference_scan,
    stylesheet_href, ReferenceKind, ReferenceView,
};
use crate::text::{text_of, without_prefix};
use crate::toc::{is_available, probed, raw_toc, toc_candidates, toc_outline};
use vstd::prelude::*;
use vstd::utf8::{decode_utf8_encode_utf8, encode_utf8};

verus! {

/// The reference string is the archive path behind the prefix.
pub open spec fn names_its_path(reference: ReferenceView, prefix: Seq<char>) -> bool {
    without_prefix(reference.reference, prefix) == Some(reference.archive_path)
}

/// Every reference that a scan finds is made of the prefix and its own
/// archive path.
pub proof fn lemma_scan_names_paths(events: Seq<MarkupEventView>, prefix: Seq<char>)
    ensures
        forall|r: int|
            0 <= r < markup_scan(events, prefix).references.len() ==> names_its_path(
                #[trigger] markup_scan(events, prefix).references[r],
                prefix,
            ),
    decreases events.len(),
{
    if events.len() > 0 {
        lemma_scan_names_paths(events.drop_last(), prefix);
    }
}

/// The image under `key` is the archive resource that `key` names, with the
/// size that the decoder found.
pub open spec fn image_is_faithful(
    key: Seq<char>,
    image: ImageDataView,
    archive: Map<Seq<char>, Seq<u8>>,
    prefix: Seq<char>,
) -> bool {
    match without_prefix(key, prefix) {
        Some(path) => archive.contains_key(path) && image_of(
            archive[path],
            image_dimensions(archive[path]),
        ) == Ok::<ImageDataView, ExtractError>(image),
        None => false,
    }
}

/// The text under `key` is the text of the archive resource that `key`
/// names.
pub open spec fn stylesheet_is_faithful(
    key: Seq<char>,
    text: Seq<char>,
    archive: Map<Seq<char>, Seq<u8>>,
    prefix: Seq<char>,
) -> bool {
    match without_prefix(key, prefix) {
        Some(path) => archive.contains_key(path) && text_of(archive[path]) == Some(text),
        None => false,
    }
}

/// Every key of the resources is a reference string, and what stands under
/// it is the archive resource that it names.
pub open spec fn faithful(
    resources: ResourcesView,
    archive: Map<Seq<char>, Seq<u8>>,
    prefix: Seq<char>,
) -> bool {
    &&& forall|key: Seq<char>| #[trigger]
        resources.img.contains_key(key) ==> image_is_faithful(
            key,
            resources.img[key],
            archive,
            prefix,
        )
    &&& forall|key: Seq<char>| #[trigger]
        resources.css.contains_key(key) ==> stylesheet_is_faithful(
            key,
            resources.css[key],
            archive,
            prefix,
        )
}

/// Nothing that `before` holds is missing from `after`.
pub open spec fn keeps_keys(before: ResourcesView, after: ResourcesView) -> bool {
    &&& forall|key: Seq<char>| #[trigger]
        before.img.contains_key(key) ==> after.img.contains_key(key)
    &&& forall|key: Seq<char>| #[trigger]
        before.css.contains_key(key) ==> after.css.contains_key(key)
}

/// The reference has its entry: an image always, a stylesheet where the
/// archive holds it.
pub open spec fn has_its_entry(
    reference: ReferenceView,
    archive: Map<Seq<char>, Seq<u8>>,
    resources: ResourcesView,
) -> bool {
    match reference.kind {
        ReferenceKind::Image => resources.img.contains_key(reference.reference),
        ReferenceKind::Stylesheet => archive.contains_key(reference.archive_path)
            ==> resources.css.contains_key(reference.reference),
    }
}

/// Resolving references that name their paths keeps the resources faithful,
/// loses no key, and gives each reference its entry.
proof fn lemma_resolved_all_keeps_faith(
    references: Seq<ReferenceView>,
    archive: Map<Seq<char>, Seq<u8>>,
    prefix: Seq<char>,
    before: ResourcesView,
)
    requires
        forall|r: int|
            0 <= r < references.len() ==> names_its_path(#[trigger] references[r], prefix),
        faithful(before, archive, prefix),
        resolved_all(references, archive, before) is Ok,
    ensures
        faithful(resolved_all(references, archive, before)->Ok_0, archive, prefix),
        keeps_keys(before, resolved_all(references, archive, before)->Ok_0),
        forall|r: int|
            0 <= r < references.len() ==> has_its_entry(
                #[trigger] references[r],
                archive,
                resolved_all(references, archive, before)->Ok_0,
            ),
    decreases references.len(),
{
    if references.len() > 0 {
        let front = references.drop_last();
        lemma_resolved_all_keeps_faith(front, archive, prefix, before);
        let middle = resolved_all(front, archive, before)->Ok_0;
        let after = resolved_all(references, archive, before)->Ok_0;
        assert forall|r: int| 0 <= r < references.len() implies has_its_entry(
            #[trigger] references[r],
            archive,
            after,
        ) by {
            if r < front.len() {
                assert(has_its_entry(front[r], archive, middle));
            }
        }
    }
}

/// What holds of the documents and resources that a spine makes; the laws
/// on a whole model are read off this.
proof fn lemma_documents_extracted(spine: Seq<SpineEntryView>, package: PackageView)
    requires
        documents_extracted(spine, package) is Ok,
    ensures
        ({
            let (documents, resources) = documents_extracted(spine, package)->Ok_0;
            &&& documents.len() == spine.len()
            &&& forall|d: int|
                0 <= d < spine.len() ==> (#[trigger] documents[d]).id == spine[d].path && text_of(
                    spine[d].markup,
                ) == Some(documents[d].html_content)
            &&& faithful(resources, package.archive, package.uri_prefix)
            &&& forall|d: int, r: int|
                0 <= d < spine.len() && 0 <= r < document_references(
                    spine[d],
                    package.uri_prefix,
                ).len() ==> has_its_entry(
                    #[trigger] document_references(spine[d], package.uri_prefix)[r],
                    package.archive,
                    resources,
                )
        }),
    decreases spine.len(),
{
    if spine.len() > 0 {
        let prefix = package.uri_prefix;
        let front = spine.drop_last();
        lemma_documents_extracted(front, package);
        let middle = documents_extracted(front, package)->Ok_0.1;
        let resources = documents_extracted(spine, package)->Ok_0.1;
        lemma_scan_names_paths(markup_events(spine.last().markup), prefix);
        lemma_resolved_all_keeps_faith(
            document_references(spine.last(), prefix),
            package.archive,
            prefix,
            middle,
        );
        assert forall|d: int, r: int|
            0 <= d < spine.len() && 0 <= r < document_references(
                spine[d],
                prefix,
            ).len() implies has_its_entry(
            #[trigger] document_references(spine[d], prefix)[r],
            package.archive,
            resources,
        ) by {
            if d < front.len() {
                assert(has_its_entry(
                    document_references(front[d], prefix)[r],
                    package.archive,
                    middle,
                ));
            }
        }
    }
}

/// The documents of the model are the documents of the spine: as many, in
/// the same order, each under its path and with the text of its markup.
pub proof fn lemma_documents_follow_the_spine(package: PackageView, data: EpubDataView)
    requires
        epub_extracted(package) == Ok::<EpubDataView, ExtractError>(data),
    ensures
        data.html.len() == package.spine.len(),
        forall|d: int|
            0 <= d < package.spine.len() ==> (#[trigger] data.html[d]).id == package.spine[d].path
                && text_of(package.spine[d].markup) == Some(data.html[d].html_content),
{
    lemma_documents_extracted(package.spine, package);
}

/// Every key of the model's images and stylesheets is a reference string
/// made of the prefix and an archive path, and what stands under it is the
/// archive resource at that path: the image with those very bytes and the
/// size that the decoder found, the stylesheet with the text that those
/// bytes encode.
pub proof fn lemma_resources_are_faithful(package: PackageView, data: EpubDataView)
    requires
        epub_extracted(package) == Ok::<EpubDataView, ExtractError>(data),
    ensures
        faithful(
            ResourcesView { img: data.img, css: data.css },
            package.archive,
            package.uri_prefix,
        ),
{
    lemma_documents_extracted(package.spine, package);
}

/// A reference that the markup of a document holds is a key of the model,
/// and the payload under it is, byte for byte, the archive resource that
/// the reference names. An image is always there; a stylesheet is there
/// where the archive holds it.
pub proof fn lemma_round_trip(
    package: PackageView,
    data: EpubDataView,
    document: int,
    reference: int,
)
    requires
        epub_extracted(package) == Ok::<EpubDataView, ExtractError>(data),
        0 <= document < package.spine.len(),
        0 <= reference < document_references(package.spine[document], package.uri_prefix).len(),
    ensures
        ({
            let found = document_references(
                package.spine[document],
                package.uri_prefix,
            )[reference];
            match found.kind {
                ReferenceKind::Image => {
                    &&& package.archive.contains_key(found.archive_path)
                    &&& data.img.contains_key(found.reference)
                    &&& data.img[found.reference].data == package.archive[found.archive_path]
                },
                ReferenceKind::Stylesheet => package.archive.contains_key(found.archive_path) ==> {
                    &&& data.css.contains_key(found.reference)
                    &&& encode_utf8(data.css[found.reference])
                        == package.archive[found.archive_path]
                },
            }
        }),
{
    let found = document_references(package.spine[document], package.uri_prefix)[reference];
    lemma_documents_extracted(package.spine, package);
    lemma_scan_names_paths(markup_events(package.spine[document].markup), package.uri_prefix);
    if found.kind == ReferenceKind::Stylesheet && package.archive.contains_key(found.archive_path) {
        decode_utf8_encode_utf8(package.archive[found.archive_path]);
    }
}

/// A package with a document that refers to an image which the archive
/// lacks has no model: its extraction fails.
pub proof fn lemma_missing_image_fails(package: PackageView, document: int, reference: int)
    requires
        0 <= document < package.spine.len(),
        0 <= reference < document_references(package.spine[document], package.uri_prefix).len(),
        document_references(package.spine[document], package.uri_prefix)[reference].kind
            == ReferenceKind::Image,
        !package.archive.contains_key(
            document_references(
                package.spine[document],
                package.uri_prefix,
            )[reference].archive_path,
        ),
    ensures
        epub_extracted(package) is Err,
{
    if epub_extracted(package) is Ok {
        lemma_round_trip(package, epub_extracted(package)->Ok_0, document, reference);
    }
}

/// Where the documents before one are extracted, and the references of that
/// one are resolved up to an image which the archive lacks, the extraction
/// of the package fails with `ResourceNotFound`.
pub proof fn lemma_missing_image_is_resource_not_found(
    package: PackageView,
    document: int,
    reference: int,
)
    requires
        0 <= document < package.spine.len(),
        0 <= reference < document_references(package.spine[document], package.uri_prefix).len(),
        document_references(package.spine[document], package.uri_prefix)[reference].kind
            == ReferenceKind::Image,
        !package.archive.contains_key(
            document_references(
                package.spine[document],
                package.uri_prefix,
            )[reference].archive_path,
        ),
        documents_extracted(package.spine.take(document), package) is Ok,
        resolved_all(
            document_references(package.spine[document], package.uri_prefix).take(reference),
            package.archive,
            documents_extracted(package.spine.take(document), package)->Ok_0.1,
        ) is Ok,
    ensures
        epub_extracted(package) == Err::<EpubDataView, ExtractError>(
            ExtractError::ResourceNotFound,
        ),
{
    let spine = package.spine;
    let references = document_references(spine[document], package.uri_prefix);
    let gathered = documents_extracted(spine.take(document), package)->Ok_0.1;
    assert(references.take(reference + 1).drop_last() =~= references.take(reference));
    lemma_resolved_all_failed(references, package.archive, gathered, reference + 1);
    assert(spine.take(document + 1).drop_last() =~= spine.take(document));
    lemma_documents_extracted_failed(spine, package, document + 1);
}

/// Probing finds the file under the first candidate that the package holds,
/// whatever stands behind it in the table.
pub proof fn lemma_first_available_wins(
    candidates: Seq<PossibleTocIdView>,
    package: PackageView,
    first: int,
)
    requires
        0 <= first < candidates.len(),
        is_available(package, candidates[first].id),
        forall|earlier: int|
            0 <= earlier < first ==> !is_available(package, (#[trigger] candidates[earlier]).id),
    ensures
        probed(candidates, package) == raw_toc(package, candidates[first]),
    decreases first,
{
    if first > 0 {
        lemma_first_available_wins(candidates.drop_first(), package, first - 1);
    }
}

/// Probing finds nothing exactly when the package holds none of the
/// candidates.
pub proof fn lemma_unavailable_means_none_is_held(
    candidates: Seq<PossibleTocIdView>,
    package: PackageView,
)
    ensures
        probed(candidates, package) == Err::<TocView, ExtractError>(ExtractError::TocUnavailable)
            <==> forall|i: int|
            0 <= i < candidates.len() ==> !is_available(package, (#[trigger] candidates[i]).id),
    decreases candidates.len(),
{
    if candidates.len() > 0 {
        let rest = candidates.drop_first();
        lemma_unavailable_means_none_is_held(rest, package);
        if !is_available(package, candidates[0].id) && forall|i: int|
            0 <= i < rest.len() ==> !is_available(package, (#[trigger] rest[i]).id) {
            assert forall|i: int| 0 <= i < candidates.len() implies !is_available(
                package,
                (#[trigger] candidates[i]).id,
            ) by {
                if i > 0 {
                    assert(rest[i - 1] == candidates[i]);
                }
            }
        }
    }
}

/// An outline that the reader made, if it has entries, is the table of
/// contents of the model: the same entries in the same order, whatever
/// navigation files the package holds.
pub proof fn lemma_an_outline_is_taken_as_it_is(package: PackageView, data: EpubDataView)
    requires
        package.outline is Some,
        package.outline->0.len() > 0,
        epub_extracted(package) == Ok::<EpubDataView, ExtractError>(data),
    ensures
        data.toc == (TocOutlineView::Decomposed { entries: package.outline->0 }),
{
}

/// A scan stops for one of two reasons: a reference lacks the prefix, or the
/// markup is malformed.
pub proof fn lemma_scan_failures(events: Seq<MarkupEventView>, prefix: Seq<char>)
    ensures
        markup_scan(events, prefix).failure is Some ==> {
            ||| markup_scan(events, prefix).failure == Some(ExtractError::ReferenceResolutionError)
            ||| markup_scan(events, prefix).failure == Some(ExtractError::OpenError)
        },
    decreases events.len(),
{
    if events.len() > 0 {
        lemma_scan_failures(events.drop_last(), prefix);
    }
}

/// Resolving fails for one of three reasons: an image is missing, an image
/// cannot be decoded, or a stylesheet is not valid UTF-8.
pub proof fn lemma_resolve_failures(
    references: Seq<ReferenceView>,
    archive: Map<Seq<char>, Seq<u8>>,
    resources: ResourcesView,
)
    ensures
        resolved_all(references, archive, resources) matches Err(e) ==> {
            ||| e == ExtractError::ResourceNotFound
            ||| e == ExtractError::UnsupportedImageFormat
            ||| e == ExtractError::InvalidEncoding
        },
    decreases references.len(),
{
    if references.len() > 0 {
        lemma_resolve_failures(references.drop_last(), archive, resources);
    }
}

proof fn lemma_documents_never_lack_a_toc(spine: Seq<SpineEntryView>, package: PackageView)
    ensures
        documents_extracted(spine, package) != Err::<
            (Seq<HtmlDataView>, ResourcesView),
            ExtractError,
        >(ExtractError::TocUnavailable),
    decreases spine.len(),
{
    if spine.len() > 0 {
        lemma_documents_never_lack_a_toc(spine.drop_last(), package);
        if documents_extracted(spine.drop_last(), package) is Ok {
            lemma_scan_failures(markup_events(spine.last().markup), package.uri_prefix);
            lemma_resolve_failures(
                document_references(spine.last(), package.uri_prefix),
                package.archive,
                documents_extracted(spine.drop_last(), package)->Ok_0.1,
            );
        }
    }
}

proof fn lemma_probe_failures(candidates: Seq<PossibleTocIdView>, package: PackageView)
    ensures
        probed(candidates, package) matches Err(e) ==> {
            ||| e == ExtractError::TocUnavailable
            ||| e == ExtractError::InvalidEncoding
        },
    decreases candidates.len(),
{
    if candidates.len() > 0 {
        lemma_probe_failures(candidates.drop_first(), package);
    }
}

/// That a package has no table of contents never fails its extraction: the
/// model then says that the outline is absent.
pub proof fn lemma_a_missing_toc_is_no_failure(package: PackageView)
    ensures
        epub_extracted(package) != Err::<EpubDataView, ExtractError>(ExtractError::TocUnavailable),
        probed(toc_candidates(), package) == Err::<TocView, ExtractError>(
            ExtractError::TocUnavailable,
        ) && !(package.outline is Some && package.outline->0.len() > 0) ==> toc_outline(package)
            == Ok::<TocOutlineView, ExtractError>(TocOutlineView::Absent),
{
    lemma_documents_never_lack_a_toc(package.spine, package);
    lemma_probe_failures(toc_candidates(), package);
}

/// Two archives hold the same at `path`: both nothing, or both the same
/// bytes.
pub open spec fn agree_at(
    one: Map<Seq<char>, Seq<u8>>,
    other: Map<Seq<char>, Seq<u8>>,
    path: Seq<char>,
) -> bool {
    one.contains_key(path) == other.contains_key(path) && (one.contains_key(path) ==> one[path]
        == other[path])
}

/// Two archives hold the same at each of `paths`.
pub open spec fn agree_on(
    one: Map<Seq<char>, Seq<u8>>,
    other: Map<Seq<char>, Seq<u8>>,
    paths: Seq<Seq<char>>,
) -> bool {
    forall|i: int| 0 <= i < paths.len() ==> agree_at(one, other, #[trigger] paths[i])
}

proof fn lemma_resolved_all_reads_its_paths(
    references: Seq<ReferenceView>,
    one: Map<Seq<char>, Seq<u8>>,
    other: Map<Seq<char>, Seq<u8>>,
    resources: ResourcesView,
)
    requires
        forall|r: int|
            0 <= r < references.len() ==> agree_at(
                one,
                other,
                (#[trigger] references[r]).archive_path,
            ),
    ensures
        resolved_all(references, one, resources) == resolved_all(references, other, resources),
    decreases references.len(),
{
    if references.len() > 0 {
        lemma_resolved_all_reads_its_paths(references.drop_last(), one, other, resources);
    }
}

proof fn lemma_spine_paths_hold_every_reference(
    spine: Seq<SpineEntryView>,
    prefix: Seq<char>,
    d: int,
    r: int,
)
    requires
        0 <= d < spine.len(),
        0 <= r < document_references(spine[d], prefix).len(),
    ensures
        spine_paths(spine, prefix).contains(document_references(spine[d], prefix)[r].archive_path),
    decreases spine.len(),
{
    let front = spine_paths(spine.drop_last(), prefix);
    let all = spine_paths(spine, prefix);
    if d < spine.len() - 1 {
        lemma_spine_paths_hold_every_reference(spine.drop_last(), prefix, d, r);
        let path = document_references(spine[d], prefix)[r].archive_path;
        let i = choose|i: int| 0 <= i < front.len() && front[i] == path;
        assert(all[i] == path);
    } else {
        assert(all[front.len() + r] == document_references(spine[d], prefix)[r].archive_path);
    }
}

proof fn lemma_documents_read_their_paths(
    spine: Seq<SpineEntryView>,
    package: PackageView,
    archive: Map<Seq<char>, Seq<u8>>,
)
    requires
        forall|d: int, r: int|
            0 <= d < spine.len() && 0 <= r < document_references(
                spine[d],
                package.uri_prefix,
            ).len() ==> agree_at(
                package.archive,
                archive,
                (#[trigger] document_references(spine[d], package.uri_prefix)[r]).archive_path,
            ),
    ensures
        documents_extracted(spine, PackageView { archive, ..package }) == documents_extracted(
            spine,
            package,
        ),
    decreases spine.len(),
{
    if spine.len() > 0 {
        let front = spine.drop_last();
        let last = spine.len() - 1;
        let prefix = package.uri_prefix;
        assert forall|d: int, r: int|
            0 <= d < front.len() && 0 <= r < document_references(
                front[d],
                prefix,
            ).len() implies agree_at(
            package.archive,
            archive,
            (#[trigger] document_references(front[d], prefix)[r]).archive_path,
        ) by {
            assert(front[d] == spine[d]);
        }
        lemma_documents_read_their_paths(front, package, archive);
        assert forall|r: int|
            0 <= r < document_references(spine.last(), prefix).len() implies agree_at(
            package.archive,
            archive,
            (#[trigger] document_references(spine.last(), prefix)[r]).archive_path,
        ) by {
            assert(spine[last] == spine.last());
        }
        if documents_extracted(front, package) is Ok {
            lemma_resolved_all_reads_its_paths(
                document_references(spine.last(), prefix),
                package.archive,
                archive,
                documents_extracted(front, package)->Ok_0.1,
            );
        }
    }
}

proof fn lemma_toc_paths_hold_every_candidate(
    candidates: Seq<PossibleTocIdView>,
    manifest: Map<Seq<char>, ManifestEntryView>,
    c: int,
)
    requires
        0 <= c < candidates.len(),
        manifest.contains_key(candidates[c].id),
    ensures
        toc_paths(candidates, manifest).contains(manifest[candidates[c].id].path),
    decreases candidates.len(),
{
    let front = toc_paths(candidates.drop_last(), manifest);
    let all = toc_paths(candidates, manifest);
    let path = manifest[candidates[c].id].path;
    if c < candidates.len() - 1 {
        lemma_toc_paths_hold_every_candidate(candidates.drop_last(), manifest, c);
        let i = choose|i: int| 0 <= i < front.len() && front[i] == path;
        assert(all[i] == path);
    } else {
        assert(all[all.len() - 1] == path);
    }
}

proof fn lemma_probing_reads_its_paths(
    candidates: Seq<PossibleTocIdView>,
    package: PackageView,
    archive: Map<Seq<char>, Seq<u8>>,
)
    requires
        forall|c: int|
            0 <= c < candidates.len() && package.manifest.contains_key(
                (#[trigger] candidates[c]).id,
            ) ==> agree_at(package.archive, archive, package.manifest[candidates[c].id].path),
    ensures
        probed(candidates, PackageView { archive, ..package }) == probed(candidates, package),
    decreases candidates.len(),
{
    if candidates.len() > 0 {
        let rest = candidates.drop_first();
        assert forall|c: int|
            0 <= c < rest.len() && package.manifest.contains_key(
                (#[trigger] rest[c]).id,
            ) implies agree_at(package.archive, archive, package.manifest[rest[c].id].path) by {
            assert(rest[c] == candidates[c + 1]);
        }
        lemma_probing_reads_its_paths(rest, package, archive);
    }
}

/// An extraction reads the archive at the paths of [`paths_read`] and
/// nowhere else: put another archive in its place that holds the same at
/// those paths, and the outcome is the same.
pub proof fn lemma_only_wanted_paths_are_read(
    package: PackageView,
    archive: Map<Seq<char>, Seq<u8>>,
)
    requires
        agree_on(package.archive, archive, paths_read(package)),
    ensures
        epub_extracted(PackageView { archive, ..package }) == epub_extracted(package),
{
    let prefix = package.uri_prefix;
    let spine = package.spine;
    let documents = spine_paths(spine, prefix);
    let navigation = toc_paths(toc_candidates(), package.manifest);
    let wanted = paths_read(package);
    assert forall|d: int, r: int|
        0 <= d < spine.len() && 0 <= r < document_references(
            spine[d],
            prefix,
        ).len() implies agree_at(
        package.archive,
        archive,
        (#[trigger] document_references(spine[d], prefix)[r]).archive_path,
    ) by {
        lemma_spine_paths_hold_every_reference(spine, prefix, d, r);
        let path = document_references(spine[d], prefix)[r].archive_path;
        let i = choose|i: int| 0 <= i < documents.len() && documents[i] == path;
        assert(wanted[i] == path);
    }
    lemma_documents_read_their_paths(spine, package, archive);
    assert forall|c: int|
        0 <= c < toc_candidates().len() && package.manifest.contains_key(
            (#[trigger] toc_candidates()[c]).id,
        ) implies agree_at(
        package.archive,
        archive,
        package.manifest[toc_candidates()[c].id].path,
    ) by {
        lemma_toc_paths_hold_every_candidate(toc_candidates(), package.manifest, c);
        let path = package.manifest[toc_candidates()[c].id].path;
        let i = choose|i: int| 0 <= i < navigation.len() && navigation[i] == path;
        assert(wanted[documents.len() + i] == path);
    }
    lemma_probing_reads_its_paths(toc_candidates(), package, archive);
}

/// The attributes with the one at `i` and the one behind it in each other's
/// place.
pub open spec fn swapped(attributes: Seq<AttributeView>, i: int) -> Seq<AttributeView> {
    attributes.update(i, attributes[i + 1]).update(i + 1, attributes[i])
}

proof fn lemma_last_value_after_swap(attributes: Seq<AttributeView>, i: int, name: Seq<char>)
    requires
        0 <= i,
        i + 1 < attributes.len(),
        attributes[i].name != attributes[i + 1].name,
    ensures
        last_value(swapped(attributes, i), name) == last_value(attributes, name),
    decreases attributes.len(),
{
    let after = swapped(attributes, i);
    if i + 2 < attributes.len() {
        assert(after.drop_last() =~= swapped(attributes.drop_last(), i));
        lemma_last_value_after_swap(attributes.drop_last(), i, name);
    } else {
        reveal_with_fuel(last_value, 3);
        assert(after.drop_last().drop_last() =~= attributes.drop_last().drop_last());
    }
}

/// The order of the attributes of a tag is irrelevant: with two neighbours
/// of different names in each other's place, the tag is scanned as before.
/// Every reordering that keeps attributes of one name in their order is made
/// of such steps.
pub proof fn lemma_attribute_order_is_irrelevant(
    name: Seq<char>,
    attributes: Seq<AttributeView>,
    i: int,
    prefix: Seq<char>,
)
    requires
        0 <= i,
        i + 1 < attributes.len(),
        attributes[i].name != attributes[i + 1].name,
    ensures
        event_scan(
            MarkupEventView::StartElement { name, attributes: swapped(attributes, i) },
            prefix,
        ) == event_scan(MarkupEventView::StartElement { name, attributes }, prefix),
{
    lemma_last_value_after_swap(attributes, i, "href"@);
    lemma_last_value_after_swap(attributes, i, "src"@);
    lemma_last_value_after_swap(attributes, i, "rel"@);
    lemma_last_value_after_swap(attributes, i, "type"@);
}

/// The tag has an attribute called `name`.
pub open spec fn has_attribute(attributes: Seq<AttributeView>, name: Seq<char>) -> bool {
    exists|i: int| 0 <= i < attributes.len() && (#[trigger] attributes[i]).name == name
}

/// An attribute has a last value exactly when the tag has the attribute.
pub proof fn lemma_last_value_of_an_attribute(attributes: Seq<AttributeView>, name: Seq<char>)
    ensures
        last_value(attributes, name) is Some <==> has_attribute(attributes, name),
    decreases attributes.len(),
{
    if attributes.len() > 0 {
        let front = attributes.drop_last();
        lemma_last_value_of_an_attribute(front, name);
        if attributes.last().name != name && has_attribute(attributes, name) {
            let i = choose|i: int|
                0 <= i < attributes.len() && (#[trigger] attributes[i]).name == name;
            assert(front[i].name == name);
        }
    }
}

/// A link tag refers to a stylesheet exactly when it has a `rel`, a `type`
/// and an `href`, and its `type` is `text/css`. With any of the three
/// missing, or with another `type`, the scan finds nothing in the tag.
pub proof fn lemma_a_link_needs_rel_type_and_href(attributes: Seq<AttributeView>, prefix: Seq<char>)
    ensures
        stylesheet_href(attributes) is Some <==> {
            &&& has_attribute(attributes, "rel"@)
            &&& has_attribute(attributes, "href"@)
            &&& last_value(attributes, "type"@) == Some("text/css"@)
        },
        stylesheet_href(attributes) is None ==> link_scan(attributes, prefix) == no_references(),
        stylesheet_href(attributes) matches Some(href) ==> link_scan(attributes, prefix)
            == reference_scan(ReferenceKind::Stylesheet, href, prefix),
{
    lemma_last_value_of_an_attribute(attributes, "rel"@);
    lemma_last_value_of_an_attribute(attributes, "href"@);
}

} // verus!
