//! From a reference to the resource that it names: the bytes of the archive,
//! the size of an image, the text of a stylesheet.

use crate::error::ExtractError;
use crate::model::{ImageData, ImageDataView, Resources, ResourcesView};
use crate::scanner::{Reference, ReferenceKind, ReferenceView};
use crate::table::StringMap;
use crate::text::{decode_text, text_of};
use image::GenericImageView;
use vstd::prelude::*;

verus! {

/// The width and height in pixels of the image that `image::load_from_memory`
/// decodes from `bytes`; none where it decodes no image.
pub uninterp spec fn image_dimensions(bytes: Seq<u8>) -> Option<(u32, u32)>;

/// Calls `image::load_from_memory`, which tells the format from the first
/// bytes and decodes the image, and asks the image for its `dimensions()`.
/// The contract claims only that the outcome is a function of the bytes, and
/// names that function.
#[verifier::external_body]
pub(crate) fn probe_image_dimensions(bytes: &[u8]) -> (dimensions: Option<(u32, u32)>)
    ensures
        dimensions == image_dimensions(bytes@),
{
    match image::load_from_memory(bytes) {
        Ok(decoded) => Some(decoded.dimensions()),
        Err(_) => None,
    }
}

/// The image that `bytes` are, given what the decoder said of them.
pub open spec fn image_of(bytes: Seq<u8>, dimensions: Option<(u32, u32)>) -> Result<
    ImageDataView,
    ExtractError,
> {
    match dimensions {
        Some((width, height)) => Ok(ImageDataView { data: bytes, width, height }),
        None => Err(ExtractError::UnsupportedImageFormat),
    }
}

/// Makes the image of `bytes` from what the decoder said of them: the bytes
/// as they are with the decoded size, or a failure where the decoder found
/// no image.
pub fn image_from_probe(bytes: &Vec<u8>, dimensions: Option<(u32, u32)>) -> (image: Result<
    ImageData,
    ExtractError,
>)
    ensures
        match image {
            Ok(i) => image_of(bytes@, dimensions) == Ok::<ImageDataView, ExtractError>(i@),
            Err(e) => image_of(bytes@, dimensions) == Err::<ImageDataView, ExtractError>(e),
        },
{
    match dimensions {
        Some((width, height)) => Ok(ImageData { data: bytes.clone(), width, height }),
        None => Err(ExtractError::UnsupportedImageFormat),
    }
}

/// What resolving one reference makes of the resources gathered so far.
///
/// An image must be in the archive and decodable; it is then bound to its
/// reference string. A stylesheet that is not in the archive is passed over;
/// one that is there must be valid UTF-8, and its text is then bound to its
/// reference string. A binding takes the place of an earlier one for the
/// same reference string.
pub open spec fn resolved(
    reference: ReferenceView,
    archive: Map<Seq<char>, Seq<u8>>,
    resources: ResourcesView,
) -> Result<ResourcesView, ExtractError> {
    if !archive.contains_key(reference.archive_path) {
        match reference.kind {
            ReferenceKind::Image => Err(ExtractError::ResourceNotFound),
            ReferenceKind::Stylesheet => Ok(resources),
        }
    } else {
        let bytes = archive[reference.archive_path];
        match reference.kind {
            ReferenceKind::Image => match image_of(bytes, image_dimensions(bytes)) {
                Ok(image) => Ok(
                    ResourcesView {
                        img: resources.img.insert(reference.reference, image),
                        css: resources.css,
                    },
                ),
                Err(e) => Err(e),
            },
            ReferenceKind::Stylesheet => match text_of(bytes) {
                Some(text) => Ok(
                    ResourcesView {
                        img: resources.img,
                        css: resources.css.insert(reference.reference, text),
                    },
                ),
                None => Err(ExtractError::InvalidEncoding),
            },
        }
    }
}

/// What resolving references one after another makes of the resources
/// gathered so far: the first failure ends it.
pub open spec fn resolved_all(
    references: Seq<ReferenceView>,
    archive: Map<Seq<char>, Seq<u8>>,
    resources: ResourcesView,
) -> Result<ResourcesView, ExtractError>
    decreases references.len(),
{
    if references.len() == 0 {
        Ok(resources)
    } else {
        match resolved_all(references.drop_last(), archive, resources) {
            Ok(gathered) => resolved(references.last(), archive, gathered),
            Err(e) => Err(e),
        }
    }
}

/// Resolving fails as soon as the references up to some place fail.
pub proof fn lemma_resolved_all_failed(
    references: Seq<ReferenceView>,
    archive: Map<Seq<char>, Seq<u8>>,
    resources: ResourcesView,
    n: int,
)
    requires
        0 <= n <= references.len(),
        resolved_all(references.take(n), archive, resources) is Err,
    ensures
        resolved_all(references, archive, resources) == resolved_all(
            references.take(n),
            archive,
            resources,
        ),
    decreases references.len(),
{
    if n < references.len() {
        assert(references.drop_last().take(n) =~= references.take(n));
        lemma_resolved_all_failed(references.drop_last(), archive, resources, n);
    } else {
        assert(references.take(n) =~= references);
    }
}

/// Resolves one reference against the archive and adds what it leads to to
/// the resources.
pub fn resolve_reference(
    reference: &Reference,
    archive: &StringMap<Vec<u8>>,
    resources: Resources,
) -> (outcome: Result<Resources, ExtractError>)
    ensures
        match outcome {
            Ok(r) => resolved(reference@, archive@, resources@) == Ok::<
                ResourcesView,
                ExtractError,
            >(r@),
            Err(e) => resolved(reference@, archive@, resources@) == Err::<
                ResourcesView,
                ExtractError,
            >(e),
        },
{
    let mut resources = resources;
    match archive.get(reference.archive_path.as_str()) {
        None => match reference.kind {
            ReferenceKind::Image => Err(ExtractError::ResourceNotFound),
            ReferenceKind::Stylesheet => Ok(resources),
        },
        Some(bytes) => match reference.kind {
            ReferenceKind::Image => {
                assert(bytes.deep_view() =~= bytes@);
                let dimensions = probe_image_dimensions(bytes.as_slice());
                match image_from_probe(bytes, dimensions) {
                    Ok(image) => {
                        resources.img.insert(reference.reference.clone(), image);
                        Ok(resources)
                    },
                    Err(e) => Err(e),
                }
            },
            ReferenceKind::Stylesheet => match decode_text(bytes.clone()) {
                Some(text) => {
                    resources.css.insert(reference.reference.clone(), text);
                    Ok(resources)
                },
                None => {
                    assert(bytes.deep_view() =~= bytes@);
                    Err(ExtractError::InvalidEncoding)
                },
            },
        },
    }
}

/// Resolves references one after another, in their order, and adds what
/// they lead to to the resources. The first failure ends it, and nothing is
/// handed back then.
pub fn resolve_references(
    references: &Vec<Reference>,
    archive: &StringMap<Vec<u8>>,
    resources: Resources,
) -> (outcome: Result<Resources, ExtractError>)
    ensures
        match outcome {
            Ok(r) => resolved_all(references.deep_view(), archive@, resources@) == Ok::<
                ResourcesView,
                ExtractError,
            >(r@),
            Err(e) => resolved_all(references.deep_view(), archive@, resources@) == Err::<
                ResourcesView,
                ExtractError,
            >(e),
        },
{
    let ghost all = references.deep_view();
    let ghost start = resources@;
    let mut gathered = resources;
    let mut i: usize = 0;
    while i < references.len()
        invariant
            i <= references.len(),
            all == references.deep_view(),
            start == resources@,
            resolved_all(all.take(i as int), archive@, start) == Ok::<ResourcesView, ExtractError>(
                gathered@,
            ),
        decreases references.len() - i,
    {
        proof {
            assert(all.take(i + 1).drop_last() =~= all.take(i as int));
        }
        match resolve_reference(&references[i], archive, gathered) {
            Ok(next) => {
                gathered = next;
            },
            Err(e) => {
                proof {
                    lemma_resolved_all_failed(all, archive@, start, i + 1);
                }
                return Err(e);
            },
        }
        i += 1;
    }
    assert(all.take(i as int) =~= all);
    Ok(gathered)
}

} // verus!
