//! The table of contents: the reader's outline where there is one, else the
//! navigation file under the first well-known manifest id.

use crate::error::ExtractError;
use crate::model::{
    PossibleTocId, PossibleTocIdView, Toc, TocEntry, TocKind, TocOutline, TocOutlineView, TocView,
};
use crate::package::{Package, PackageView};
use crate::text::{decode_text, text_of};
use vstd::prelude::*;

verus! {

/// The manifest ids under which a navigation file is looked for, in the
/// order in which they are tried, each with the format of the file that
/// stands under it.
pub open spec fn toc_candidates() -> Seq<PossibleTocIdView> {
    seq![
        PossibleTocIdView { kind: TocKind::Ncx, id: "toc.ncx"@ },
        PossibleTocIdView { kind: TocKind::Ncx, id: "ncx"@ },
        PossibleTocIdView { kind: TocKind::Nav, id: "nav"@ },
        PossibleTocIdView { kind: TocKind::Nav, id: "toc"@ },
    ]
}

/// The table of [`toc_candidates`].
pub fn possible_toc_ids() -> (table: Vec<PossibleTocId<'static>>)
    ensures
        table.deep_view() == toc_candidates(),
{
    let mut table: Vec<PossibleTocId<'static>> = Vec::new();
    table.push(PossibleTocId { kind: TocKind::Ncx, id: "toc.ncx" });
    table.push(PossibleTocId { kind: TocKind::Ncx, id: "ncx" });
    table.push(PossibleTocId { kind: TocKind::Nav, id: "nav" });
    table.push(PossibleTocId { kind: TocKind::Nav, id: "toc" });
    table
}

/// Whether the package holds a file under the manifest id `id`: the
/// manifest has the id, and the archive has bytes at the path that the
/// manifest gives for it.
pub open spec fn is_available(package: PackageView, id: Seq<char>) -> bool {
    package.manifest.contains_key(id) && package.archive.contains_key(package.manifest[id].path)
}

/// The navigation file that stands under a candidate that is available:
/// its text and its path, with the candidate's format.
pub open spec fn raw_toc(package: PackageView, candidate: PossibleTocIdView) -> Result<
    TocView,
    ExtractError,
> {
    let path = package.manifest[candidate.id].path;
    match text_of(package.archive[path]) {
        Some(content) => Ok(TocView { kind: candidate.kind, content, path }),
        None => Err(ExtractError::InvalidEncoding),
    }
}

/// What probing the candidates in their order finds: the file under the
/// first candidate that is available.
pub open spec fn probed(candidates: Seq<PossibleTocIdView>, package: PackageView) -> Result<
    TocView,
    ExtractError,
>
    decreases candidates.len(),
{
    if candidates.len() == 0 {
        Err(ExtractError::TocUnavailable)
    } else if is_available(package, candidates.first().id) {
        raw_toc(package, candidates.first())
    } else {
        probed(candidates.drop_first(), package)
    }
}

/// The table of contents of a package. An outline that the reader made, if
/// it has entries, is taken as it is. Without one the candidates are probed;
/// that none is available is no failure.
pub open spec fn toc_outline(package: PackageView) -> Result<TocOutlineView, ExtractError> {
    if package.outline is Some && package.outline->0.len() > 0 {
        Ok(TocOutlineView::Decomposed { entries: package.outline->0 })
    } else {
        match probed(toc_candidates(), package) {
            Ok(toc) => Ok(TocOutlineView::Raw(toc)),
            Err(ExtractError::TocUnavailable) => Ok(TocOutlineView::Absent),
            Err(e) => Err(e),
        }
    }
}

/// Probes the candidates in their order and hands back the navigation file
/// under the first that the package holds.
pub fn probe_toc(candidates: &Vec<PossibleTocId>, package: &Package) -> (found: Result<
    Toc,
    ExtractError,
>)
    ensures
        match found {
            Ok(toc) => probed(candidates.deep_view(), package@) == Ok::<TocView, ExtractError>(
                toc@,
            ),
            Err(e) => probed(candidates.deep_view(), package@) == Err::<TocView, ExtractError>(e),
        },
{
    let ghost all = candidates.deep_view();
    assert(all.skip(0) =~= all);
    let mut i: usize = 0;
    while i < candidates.len()
        invariant
            i <= candidates.len(),
            all == candidates.deep_view(),
            probed(all, package@) == probed(all.skip(i as int), package@),
        decreases candidates.len() - i,
    {
        let candidate = &candidates[i];
        proof {
            assert(all.skip(i as int).drop_first() =~= all.skip(i + 1));
        }
        if let Some(entry) = package.manifest_entry(candidate.id) {
            if let Some(bytes) = package.fetch_resource(entry.path.as_str()) {
                return match decode_text(bytes.clone()) {
                    Some(content) => Ok(
                        Toc { kind: candidate.kind, content, path: entry.path.clone() },
                    ),
                    None => Err(ExtractError::InvalidEncoding),
                };
            }
        }
        i += 1;
    }
    Err(ExtractError::TocUnavailable)
}

/// A copy of the entries of an outline.
pub fn copy_entries(entries: &Vec<TocEntry>) -> (copy: Vec<TocEntry>)
    ensures
        copy.deep_view() == entries.deep_view(),
{
    let mut copy: Vec<TocEntry> = Vec::new();
    let mut i: usize = 0;
    while i < entries.len()
        invariant
            i <= entries.len(),
            copy@.len() == i,
            forall|j: int| 0 <= j < i ==> copy@[j]@ == entries@[j]@,
        decreases entries.len() - i,
    {
        copy.push(TocEntry { label: entries[i].label.clone(), target: entries[i].target.clone() });
        i += 1;
    }
    copy
}

/// Makes the table of contents of a package: the reader's outline as it is,
/// where it has entries; else the navigation file under the first candidate
/// id that the package holds; else none.
pub fn get_toc_data(package: &Package) -> (toc: Result<TocOutline, ExtractError>)
    ensures
        match toc {
            Ok(outline) => toc_outline(package@) == Ok::<TocOutlineView, ExtractError>(outline@),
            Err(e) => toc_outline(package@) == Err::<TocOutlineView, ExtractError>(e),
        },
{
    if let Some(entries) = &package.outline {
        if entries.len() > 0 {
            return Ok(TocOutline::Decomposed { entries: copy_entries(entries) });
        }
    }
    let table = possible_toc_ids();
    match probe_toc(&table, package) {
        Ok(toc) => Ok(TocOutline::Raw(toc)),
        Err(ExtractError::TocUnavailable) => Ok(TocOutline::Absent),
        Err(e) => Err(e),
    }
}

} // verus!
