use mikomi::error::ExtractError;
use mikomi::model::{PossibleTocId, TocEntry, TocKind, TocOutline};
use mikomi::package::{ManifestEntry, Package};
use mikomi::toc::{copy_entries, get_toc_data, possible_toc_ids, probe_toc};

fn package_with(ids: &[(&str, &str, &str)]) -> Package {
    let mut package = Package::new(String::from("pkg://"));
    for (id, path, content) in ids {
        package.manifest.insert(
            String::from(*id),
            ManifestEntry { path: String::from(*path), media_type: String::from("text/xml") },
        );
        package.archive.insert(String::from(*path), content.as_bytes().to_vec());
    }
    package
}

fn raw(outline: TocOutline) -> (TocKind, String, String) {
    match outline {
        TocOutline::Raw(toc) => (toc.kind, toc.content, toc.path),
        other => panic!("{:?}", other),
    }
}

#[test]
fn the_candidates_stand_in_their_order() {
    let table = possible_toc_ids();
    let expected = [
        PossibleTocId { kind: TocKind::Ncx, id: "toc.ncx" },
        PossibleTocId { kind: TocKind::Ncx, id: "ncx" },
        PossibleTocId { kind: TocKind::Nav, id: "nav" },
        PossibleTocId { kind: TocKind::Nav, id: "toc" },
    ];
    assert_eq!(table, expected);
}

#[test]
fn each_candidate_is_found_when_those_before_it_are_not() {
    let all = [("toc.ncx", TocKind::Ncx), ("ncx", TocKind::Ncx), ("nav", TocKind::Nav), ("toc", TocKind::Nav)];
    for first in 0..all.len() {
        let entries: Vec<(&str, String, String)> = all[first..]
            .iter()
            .map(|(id, _)| (*id, format!("dir/{}.file", id), format!("content of {}", id)))
            .collect();
        let borrowed: Vec<(&str, &str, &str)> =
            entries.iter().map(|(id, path, content)| (*id, path.as_str(), content.as_str())).collect();
        let package = package_with(&borrowed);
        let (kind, content, path) = raw(get_toc_data(&package).unwrap());
        assert_eq!(kind, all[first].1);
        assert_eq!(content, format!("content of {}", all[first].0));
        assert_eq!(path, format!("dir/{}.file", all[first].0));
    }
}

#[test]
fn no_candidate_is_no_failure() {
    let package = package_with(&[("cover", "cover.png", "x"), ("TOC.NCX", "toc.ncx", "<ncx/>")]);
    assert_eq!(get_toc_data(&package), Ok(TocOutline::Absent));
    assert_eq!(probe_toc(&possible_toc_ids(), &package), Err(ExtractError::TocUnavailable));
    assert_eq!(probe_toc(&Vec::new(), &package), Err(ExtractError::TocUnavailable));
}

#[test]
fn a_candidate_without_bytes_is_passed_over() {
    let mut package = package_with(&[("nav", "nav.xhtml", "<nav/>")]);
    package.manifest.insert(
        String::from("toc.ncx"),
        ManifestEntry { path: String::from("toc.ncx"), media_type: String::from("text/xml") },
    );
    assert_eq!(
        raw(get_toc_data(&package).unwrap()),
        (TocKind::Nav, String::from("<nav/>"), String::from("nav.xhtml"))
    );
}

#[test]
fn a_navigation_file_that_is_not_utf8_fails() {
    let mut package = package_with(&[("nav", "nav.xhtml", "<nav/>")]);
    package.manifest.insert(
        String::from("ncx"),
        ManifestEntry { path: String::from("toc.ncx"), media_type: String::from("text/xml") },
    );
    package.archive.insert(String::from("toc.ncx"), vec![0xc3, 0x28]);
    assert_eq!(get_toc_data(&package), Err(ExtractError::InvalidEncoding));
}

#[test]
fn an_outline_without_entries_counts_as_none() {
    let mut package = package_with(&[("toc", "toc.xhtml", "<nav/>")]);
    package.outline = Some(Vec::new());
    assert_eq!(
        raw(get_toc_data(&package).unwrap()),
        (TocKind::Nav, String::from("<nav/>"), String::from("toc.xhtml"))
    );
    let mut package = package_with(&[]);
    package.outline = Some(Vec::new());
    assert_eq!(get_toc_data(&package), Ok(TocOutline::Absent));
}

#[test]
fn an_outline_with_entries_wins_over_the_candidates() {
    let mut package = package_with(&[("toc.ncx", "toc.ncx", "<ncx/>")]);
    package.outline =
        Some(vec![TocEntry { label: String::from("Start"), target: String::from("a.xhtml") }]);
    assert_eq!(
        get_toc_data(&package),
        Ok(TocOutline::Decomposed {
            entries: vec![TocEntry { label: String::from("Start"), target: String::from("a.xhtml") }]
        })
    );
}

#[test]
fn a_custom_table_is_probed_in_its_own_order() {
    let package = package_with(&[("nav", "nav.xhtml", "<nav/>"), ("toc.ncx", "toc.ncx", "<ncx/>")]);
    let table = vec![
        PossibleTocId { kind: TocKind::Nav, id: "nav" },
        PossibleTocId { kind: TocKind::Ncx, id: "toc.ncx" },
    ];
    assert_eq!(probe_toc(&table, &package).unwrap().kind, TocKind::Nav);
}

#[test]
fn copy_entries_keeps_order_and_text() {
    let entries = vec![
        TocEntry { label: String::from("b"), target: String::from("2") },
        TocEntry { label: String::from("a"), target: String::from("1") },
    ];
    assert_eq!(copy_entries(&entries), entries);
    assert_eq!(copy_entries(&Vec::new()), Vec::new());
}
