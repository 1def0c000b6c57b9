//! Distributing changeset entries across packages, and building new
//! change entries.

use knope::changesets::{
    add_releases_from_changeset, new_change_entry, ChangeSource, ChangeType, ChangesetEntry,
};
use knope::package::{Package, VersionedFile};

fn package(name: Option<&str>) -> Package {
    let file = VersionedFile::new(String::from("Cargo.toml"), "1.0.0", String::new()).unwrap();
    let package = Package::new(vec![file]).unwrap();
    match name {
        Some(name) => package.with_name(String::from(name)),
        None => package,
    }
}

fn entry(file_name: &str, summary: &str, versioning: &[(&str, ChangeType)]) -> ChangesetEntry {
    ChangesetEntry {
        file_name: String::from(file_name),
        summary: String::from(summary),
        versioning: versioning
            .iter()
            .map(|(name, t)| (String::from(*name), t.clone()))
            .collect(),
    }
}

#[test]
fn entries_reach_their_packages() {
    let packages = vec![package(Some("one")), package(Some("two"))];
    let entries = vec![
        entry("a.md", "first change", &[("one", ChangeType::Breaking)]),
        entry("b.md", "both change", &[("one", ChangeType::Fix), ("two", ChangeType::Feature)]),
    ];
    let (packages, deletions) = add_releases_from_changeset(packages, false, &entries);

    assert_eq!(packages[0].pending_changes.len(), 2);
    assert_eq!(packages[0].pending_changes[0].change_type, ChangeType::Breaking);
    assert_eq!(packages[0].pending_changes[0].summary, "first change");
    assert_eq!(packages[0].pending_changes[0].source, ChangeSource::ChangeSet);
    assert_eq!(packages[0].pending_changes[1].change_type, ChangeType::Fix);
    assert_eq!(packages[1].pending_changes.len(), 1);
    assert_eq!(packages[1].pending_changes[0].change_type, ChangeType::Feature);
    assert_eq!(deletions, vec![String::from("a.md"), String::from("b.md")]);
}

#[test]
fn unnamed_package_uses_default_key() {
    let packages = vec![package(None)];
    let entries = vec![entry("a.md", "a change", &[("default", ChangeType::Feature)])];
    let (packages, deletions) = add_releases_from_changeset(packages, false, &entries);

    assert_eq!(packages[0].pending_changes.len(), 1);
    assert_eq!(deletions, vec![String::from("a.md")]);
}

#[test]
fn prerelease_keeps_change_files() {
    let packages = vec![package(None)];
    let entries = vec![entry("a.md", "a change", &[("default", ChangeType::Feature)])];
    let (packages, deletions) = add_releases_from_changeset(packages, true, &entries);

    assert_eq!(packages[0].pending_changes.len(), 1);
    assert_eq!(deletions, Vec::<String>::new());
}

#[test]
fn shared_entry_deleted_once() {
    let packages = vec![package(Some("one")), package(Some("two"))];
    let entries = vec![entry(
        "shared.md",
        "affects both",
        &[("one", ChangeType::Fix), ("two", ChangeType::Fix)],
    )];
    let (packages, deletions) = add_releases_from_changeset(packages, false, &entries);

    assert_eq!(packages[0].pending_changes.len(), 1);
    assert_eq!(packages[1].pending_changes.len(), 1);
    assert_eq!(deletions, vec![String::from("shared.md")]);
}

#[test]
fn duplicate_package_name_served_once() {
    let packages = vec![package(Some("one")), package(Some("one"))];
    let entries = vec![entry("a.md", "a change", &[("one", ChangeType::Feature)])];
    let (packages, _) = add_releases_from_changeset(packages, false, &entries);

    assert_eq!(packages[0].pending_changes.len(), 1);
    assert_eq!(packages[1].pending_changes.len(), 0);
}

#[test]
fn unrelated_package_untouched() {
    let packages = vec![package(Some("other"))];
    let entries = vec![entry("a.md", "a change", &[("one", ChangeType::Feature)])];
    let (packages, deletions) = add_releases_from_changeset(packages, false, &entries);

    assert_eq!(packages[0].pending_changes.len(), 0);
    assert_eq!(deletions, Vec::<String>::new());
}

#[test]
fn new_change_entry_derives_file_name_from_summary() {
    let entry = new_change_entry(
        &String::from("My Great Change"),
        vec![(String::from("default"), ChangeType::Feature)],
    );
    assert_eq!(entry.file_name, "my_great_change.md");
    assert_eq!(entry.summary, "# My Great Change");
    assert_eq!(entry.versioning.len(), 1);
}
