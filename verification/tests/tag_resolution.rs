//! Resolving current versions from tag lists, and the tag names the
//! engine produces.

use knope::tags::{get_current_versions_from_tag, last_stable_ref, tag_name};
use knope::version::{StableVersion, Version};

fn strings(items: &[&str]) -> Vec<String> {
    items.iter().map(|s| String::from(*s)).collect()
}

#[test]
fn stable_and_newer_prerelease() {
    let tags = strings(&["v1.0.0", "v1.1.0-rc.1"]);
    let current = get_current_versions_from_tag(&tags, &None).unwrap();
    assert_eq!(current.stable, StableVersion { major: 1, minor: 0, patch: 0 });
    assert_eq!(current.prerelease, Some(Version::parse("1.1.0-rc.1").unwrap()));
}

#[test]
fn stable_supersedes_and_evicts_prerelease() {
    let tags = strings(&["v1.0.0", "v1.1.0-rc.1", "v1.1.0"]);
    let current = get_current_versions_from_tag(&tags, &None).unwrap();
    assert_eq!(current.stable, StableVersion { major: 1, minor: 1, patch: 0 });
    assert_eq!(current.prerelease, None);
}

#[test]
fn greatest_stable_wins_regardless_of_order() {
    let tags = strings(&["v1.4.0", "v1.2.0", "v1.3.9"]);
    let current = get_current_versions_from_tag(&tags, &None).unwrap();
    assert_eq!(current.stable, StableVersion { major: 1, minor: 4, patch: 0 });
    assert_eq!(current.prerelease, None);
}

#[test]
fn no_matching_stable_tag_is_none() {
    assert!(get_current_versions_from_tag(&strings(&[]), &None).is_none());
    assert!(get_current_versions_from_tag(&strings(&["v1.1.0-rc.1"]), &None).is_none());
    assert!(get_current_versions_from_tag(&strings(&["release-1.0.0"]), &None).is_none());
}

#[test]
fn named_package_prefix() {
    let tags = strings(&["v9.9.9", "tool/v1.2.3", "tool/v1.3.0-rc.0"]);
    let current = get_current_versions_from_tag(&tags, &Some(String::from("tool"))).unwrap();
    assert_eq!(current.stable, StableVersion { major: 1, minor: 2, patch: 3 });
    assert_eq!(current.prerelease, Some(Version::parse("1.3.0-rc.0").unwrap()));
}

#[test]
fn unparseable_suffixes_are_skipped() {
    let tags = strings(&["v1.0.0", "vnext", "v1.0"]);
    let current = get_current_versions_from_tag(&tags, &None).unwrap();
    assert_eq!(current.stable, StableVersion { major: 1, minor: 0, patch: 0 });
}

#[test]
fn last_stable_ref_bounds_the_commit_range() {
    assert_eq!(
        last_stable_ref(&strings(&["v1.0.0", "v1.1.0-rc.1"]), &None),
        Some(String::from("v1.0.0"))
    );
    assert_eq!(
        last_stable_ref(&strings(&["tool/v1.2.3"]), &Some(String::from("tool"))),
        Some(String::from("tool/v1.2.3"))
    );
    // No stable tag, or a literal zero version, means the whole history.
    assert_eq!(last_stable_ref(&strings(&["v1.1.0-rc.1"]), &None), None);
    assert_eq!(last_stable_ref(&strings(&["v0.0.0"]), &None), None);
    assert_eq!(last_stable_ref(&Vec::new(), &None), None);
}

#[test]
fn tag_name_with_and_without_package() {
    let version = Version::parse("1.2.3").unwrap();
    assert_eq!(tag_name(&version, &None), "v1.2.3");
    assert_eq!(
        tag_name(&version, &Some(String::from("tool"))),
        "tool/v1.2.3"
    );
}
