//! The rule-application algorithm on concrete version sets.

use knope::semver::{bump, ConventionalRule, CurrentVersions, Rule};
use knope::version::{StableVersion, Version};

fn stable(major: u64, minor: u64, patch: u64) -> StableVersion {
    StableVersion { major, minor, patch }
}

#[test]
fn major() {
    let version = bump(
        CurrentVersions { stable: stable(1, 2, 3), prerelease: None },
        Rule::Major,
    )
    .unwrap();

    assert_eq!(version.stable, stable(2, 0, 0));
}

#[test]
fn major_0() {
    let version = bump(
        CurrentVersions { stable: stable(0, 1, 2), prerelease: None },
        Rule::Major,
    )
    .unwrap();

    assert_eq!(version.stable, stable(0, 2, 0));
}

#[test]
fn major_after_pre() {
    for pre_version in ["1.2.4-rc.0", "1.3.0-rc.0", "2.0.0-rc.0"] {
        let version = bump(
            CurrentVersions {
                stable: stable(1, 2, 3),
                prerelease: Some(Version::parse(pre_version).unwrap()),
            },
            Rule::Major,
        )
        .unwrap();

        assert_eq!(version.stable, stable(2, 0, 0));
        assert!(version.prerelease.is_none());
    }
}

#[test]
fn minor() {
    let version = bump(
        CurrentVersions { stable: stable(1, 2, 3), prerelease: None },
        Rule::Minor,
    )
    .unwrap();

    assert_eq!(version.stable, stable(1, 3, 0));
}

#[test]
fn minor_0() {
    let version = bump(
        CurrentVersions { stable: stable(0, 1, 2), prerelease: None },
        Rule::Minor,
    )
    .unwrap();

    assert_eq!(version.stable, stable(0, 1, 3));
}

#[test]
fn minor_after_pre() {
    for pre_version in ["1.2.4-rc.0", "1.3.0-rc.0"] {
        let version = bump(
            CurrentVersions {
                stable: stable(1, 2, 3),
                prerelease: Some(Version::parse(pre_version).unwrap()),
            },
            Rule::Minor,
        )
        .unwrap();

        assert_eq!(version.stable, stable(1, 3, 0));
        assert!(version.prerelease.is_none());
    }
}

#[test]
fn patch() {
    let version = bump(
        CurrentVersions { stable: stable(1, 2, 3), prerelease: None },
        Rule::Patch,
    )
    .unwrap();

    assert_eq!(version.stable, stable(1, 2, 4));
}

#[test]
fn patch_0() {
    let version = bump(
        CurrentVersions { stable: stable(0, 1, 0), prerelease: None },
        Rule::Patch,
    )
    .unwrap();

    assert_eq!(version.stable, stable(0, 1, 1));
}

#[test]
fn patch_after_pre() {
    let version = bump(
        CurrentVersions {
            stable: stable(1, 2, 3),
            prerelease: Some(Version::parse("1.2.4-rc.0").unwrap()),
        },
        Rule::Patch,
    )
    .unwrap();

    assert_eq!(version.stable, stable(1, 2, 4));
    assert!(version.prerelease.is_none());
}

#[test]
fn pre() {
    let old_stable = stable(1, 2, 3);
    let new = bump(
        CurrentVersions { stable: old_stable, prerelease: None },
        Rule::Pre { label: String::from("rc"), stable_rule: ConventionalRule::Minor },
    )
    .unwrap();

    assert_eq!(new.prerelease, Some(Version::parse("1.3.0-rc.0").unwrap()));
    assert_eq!(new.stable, old_stable);
}

#[test]
fn pre_after_same_pre() {
    let old_stable = stable(1, 2, 3);
    let prerelease = Some(Version::parse("1.3.0-rc.0").unwrap());
    let new = bump(
        CurrentVersions { stable: old_stable, prerelease },
        Rule::Pre { label: String::from("rc"), stable_rule: ConventionalRule::Minor },
    )
    .unwrap();

    assert_eq!(new.prerelease, Some(Version::parse("1.3.0-rc.1").unwrap()));
    assert_eq!(new.stable, old_stable);
}

#[test]
fn pre_after_different_pre_version() {
    let old_stable = stable(1, 2, 3);
    let prerelease = Some(Version::parse("1.2.4-rc.0").unwrap());
    let new = bump(
        CurrentVersions { stable: old_stable, prerelease },
        Rule::Pre { label: String::from("rc"), stable_rule: ConventionalRule::Minor },
    )
    .unwrap();

    assert_eq!(new.prerelease, Some(Version::parse("1.3.0-rc.0").unwrap()));
    assert_eq!(new.stable, old_stable);
}

#[test]
fn pre_after_different_pre_label() {
    let old_stable = stable(1, 2, 3);
    let prerelease = Some(Version::parse("1.3.0-beta.0").unwrap());
    let new = bump(
        CurrentVersions { stable: old_stable, prerelease },
        Rule::Pre { label: String::from("rc"), stable_rule: ConventionalRule::Minor },
    )
    .unwrap();

    assert_eq!(new.prerelease, Some(Version::parse("1.3.0-rc.0").unwrap()));
    assert_eq!(new.stable, old_stable);
}

#[test]
fn release() {
    let version = bump(
        CurrentVersions {
            stable: stable(1, 2, 3),
            prerelease: Some(Version::parse("1.2.3-rc.0").unwrap()),
        },
        Rule::Release,
    )
    .unwrap();

    assert_eq!(version.stable, stable(1, 2, 3));
    assert!(version.prerelease.is_none());
}

#[test]
fn release_without_prerelease_fails() {
    let result = bump(
        CurrentVersions { stable: stable(1, 2, 3), prerelease: None },
        Rule::Release,
    );
    assert!(matches!(
        result,
        Err(knope::errors::StepError::InvalidPreReleaseVersion(_))
    ));
}

#[test]
fn major_overflow_fails() {
    let result = bump(
        CurrentVersions { stable: stable(u64::MAX, 0, 0), prerelease: None },
        Rule::Major,
    );
    assert_eq!(result, Err(knope::errors::StepError::VersionOverflow));
}

#[test]
fn latest_prefers_the_prerelease() {
    let current = CurrentVersions {
        stable: stable(1, 2, 3),
        prerelease: Some(Version::parse("1.3.0-rc.0").unwrap()),
    };
    assert_eq!(current.latest(), Version::parse("1.3.0-rc.0").unwrap());
    assert_eq!(current.into_latest(), Version::parse("1.3.0-rc.0").unwrap());

    let current = CurrentVersions { stable: stable(1, 2, 3), prerelease: None };
    assert_eq!(current.latest(), Version::parse("1.2.3").unwrap());
}

#[test]
fn increments_reset_lower_components() {
    let v = stable(1, 2, 3);
    assert_eq!(v.increment_major(), stable(2, 0, 0));
    assert_eq!(v.increment_minor(), stable(1, 3, 0));
    assert_eq!(v.increment_patch(), stable(1, 2, 4));
}
