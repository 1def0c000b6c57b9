//! Parsing and formatting of versions: the wire format round trip and
//! its error cases.

use knope::errors::StepError;
use knope::version::{version_less, Prerelease, StableVersion, Version};

#[test]
fn parse_stable() {
    let version = Version::parse("1.2.3").unwrap();
    assert_eq!(version, Version::new(1, 2, 3, None));
    assert!(!version.is_prerelease());
    assert_eq!(version.stable_component(), StableVersion { major: 1, minor: 2, patch: 3 });
}

#[test]
fn parse_prerelease() {
    let version = Version::parse("1.2.3-rc.4").unwrap();
    assert_eq!(
        version,
        Version::new(1, 2, 3, Some(Prerelease::new(String::from("rc"), 4)))
    );
    assert!(version.is_prerelease());
}

#[test]
fn render_stable() {
    assert_eq!(Version::new(1, 2, 3, None).render(), "1.2.3");
    assert_eq!(Version::new(0, 0, 0, None).render(), "0.0.0");
    assert_eq!(
        Version::new(10, 200, 3000, None).render(),
        "10.200.3000"
    );
}

#[test]
fn render_prerelease() {
    assert_eq!(
        Version::new(1, 2, 3, Some(Prerelease::new(String::from("rc"), 0))).render(),
        "1.2.3-rc.0"
    );
}

#[test]
fn round_trip() {
    for text in ["0.0.0", "1.2.3", "18446744073709551615.0.1", "1.2.3-rc.0", "1.2.3-beta-x.12"] {
        let version = Version::parse(text).unwrap();
        assert_eq!(version.render(), text);
        assert_eq!(Version::parse(&version.render()).unwrap(), version);
    }
}

#[test]
fn parse_rejects_malformed() {
    for text in [
        "",
        "1",
        "1.2",
        "1.2.3.4",
        "a.b.c",
        "1.2.x",
        "1.2.3-rc",
        "1.2.3-rc.x",
        "1..3",
        "18446744073709551616.0.0",
    ] {
        let result = Version::parse(text);
        assert_eq!(
            result,
            Err(StepError::InvalidSemanticVersion(String::from(text)))
        );
    }
}

#[test]
fn ordering_prefers_stable_over_its_prerelease() {
    let stable = Version::parse("1.1.0").unwrap();
    let pre = Version::parse("1.1.0-rc.9").unwrap();
    assert!(version_less(&pre, &stable));
    assert!(!version_less(&stable, &pre));
}

#[test]
fn ordering_compares_labels_as_strings() {
    let beta = Version::parse("1.1.0-beta.5").unwrap();
    let rc = Version::parse("1.1.0-rc.0").unwrap();
    assert!(version_less(&beta, &rc));
    let rc1 = Version::parse("1.1.0-rc.1").unwrap();
    assert!(version_less(&rc, &rc1));
}
