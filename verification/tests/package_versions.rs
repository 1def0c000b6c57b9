//! Package construction, consistency checking, and the writes that set
//! a version, including the Go module rule.

use knope::errors::StepError;
use knope::package::{
    validate_versioned_file, Action, GoVersioning, NewError, Package, VersionedFile,
    VersionedFileError,
};
use knope::version::Version;

fn file(path: &str, version: &str) -> VersionedFile {
    VersionedFile::new(String::from(path), version, String::new()).unwrap()
}

#[test]
fn new_package_requires_a_file() {
    assert!(matches!(Package::new(Vec::new()), Err(NewError::NoPackages)));
}

#[test]
fn new_package_rejects_inconsistent_versions() {
    let result = Package::new(vec![
        file("Cargo.toml", "1.0.0"),
        file("package.json", "1.0.0"),
        file("pyproject.toml", "1.0.1"),
    ]);
    match result {
        Err(NewError::InconsistentVersions(first, conflict)) => {
            assert_eq!(first.path, "Cargo.toml");
            assert_eq!(conflict.path, "pyproject.toml");
        },
        _ => panic!("expected inconsistent versions"),
    }
}

#[test]
fn get_version_is_the_agreed_version() {
    let package = Package::new(vec![file("Cargo.toml", "1.2.3"), file("package.json", "1.2.3")])
        .unwrap();
    assert_eq!(package.get_version().render(), "1.2.3");
}

#[test]
fn set_version_writes_every_file() {
    let package = Package::new(vec![file("Cargo.toml", "1.2.3"), file("package.json", "1.2.3")])
        .unwrap();
    let new_version = Version::parse("2.0.0").unwrap();
    let actions = package.set_version(&new_version, GoVersioning::Standard).unwrap();
    assert_eq!(
        actions,
        vec![
            Action::WriteVersion {
                path: String::from("Cargo.toml"),
                version: String::from("2.0.0")
            },
            Action::WriteVersion {
                path: String::from("package.json"),
                version: String::from("2.0.0")
            },
        ]
    );
}

#[test]
fn go_mod_low_major_left_alone() {
    let content = "module github.com/example/tool\n\ngo 1.21\n";
    let gomod =
        VersionedFile::new(String::from("go.mod"), "1.2.3", String::from(content)).unwrap();
    let package = Package::new(vec![gomod]).unwrap();
    let actions = package
        .set_version(&Version::parse("1.3.0").unwrap(), GoVersioning::Standard)
        .unwrap();
    assert_eq!(
        actions,
        vec![Action::WriteContent {
            path: String::from("go.mod"),
            content: String::from(content)
        }]
    );
}

#[test]
fn go_mod_major_suffix_appended() {
    let gomod = VersionedFile::new(
        String::from("go.mod"),
        "1.9.0",
        String::from("module github.com/example/tool\n\ngo 1.21\n"),
    )
    .unwrap();
    let package = Package::new(vec![gomod]).unwrap();
    let actions = package
        .set_version(&Version::parse("2.0.0").unwrap(), GoVersioning::Standard)
        .unwrap();
    assert_eq!(
        actions,
        vec![Action::WriteContent {
            path: String::from("go.mod"),
            content: String::from("module github.com/example/tool/v2\n\ngo 1.21\n")
        }]
    );
}

#[test]
fn go_mod_major_suffix_replaced() {
    let gomod = VersionedFile::new(
        String::from("go.mod"),
        "2.4.0",
        String::from("module github.com/example/tool/v2\n\ngo 1.21\n"),
    )
    .unwrap();
    let package = Package::new(vec![gomod]).unwrap();
    let actions = package
        .set_version(&Version::parse("3.0.0").unwrap(), GoVersioning::Standard)
        .unwrap();
    assert_eq!(
        actions,
        vec![Action::WriteContent {
            path: String::from("go.mod"),
            content: String::from("module github.com/example/tool/v3\n\ngo 1.21\n")
        }]
    );
}

#[test]
fn go_mod_correct_suffix_byte_identical() {
    let content = "module github.com/example/tool/v3\n\ngo 1.21\n";
    let gomod =
        VersionedFile::new(String::from("go.mod"), "3.0.0", String::from(content)).unwrap();
    let package = Package::new(vec![gomod]).unwrap();
    let actions = package
        .set_version(&Version::parse("3.1.0").unwrap(), GoVersioning::Standard)
        .unwrap();
    assert_eq!(
        actions,
        vec![Action::WriteContent {
            path: String::from("go.mod"),
            content: String::from(content)
        }]
    );
}

#[test]
fn go_mod_missing_module_line_fails() {
    let gomod = VersionedFile::new(
        String::from("go.mod"),
        "1.9.0",
        String::from("go 1.21\n"),
    )
    .unwrap();
    let package = Package::new(vec![gomod]).unwrap();
    let result = package.set_version(&Version::parse("2.0.0").unwrap(), GoVersioning::Standard);
    assert_eq!(result, Err(StepError::MissingModuleLine));
}

#[test]
fn go_mod_malformed_module_line_fails() {
    let gomod = VersionedFile::new(
        String::from("go.mod"),
        "1.9.0",
        String::from("module  \ngo 1.21\n"),
    )
    .unwrap();
    let package = Package::new(vec![gomod]).unwrap();
    let result = package.set_version(&Version::parse("2.0.0").unwrap(), GoVersioning::Standard);
    assert_eq!(
        result,
        Err(StepError::MalformedModuleLine(String::from("module  ")))
    );
}

#[test]
fn go_mod_ignored_when_policy_says_so() {
    let gomod = VersionedFile::new(
        String::from("go.mod"),
        "1.9.0",
        String::from("module github.com/example/tool\n"),
    )
    .unwrap();
    let package = Package::new(vec![gomod]).unwrap();
    let actions = package
        .set_version(&Version::parse("2.0.0").unwrap(), GoVersioning::IgnoreMajorRules)
        .unwrap();
    assert_eq!(
        actions,
        vec![Action::WriteVersion {
            path: String::from("go.mod"),
            version: String::from("2.0.0")
        }]
    );
}

#[test]
fn versioned_file_rejects_bad_version() {
    let result = VersionedFile::new(String::from("Cargo.toml"), "not-a-version", String::new());
    assert!(matches!(result, Err(StepError::InvalidSemanticVersion(_))));
}

#[test]
fn validate_versioned_file_checks_name_and_existence() {
    let span = (10, 20);
    assert_eq!(
        validate_versioned_file(
            String::from("crates/tool/Cargo.toml"),
            String::from("Cargo.toml"),
            true,
            String::from("versioned_files = [\"crates/tool/Cargo.toml\"]"),
            span,
        ),
        Ok(())
    );
    match validate_versioned_file(
        String::from("setup.cfg"),
        String::from("setup.cfg"),
        true,
        String::new(),
        span,
    ) {
        Err(VersionedFileError::Unknown { file_name, .. }) => assert_eq!(file_name, "setup.cfg"),
        other => panic!("expected an unknown file name, got {other:?}"),
    }
    match validate_versioned_file(
        String::from("missing/go.mod"),
        String::from("go.mod"),
        false,
        String::new(),
        span,
    ) {
        Err(VersionedFileError::Missing { path, .. }) => assert_eq!(path, "missing/go.mod"),
        other => panic!("expected a missing file, got {other:?}"),
    }
}
