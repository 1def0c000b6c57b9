//! End-to-end release decisions: preparing releases from commits and
//! changesets, and running whole workflows.

use knope::changesets::{ChangeType, ChangesetEntry};
use knope::command::Variable;
use knope::package::{Action, GoVersioning, Package, VersionedFile};
use knope::releases::{get_version, prepare_release_for_package, update_project_from_conventional_commits};
use knope::state::{OutsideAction, ReleaseState, RunType, State};
use knope::version::{StableVersion, Version};
use knope::workflow::{run, Step, Verbose, Workflow};

fn strings(items: &[&str]) -> Vec<String> {
    items.iter().map(|s| String::from(*s)).collect()
}

fn package_at(version: &str) -> Package {
    let file = VersionedFile::new(String::from("Cargo.toml"), version, String::new()).unwrap();
    Package::new(vec![file]).unwrap()
}

#[test]
fn changeset_and_commit_merge_to_most_severe() {
    let mut package = package_at("1.0.0");
    package.pending_changes.push(knope::changesets::Change {
        change_type: ChangeType::Breaking,
        summary: String::from("a breaking changeset entry"),
        source: knope::changesets::ChangeSource::ChangeSet,
    });
    let commits = strings(&["feat: a feature"]);
    let (release, _) = prepare_release_for_package(
        package,
        false,
        &None,
        &commits,
        &Vec::new(),
        GoVersioning::Standard,
    )
    .unwrap()
    .unwrap();
    assert_eq!(release.version, Version::parse("2.0.0").unwrap());
}

#[test]
fn no_rule_means_no_release_for_package() {
    let package = package_at("1.0.0");
    let commits = strings(&["chore: tidy"]);
    let result = prepare_release_for_package(
        package,
        false,
        &None,
        &commits,
        &Vec::new(),
        GoVersioning::Standard,
    )
    .unwrap();
    assert!(result.is_none());
}

#[test]
fn prerelease_label_wraps_the_rule() {
    let package = package_at("1.2.3");
    let commits = strings(&["feat: a feature"]);
    let (release, _) = prepare_release_for_package(
        package,
        false,
        &Some(String::from("rc")),
        &commits,
        &Vec::new(),
        GoVersioning::Standard,
    )
    .unwrap()
    .unwrap();
    assert_eq!(release.version, Version::parse("1.3.0-rc.0").unwrap());
}

#[test]
fn end_to_end_breaking_commit_from_tagged_release() {
    let package = package_at("1.0.0");
    let tags = strings(&["v1.0.0"]);
    let current = get_version(vec![package_at("1.0.0")], &tags).unwrap();
    assert_eq!(current.version.stable, StableVersion { major: 1, minor: 0, patch: 0 });

    let state = State {
        github_config: None,
        issue: knope::state::IssueState::Initial,
        packages: vec![package],
        releases: Vec::new(),
        tags,
        commit_messages: strings(&["feat!: new feature"]),
        changesets: Vec::new(),
        actions: Vec::new(),
    };
    let result = update_project_from_conventional_commits(RunType::Real(state), &None).unwrap();
    let state = match result {
        RunType::Real(state) => state,
        _ => panic!("expected a real run"),
    };
    assert_eq!(state.releases.len(), 1);
    match &state.releases[0] {
        ReleaseState::Prepared(release) => {
            assert_eq!(release.version, Version::parse("2.0.0").unwrap());
            assert_eq!(release.breaking_changes, vec![String::from("new feature")]);
        },
        other => panic!("expected a prepared release, got {other:?}"),
    }
    assert_eq!(
        state.actions,
        vec![OutsideAction::FileWrite(Action::WriteVersion {
            path: String::from("Cargo.toml"),
            version: String::from("2.0.0"),
        })]
    );
}

#[test]
fn real_run_with_nothing_to_release_fails() {
    let state = State {
        github_config: None,
        issue: knope::state::IssueState::Initial,
        packages: vec![package_at("1.0.0")],
        releases: Vec::new(),
        tags: Vec::new(),
        commit_messages: strings(&["chore: tidy"]),
        changesets: Vec::new(),
        actions: Vec::new(),
    };
    let result = update_project_from_conventional_commits(RunType::Real(state), &None);
    assert_eq!(result.unwrap_err(), knope::errors::StepError::NoRelease);
}

#[test]
fn dry_run_narrates_and_keeps_change_files() {
    let state = State {
        github_config: None,
        issue: knope::state::IssueState::Initial,
        packages: vec![package_at("1.0.0")],
        releases: Vec::new(),
        tags: Vec::new(),
        commit_messages: strings(&["fix: a bug"]),
        changesets: vec![ChangesetEntry {
            file_name: String::from("entry.md"),
            summary: String::from("something"),
            versioning: vec![(String::from("default"), ChangeType::Feature)],
        }],
        actions: Vec::new(),
    };
    let result =
        update_project_from_conventional_commits(RunType::DryRun { state, stdout: Vec::new() }, &None)
            .unwrap();
    match result {
        RunType::DryRun { state, stdout } => {
            assert_eq!(
                stdout,
                vec![
                    String::from("Would bump package version to 1.1.0"),
                    String::from("Would delete: entry.md"),
                ]
            );
            assert!(state.actions.is_empty());
        },
        _ => panic!("expected a dry run"),
    }
}

#[test]
fn no_versioned_files() {
    // A package discoverable purely from tags: its current version comes
    // from the tag history, and setting the new version writes nothing.
    let package = Package {
        name: None,
        versioned_files: Vec::new(),
        scopes: None,
        pending_changes: Vec::new(),
    };
    let tags = strings(&["v1.0.0"]);
    let current = get_version(vec![Package {
        name: None,
        versioned_files: Vec::new(),
        scopes: None,
        pending_changes: Vec::new(),
    }], &tags)
    .unwrap();
    assert_eq!(current.version.stable, StableVersion { major: 1, minor: 0, patch: 0 });
    assert_eq!(current.version.prerelease, None);

    let mut state = State::new(None, None, vec![package]);
    state.tags = tags;
    state.commit_messages = strings(&["feat: New feature"]);
    let result = update_project_from_conventional_commits(RunType::Real(state), &None).unwrap();
    let state = match result {
        RunType::Real(state) => state,
        _ => panic!("expected a real run"),
    };
    assert_eq!(state.releases.len(), 1);
    match &state.releases[0] {
        ReleaseState::Prepared(release) => {
            assert_eq!(release.version, Version::parse("1.1.0").unwrap());
        },
        other => panic!("expected a prepared release, got {other:?}"),
    }
    assert_eq!(state.actions, Vec::<OutsideAction>::new());

    let result = knope::releases::release(RunType::Real(state)).unwrap();
    match result {
        RunType::Real(state) => {
            assert_eq!(
                state.actions,
                vec![OutsideAction::CreateTag { tag: String::from("v1.1.0") }]
            );
        },
        _ => panic!("expected a real run"),
    }
}

#[test]
fn tags_only_package_without_tags_starts_at_zero() {
    let current = get_version(
        vec![Package {
            name: None,
            versioned_files: Vec::new(),
            scopes: None,
            pending_changes: Vec::new(),
        }],
        &Vec::new(),
    )
    .unwrap();
    assert_eq!(current.version.stable, StableVersion { major: 0, minor: 0, patch: 0 });
    assert_eq!(current.version.prerelease, None);
}

#[test]
fn release_step_tags_the_repository() {
    let mut state = State::new(None, None, vec![package_at("2.0.0")]);
    state.releases.push(ReleaseState::Prepared(knope::state::Release {
        version: Version::parse("2.0.0").unwrap(),
        package_name: None,
        features: Vec::new(),
        fixes: Vec::new(),
        breaking_changes: Vec::new(),
    }));
    let result = knope::releases::release(RunType::Real(state)).unwrap();
    match result {
        RunType::Real(state) => {
            assert_eq!(
                state.actions,
                vec![OutsideAction::CreateTag { tag: String::from("v2.0.0") }]
            );
        },
        _ => panic!("expected a real run"),
    }
}

#[test]
fn release_step_without_prepared_release_fails() {
    let state = State::new(None, None, vec![package_at("2.0.0")]);
    let result = knope::releases::release(RunType::Real(state));
    assert_eq!(result.unwrap_err(), knope::errors::StepError::ReleaseNotPrepared);
}

#[test]
fn mod_replace_version() {
    let mut state = State::new(None, None, vec![package_at("1.2.3")]);
    state.commit_messages = strings(&["Initial"]);
    let workflow = Workflow {
        name: String::from("replace-version"),
        steps: vec![Step::Command {
            command: String::from("echo $version"),
            variables: Some(vec![(String::from("$version"), Variable::Version)]),
        }],
    };
    run(workflow, RunType::Real(state), Verbose::No).unwrap();
}

#[test]
fn set_prerelease_label_reaches_prepare_steps() {
    let mut workflow = Workflow {
        name: String::from("release"),
        steps: vec![
            Step::PrepareRelease { prerelease_label: None },
            Step::Release,
        ],
    };
    workflow.set_prerelease_label("rc");
    match &workflow.steps[0] {
        Step::PrepareRelease { prerelease_label } => {
            assert_eq!(prerelease_label.as_deref(), Some("rc"));
        },
        other => panic!("expected a prepare step, got {other:?}"),
    }
    assert!(matches!(workflow.steps[1], Step::Release));
}

#[test]
fn workflow_error_carries_workflow_name() {
    let workflow = Workflow {
        name: String::from("broken"),
        steps: vec![Step::Release],
    };
    let state = State::new(None, None, Vec::new());
    let err = run(workflow, RunType::Real(state), Verbose::Yes).unwrap_err();
    assert_eq!(err.name, "broken");
    assert_eq!(err.inner, knope::errors::StepError::ReleaseNotPrepared);
}

#[test]
fn validate_collects_failures() {
    let workflows = vec![
        Workflow { name: String::from("ok"), steps: Vec::new() },
        Workflow { name: String::from("bad"), steps: vec![Step::Release] },
    ];
    let state = State::new(None, None, Vec::new());
    let err = knope::workflow::validate(workflows, state, Verbose::No).unwrap_err();
    assert_eq!(err.errors.len(), 1);
    assert_eq!(err.errors[0].name, "bad");
}

#[test]
fn get_version_counts_packages() {
    assert_eq!(
        get_version(Vec::new(), &Vec::new()).unwrap_err(),
        knope::errors::StepError::NoDefinedPackages
    );
    assert_eq!(
        get_version(vec![package_at("1.0.0"), package_at("1.0.0")], &Vec::new()).unwrap_err(),
        knope::errors::StepError::TooManyPackages
    );
}

#[test]
fn get_version_resolves_prerelease_stable_from_tags() {
    let current = get_version(
        vec![package_at("1.1.0-rc.1")],
        &strings(&["v1.0.0"]),
    )
    .unwrap();
    assert_eq!(current.version.stable, StableVersion { major: 1, minor: 0, patch: 0 });
    assert_eq!(
        current.version.prerelease,
        Some(Version::parse("1.1.0-rc.1").unwrap())
    );
}
