//! Variable substitution in command steps.

use knope::command::{branch_name_from_issue, replace_variables, Variable};
use knope::errors::StepError;
use knope::package::{Package, VersionedFile};
use knope::state::{Issue, IssueState, Release, ReleaseState, State};
use knope::version::Version;

fn packages() -> Vec<Package> {
    let file = VersionedFile::new(String::from("Cargo.toml"), "1.2.3-rc.0", String::new())
        .unwrap();
    vec![Package::new(vec![file]).unwrap()]
}

#[test]
fn multiple_variables() {
    let command = String::from("blah $$ branch_name");
    let variables = vec![
        (String::from("$$"), Variable::Version),
        (String::from("branch_name"), Variable::IssueBranch),
    ];
    let issue = Issue { key: String::from("13"), summary: String::from("1234") };
    let expected_branch_name = branch_name_from_issue(&issue);
    let state = State {
        github_config: None,
        issue: IssueState::Selected(issue),
        packages: packages(),
        releases: Vec::new(),
        tags: Vec::new(),
        commit_messages: Vec::new(),
        changesets: Vec::new(),
        actions: Vec::new(),
    };

    let command = replace_variables(command, &variables, &state).unwrap();

    assert_eq!(
        command,
        format!(
            "blah {} {}",
            state.packages[0].get_version().render(),
            expected_branch_name
        )
    );
}

#[test]
fn command_replace_version() {
    let command = String::from("blah $$ other blah");
    let variables = vec![(String::from("$$"), Variable::Version)];
    let state = State::new(None, None, packages());

    let command = replace_variables(command, &variables, &state).unwrap();

    assert_eq!(
        command,
        format!("blah {} other blah", state.packages[0].get_version().render())
    );
}

#[test]
fn replace_prepared_version() {
    let command = String::from("blah $$ other blah");
    let variables = vec![(String::from("$$"), Variable::Version)];
    let mut state = State::new(None, None, packages());
    let version = Version::new(1, 2, 3, None);
    state.releases.push(ReleaseState::Prepared(Release {
        version: version.clone(),
        package_name: None,
        features: Vec::new(),
        fixes: Vec::new(),
        breaking_changes: Vec::new(),
    }));

    let command = replace_variables(command, &variables, &state).unwrap();

    assert_eq!(command, format!("blah {} other blah", version.render()));
}

#[test]
fn replace_issue_branch() {
    let command = String::from("blah $$ other blah");
    let variables = vec![(String::from("$$"), Variable::IssueBranch)];
    let issue = Issue { key: String::from("13"), summary: String::from("1234") };
    let expected_branch_name = branch_name_from_issue(&issue);
    let state = State {
        github_config: None,
        issue: IssueState::Selected(issue),
        packages: Vec::new(),
        releases: Vec::new(),
        tags: Vec::new(),
        commit_messages: Vec::new(),
        changesets: Vec::new(),
        actions: Vec::new(),
    };

    let command = replace_variables(command, &variables, &state).unwrap();

    assert_eq!(command, format!("blah {expected_branch_name} other blah"));
}

#[test]
fn version_variable_without_packages_fails() {
    let command = String::from("blah $$");
    let variables = vec![(String::from("$$"), Variable::Version)];
    let state = State::new(None, None, Vec::new());

    let result = replace_variables(command, &variables, &state);
    assert_eq!(result, Err(StepError::NoDefinedPackages));
}

#[test]
fn version_variable_with_two_packages_fails() {
    let command = String::from("blah $$");
    let variables = vec![(String::from("$$"), Variable::Version)];
    let mut both = packages();
    both.extend(packages());
    let state = State::new(None, None, both);

    let result = replace_variables(command, &variables, &state);
    assert_eq!(result, Err(StepError::TooManyPackages));
}

#[test]
fn version_variable_without_current_version_fails() {
    // A tags-only package has no file-recorded version; before any
    // release is decided there is nothing to substitute.
    let command = String::from("blah $$");
    let variables = vec![(String::from("$$"), Variable::Version)];
    let state = State::new(
        None,
        None,
        vec![Package {
            name: None,
            versioned_files: Vec::new(),
            scopes: None,
            pending_changes: Vec::new(),
        }],
    );

    let result = replace_variables(command, &variables, &state);
    assert_eq!(result, Err(StepError::NoCurrentVersion));
}

#[test]
fn issue_branch_without_issue_fails() {
    let command = String::from("blah $$");
    let variables = vec![(String::from("$$"), Variable::IssueBranch)];
    let state = State::new(None, None, Vec::new());

    let result = replace_variables(command, &variables, &state);
    assert_eq!(result, Err(StepError::NoIssueSelected));
}
