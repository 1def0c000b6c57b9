//! Conventional-commit analysis on concrete commit lists, parsed by the
//! real grammar.

use knope::conventional_commits::ConventionalCommits;
use knope::package::{Package, VersionedFile};
use knope::semver::ConventionalRule;

fn plain_package() -> Package {
    let file = VersionedFile::new(String::from("Cargo.toml"), "1.0.0", String::new()).unwrap();
    Package::new(vec![file]).unwrap()
}

fn scoped_package(scopes: Option<Vec<String>>) -> Package {
    let package = plain_package();
    match scopes {
        Some(scopes) => package.with_scopes(scopes),
        None => package,
    }
}

fn analyze(messages: &[&str]) -> ConventionalCommits {
    let messages: Vec<String> = messages.iter().map(|m| String::from(*m)).collect();
    ConventionalCommits::from_commit_messages(&messages, false, &plain_package())
}

#[test]
fn non_breaking_features() {
    let conventional_commits = analyze(&["feat: add a feature", "feat: another feature"]);
    assert_eq!(conventional_commits.rule, Some(ConventionalRule::Minor));
    assert_eq!(
        conventional_commits.features,
        vec![String::from("add a feature"), String::from("another feature")]
    );
    assert_eq!(conventional_commits.fixes, Vec::<String>::new());
    assert_eq!(conventional_commits.breaking_changes, Vec::<String>::new());
}

#[test]
fn non_breaking_fixes() {
    let conventional_commits = analyze(&["fix: a bug", "fix: another bug"]);
    assert_eq!(conventional_commits.rule, Some(ConventionalRule::Patch));
    assert_eq!(
        conventional_commits.fixes,
        vec![String::from("a bug"), String::from("another bug")]
    );
    assert_eq!(conventional_commits.features, Vec::<String>::new());
    assert_eq!(conventional_commits.breaking_changes, Vec::<String>::new());
}

#[test]
fn mixed_fixes_and_features() {
    let conventional_commits = analyze(&["fix: a bug", "feat: add a feature"]);
    assert_eq!(conventional_commits.rule, Some(ConventionalRule::Minor));
    assert_eq!(conventional_commits.fixes, vec![String::from("a bug")]);
    assert_eq!(conventional_commits.features, vec![String::from("add a feature")]);
    assert_eq!(conventional_commits.breaking_changes, Vec::<String>::new());
}

#[test]
fn breaking_feature() {
    let conventional_commits = analyze(&[
        "fix: a bug",
        "feat!: add a feature",
        "feat: add another feature",
    ]);
    assert_eq!(conventional_commits.rule, Some(ConventionalRule::Major));
    assert_eq!(conventional_commits.fixes, vec![String::from("a bug")]);
    assert_eq!(
        conventional_commits.features,
        vec![String::from("add another feature")]
    );
    assert_eq!(
        conventional_commits.breaking_changes,
        vec![String::from("add a feature")]
    );
}

#[test]
fn breaking_fix() {
    let conventional_commits = analyze(&[
        "fix!: a bug",
        "fix: another bug",
        "feat: add a feature",
    ]);
    assert_eq!(conventional_commits.rule, Some(ConventionalRule::Major));
    assert_eq!(conventional_commits.fixes, vec![String::from("another bug")]);
    assert_eq!(conventional_commits.features, vec![String::from("add a feature")]);
    assert_eq!(conventional_commits.breaking_changes, vec![String::from("a bug")]);
}

#[test]
fn fix_with_separate_breaking_message() {
    let conventional_commits = analyze(&[
        "fix: a bug\n\nBREAKING CHANGE: something broke",
        "fix: another bug",
        "feat: add a feature",
    ]);
    assert_eq!(conventional_commits.rule, Some(ConventionalRule::Major));
    assert_eq!(
        conventional_commits.fixes,
        vec![String::from("a bug"), String::from("another bug")]
    );
    assert_eq!(conventional_commits.features, vec![String::from("add a feature")]);
    assert_eq!(
        conventional_commits.breaking_changes,
        vec![String::from("something broke")]
    );
}

#[test]
fn feature_with_separate_breaking_message() {
    let conventional_commits = analyze(&[
        "feat: add a feature\n\nBREAKING CHANGE: something broke",
        "fix: a bug",
        "feat: add another feature",
    ]);
    assert_eq!(conventional_commits.rule, Some(ConventionalRule::Major));
    assert_eq!(conventional_commits.fixes, vec![String::from("a bug")]);
    assert_eq!(
        conventional_commits.features,
        vec![String::from("add a feature"), String::from("add another feature")]
    );
    assert_eq!(
        conventional_commits.breaking_changes,
        vec![String::from("something broke")]
    );
}

#[test]
fn no_commits() {
    let conventional_commits = analyze(&[]);
    assert_eq!(conventional_commits.rule, None);
    assert_eq!(conventional_commits.fixes, Vec::<String>::new());
    assert_eq!(conventional_commits.features, Vec::<String>::new());
    assert_eq!(conventional_commits.breaking_changes, Vec::<String>::new());
}

#[test]
fn dont_consider_scopes() {
    let commits: Vec<String> = [
        "feat(wrong_scope)!: Wrong scope breaking change!",
        "fix: No scope",
    ]
    .iter()
    .map(|m| String::from(*m))
    .collect();
    let conventional_commits = ConventionalCommits::from_commit_messages(
        &commits,
        false,
        &scoped_package(Some(vec![String::from("scope")])),
    );
    assert_eq!(conventional_commits.rule, Some(ConventionalRule::Major));
}

#[test]
fn consider_scopes_but_none_defined() {
    let commits: Vec<String> = [
        "feat(scope)!: Wrong scope breaking change!",
        "fix: No scope",
    ]
    .iter()
    .map(|m| String::from(*m))
    .collect();
    let conventional_commits = ConventionalCommits::from_commit_messages(
        &commits,
        true,
        &scoped_package(None),
    );
    assert_eq!(conventional_commits.rule, Some(ConventionalRule::Patch));
}

#[test]
fn consider_scopes() {
    let commits: Vec<String> = [
        "feat(wrong_scope)!: Wrong scope breaking change!",
        "feat(scope): Right scope feature",
        "fix: No scope",
    ]
    .iter()
    .map(|m| String::from(*m))
    .collect();
    let conventional_commits = ConventionalCommits::from_commit_messages(
        &commits,
        true,
        &scoped_package(Some(vec![String::from("scope")])),
    );
    assert_eq!(conventional_commits.rule, Some(ConventionalRule::Minor));
}

#[test]
fn breaking_marker_wins_over_fix() {
    let conventional_commits = analyze(&["fix: a", "feat!: b"]);
    assert_eq!(conventional_commits.rule, Some(ConventionalRule::Major));
    assert_eq!(conventional_commits.breaking_changes, vec![String::from("b")]);
    assert_eq!(conventional_commits.features, Vec::<String>::new());
    assert_eq!(conventional_commits.fixes, vec![String::from("a")]);
}

#[test]
fn feature_wins_over_fix() {
    let conventional_commits = analyze(&["fix: a", "feat: b"]);
    assert_eq!(conventional_commits.rule, Some(ConventionalRule::Minor));
}

#[test]
fn commit_types_are_case_insensitive() {
    let conventional_commits = analyze(&["FEAT: shouted feature", "Fix: polite bug"]);
    assert_eq!(conventional_commits.rule, Some(ConventionalRule::Minor));
    assert_eq!(
        conventional_commits.features,
        vec![String::from("shouted feature")]
    );
    assert_eq!(conventional_commits.fixes, vec![String::from("polite bug")]);
}

#[test]
fn scope_attribution() {
    let commits: Vec<String> = ["feat(core): x", "fix(other): y", "feat: z"]
        .iter()
        .map(|m| String::from(*m))
        .collect();
    let conventional_commits = ConventionalCommits::from_commit_messages(
        &commits,
        true,
        &scoped_package(Some(vec![String::from("core")])),
    );
    assert_eq!(conventional_commits.rule, Some(ConventionalRule::Minor));
    assert_eq!(
        conventional_commits.features,
        vec![String::from("x"), String::from("z")]
    );
    assert_eq!(conventional_commits.fixes, Vec::<String>::new());
}
