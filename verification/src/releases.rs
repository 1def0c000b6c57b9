//! The release coordinator: resolving a package's current versions,
//! applying the winning rule, producing the file writes that record the
//! new version, and preparing releases from conventional commits and
//! changesets.

use vstd::prelude::*;

use crate::changesets::{distribute_spec, severity_spec, ChangeView};
use crate::conventional_commits::{
    analyze_commits, get_conventional_commits_after_last_stable_version, selected_commits,
};
use crate::errors::StepError;
use crate::package::{
    actions_spec, package_wf, Action, ActionsOutcome, GoVersioning, Package, PackageView,
};
use crate::semver::{
    bump, bump_ok_spec, cv_latest, ConventionalRule, CurrentVersions, CurrentVersionsView, Rule,
    RuleView,
};
use crate::state::{state_of, OutsideAction, Release, ReleaseState, RunType, State};
use crate::tags::{get_current_versions_from_tag, resolve_spec, tag_prefix};
use crate::text::{chars_vec_of, chars_of, string_from_chars};
use crate::version::{fmt_version, StableVersion, Version, VersionView};

verus! {

/// A package together with the current versions it stands at.
#[derive(Debug)]
pub struct PackageVersion {
    /// The current versions for the package.
    pub version: CurrentVersions,
    /// The package from which the version was derived, and which the
    /// bump applies to.
    pub package: Package,
}

impl PackageVersion {
    /// The latest of the package's current versions.
    pub fn latest_version(&self) -> (r: Version)
        ensures
            r@ == cv_latest(self.version@),
    {
        self.version.latest()
    }
}

/// The current versions of a package: its files' agreed version when
/// stable; for a prerelease recorded in the files, the last stable
/// release comes from the tag history (or `0.0.0` with none) and the
/// file version is the active prerelease. A package with no versioned
/// files takes its versions purely from the tag history, defaulting to
/// `0.0.0`.
pub open spec fn current_versions_spec(p: PackageView, tags: Seq<Seq<char>>)
    -> CurrentVersionsView {
    let st = resolve_spec(tags, tag_prefix(p.name));
    if p.versioned_files.len() == 0 {
        if st.stable is None {
            CurrentVersionsView {
                stable: StableVersion { major: 0, minor: 0, patch: 0 },
                prerelease: None,
            }
        } else {
            CurrentVersionsView { stable: st.stable->0, prerelease: st.prerelease }
        }
    } else {
        let v = p.versioned_files[0].version;
        match v {
            VersionView::Stable(s) => CurrentVersionsView { stable: s, prerelease: None },
            VersionView::Pre(_, _) => CurrentVersionsView {
                stable: match st.stable {
                    Some(s) => s,
                    None => StableVersion { major: 0, minor: 0, patch: 0 },
                },
                prerelease: Some(v),
            },
        }
    }
}

/// The current versions of `package`, per [`current_versions_spec`].
pub fn current_versions_of_package(package: &Package, tags: &Vec<String>) -> (r: CurrentVersions)
    requires
        package_wf(package@),
    ensures
        r@ == current_versions_spec(package@, tags@.map_values(|t: String| t@)),
{
    if package.versioned_files.len() == 0 {
        return match get_current_versions_from_tag(tags, &package.name) {
            Some(cv) => cv,
            None => CurrentVersions {
                stable: StableVersion { major: 0, minor: 0, patch: 0 },
                prerelease: None,
            },
        };
    }
    let version = package.get_version().duplicate();
    if version.is_prerelease() {
        let stable = match get_current_versions_from_tag(tags, &package.name) {
            Some(cv) => cv.stable,
            None => StableVersion { major: 0, minor: 0, patch: 0 },
        };
        CurrentVersions { stable, prerelease: Some(version) }
    } else {
        CurrentVersions { stable: version.stable_component(), prerelease: None }
    }
}

/// Resolves the one configured package and its current versions.
/// Exactly one package must be configured.
pub fn get_version(packages: Vec<Package>, tags: &Vec<String>) -> (r: Result<
    PackageVersion,
    StepError,
>)
    requires
        packages@.len() == 1 ==> package_wf(packages@[0]@),
    ensures
        packages@.len() == 0 ==> r == Err::<PackageVersion, StepError>(
            StepError::NoDefinedPackages,
        ),
        packages@.len() > 1 ==> r == Err::<PackageVersion, StepError>(StepError::TooManyPackages),
        packages@.len() == 1 ==> (r matches Ok(pv) && pv.package@ == packages@[0]@ && pv.version@
            == current_versions_spec(packages@[0]@, tags@.map_values(|t: String| t@))),
{
    if packages.len() == 0 {
        return Err(StepError::NoDefinedPackages);
    }
    if packages.len() > 1 {
        return Err(StepError::TooManyPackages);
    }
    let mut packages = packages;
    let package = packages.remove(0);
    let version = current_versions_of_package(&package, tags);
    Ok(PackageVersion { version, package })
}

/// Consumes a [`PackageVersion`], producing the writes that record its
/// latest version in every file, and that version.
pub fn set_version(package_version: PackageVersion, go_versioning: GoVersioning) -> (r: Result<
    (Version, Vec<Action>),
    StepError,
>)
    ensures
        ({
            let latest = cv_latest(package_version.version@);
            match actions_spec(package_version.package@.versioned_files, latest, go_versioning) {
                ActionsOutcome::All(acts) => r matches Ok((v, a)) && v@ == latest && a@.map_values(
                    |x: Action| x@,
                ) == acts,
                ActionsOutcome::MissingModule => r == Err::<(Version, Vec<Action>), StepError>(
                    StepError::MissingModuleLine,
                ),
                ActionsOutcome::Malformed(l) => r matches Err(e) && (e matches
                    StepError::MalformedModuleLine(m) && m@ == l),
            }
        }),
{
    let version = package_version.version.into_latest();
    match package_version.package.set_version(&version, go_versioning) {
        Ok(actions) => Ok((version, actions)),
        Err(e) => Err(e),
    }
}

/// What bumping the configured package under a rule yields: the new
/// latest version and the file writes recording it, or the first
/// failure along the way.
pub enum BumpOutcome {
    Made(VersionView, Seq<crate::package::ActionView>),
    NoPackages,
    TooManyPackages,
    Overflow,
    NoPrerelease,
    MissingModule,
    Malformed(Seq<char>),
}

/// The pipeline of one version bump: resolve the current versions,
/// apply the rule, and derive the file writes.
pub open spec fn bump_version_spec(
    packages: Seq<PackageView>,
    tags: Seq<Seq<char>>,
    rule: RuleView,
    go: GoVersioning,
) -> BumpOutcome {
    if packages.len() == 0 {
        BumpOutcome::NoPackages
    } else if packages.len() > 1 {
        BumpOutcome::TooManyPackages
    } else {
        let current = current_versions_spec(packages[0], tags);
        match bump_ok_spec(current, rule) {
            None => if rule is Release {
                BumpOutcome::NoPrerelease
            } else {
                BumpOutcome::Overflow
            },
            Some(next) => match actions_spec(packages[0].versioned_files, cv_latest(next), go) {
                ActionsOutcome::All(acts) => BumpOutcome::Made(cv_latest(next), acts),
                ActionsOutcome::MissingModule => BumpOutcome::MissingModule,
                ActionsOutcome::Malformed(l) => BumpOutcome::Malformed(l),
            },
        }
    }
}

/// Bumps the configured package's version under `rule` and yields the
/// new version with the writes that record it.
pub fn bump_version(rule: Rule, packages: Vec<Package>, tags: &Vec<String>, go_versioning:
    GoVersioning) -> (r: Result<(Version, Vec<Action>), StepError>)
    requires
        packages@.len() == 1 ==> package_wf(packages@[0]@),
    ensures
        ({
            let out = bump_version_spec(
                packages@.map_values(|p: Package| p@),
                tags@.map_values(|t: String| t@),
                rule@,
                go_versioning,
            );
            match out {
                BumpOutcome::Made(v, acts) => r matches Ok((rv, ra)) && rv@ == v && ra@.map_values(
                    |x: Action| x@,
                ) == acts,
                BumpOutcome::NoPackages => r == Err::<(Version, Vec<Action>), StepError>(
                    StepError::NoDefinedPackages,
                ),
                BumpOutcome::TooManyPackages => r == Err::<(Version, Vec<Action>), StepError>(
                    StepError::TooManyPackages,
                ),
                BumpOutcome::Overflow => r == Err::<(Version, Vec<Action>), StepError>(
                    StepError::VersionOverflow,
                ),
                BumpOutcome::NoPrerelease => r matches Err(e) && e matches
                    StepError::InvalidPreReleaseVersion(_),
                BumpOutcome::MissingModule => r == Err::<(Version, Vec<Action>), StepError>(
                    StepError::MissingModuleLine,
                ),
                BumpOutcome::Malformed(l) => r matches Err(e) && (e matches
                    StepError::MalformedModuleLine(m) && m@ == l),
            }
        }),
{
    let ghost pv0 = packages@.map_values(|p: Package| p@);
    let package_version = match get_version(packages, tags) {
        Ok(pv) => pv,
        Err(e) => {
            return Err(e);
        },
    };
    let bumped = match bump(package_version.version, rule) {
        Ok(b) => b,
        Err(e) => {
            return Err(e);
        },
    };
    set_version(
        PackageVersion { version: bumped, package: package_version.package },
        go_versioning,
    )
}

/// Bumps the version as a workflow step: computes the new version for
/// the single configured package and records a bare bump in the run's
/// releases. A dry run narrates the bump; a real run asks for the file
/// writes.
#[verifier::loop_isolation(false)]
pub fn bump_version_and_update_state(run_type: RunType, rule: Rule) -> (r: Result<
    RunType,
    StepError,
>)
    requires
        forall|i: int|
            0 <= i < state_of(run_type).packages@.len() ==> package_wf(
                #[trigger] state_of(run_type).packages@[i]@,
            ),
    ensures
        ({
            let st = state_of(run_type);
            let out = bump_version_spec(
                st.packages@.map_values(|p: Package| p@),
                st.tags@.map_values(|t: String| t@),
                rule@,
                GoVersioning::Standard,
            );
            match out {
                BumpOutcome::Made(v, acts) => {
                    if run_type is DryRun {
                        r matches Ok(RunType::DryRun { state: s2, stdout: out2 }) && (run_type
                            matches RunType::DryRun { state: s0, stdout: o0 }
                            && s2.releases@.len() == s0.releases@.len() + 1
                            && s2.releases@.take(s0.releases@.len() as int) == s0.releases@
                            && (s2.releases@.last() matches ReleaseState::Bumped(bv) && bv@ == v)
                            && s2.packages == s0.packages && s2.actions == s0.actions
                            && s2.github_config == s0.github_config && s2.issue == s0.issue
                            && s2.tags == s0.tags && s2.commit_messages == s0.commit_messages
                            && s2.changesets == s0.changesets && out2@.len() == o0@.len() + 1
                            && out2@.take(o0@.len() as int) == o0@ && out2@.last()@
                            == "Would bump version to "@ + fmt_version(v))
                    } else {
                        r matches Ok(RunType::Real(s2)) && (run_type matches RunType::Real(s0)
                            && s2.releases@.len() == s0.releases@.len() + 1
                            && s2.releases@.take(s0.releases@.len() as int) == s0.releases@
                            && (s2.releases@.last() matches ReleaseState::Bumped(bv) && bv@ == v)
                            && s2.packages == s0.packages && s2.github_config == s0.github_config
                            && s2.issue == s0.issue && s2.tags == s0.tags && s2.commit_messages
                            == s0.commit_messages && s2.changesets == s0.changesets
                            && s2.actions@.len() == s0.actions@.len() + acts.len()
                            && s2.actions@.take(s0.actions@.len() as int) == s0.actions@
                            && (forall|j: int|
                                0 <= j < acts.len() ==> (#[trigger] s2.actions@[s0.actions@.len()
                                    + j] matches OutsideAction::FileWrite(a) && a@ == acts[j])))
                    }
                },
                BumpOutcome::NoPackages => r == Err::<RunType, StepError>(
                    StepError::NoDefinedPackages,
                ),
                BumpOutcome::TooManyPackages => r == Err::<RunType, StepError>(
                    StepError::TooManyPackages,
                ),
                BumpOutcome::Overflow => r == Err::<RunType, StepError>(
                    StepError::VersionOverflow,
                ),
                BumpOutcome::NoPrerelease => r matches Err(e) && e matches
                    StepError::InvalidPreReleaseVersion(_),
                BumpOutcome::MissingModule => r == Err::<RunType, StepError>(
                    StepError::MissingModuleLine,
                ),
                BumpOutcome::Malformed(l) => r matches Err(e) && (e matches
                    StepError::MalformedModuleLine(m) && m@ == l),
            }
        }),
{
    let (state, dry_stdout) = match run_type {
        RunType::DryRun { state, stdout } => (state, Some(stdout)),
        RunType::Real(state) => (state, None),
    };
    if state.packages.len() == 0 {
        return Err(StepError::NoDefinedPackages);
    }
    if state.packages.len() > 1 {
        return Err(StepError::TooManyPackages);
    }
    let copy = state.packages[0].duplicate();
    let mut one: Vec<Package> = Vec::new();
    one.push(copy);
    proof {
        assert(one@.map_values(|p: Package| p@) =~= state.packages@.map_values(|p: Package| p@));
    }
    let State {
        github_config,
        issue,
        packages,
        mut releases,
        tags,
        commit_messages,
        changesets,
        mut actions,
    } = state;
    match bump_version(rule, one, &tags, GoVersioning::Standard) {
        Err(e) => Err(e),
        Ok((version, new_actions)) => {
            let ghost rel0 = releases@;
            releases.push(ReleaseState::Bumped(version.duplicate()));
            proof {
                assert(releases@.take(rel0.len() as int) =~= rel0);
            }
            match dry_stdout {
                Some(mut stdout) => {
                    let ghost out0 = stdout@;
                    let mut line = chars_vec_of("Would bump version to ");
                    let mut ver = version.to_chars();
                    line.append(&mut ver);
                    let text = string_from_chars(&line);
                    stdout.push(text);
                    proof {
                        assert(stdout@.take(out0.len() as int) =~= out0);
                    }
                    let state = State {
                        github_config,
                        issue,
                        packages,
                        releases,
                        tags,
                        commit_messages,
                        changesets,
                        actions,
                    };
                    Ok(RunType::DryRun { state, stdout })
                },
                None => {
                    let ghost act0 = actions@;
                    let ghost nav = new_actions@.map_values(|a: Action| a@);
                    let mut facts = new_actions;
                    let mut apushed: usize = 0;
                    let na_count = facts.len();
                    proof {
                        assert(nav.len() == na_count as int);
                    }
                    while facts.len() > 0
                        invariant
                            nav.len() <= usize::MAX,
                            apushed + facts@.len() == nav.len(),
                            forall|j: int|
                                0 <= j < facts@.len() ==> (#[trigger] facts@[j])@ == nav[apushed
                                    + j],
                            actions@.len() == act0.len() + apushed,
                            actions@.take(act0.len() as int) == act0,
                            forall|j: int|
                                0 <= j < apushed ==> (#[trigger] actions@[act0.len() + j] matches
                                    OutsideAction::FileWrite(a) && a@ == nav[j]),
                        decreases facts@.len(),
                    {
                        let ghost facts_before = facts@;
                        let act = facts.remove(0);
                        proof {
                            assert(facts@ =~= facts_before.skip(1));
                        }
                        actions.push(OutsideAction::FileWrite(act));
                        proof {
                            assert(actions@.take(act0.len() as int) =~= act0);
                        }
                        apushed = apushed + 1;
                    }
                    let state = State {
                        github_config,
                        issue,
                        packages,
                        releases,
                        tags,
                        commit_messages,
                        changesets,
                        actions,
                    };
                    Ok(RunType::Real(state))
                },
            }
        },
    }
}

/// Publishes the most recently prepared release: a tagged Git release,
/// or a GitHub release when GitHub is configured. Fails when no
/// prepared release exists.
pub fn release(run_type: RunType) -> (r: Result<RunType, StepError>)
    ensures
        ({
            let st = state_of(run_type);
            if st.releases@.len() == 0 || !(st.releases@.last() is Prepared) {
                r == Err::<RunType, StepError>(StepError::ReleaseNotPrepared)
            } else {
                let rel = st.releases@.last()->Prepared_0;
                let gh_tag = seq!['v'] + fmt_version(rel.version@);
                let git_tag = tag_prefix(
                    match rel.package_name {
                        Some(n) => Some(n@),
                        None => None,
                    },
                ) + fmt_version(rel.version@);
                if run_type is DryRun {
                    r matches Ok(RunType::DryRun { state: s2, stdout: out2 }) && (run_type matches
                        RunType::DryRun { state: s0, stdout: o0 } && s2 == s0 && out2@.len()
                        == o0@.len() + 1 && out2@.take(o0@.len() as int) == o0@ && (
                    match s0.github_config {
                        Some(_) => out2@.last()@ == "Would create a release on GitHub with tag "@
                            + gh_tag,
                        None => out2@.last()@ == "Would create Git tag "@ + git_tag,
                    }))
                } else {
                    r matches Ok(RunType::Real(s2)) && (run_type matches RunType::Real(s0)
                        && s2.packages == s0.packages && s2.releases == s0.releases
                        && s2.github_config == s0.github_config && s2.issue == s0.issue
                        && s2.tags == s0.tags && s2.commit_messages == s0.commit_messages
                        && s2.changesets == s0.changesets && s2.actions@.len() == s0.actions@.len()
                        + 1 && s2.actions@.take(s0.actions@.len() as int) == s0.actions@ && (
                    match s0.github_config {
                        Some(_) => s2.actions@.last() matches OutsideAction::CreateGitHubRelease {
                            tag_name,
                            name,
                            prerelease,
                        } && tag_name@ == gh_tag && name@ == fmt_version(rel.version@)
                            && prerelease == (rel.version@ is Pre),
                        None => s2.actions@.last() matches OutsideAction::CreateTag { tag } && tag@
                            == git_tag,
                    }))
                }
            }
        }),
{
    let (mut state, dry_stdout) = match run_type {
        RunType::DryRun { state, stdout } => (state, Some(stdout)),
        RunType::Real(state) => (state, None),
    };
    if state.releases.len() == 0 {
        return Err(StepError::ReleaseNotPrepared);
    }
    let (version, package_name) = match &state.releases[state.releases.len() - 1] {
        ReleaseState::Prepared(rel) => (
            rel.version.duplicate(),
            match &rel.package_name {
                Some(n) => Some(n.clone()),
                None => None,
            },
        ),
        ReleaseState::Bumped(_) => {
            return Err(StepError::ReleaseNotPrepared);
        },
    };
    let is_github = state.github_config.is_some();
    if is_github {
        let mut tag_chars: Vec<char> = Vec::new();
        tag_chars.push('v');
        let mut ver = version.to_chars();
        tag_chars.append(&mut ver);
        proof {
            assert(tag_chars@ =~= seq!['v'] + fmt_version(version@));
        }
        let tag_name = string_from_chars(&tag_chars);
        let name = version.render();
        let prerelease = version.is_prerelease();
        match dry_stdout {
            Some(mut stdout) => {
                let mut line = chars_vec_of("Would create a release on GitHub with tag ");
                let mut t = tag_chars;
                line.append(&mut t);
                stdout.push(string_from_chars(&line));
                Ok(RunType::DryRun { state, stdout })
            },
            None => {
                state.actions.push(
                    OutsideAction::CreateGitHubRelease { tag_name, name, prerelease },
                );
                Ok(RunType::Real(state))
            },
        }
    } else {
        let tag = crate::tags::tag_name(&version, &package_name);
        match dry_stdout {
            Some(mut stdout) => {
                let mut line = chars_vec_of("Would create Git tag ");
                let mut t = chars_of(&tag);
                line.append(&mut t);
                stdout.push(string_from_chars(&line));
                Ok(RunType::DryRun { state, stdout })
            },
            None => {
                state.actions.push(OutsideAction::CreateTag { tag });
                Ok(RunType::Real(state))
            },
        }
    }
}

// ---------------------------------------------------------------------
// Preparing releases
// ---------------------------------------------------------------------

/// The severity rank of a conventional rule.
pub open spec fn severity_level(r: ConventionalRule) -> int {
    match r {
        ConventionalRule::Patch => 0,
        ConventionalRule::Minor => 1,
        ConventionalRule::Major => 2,
    }
}

/// The more severe of two optional rules; either alone wins over none.
pub open spec fn combine_rules(a: Option<ConventionalRule>, b: Option<ConventionalRule>)
    -> Option<ConventionalRule> {
    match (a, b) {
        (None, x) => x,
        (Some(x), None) => Some(x),
        (Some(x), Some(y)) => if severity_level(x) >= severity_level(y) {
            Some(x)
        } else {
            Some(y)
        },
    }
}

/// The more severe of two optional rules.
fn combine(a: Option<ConventionalRule>, b: Option<ConventionalRule>) -> (r: Option<
    ConventionalRule,
>)
    ensures
        r == combine_rules(a, b),
{
    match (a, b) {
        (None, x) => x,
        (Some(x), None) => Some(x),
        (Some(x), Some(y)) => {
            let xl: u8 = match x {
                ConventionalRule::Patch => 0,
                ConventionalRule::Minor => 1,
                ConventionalRule::Major => 2,
            };
            let yl: u8 = match y {
                ConventionalRule::Patch => 0,
                ConventionalRule::Minor => 1,
                ConventionalRule::Major => 2,
            };
            if xl >= yl {
                Some(x)
            } else {
                Some(y)
            }
        },
    }
}

/// The maximal severity among a package's pending changes, if any
/// carries one.
pub open spec fn pending_rule(changes: Seq<ChangeView>) -> Option<ConventionalRule>
    decreases changes.len(),
{
    if changes.len() == 0 {
        None
    } else {
        combine_rules(pending_rule(changes.drop_last()), severity_spec(changes.last().change_type))
    }
}

/// The maximal severity among the pending changes.
fn pending_rule_of(changes: &Vec<crate::changesets::Change>) -> (r: Option<ConventionalRule>)
    ensures
        r == pending_rule(changes@.map_values(|c: crate::changesets::Change| c@)),
{
    let ghost cv = changes@.map_values(|c: crate::changesets::Change| c@);
    let mut acc: Option<ConventionalRule> = None;
    let mut i: usize = 0;
    proof {
        assert(cv.take(0) =~= Seq::<ChangeView>::empty());
    }
    while i < changes.len()
        invariant
            i <= changes@.len(),
            cv == changes@.map_values(|c: crate::changesets::Change| c@),
            acc == pending_rule(cv.take(i as int)),
        decreases changes@.len() - i,
    {
        proof {
            assert(cv.take(i + 1).drop_last() =~= cv.take(i as int));
            assert(cv.take(i + 1).last() == cv[i as int]);
        }
        let sev = changes[i].change_type.severity();
        acc = combine(acc, sev);
        i = i + 1;
    }
    proof {
        assert(cv.take(changes@.len() as int) =~= cv);
    }
    acc
}

/// The rule view a conventional rule stands for.
pub open spec fn rule_view_of(cr: ConventionalRule) -> RuleView {
    match cr {
        ConventionalRule::Major => RuleView::Major,
        ConventionalRule::Minor => RuleView::Minor,
        ConventionalRule::Patch => RuleView::Patch,
    }
}

/// The rule a prepared release applies: the winning conventional rule,
/// wrapped in a prerelease rule when a label is configured for the run.
pub open spec fn chosen_rule(base: ConventionalRule, label: Option<Seq<char>>) -> RuleView {
    match label {
        Some(l) => RuleView::Pre { label: l, stable_rule: base },
        None => rule_view_of(base),
    }
}

/// A release decision for one package: the version, the categorized
/// descriptions, and the writes that record the version.
pub struct ReleaseInfo {
    pub version: VersionView,
    pub package_name: Option<Seq<char>>,
    pub features: Seq<Seq<char>>,
    pub fixes: Seq<Seq<char>>,
    pub breaking_changes: Seq<Seq<char>>,
    pub actions: Seq<crate::package::ActionView>,
}

/// What preparing one package yields: nothing to release, a release
/// decision, or the first failure.
pub enum PrepOutcome {
    Skip,
    Made(ReleaseInfo),
    Overflow,
    MissingModule,
    Malformed(Seq<char>),
}

/// The release decision for one package: analyze its commits, take the
/// most severe of that rule and the pending changes' severities, skip
/// the package when neither yields one, else bump the current versions
/// and derive the writes.
pub open spec fn prepare_spec(
    p: PackageView,
    consider_scopes: bool,
    label: Option<Seq<char>>,
    msgs: Seq<Seq<char>>,
    tags: Seq<Seq<char>>,
    go: GoVersioning,
) -> PrepOutcome {
    let analysis = analyze_commits(selected_commits(msgs, consider_scopes, p.scopes));
    match combine_rules(analysis.rule, pending_rule(p.pending_changes)) {
        None => PrepOutcome::Skip,
        Some(base) => {
            let rule = chosen_rule(base, label);
            match bump_ok_spec(current_versions_spec(p, tags), rule) {
                None => PrepOutcome::Overflow,
                Some(next) => match actions_spec(p.versioned_files, cv_latest(next), go) {
                    ActionsOutcome::All(acts) => PrepOutcome::Made(
                        ReleaseInfo {
                            version: cv_latest(next),
                            package_name: p.name,
                            features: analysis.features,
                            fixes: analysis.fixes,
                            breaking_changes: analysis.breaking_changes,
                            actions: acts,
                        },
                    ),
                    ActionsOutcome::MissingModule => PrepOutcome::MissingModule,
                    ActionsOutcome::Malformed(l) => PrepOutcome::Malformed(l),
                },
            }
        },
    }
}

/// Whether a release value matches a release decision.
pub open spec fn release_matches(r: Release, info: ReleaseInfo) -> bool {
    &&& r.version@ == info.version
    &&& (match r.package_name {
        Some(n) => Some(n@),
        None => None,
    }) == info.package_name
    &&& r.features@.map_values(|s: String| s@) == info.features
    &&& r.fixes@.map_values(|s: String| s@) == info.fixes
    &&& r.breaking_changes@.map_values(|s: String| s@) == info.breaking_changes
}

/// Prepares one package's release: derives the winning rule from its
/// commits and pending changes, bumps the current versions under it
/// (wrapped in a prerelease rule when a label is configured), and
/// yields the release with the writes recording the new version; or
/// `None` when nothing calls for a release of this package.
pub fn prepare_release_for_package(
    package: Package,
    consider_scopes: bool,
    prerelease_label: &Option<String>,
    commit_messages: &Vec<String>,
    tags: &Vec<String>,
    go_versioning: GoVersioning,
) -> (r: Result<Option<(Release, Vec<Action>)>, StepError>)
    requires
        package_wf(package@),
    ensures
        ({
            let out = prepare_spec(
                package@,
                consider_scopes,
                match prerelease_label {
                    Some(l) => Some(l@),
                    None => None,
                },
                commit_messages@.map_values(|m: String| m@),
                tags@.map_values(|t: String| t@),
                go_versioning,
            );
            match out {
                PrepOutcome::Skip => r matches Ok(None),
                PrepOutcome::Made(info) => r matches Ok(Some((rel, acts))) && release_matches(
                    rel,
                    info,
                ) && acts@.map_values(|x: Action| x@) == info.actions,
                PrepOutcome::Overflow => r == Err::<Option<(Release, Vec<Action>)>, StepError>(
                    StepError::VersionOverflow,
                ),
                PrepOutcome::MissingModule => r == Err::<
                    Option<(Release, Vec<Action>)>,
                    StepError,
                >(StepError::MissingModuleLine),
                PrepOutcome::Malformed(l) => r matches Err(e) && (e matches
                    StepError::MalformedModuleLine(m) && m@ == l),
            }
        }),
{
    let cc = get_conventional_commits_after_last_stable_version(
        &package,
        consider_scopes,
        commit_messages,
    );
    let pend = pending_rule_of(&package.pending_changes);
    let base = match combine(cc.rule, pend) {
        None => {
            return Ok(None);
        },
        Some(b) => b,
    };
    let rule = match prerelease_label {
        Some(l) => Rule::Pre { label: l.clone(), stable_rule: base },
        None => Rule::from(base),
    };
    proof {
        assert(rule@ == chosen_rule(
            base,
            match prerelease_label {
                Some(l) => Some(l@),
                None => None,
            },
        ));
    }
    let current = current_versions_of_package(&package, tags);
    let name = match &package.name {
        Some(n) => Some(n.clone()),
        None => None,
    };
    let bumped = match bump(current, rule) {
        Ok(b) => b,
        Err(e) => {
            proof {
                assert(e == StepError::VersionOverflow);
            }
            return Err(e);
        },
    };
    let version = bumped.into_latest();
    let actions = match package.set_version(&version, go_versioning) {
        Ok(a) => a,
        Err(e) => {
            return Err(e);
        },
    };
    let release = Release {
        version,
        package_name: name,
        features: cc.features,
        fixes: cc.fixes,
        breaking_changes: cc.breaking_changes,
    };
    Ok(Some((release, actions)))
}

// ---------------------------------------------------------------------
// Preparing a whole run
// ---------------------------------------------------------------------

/// What preparing every package yields: the release decisions of the
/// packages that had changes, in order, or the first failure.
pub enum RunAllOutcome {
    Done(Seq<ReleaseInfo>),
    Overflow,
    MissingModule,
    Malformed(Seq<char>),
}

/// The release decisions across the packages, in configuration order;
/// the first failing package aborts the run.
pub open spec fn run_all_spec(
    packages: Seq<PackageView>,
    consider_scopes: bool,
    label: Option<Seq<char>>,
    msgs: Seq<Seq<char>>,
    tags: Seq<Seq<char>>,
    go: GoVersioning,
) -> RunAllOutcome
    decreases packages.len(),
{
    if packages.len() == 0 {
        RunAllOutcome::Done(Seq::empty())
    } else {
        match run_all_spec(packages.drop_last(), consider_scopes, label, msgs, tags, go) {
            RunAllOutcome::Done(infos) => match prepare_spec(
                packages.last(),
                consider_scopes,
                label,
                msgs,
                tags,
                go,
            ) {
                PrepOutcome::Skip => RunAllOutcome::Done(infos),
                PrepOutcome::Made(i) => RunAllOutcome::Done(infos.push(i)),
                PrepOutcome::Overflow => RunAllOutcome::Overflow,
                PrepOutcome::MissingModule => RunAllOutcome::MissingModule,
                PrepOutcome::Malformed(l) => RunAllOutcome::Malformed(l),
            },
            e => e,
        }
    }
}

/// Once a prefix of the packages fails, the whole run fails the same
/// way.
proof fn lemma_run_all_error_persists(
    packages: Seq<PackageView>,
    i: int,
    consider_scopes: bool,
    label: Option<Seq<char>>,
    msgs: Seq<Seq<char>>,
    tags: Seq<Seq<char>>,
    go: GoVersioning,
)
    requires
        0 <= i <= packages.len(),
        !(run_all_spec(packages.take(i), consider_scopes, label, msgs, tags, go) is Done),
    ensures
        run_all_spec(packages, consider_scopes, label, msgs, tags, go) == run_all_spec(
            packages.take(i),
            consider_scopes,
            label,
            msgs,
            tags,
            go,
        ),
    decreases packages.len() - i,
{
    if i < packages.len() {
        assert(packages.take(i + 1).drop_last() =~= packages.take(i));
        lemma_run_all_error_persists(packages, i + 1, consider_scopes, label, msgs, tags, go);
    } else {
        assert(packages.take(i) =~= packages);
    }
}

/// The file writes of all the decisions, in decision order.
pub open spec fn flatten_actions(infos: Seq<ReleaseInfo>) -> Seq<crate::package::ActionView>
    decreases infos.len(),
{
    if infos.len() == 0 {
        Seq::empty()
    } else {
        flatten_actions(infos.drop_last()) + infos.last().actions
    }
}

/// Whether any package declares commit scopes; scope filtering is
/// active exactly then.
pub open spec fn any_scopes_spec(packages: Seq<PackageView>) -> bool {
    exists|i: int| 0 <= i < packages.len() && (#[trigger] packages[i]).scopes is Some
}

/// Whether any of the packages declares commit scopes.
fn any_scopes(packages: &Vec<Package>) -> (r: bool)
    ensures
        r == any_scopes_spec(packages@.map_values(|p: Package| p@)),
{
    let ghost pv = packages@.map_values(|p: Package| p@);
    let mut i: usize = 0;
    while i < packages.len()
        invariant
            i <= packages@.len(),
            pv == packages@.map_values(|p: Package| p@),
            forall|j: int| 0 <= j < i ==> !((#[trigger] pv[j]).scopes is Some),
        decreases packages@.len() - i,
    {
        if packages[i].scopes.is_some() {
            proof {
                assert(pv[i as int].scopes is Some);
            }
            return true;
        }
        i = i + 1;
    }
    proof {
        if any_scopes_spec(pv) {
            let w = choose|w: int| 0 <= w < pv.len() && (#[trigger] pv[w]).scopes is Some;
        }
    }
    false
}

/// The line a dry run prints for one release decision.
pub open spec fn would_bump_line(info: ReleaseInfo) -> Seq<char> {
    "Would bump "@ + (match info.package_name {
        Some(n) => n,
        None => "package"@,
    }) + " version to "@ + fmt_version(info.version)
}

/// Builds the dry-run line for a prepared release.
fn render_would_bump(rel: &Release) -> (r: String)
    ensures
        ({
            let name = match rel.package_name {
                Some(ref n) => n@,
                None => "package"@,
            };
            r@ == "Would bump "@ + name + " version to "@ + fmt_version(rel.version@)
        }),
{
    let mut line = chars_vec_of("Would bump ");
    let mut name = match &rel.package_name {
        Some(n) => chars_of(n),
        None => chars_vec_of("package"),
    };
    line.append(&mut name);
    let mut mid = chars_vec_of(" version to ");
    line.append(&mut mid);
    let mut ver = rel.version.to_chars();
    line.append(&mut ver);
    proof {
        assert(line@ =~= "Would bump "@ + (match rel.package_name {
            Some(ref n) => n@,
            None => "package"@,
        }) + " version to "@ + fmt_version(rel.version@));
    }
    string_from_chars(&line)
}

/// Prepares a release for every configured package: distributes the
/// changeset entries, analyzes the commit history per package under
/// scope filtering, and decides each package's release independently.
/// A dry run narrates each decision and each changeset file that a
/// real run would delete; a real run asks for the file writes and the
/// deletions, and fails with no-release when no package had anything
/// to release.
#[verifier::rlimit(100)]
pub fn update_project_from_conventional_commits(
    run_type: RunType,
    prerelease_label: &Option<String>,
) -> (r: Result<RunType, StepError>)
    requires
        forall|i: int|
            0 <= i < state_of(run_type).packages@.len() ==> package_wf(
                #[trigger] state_of(run_type).packages@[i]@,
            ),
    ensures
        ({
            let st = state_of(run_type);
            let was_dry = run_type is DryRun;
            let label = match prerelease_label {
                Some(l) => Some(l@),
                None => None,
            };
            let dist = distribute_spec(
                st.packages@.map_values(|p: Package| p@),
                st.changesets@.map_values(|e: crate::changesets::ChangesetEntry| e@),
                label is Some,
            );
            let all = run_all_spec(
                dist.0,
                any_scopes_spec(st.packages@.map_values(|p: Package| p@)),
                label,
                st.commit_messages@.map_values(|m: String| m@),
                st.tags@.map_values(|t: String| t@),
                GoVersioning::Standard,
            );
            if st.packages@.len() == 0 {
                r == Err::<RunType, StepError>(StepError::NoDefinedPackages)
            } else {
                match all {
                    RunAllOutcome::Done(infos) => {
                        if was_dry {
                            r matches Ok(RunType::DryRun { state: s2, stdout: out2 })
                                && (run_type matches RunType::DryRun { state: s0, stdout: out0 }
                                && s2.packages@.map_values(|p: Package| p@) == dist.0
                                && s2.releases@.len() == s0.releases@.len() + infos.len()
                                && s2.releases@.take(s0.releases@.len() as int) == s0.releases@
                                && (forall|j: int|
                                    0 <= j < infos.len() ==> (#[trigger] s2.releases@[s0.releases@.len()
                                        + j] matches ReleaseState::Prepared(rel) && release_matches(
                                        rel,
                                        infos[j],
                                    )))
                                && s2.actions == s0.actions && s2.github_config == s0.github_config
                                && s2.issue == s0.issue && s2.tags == s0.tags
                                && s2.commit_messages == s0.commit_messages && s2.changesets
                                == s0.changesets
                                && out2@.len() == out0@.len() + infos.len() + dist.1.len()
                                && out2@.take(out0@.len() as int) == out0@
                                && (forall|j: int|
                                    0 <= j < infos.len() ==> (#[trigger] out2@[out0@.len() + j])@
                                        == would_bump_line(infos[j]))
                                && (forall|j: int|
                                    0 <= j < dist.1.len() ==> (#[trigger] out2@[out0@.len()
                                        + infos.len() + j])@ == "Would delete: "@ + dist.1[j]))
                        } else {
                            (run_type matches RunType::Real(s0) && (
                            if s0.releases@.len() + infos.len() == 0 {
                                r == Err::<RunType, StepError>(StepError::NoRelease)
                            } else {
                                r matches Ok(RunType::Real(s2))
                                    && s2.packages@.map_values(|p: Package| p@) == dist.0
                                    && s2.releases@.len() == s0.releases@.len() + infos.len()
                                    && s2.releases@.take(s0.releases@.len() as int) == s0.releases@
                                    && (forall|j: int|
                                        0 <= j < infos.len() ==> (#[trigger] s2.releases@[s0.releases@.len()
                                            + j] matches ReleaseState::Prepared(rel)
                                            && release_matches(rel, infos[j])))
                                    && s2.github_config == s0.github_config && s2.issue == s0.issue
                                    && s2.tags == s0.tags && s2.commit_messages
                                    == s0.commit_messages && s2.changesets == s0.changesets
                                    && s2.actions@.len() == s0.actions@.len() + flatten_actions(
                                    infos,
                                ).len() + dist.1.len()
                                    && s2.actions@.take(s0.actions@.len() as int) == s0.actions@
                                    && (forall|j: int|
                                        0 <= j < flatten_actions(infos).len() ==> (
                                        #[trigger] s2.actions@[s0.actions@.len() + j] matches
                                            OutsideAction::FileWrite(a) && a@ == flatten_actions(
                                            infos,
                                        )[j]))
                                    && (forall|j: int|
                                        0 <= j < dist.1.len() ==> (#[trigger] s2.actions@[s0.actions@.len()
                                            + flatten_actions(infos).len() + j] matches
                                            OutsideAction::DeleteChangeFile { file_name } && file_name@
                                            == dist.1[j]))
                            }))
                        }
                    },
                    RunAllOutcome::Overflow => r == Err::<RunType, StepError>(
                        StepError::VersionOverflow,
                    ),
                    RunAllOutcome::MissingModule => r == Err::<RunType, StepError>(
                        StepError::MissingModuleLine,
                    ),
                    RunAllOutcome::Malformed(l) => r matches Err(e) && (e matches
                        StepError::MalformedModuleLine(m) && m@ == l),
                }
            }
        }),
{
    let ghost rt0 = run_type;
    let ghost entry_pkgs: Seq<PackageView> = state_of(run_type).packages@.map_values(
        |p: Package| p@,
    );
    proof {
        assert forall|i: int| 0 <= i < entry_pkgs.len() implies package_wf(
            #[trigger] entry_pkgs[i],
        ) by {
            assert(entry_pkgs[i] == state_of(run_type).packages@[i]@);
        }
    }
    let (state, dry_stdout) = match run_type {
        RunType::DryRun { state, stdout } => (state, Some(stdout)),
        RunType::Real(state) => (state, None),
    };
    if state.packages.len() == 0 {
        return Err(StepError::NoDefinedPackages);
    }
    let consider_scopes = any_scopes(&state.packages);
    let is_pre = matches!(prerelease_label, Some(_));
    let State {
        github_config,
        issue,
        packages,
        releases,
        tags,
        commit_messages,
        changesets,
        actions,
    } = state;
    let ghost pv0 = packages@.map_values(|p: Package| p@);
    let ghost ev = changesets@.map_values(|e: crate::changesets::ChangesetEntry| e@);
    proof {
        assert(pv0 == entry_pkgs);
    }
    let ghost label = match prerelease_label {
        Some(l) => Some(l@),
        None => None::<Seq<char>>,
    };
    let ghost msgs = commit_messages@.map_values(|m: String| m@);
    let ghost tagv = tags@.map_values(|t: String| t@);
    let (packages, deletions) = crate::changesets::add_releases_from_changeset(
        packages,
        is_pre,
        &changesets,
    );
    let ghost dist = distribute_spec(pv0, ev, label is Some);
    proof {
        crate::changesets::lemma_distribute_preserves(pv0, ev, label is Some);
    }
    let ghost p2v = dist.0;
    let mut remaining = packages;
    let mut kept: Vec<Package> = Vec::new();
    let mut new_releases: Vec<Release> = Vec::new();
    let mut new_actions: Vec<Action> = Vec::new();
    let mut new_lines: Vec<String> = Vec::new();
    let ghost total = p2v.len();
    let mut done: usize = 0;
    proof {
        assert(p2v.take(0) =~= Seq::<PackageView>::empty());
        assert(remaining@.map_values(|p: Package| p@) =~= p2v.skip(0));
        assert(kept@.map_values(|p: Package| p@) =~= p2v.take(0));
    }
    while remaining.len() > 0
        invariant
            done + remaining@.len() == total,
            done == kept@.len(),
            total == p2v.len(),
            total <= usize::MAX,
            dist == distribute_spec(pv0, ev, label is Some),
            p2v == dist.0,
            forall|i: int| 0 <= i < pv0.len() ==> package_wf(#[trigger] pv0[i]),
            p2v.len() == pv0.len(),
            forall|i: int|
                0 <= i < pv0.len() ==> (#[trigger] p2v[i]).versioned_files
                    == pv0[i].versioned_files,
            remaining@.map_values(|p: Package| p@) == p2v.skip(done as int),
            kept@.map_values(|p: Package| p@) == p2v.take(done as int),
            ({
                match run_all_spec(
                    p2v.take(done as int),
                    consider_scopes,
                    label,
                    msgs,
                    tagv,
                    GoVersioning::Standard,
                ) {
                    RunAllOutcome::Done(infos) => new_releases@.len() == infos.len() && (forall|
                        j: int,
                    |
                        0 <= j < infos.len() ==> release_matches(
                            #[trigger] new_releases@[j],
                            infos[j],
                        )) && new_actions@.map_values(|a: Action| a@) == flatten_actions(infos)
                        && new_lines@.len() == infos.len() && (forall|j: int|
                        0 <= j < infos.len() ==> (#[trigger] new_lines@[j])@ == would_bump_line(
                            infos[j],
                        )),
                    _ => false,
                }
            }),
            consider_scopes == any_scopes_spec(pv0),
            label == (match prerelease_label {
                Some(l) => Some(l@),
                None => None::<Seq<char>>,
            }),
            msgs == commit_messages@.map_values(|m: String| m@),
            tagv == tags@.map_values(|t: String| t@),
            pv0.len() > 0,
            ({
                let st = state_of(run_type);
                st.packages@.map_values(|p: Package| p@) == pv0 && st.changesets@.map_values(
                    |e: crate::changesets::ChangesetEntry| e@,
                ) == ev && st.commit_messages@.map_values(|m: String| m@) == msgs
                    && st.tags@.map_values(|t: String| t@) == tagv
            }),
        decreases remaining@.len(),
    {
        let ghost i = done as int;
        proof {
            assert(p2v.take(i + 1).drop_last() =~= p2v.take(i));
            assert(p2v.take(i + 1).last() == p2v[i]);
            assert(remaining@.map_values(|p: Package| p@)[0] == p2v[i]);
            assert(package_wf(p2v[i])) by {
                assert(p2v[i].versioned_files == pv0[i].versioned_files);
            }
        }
        let ghost rem_before = remaining@;
        let package = remaining.remove(0);
        proof {
            assert(remaining@ =~= rem_before.skip(1));
            let rm = remaining@.map_values(|p: Package| p@);
            assert forall|j: int| 0 <= j < rm.len() implies #[trigger] rm[j] == p2v.skip(
                i + 1,
            )[j] by {
                assert(remaining@[j] == rem_before[j + 1]);
                assert(rem_before.map_values(|p: Package| p@)[j + 1] == p2v.skip(i)[j + 1]);
            }
            assert(rm =~= p2v.skip(i + 1));
        }
        let package_copy = package.duplicate();
        kept.push(package);
        proof {
            assert(kept@.map_values(|p: Package| p@) =~= p2v.take(i + 1));
        }
        match prepare_release_for_package(
            package_copy,
            consider_scopes,
            prerelease_label,
            &commit_messages,
            &tags,
            GoVersioning::Standard,
        ) {
            Ok(None) => {},
            Ok(Some((rel, mut acts))) => {
                let line = render_would_bump(&rel);
                new_releases.push(rel);
                new_lines.push(line);
                let ghost acts_before = new_actions@.map_values(|a: Action| a@);
                let ghost acts_new = acts@.map_values(|a: Action| a@);
                new_actions.append(&mut acts);
                proof {
                    let appended = new_actions@.map_values(|a: Action| a@);
                    assert(appended =~= acts_before + acts_new);
                    let prev = match run_all_spec(
                        p2v.take(i),
                        consider_scopes,
                        label,
                        msgs,
                        tagv,
                        GoVersioning::Standard,
                    ) {
                        RunAllOutcome::Done(x) => x,
                        _ => Seq::empty(),
                    };
                    match prepare_spec(
                        p2v[i],
                        consider_scopes,
                        label,
                        msgs,
                        tagv,
                        GoVersioning::Standard,
                    ) {
                        PrepOutcome::Made(info) => {
                            let infos = prev.push(info);
                            assert(run_all_spec(
                                p2v.take(i + 1),
                                consider_scopes,
                                label,
                                msgs,
                                tagv,
                                GoVersioning::Standard,
                            ) == RunAllOutcome::Done(infos));
                            assert(infos.drop_last() =~= prev);
                            assert(flatten_actions(infos) == flatten_actions(prev)
                                + info.actions);
                            assert(acts_new == info.actions);
                            assert(flatten_actions(infos) =~= acts_before + acts_new);
                        },
                        _ => {
                            assert(false);
                        },
                    }
                }
            },
            Err(e) => {
                proof {
                    lemma_run_all_error_persists(
                        p2v,
                        i + 1,
                        consider_scopes,
                        label,
                        msgs,
                        tagv,
                        GoVersioning::Standard,
                    );
                }
                return Err(e);
            },
        }
        done = done + 1;
    }
    proof {
        assert(p2v.take(total as int) =~= p2v);
    }
    let ghost infos_final = match run_all_spec(
        p2v,
        consider_scopes,
        label,
        msgs,
        tagv,
        GoVersioning::Standard,
    ) {
        RunAllOutcome::Done(infos) => infos,
        _ => Seq::empty(),
    };
    let mut releases = releases;
    let ghost rel0 = releases@;
    let ghost nrv = new_releases@;
    let mut rels = new_releases;
    let mut pushed: usize = 0;
    let nr_count = rels.len();
    proof {
        assert(nrv.len() == nr_count as int);
        assert(releases@.take(rel0.len() as int) =~= rel0);
    }
    while rels.len() > 0
        invariant
            nrv.len() <= usize::MAX,
            pushed + rels@.len() == nrv.len(),
            forall|j: int| 0 <= j < rels@.len() ==> #[trigger] rels@[j] == nrv[pushed + j],
            releases@.len() == rel0.len() + pushed,
            releases@.take(rel0.len() as int) == rel0,
            forall|j: int|
                0 <= j < pushed ==> #[trigger] releases@[rel0.len() + j]
                    == ReleaseState::Prepared(nrv[j]),
        decreases rels@.len(),
    {
        let ghost rels_before = rels@;
        let rel = rels.remove(0);
        proof {
            assert(rels@ =~= rels_before.skip(1));
        }
        releases.push(ReleaseState::Prepared(rel));
        proof {
            assert(releases@.take(rel0.len() as int) =~= rel0);
        }
        pushed = pushed + 1;
    }
    match dry_stdout {
        Some(stdout) => {
            let mut stdout = stdout;
            let ghost out0 = stdout@;
            let ghost nlv = new_lines@;
            let mut lines = new_lines;
            let mut lpushed: usize = 0;
            let nl_count = lines.len();
            proof {
                assert(nlv.len() == nl_count as int);
                assert(stdout@.take(out0.len() as int) =~= out0);
            }
            while lines.len() > 0
                invariant
                    nlv.len() <= usize::MAX,
                    lpushed + lines@.len() == nlv.len(),
                    forall|j: int| 0 <= j < lines@.len() ==> #[trigger] lines@[j] == nlv[lpushed + j],
                    stdout@.len() == out0.len() + lpushed,
                    stdout@.take(out0.len() as int) == out0,
                    forall|j: int|
                        0 <= j < lpushed ==> #[trigger] stdout@[out0.len() + j] == nlv[j],
                decreases lines@.len(),
            {
                let ghost lines_before = lines@;
                let line = lines.remove(0);
                proof {
                    assert(lines@ =~= lines_before.skip(1));
                }
                stdout.push(line);
                proof {
                    assert(stdout@.take(out0.len() as int) =~= out0);
                }
                lpushed = lpushed + 1;
            }
            let ghost dlv = deletions@;
            let mut dels = deletions;
            let mut dpushed: usize = 0;
            let nd_count = dels.len();
            proof {
                assert(dlv.len() == nd_count as int);
            }
            while dels.len() > 0
                invariant
                    dlv.len() <= usize::MAX,
                    dpushed + dels@.len() == dlv.len(),
                    forall|j: int| 0 <= j < dels@.len() ==> #[trigger] dels@[j] == dlv[dpushed + j],
                    stdout@.len() == out0.len() + nlv.len() + dpushed,
                    stdout@.take(out0.len() as int) == out0,
                    forall|j: int|
                        0 <= j < nlv.len() ==> #[trigger] stdout@[out0.len() + j] == nlv[j],
                    forall|j: int|
                        0 <= j < dpushed ==> (#[trigger] stdout@[out0.len() + nlv.len() + j])@
                            == "Would delete: "@ + dlv[j]@,
                decreases dels@.len(),
            {
                let ghost dels_before = dels@;
                let file_name = dels.remove(0);
                proof {
                    assert(dels@ =~= dels_before.skip(1));
                }
                let mut line = chars_vec_of("Would delete: ");
                let mut name_chars = chars_of(&file_name);
                line.append(&mut name_chars);
                stdout.push(string_from_chars(&line));
                proof {
                    assert(stdout@.take(out0.len() as int) =~= out0);
                }
                dpushed = dpushed + 1;
            }
            let state = State {
                github_config,
                issue,
                packages: kept,
                releases,
                tags,
                commit_messages,
                changesets,
                actions,
            };
            Ok(RunType::DryRun { state, stdout })
        },
        None => {
            if releases.len() == 0 {
                return Err(StepError::NoRelease);
            }
            let mut actions = actions;
            let ghost act0 = actions@;
            let ghost nav = new_actions@;
            let mut facts = new_actions;
            let mut apushed: usize = 0;
            let na_count = facts.len();
            proof {
                assert(nav.len() == na_count as int);
                assert(actions@.take(act0.len() as int) =~= act0);
            }
            while facts.len() > 0
                invariant
                    nav.len() <= usize::MAX,
                    apushed + facts@.len() == nav.len(),
                    forall|j: int| 0 <= j < facts@.len() ==> #[trigger] facts@[j] == nav[apushed + j],
                    actions@.len() == act0.len() + apushed,
                    actions@.take(act0.len() as int) == act0,
                    forall|j: int|
                        0 <= j < apushed ==> #[trigger] actions@[act0.len() + j]
                            == OutsideAction::FileWrite(nav[j]),
                decreases facts@.len(),
            {
                let ghost facts_before = facts@;
                let act = facts.remove(0);
                proof {
                    assert(facts@ =~= facts_before.skip(1));
                }
                actions.push(OutsideAction::FileWrite(act));
                proof {
                    assert(actions@.take(act0.len() as int) =~= act0);
                }
                apushed = apushed + 1;
            }
            let ghost dlv = deletions@;
            let mut dels = deletions;
            let mut dpushed: usize = 0;
            let nd_count = dels.len();
            proof {
                assert(dlv.len() == nd_count as int);
            }
            while dels.len() > 0
                invariant
                    dlv.len() <= usize::MAX,
                    dpushed + dels@.len() == dlv.len(),
                    forall|j: int| 0 <= j < dels@.len() ==> #[trigger] dels@[j] == dlv[dpushed + j],
                    actions@.len() == act0.len() + nav.len() + dpushed,
                    actions@.take(act0.len() as int) == act0,
                    forall|j: int|
                        0 <= j < nav.len() ==> #[trigger] actions@[act0.len() + j]
                            == OutsideAction::FileWrite(nav[j]),
                    forall|j: int|
                        0 <= j < dpushed ==> #[trigger] actions@[act0.len() + nav.len() + j]
                            == (OutsideAction::DeleteChangeFile { file_name: dlv[j] }),
                decreases dels@.len(),
            {
                let ghost dels_before = dels@;
                let d = dels.remove(0);
                proof {
                    assert(dels@ =~= dels_before.skip(1));
                }
                actions.push(OutsideAction::DeleteChangeFile { file_name: d });
                proof {
                    assert(actions@.take(act0.len() as int) =~= act0);
                }
                dpushed = dpushed + 1;
            }
            let state = State {
                github_config,
                issue,
                packages: kept,
                releases,
                tags,
                commit_messages,
                changesets,
                actions,
            };
            Ok(RunType::Real(state))
        },
    }
}

} // verus!