//! The state a release run threads through its steps: configuration,
//! collaborator-supplied inputs (tags, commit messages, changeset
//! entries), the releases decided so far, and the outside actions a
//! real run asks its collaborators to perform. A dry run records
//! human-readable lines instead of actions.

use vstd::prelude::*;

use crate::changesets::ChangesetEntry;
use crate::package::{Action, Package};
use crate::version::Version;

verus! {

/// Where releases are published.
#[derive(Clone, Debug, PartialEq, Eq)]
pub struct GitHubConfig {
    pub owner: String,
    pub repo: String,
}

/// An issue a workflow may select to work on.
#[derive(Clone, Debug, PartialEq, Eq)]
pub struct Issue {
    pub key: String,
    pub summary: String,
}

impl Issue {
    /// A copy of this issue, equal to the original.
    pub fn duplicate(&self) -> (r: Self)
        ensures
            r == *self,
    {
        Issue { key: self.key.clone(), summary: self.summary.clone() }
    }
}

/// Whether an issue has been selected yet.
#[derive(Clone, Debug, PartialEq, Eq)]
pub enum IssueState {
    Initial,
    Selected(Issue),
}

/// A prepared release: the version to publish and the categorized
/// change descriptions justifying it. Rendering them into changelog
/// markdown is a collaborator's concern.
#[derive(Clone, Debug, PartialEq, Eq)]
pub struct Release {
    pub version: Version,
    pub package_name: Option<String>,
    pub features: Vec<String>,
    pub fixes: Vec<String>,
    pub breaking_changes: Vec<String>,
}

/// What a version-changing step has produced so far.
#[derive(Clone, Debug, PartialEq, Eq)]
pub enum ReleaseState {
    /// A bare version bump, with no changelog content.
    Bumped(Version),
    /// A full prepared release.
    Prepared(Release),
}

/// One effect a real run asks its collaborators to perform. The engine
/// only decides; all I/O stays outside.
#[derive(Clone, Debug, PartialEq, Eq)]
pub enum OutsideAction {
    /// Run this shell command.
    RunCommand { command: String },
    /// Apply this write to a version-bearing file.
    FileWrite(Action),
    /// Create this tag at the current position.
    CreateTag { tag: String },
    /// Create a release on GitHub under this tag and name.
    CreateGitHubRelease { tag_name: String, name: String, prerelease: bool },
    /// Delete this consumed changeset file.
    DeleteChangeFile { file_name: String },
}

/// The state of one release run.
#[derive(Debug)]
pub struct State {
    pub github_config: Option<GitHubConfig>,
    pub issue: IssueState,
    pub packages: Vec<Package>,
    /// The releases decided so far in this run.
    pub releases: Vec<ReleaseState>,
    /// All ref names, as the version-control collaborator lists them.
    pub tags: Vec<String>,
    /// The commit messages since the last stable release, as the
    /// version-control collaborator lists them.
    pub commit_messages: Vec<String>,
    /// The changeset entries, as loaded from the changeset directory.
    pub changesets: Vec<ChangesetEntry>,
    /// The effects a real run has asked for so far, in order.
    pub actions: Vec<OutsideAction>,
}

impl State {
    /// A fresh run state: nothing decided, no actions asked for.
    pub fn new(github_config: Option<GitHubConfig>, issue: Option<Issue>, packages: Vec<Package>)
        -> (r: State)
        ensures
            r.github_config == github_config,
            match issue {
                Some(i) => r.issue == IssueState::Selected(i),
                None => r.issue == IssueState::Initial,
            },
            r.packages == packages,
            r.releases@ == Seq::<ReleaseState>::empty(),
            r.tags@ == Seq::<String>::empty(),
            r.commit_messages@ == Seq::<String>::empty(),
            r.changesets@ == Seq::<ChangesetEntry>::empty(),
            r.actions@ == Seq::<OutsideAction>::empty(),
    {
        State {
            github_config,
            issue: match issue {
                Some(i) => IssueState::Selected(i),
                None => IssueState::Initial,
            },
            packages,
            releases: Vec::new(),
            tags: Vec::new(),
            commit_messages: Vec::new(),
            changesets: Vec::new(),
            actions: Vec::new(),
        }
    }
}

/// The state a run type carries, dry or real.
pub open spec fn state_of(rt: RunType) -> State {
    match rt {
        RunType::DryRun { state, .. } => state,
        RunType::Real(state) => state,
    }
}

/// A run that applies its effects, or one that only describes them.
/// Both compute the same decisions; they differ only in whether the
/// outside actions are requested or narrated.
#[derive(Debug)]
pub enum RunType {
    DryRun { state: State, stdout: Vec<String> },
    Real(State),
}

} // verus!
