//! The error vocabulary of the release engine. Every fallible operation
//! reports one of these variants; no error is raised out of band.

use vstd::prelude::*;

verus! {

/// An error from a single step of a release run.
#[derive(Clone, Debug, PartialEq, Eq)]
pub enum StepError {
    /// No package is configured for the run.
    NoDefinedPackages,
    /// More than one package is configured where exactly one is required.
    TooManyPackages,
    /// A version string did not parse as a semantic version.
    InvalidSemanticVersion(String),
    /// A prerelease was required but missing, or a prerelease component
    /// could not be produced.
    InvalidPreReleaseVersion(String),
    /// Two versioned files of one package disagree on the current version.
    InconsistentVersions(String, String),
    /// No package produced a rule, so there is nothing to release.
    NoRelease,
    /// A release step ran before any release was prepared.
    ReleaseNotPrepared,
    /// A command referred to the selected issue, but none is selected.
    NoIssueSelected,
    /// A command referred to the current version, but no release is
    /// decided yet and the package's files record no version.
    NoCurrentVersion,
    /// Incrementing a version component would overflow.
    VersionOverflow,
    /// A Go module file has no `module` line.
    MissingModuleLine,
    /// A Go module file's `module` line is malformed.
    MalformedModuleLine(String),
}

} // verus!
