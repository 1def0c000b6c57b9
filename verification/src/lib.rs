//! Release decision engine: semantic-version modelling, conventional-commit
//! analysis, changeset aggregation, tag resolution, and the package version
//! coordinator that ties them together.

pub mod changesets;
pub mod command;
pub mod conventional_commits;
pub mod errors;
pub mod gomod;
pub mod package;
pub mod releases;
pub mod semver;
pub mod state;
pub mod tags;
pub mod text;
pub mod version;
pub mod workflow;
