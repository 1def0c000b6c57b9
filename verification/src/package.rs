//! A logical package: one or more version-bearing files that must agree
//! on the current version, plus the configuration and pending changes
//! that drive its next release.

use vstd::prelude::*;

use crate::changesets::{Change, ChangeView};
use crate::errors::StepError;
use crate::gomod::{go_mod_spec, path_is_go_mod, GoModOutcome};
use crate::text::chars_of;
use crate::version::{
    fmt_version, parse_version_spec, stable_of, version_eq, Version, VersionView,
};

verus! {

/// One version-bearing file: its path, the version it currently
/// records, and its raw text (consulted only for Go module files).
#[derive(Clone, Debug, PartialEq, Eq)]
pub struct VersionedFile {
    pub path: String,
    pub version: Version,
    pub content: String,
}

/// The mathematical value of a [`VersionedFile`].
pub struct VersionedFileView {
    pub path: Seq<char>,
    pub version: VersionView,
    pub content: Seq<char>,
}

impl View for VersionedFile {
    type V = VersionedFileView;

    open spec fn view(&self) -> VersionedFileView {
        VersionedFileView { path: self.path@, version: self.version@, content: self.content@ }
    }
}

impl VersionedFile {
    /// Wraps one file handle: the version string the collaborator read
    /// from it must parse.
    pub fn new(path: String, raw_version: &str, content: String) -> (r: Result<Self, StepError>)
        ensures
            match r {
                Ok(f) => parse_version_spec(raw_version@) == Some(f@.version) && f@.path == path@
                    && f@.content == content@,
                Err(e) => parse_version_spec(raw_version@) is None && (e matches
                    StepError::InvalidSemanticVersion(m) && m@ == raw_version@),
            },
    {
        match Version::parse(raw_version) {
            Ok(version) => Ok(Self { path, version, content }),
            Err(e) => Err(e),
        }
    }

    /// The version this file currently records.
    pub fn get_version(&self) -> (r: &Version)
        ensures
            r == &self.version,
    {
        &self.version
    }

    /// A copy of this file handle, equal to the original.
    pub fn duplicate(&self) -> (r: Self)
        ensures
            r == *self,
    {
        Self {
            path: self.path.clone(),
            version: self.version.duplicate(),
            content: self.content.clone(),
        }
    }
}

/// Why a package could not be assembled.
#[derive(Debug)]
pub enum NewError {
    /// Two files disagree on the current version; both are carried for
    /// diagnostics.
    InconsistentVersions(Box<VersionedFile>, Box<VersionedFile>),
    /// Assembly from files needs at least one versioned file; a
    /// tags-only package is not built this way.
    NoPackages,
}

/// The file names the engine recognizes as version-bearing formats.
pub open spec fn known_versioned_file(file_name: Seq<char>) -> bool {
    file_name == "Cargo.toml"@ || file_name == "package.json"@ || file_name == "pyproject.toml"@
        || file_name == "go.mod"@
}

/// Why a configured versioned-file entry is unusable.
#[derive(Debug, PartialEq, Eq)]
pub enum VersionedFileError {
    /// The file name is not a recognized version-bearing format. The
    /// engine relies on the name to determine the file's type.
    Unknown { file_name: String, source_code: String, span: (usize, usize) },
    /// The file does not exist where the configuration declares it.
    Missing { path: String, source_code: String, span: (usize, usize) },
}

/// Validates one configured versioned-file entry against the formats
/// the engine recognizes and the collaborator's report of whether the
/// file exists; `source_code` and `span` locate the declaration for
/// diagnostics.
pub fn validate_versioned_file(
    path: String,
    file_name: String,
    exists: bool,
    source_code: String,
    span: (usize, usize),
) -> (r: Result<(), VersionedFileError>)
    ensures
        match r {
            Ok(_) => known_versioned_file(file_name@) && exists,
            Err(VersionedFileError::Unknown { file_name: f, .. }) => !known_versioned_file(
                file_name@,
            ) && f@ == file_name@,
            Err(VersionedFileError::Missing { path: p, .. }) => known_versioned_file(file_name@)
                && !exists && p@ == path@,
        },
{
    let known = crate::text::str_eq(file_name.as_str(), "Cargo.toml") || crate::text::str_eq(
        file_name.as_str(),
        "package.json",
    ) || crate::text::str_eq(file_name.as_str(), "pyproject.toml") || crate::text::str_eq(
        file_name.as_str(),
        "go.mod",
    );
    if !known {
        return Err(VersionedFileError::Unknown { file_name, source_code, span });
    }
    if !exists {
        return Err(VersionedFileError::Missing { path, source_code, span });
    }
    Ok(())
}

/// The first index whose version disagrees with the first file's,
/// scanning from `i`.
pub open spec fn first_conflict_from(files: Seq<VersionedFileView>, i: int) -> Option<int>
    decreases files.len() - i,
    when 0 <= i <= files.len()
{
    if i >= files.len() {
        None
    } else if files[i].version != files[0].version {
        Some(i)
    } else {
        first_conflict_from(files, i + 1)
    }
}

/// How to treat a Go module file when setting a version.
#[derive(Clone, Copy, Debug, PartialEq, Eq, Structural)]
pub enum GoVersioning {
    /// Apply the module-path major-version rule.
    Standard,
    /// Leave the module path alone and record the version like any
    /// other file.
    IgnoreMajorRules,
}

/// One write a collaborator must perform to set a package's version.
#[derive(Clone, Debug, PartialEq, Eq)]
pub enum Action {
    /// Record this version string in the file at `path`.
    WriteVersion { path: String, version: String },
    /// Replace the file at `path` with this text.
    WriteContent { path: String, content: String },
}

/// The mathematical value of an [`Action`].
pub enum ActionView {
    WriteVersion { path: Seq<char>, version: Seq<char> },
    WriteContent { path: Seq<char>, content: Seq<char> },
}

impl View for Action {
    type V = ActionView;

    open spec fn view(&self) -> ActionView {
        match self {
            Action::WriteVersion { path, version } => ActionView::WriteVersion {
                path: path@,
                version: version@,
            },
            Action::WriteContent { path, content } => ActionView::WriteContent {
                path: path@,
                content: content@,
            },
        }
    }
}

/// What setting a version does to one file, or why it fails.
pub enum FileActionOutcome {
    Act(ActionView),
    MissingModule,
    Malformed(Seq<char>),
}

/// The action one file takes: a Go module file under the standard
/// policy goes through the module-path rule on its text; every other
/// file simply records the new version's wire form.
pub open spec fn file_action_spec(
    f: VersionedFileView,
    nv: VersionView,
    go: GoVersioning,
) -> FileActionOutcome {
    if path_is_go_mod(f.path) && go is Standard {
        match go_mod_spec(f.content, stable_of(nv).major) {
            GoModOutcome::Unchanged => FileActionOutcome::Act(
                ActionView::WriteContent { path: f.path, content: f.content },
            ),
            GoModOutcome::Replaced(n) => FileActionOutcome::Act(
                ActionView::WriteContent { path: f.path, content: n },
            ),
            GoModOutcome::MissingModule => FileActionOutcome::MissingModule,
            GoModOutcome::Malformed(l) => FileActionOutcome::Malformed(l),
        }
    } else {
        FileActionOutcome::Act(ActionView::WriteVersion { path: f.path, version: fmt_version(nv) })
    }
}

/// What setting a version does across a package's files, first failure
/// winning.
pub enum ActionsOutcome {
    All(Seq<ActionView>),
    MissingModule,
    Malformed(Seq<char>),
}

/// With no conflict found from `i` on, every file from `i` on agrees
/// with the first.
proof fn lemma_no_conflict(files: Seq<VersionedFileView>, i: int)
    requires
        0 <= i <= files.len(),
        first_conflict_from(files, i) is None,
    ensures
        forall|j: int| i <= j < files.len() ==> #[trigger] files[j].version == files[0].version,
    decreases files.len() - i,
{
    if i < files.len() {
        lemma_no_conflict(files, i + 1);
    }
}

/// The actions for a file list, in order; the first failing file aborts
/// the whole operation.
pub open spec fn actions_spec(
    files: Seq<VersionedFileView>,
    nv: VersionView,
    go: GoVersioning,
) -> ActionsOutcome
    decreases files.len(),
{
    if files.len() == 0 {
        ActionsOutcome::All(Seq::empty())
    } else {
        match actions_spec(files.drop_last(), nv, go) {
            ActionsOutcome::All(acts) => match file_action_spec(files.last(), nv, go) {
                FileActionOutcome::Act(a) => ActionsOutcome::All(acts.push(a)),
                FileActionOutcome::MissingModule => ActionsOutcome::MissingModule,
                FileActionOutcome::Malformed(l) => ActionsOutcome::Malformed(l),
            },
            e => e,
        }
    }
}

/// Once a prefix of the files fails, the whole list fails the same way.
proof fn lemma_actions_error_persists(
    files: Seq<VersionedFileView>,
    i: int,
    nv: VersionView,
    go: GoVersioning,
)
    requires
        0 <= i <= files.len(),
        !(actions_spec(files.take(i), nv, go) is All),
    ensures
        actions_spec(files, nv, go) == actions_spec(files.take(i), nv, go),
    decreases files.len() - i,
{
    if i < files.len() {
        assert(files.take(i + 1).drop_last() =~= files.take(i));
        lemma_actions_error_persists(files, i + 1, nv, go);
    } else {
        assert(files.take(i) =~= files);
    }
}

/// A logical package.
#[derive(Clone, Debug, PartialEq, Eq)]
pub struct Package {
    /// The package's configured name, if any.
    pub name: Option<String>,
    /// The files that define the package's current version. Constructors
    /// establish and operations preserve [`package_wf`]: non-empty, all
    /// agreeing on one version.
    pub versioned_files: Vec<VersionedFile>,
    /// The commit scopes attributed to this package, if configured.
    pub scopes: Option<Vec<String>>,
    /// The changes collected for the upcoming release.
    pub pending_changes: Vec<Change>,
}

/// The mathematical value of a [`Package`].
pub struct PackageView {
    pub name: Option<Seq<char>>,
    pub versioned_files: Seq<VersionedFileView>,
    pub scopes: Option<Seq<Seq<char>>>,
    pub pending_changes: Seq<ChangeView>,
}

impl View for Package {
    type V = PackageView;

    open spec fn view(&self) -> PackageView {
        PackageView {
            name: match self.name {
                Some(ref n) => Some(n@),
                None => None,
            },
            versioned_files: self.versioned_files@.map_values(|f: VersionedFile| f@),
            scopes: match self.scopes {
                Some(ref s) => Some(s@.map_values(|x: String| x@)),
                None => None,
            },
            pending_changes: self.pending_changes@.map_values(|c: Change| c@),
        }
    }
}

/// The invariant every package maintains: all of its versioned files
/// agree on the current version. A package may also have no versioned
/// files at all, when its versions are discoverable purely from tags.
pub open spec fn package_wf(p: PackageView) -> bool {
    forall|i: int|
        0 <= i < p.versioned_files.len() ==> #[trigger] p.versioned_files[i].version
            == p.versioned_files[0].version
}

impl Package {
    /// Combines version-bearing files into one logical package. All
    /// files must agree on the current version, and there must be at
    /// least one; a package discoverable purely from tags carries no
    /// versioned files and is assembled directly instead, its versions
    /// coming from the tag history.
    pub fn new(versioned_files: Vec<VersionedFile>) -> (r: Result<Package, NewError>)
        ensures
            ({
                let fv = versioned_files@.map_values(|f: VersionedFile| f@);
                match r {
                    Ok(p) => p@.versioned_files == fv && package_wf(p@) && p@.name is None
                        && p@.scopes is None && p@.pending_changes == Seq::<ChangeView>::empty()
                        && fv.len() > 0,
                    Err(NewError::NoPackages) => fv.len() == 0,
                    Err(NewError::InconsistentVersions(a, b)) => fv.len() > 0 && ({
                        first_conflict_from(fv, 1) matches Some(k) && a@ == fv[0] && b@ == fv[k]
                    }),
                }
            }),
    {
        let ghost fv = versioned_files@.map_values(|f: VersionedFile| f@);
        if versioned_files.len() == 0 {
            return Err(NewError::NoPackages);
        }
        let mut i: usize = 1;
        while i < versioned_files.len()
            invariant
                1 <= i <= versioned_files@.len(),
                fv == versioned_files@.map_values(|f: VersionedFile| f@),
                first_conflict_from(fv, 1) == first_conflict_from(fv, i as int),
            decreases versioned_files@.len() - i,
        {
            if !version_eq(&versioned_files[i].version, &versioned_files[0].version) {
                return Err(
                    NewError::InconsistentVersions(
                        Box::new(versioned_files[0].duplicate()),
                        Box::new(versioned_files[i].duplicate()),
                    ),
                );
            }
            i = i + 1;
        }
        proof {
            lemma_no_conflict(fv, 1);
        }
        let pkg = Package { name: None, versioned_files, scopes: None, pending_changes: Vec::new() };
        proof {
            assert(pkg@.pending_changes =~= Seq::<ChangeView>::empty());
        }
        Ok(pkg)
    }

    /// The same package, under this name.
    pub fn with_name(self, name: String) -> (r: Package)
        ensures
            r@ == (PackageView { name: Some(name@), ..self@ }),
    {
        Package { name: Some(name), ..self }
    }

    /// The same package, with these commit scopes.
    pub fn with_scopes(self, scopes: Vec<String>) -> (r: Package)
        ensures
            r@ == (PackageView { scopes: Some(scopes@.map_values(|x: String| x@)), ..self@ }),
    {
        Package { scopes: Some(scopes), ..self }
    }

    /// The package's version-bearing files.
    pub fn versioned_files(&self) -> (r: &Vec<VersionedFile>)
        ensures
            r@.map_values(|f: VersionedFile| f@) == self@.versioned_files,
    {
        &self.versioned_files
    }

    /// The single version all the package's files agree on. Only a
    /// package with versioned files records a version of its own; a
    /// tags-only package's versions come from the tag history instead.
    pub fn get_version(&self) -> (r: &Version)
        requires
            package_wf(self@),
            self@.versioned_files.len() > 0,
        ensures
            r@ == self@.versioned_files[0].version,
    {
        &self.versioned_files[0].version
    }

    /// Appends a pending change.
    pub fn push_change(&mut self, change: Change)
        ensures
            final(self)@ == (PackageView {
                pending_changes: old(self)@.pending_changes.push(change@),
                ..old(self)@
            }),
    {
        self.pending_changes.push(change);
        proof {
            assert(self@.pending_changes =~= old(self)@.pending_changes.push(change@));
        }
    }

    /// A copy of this package with the same value.
    pub fn duplicate(&self) -> (r: Self)
        ensures
            r@ == self@,
    {
        let name = match &self.name {
            Some(n) => Some(n.clone()),
            None => None,
        };
        let mut files: Vec<VersionedFile> = Vec::new();
        let mut i: usize = 0;
        while i < self.versioned_files.len()
            invariant
                i <= self.versioned_files@.len(),
                files@.len() == i,
                forall|j: int| 0 <= j < i ==> #[trigger] files@[j] == self.versioned_files@[j],
            decreases self.versioned_files@.len() - i,
        {
            files.push(self.versioned_files[i].duplicate());
            i = i + 1;
        }
        proof {
            assert(files@ =~= self.versioned_files@);
        }
        let scopes = match &self.scopes {
            Some(list) => {
                let mut out: Vec<String> = Vec::new();
                let mut j: usize = 0;
                while j < list.len()
                    invariant
                        j <= list@.len(),
                        out@.len() == j,
                        forall|k: int| 0 <= k < j ==> #[trigger] out@[k] == list@[k],
                    decreases list@.len() - j,
                {
                    out.push(list[j].clone());
                    j = j + 1;
                }
                proof {
                    assert(out@ =~= list@);
                }
                Some(out)
            },
            None => None,
        };
        let mut changes: Vec<Change> = Vec::new();
        let mut k: usize = 0;
        while k < self.pending_changes.len()
            invariant
                k <= self.pending_changes@.len(),
                changes@.len() == k,
                forall|j: int| 0 <= j < k ==> #[trigger] changes@[j] == self.pending_changes@[j],
            decreases self.pending_changes@.len() - k,
        {
            changes.push(self.pending_changes[k].duplicate());
            k = k + 1;
        }
        proof {
            assert(changes@ =~= self.pending_changes@);
        }
        Package { name, versioned_files: files, scopes, pending_changes: changes }
    }

    /// The writes that set this package to `new_version`: one per file,
    /// in file order. A Go module file under the standard policy goes
    /// through the module-path rule and can fail; every other file
    /// records the version's wire form.
    pub fn set_version(self, new_version: &Version, go_versioning: GoVersioning) -> (r: Result<
        Vec<Action>,
        StepError,
    >)
        ensures
            match actions_spec(self@.versioned_files, new_version@, go_versioning) {
                ActionsOutcome::All(acts) => r matches Ok(v) && v@.map_values(|a: Action| a@)
                    == acts,
                ActionsOutcome::MissingModule => r == Err::<Vec<Action>, StepError>(
                    StepError::MissingModuleLine,
                ),
                ActionsOutcome::Malformed(l) => r matches Err(e) && (e matches
                    StepError::MalformedModuleLine(m) && m@ == l),
            },
    {
        let ghost fv = self@.versioned_files;
        let mut actions: Vec<Action> = Vec::new();
        let mut i: usize = 0;
        proof {
            assert(fv.take(0) =~= Seq::<VersionedFileView>::empty());
            assert(actions@.map_values(|a: Action| a@) =~= Seq::<ActionView>::empty());
        }
        while i < self.versioned_files.len()
            invariant
                i <= self.versioned_files@.len(),
                fv == self@.versioned_files,
                actions_spec(fv.take(i as int), new_version@, go_versioning)
                    == ActionsOutcome::All(actions@.map_values(|a: Action| a@)),
            decreases self.versioned_files@.len() - i,
        {
            proof {
                assert(fv.take(i + 1).drop_last() =~= fv.take(i as int));
                assert(fv.take(i + 1).last() == fv[i as int]);
            }
            let f = &self.versioned_files[i];
            let path_chars = chars_of(&f.path);
            let is_go = crate::gomod::is_go_mod_path(&path_chars);
            if is_go && matches!(go_versioning, GoVersioning::Standard) {
                match crate::gomod::set_version(f.content.clone(), new_version) {
                    Ok(content) => {
                        actions.push(Action::WriteContent { path: f.path.clone(), content });
                        proof {
                            assert(actions@.map_values(|a: Action| a@) =~= actions_spec(
                                fv.take(i + 1),
                                new_version@,
                                go_versioning,
                            )->All_0);
                        }
                    },
                    Err(e) => {
                        proof {
                            assert(!(actions_spec(fv.take(i + 1), new_version@, go_versioning)
                                is All));
                            lemma_actions_error_persists(fv, i + 1, new_version@, go_versioning);
                        }
                        return Err(e);
                    },
                }
            } else {
                let version = new_version.render();
                actions.push(Action::WriteVersion { path: f.path.clone(), version });
                proof {
                    assert(actions@.map_values(|a: Action| a@) =~= actions_spec(
                        fv.take(i + 1),
                        new_version@,
                        go_versioning,
                    )->All_0);
                }
            }
            i = i + 1;
        }
        proof {
            assert(fv.take(self.versioned_files@.len() as int) =~= fv);
        }
        Ok(actions)
    }
}

} // verus!
