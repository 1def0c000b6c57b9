//! Conventional-commit analysis: which commits apply to a package under
//! scope filtering, and the bump rule plus categorized change
//! descriptions they yield.

use vstd::prelude::*;

use crate::package::Package;
use crate::semver::ConventionalRule;
use crate::text::{chars_of, str_eq};

verus! {

/// The pieces of one conventional commit the analyzer reads: its type,
/// optional scope, description, and optional breaking-change
/// description.
#[derive(Clone, Debug, PartialEq, Eq)]
pub struct ParsedCommit {
    pub commit_type: String,
    pub scope: Option<String>,
    pub description: String,
    pub breaking: Option<String>,
}

/// The mathematical value of a [`ParsedCommit`].
pub struct ParsedCommitView {
    pub commit_type: Seq<char>,
    pub scope: Option<Seq<char>>,
    pub description: Seq<char>,
    pub breaking: Option<Seq<char>>,
}

impl View for ParsedCommit {
    type V = ParsedCommitView;

    open spec fn view(&self) -> ParsedCommitView {
        ParsedCommitView {
            commit_type: self.commit_type@,
            scope: match self.scope {
                Some(ref s) => Some(s@),
                None => None,
            },
            description: self.description@,
            breaking: match self.breaking {
                Some(ref b) => Some(b@),
                None => None,
            },
        }
    }
}

/// What a commit message parses to under the Conventional Commits
/// grammar, if anything: the result depends on the message alone.
pub uninterp spec fn conventional_commit_of(message: Seq<char>) -> Option<ParsedCommitView>;

/// Relies on `git_conventional::Commit::parse` and its accessors
/// `type_`, `scope`, `description` and `breaking_description`: parsing
/// the trimmed message is a function of the message's characters, and
/// an unparseable message yields `None`.
#[verifier::external_body]
fn parse_commit(message: &str) -> (r: Option<ParsedCommit>)
    ensures
        match r {
            Some(c) => conventional_commit_of(message@) == Some(c@),
            None => conventional_commit_of(message@) is None,
        },
{
    git_conventional::Commit::parse(message.trim()).ok().map(
        |c| ParsedCommit {
            commit_type: c.type_().as_str().to_owned(),
            scope: c.scope().map(|s| s.as_str().to_owned()),
            description: c.description().to_owned(),
            breaking: c.breaking_description().map(str::to_owned),
        },
    )
}

/// The commit type that marks a feature.
pub open spec fn feat_type() -> Seq<char> {
    seq!['f', 'e', 'a', 't']
}

/// The commit type that marks a fix.
pub open spec fn fix_type() -> Seq<char> {
    seq!['f', 'i', 'x']
}

/// Whether `a` is `b` up to ASCII case, where `b` is a lowercase
/// letter.
pub open spec fn char_eq_ci(a: char, b: char) -> bool {
    a == b || (65 <= a as int <= 90 && a as int + 32 == b as int)
}

/// Whether a commit type spells the lowercase keyword `kw`, compared
/// ASCII-case-insensitively: commit types are case-insensitive in the
/// Conventional Commits grammar.
pub open spec fn type_matches(t: Seq<char>, kw: Seq<char>) -> bool {
    t.len() == kw.len() && forall|i: int| 0 <= i < kw.len() ==> char_eq_ci(t[i], #[trigger] kw[i])
}

/// Whether `a` equals the lowercase letter `b` up to ASCII case.
fn char_ci(a: char, b: char) -> (r: bool)
    ensures
        r == char_eq_ci(a, b),
{
    a == b || (a as u32 >= 65 && a as u32 <= 90 && a as u32 + 32 == b as u32)
}

/// Whether a commit type is `feat`, up to ASCII case.
fn is_feat_type(t: &String) -> (r: bool)
    ensures
        r == type_matches(t@, feat_type()),
{
    let chars = chars_of(t);
    if chars.len() != 4 {
        return false;
    }
    let ok = char_ci(chars[0], 'f') && char_ci(chars[1], 'e') && char_ci(chars[2], 'a')
        && char_ci(chars[3], 't');
    proof {
        if ok {
            assert forall|i: int| 0 <= i < 4 implies char_eq_ci(t@[i], feat_type()[i]) by {
                assert(chars@[i] == t@[i]);
            }
        } else {
            if type_matches(t@, feat_type()) {
                assert(char_eq_ci(chars@[0], 'f'));
                assert(char_eq_ci(chars@[1], 'e'));
                assert(char_eq_ci(chars@[2], 'a'));
                assert(char_eq_ci(chars@[3], 't'));
            }
        }
    }
    ok
}

/// Whether a commit type is `fix`, up to ASCII case.
fn is_fix_type(t: &String) -> (r: bool)
    ensures
        r == type_matches(t@, fix_type()),
{
    let chars = chars_of(t);
    if chars.len() != 3 {
        return false;
    }
    let ok = char_ci(chars[0], 'f') && char_ci(chars[1], 'i') && char_ci(chars[2], 'x');
    proof {
        if ok {
            assert forall|i: int| 0 <= i < 3 implies char_eq_ci(t@[i], fix_type()[i]) by {
                assert(chars@[i] == t@[i]);
            }
        } else {
            if type_matches(t@, fix_type()) {
                assert(char_eq_ci(chars@[0], 'f'));
                assert(char_eq_ci(chars@[1], 'i'));
                assert(char_eq_ci(chars@[2], 'x'));
            }
        }
    }
    ok
}

/// The analyzer's result: the derived bump rule, if any commit was
/// relevant, and the categorized change descriptions.
#[derive(Debug, PartialEq, Eq)]
pub struct ConventionalCommits {
    pub rule: Option<ConventionalRule>,
    pub features: Vec<String>,
    pub fixes: Vec<String>,
    pub breaking_changes: Vec<String>,
}

/// The mathematical value of a [`ConventionalCommits`].
pub struct AnalysisView {
    pub rule: Option<ConventionalRule>,
    pub features: Seq<Seq<char>>,
    pub fixes: Seq<Seq<char>>,
    pub breaking_changes: Seq<Seq<char>>,
}

impl View for ConventionalCommits {
    type V = AnalysisView;

    open spec fn view(&self) -> AnalysisView {
        AnalysisView {
            rule: self.rule,
            features: self.features@.map_values(|s: String| s@),
            fixes: self.fixes@.map_values(|s: String| s@),
            breaking_changes: self.breaking_changes@.map_values(|s: String| s@),
        }
    }
}

/// The analysis with nothing seen yet.
pub open spec fn empty_analysis() -> AnalysisView {
    AnalysisView {
        rule: None,
        features: Seq::empty(),
        fixes: Seq::empty(),
        breaking_changes: Seq::empty(),
    }
}

/// One commit's contribution. A breaking change forces the `Major`
/// rule and records its description; when that description is the
/// commit's own, it is not repeated in the other categories. A `feat`
/// records a feature and raises the rule to `Minor` unless it is
/// already `Major`; a `fix` records a fix and sets `Patch` only when no
/// rule is set yet; both types are read ASCII-case-insensitively. Any
/// other type contributes nothing.
pub open spec fn apply_commit(acc: AnalysisView, c: ParsedCommitView) -> AnalysisView {
    let seen = match c.breaking {
        Some(msg) => AnalysisView {
            rule: Some(ConventionalRule::Major),
            features: acc.features,
            fixes: acc.fixes,
            breaking_changes: acc.breaking_changes.push(msg),
        },
        None => acc,
    };
    if c.breaking matches Some(msg) && msg == c.description {
        seen
    } else if type_matches(c.commit_type, feat_type()) {
        AnalysisView {
            rule: if seen.rule == Some(ConventionalRule::Major) {
                seen.rule
            } else {
                Some(ConventionalRule::Minor)
            },
            features: seen.features.push(c.description),
            fixes: seen.fixes,
            breaking_changes: seen.breaking_changes,
        }
    } else if type_matches(c.commit_type, fix_type()) {
        AnalysisView {
            rule: if seen.rule is None {
                Some(ConventionalRule::Patch)
            } else {
                seen.rule
            },
            features: seen.features,
            fixes: seen.fixes.push(c.description),
            breaking_changes: seen.breaking_changes,
        }
    } else {
        seen
    }
}

/// The analysis of a commit list, in order.
pub open spec fn analyze_commits(commits: Seq<ParsedCommitView>) -> AnalysisView
    decreases commits.len(),
{
    if commits.len() == 0 {
        empty_analysis()
    } else {
        apply_commit(analyze_commits(commits.drop_last()), commits.last())
    }
}

/// Whether a commit applies to a package. With scope filtering off,
/// every commit applies. With it on, an unscoped commit applies to
/// every package; a scoped commit applies only to a package listing
/// that scope.
pub open spec fn commit_selected(
    c: ParsedCommitView,
    consider_scopes: bool,
    scopes: Option<Seq<Seq<char>>>,
) -> bool {
    if !consider_scopes {
        true
    } else {
        match c.scope {
            None => true,
            Some(sc) => match scopes {
                None => false,
                Some(list) => list.contains(sc),
            },
        }
    }
}

/// The commits that parse and pass scope filtering, in message order.
pub open spec fn selected_commits(
    msgs: Seq<Seq<char>>,
    consider_scopes: bool,
    scopes: Option<Seq<Seq<char>>>,
) -> Seq<ParsedCommitView>
    decreases msgs.len(),
{
    if msgs.len() == 0 {
        Seq::empty()
    } else {
        let prefix = selected_commits(msgs.drop_last(), consider_scopes, scopes);
        match conventional_commit_of(msgs.last()) {
            Some(c) => if commit_selected(c, consider_scopes, scopes) {
                prefix.push(c)
            } else {
                prefix
            },
            None => prefix,
        }
    }
}

/// Whether `scope` is one of the listed scopes.
fn scopes_contain(scopes: &Vec<String>, scope: &String) -> (r: bool)
    ensures
        r == scopes@.map_values(|s: String| s@).contains(scope@),
{
    let ghost sv = scopes@.map_values(|s: String| s@);
    let mut i: usize = 0;
    while i < scopes.len()
        invariant
            i <= scopes@.len(),
            sv == scopes@.map_values(|s: String| s@),
            forall|j: int| 0 <= j < i ==> sv[j] != scope@,
        decreases scopes@.len() - i,
    {
        if str_eq(scopes[i].as_str(), scope.as_str()) {
            proof {
                assert(sv[i as int] == scope@);
            }
            return true;
        }
        i = i + 1;
    }
    proof {
        if sv.contains(scope@) {
            let k = choose|k: int| 0 <= k < sv.len() && sv[k] == scope@;
            assert(sv[k] == scope@);
        }
    }
    false
}

impl ConventionalCommits {
    /// Analyzes a list of parsed commits, in order.
    pub fn from_commits(commits: Vec<ParsedCommit>) -> (r: Self)
        ensures
            r@ == analyze_commits(commits@.map_values(|c: ParsedCommit| c@)),
    {
        let ghost cv = commits@.map_values(|c: ParsedCommit| c@);
        let mut result = ConventionalCommits {
            rule: None,
            features: Vec::new(),
            fixes: Vec::new(),
            breaking_changes: Vec::new(),
        };
        proof {
            assert(cv.take(0) =~= Seq::<ParsedCommitView>::empty());
            assert(result@.features =~= Seq::<Seq<char>>::empty());
            assert(result@.fixes =~= Seq::<Seq<char>>::empty());
            assert(result@.breaking_changes =~= Seq::<Seq<char>>::empty());
        }
        let mut i: usize = 0;
        while i < commits.len()
            invariant
                i <= commits@.len(),
                cv == commits@.map_values(|c: ParsedCommit| c@),
                result@ == analyze_commits(cv.take(i as int)),
            decreases commits@.len() - i,
        {
            proof {
                assert(cv.take(i + 1).drop_last() =~= cv.take(i as int));
                assert(cv.take(i + 1).last() == cv[i as int]);
            }
            let ghost before = result@;
            let commit = &commits[i];
            let mut skip_categories = false;
            match &commit.breaking {
                Some(msg) => {
                    result.rule = Some(ConventionalRule::Major);
                    result.breaking_changes.push(msg.clone());
                    proof {
                        assert(result@.breaking_changes =~= before.breaking_changes.push(msg@));
                    }
                    if str_eq(msg.as_str(), commit.description.as_str()) {
                        skip_categories = true;
                    }
                },
                None => {},
            }
            if !skip_categories {
                let is_feat = is_feat_type(&commit.commit_type);
                if is_feat {
                    result.features.push(commit.description.clone());
                    proof {
                        assert(result@.features =~= analyze_commits(
                            cv.take(i as int),
                        ).features.push(cv[i as int].description));
                    }
                    if !matches!(result.rule, Some(ConventionalRule::Major)) {
                        result.rule = Some(ConventionalRule::Minor);
                    }
                } else {
                    let is_fix = is_fix_type(&commit.commit_type);
                    if is_fix {
                        if matches!(result.rule, None) {
                            result.rule = Some(ConventionalRule::Patch);
                        }
                        result.fixes.push(commit.description.clone());
                        proof {
                            assert(result@.fixes =~= analyze_commits(
                                cv.take(i as int),
                            ).fixes.push(cv[i as int].description));
                        }
                    }
                }
            }
            proof {
                assert(result@ == apply_commit(analyze_commits(cv.take(i as int)), cv[i as int]));
            }
            i = i + 1;
        }
        proof {
            assert(cv.take(commits@.len() as int) =~= cv);
        }
        result
    }

    /// Parses each message, keeps those that apply to the package under
    /// the scope rules, and analyzes them in order.
    pub fn from_commit_messages(
        commit_messages: &Vec<String>,
        consider_scopes: bool,
        package: &Package,
    ) -> (r: Self)
        ensures
            r@ == analyze_commits(
                selected_commits(
                    commit_messages@.map_values(|m: String| m@),
                    consider_scopes,
                    package@.scopes,
                ),
            ),
    {
        let ghost msgs = commit_messages@.map_values(|m: String| m@);
        let mut commits: Vec<ParsedCommit> = Vec::new();
        proof {
            assert(msgs.take(0) =~= Seq::<Seq<char>>::empty());
            assert(commits@.map_values(|c: ParsedCommit| c@) =~= Seq::<ParsedCommitView>::empty());
        }
        let mut i: usize = 0;
        while i < commit_messages.len()
            invariant
                i <= commit_messages@.len(),
                msgs == commit_messages@.map_values(|m: String| m@),
                commits@.map_values(|c: ParsedCommit| c@) == selected_commits(
                    msgs.take(i as int),
                    consider_scopes,
                    package@.scopes,
                ),
            decreases commit_messages@.len() - i,
    {
            proof {
                assert(msgs.take(i + 1).drop_last() =~= msgs.take(i as int));
                assert(msgs.take(i + 1).last() == msgs[i as int]);
            }
            match parse_commit(commit_messages[i].as_str()) {
                None => {},
                Some(commit) => {
                    let selected: bool = if !consider_scopes {
                        true
                    } else {
                        match &commit.scope {
                            None => true,
                            Some(scope) => match &package.scopes {
                                None => false,
                                Some(scopes) => scopes_contain(scopes, scope),
                            },
                        }
                    };
                    if selected {
                        let ghost before = commits@.map_values(|c: ParsedCommit| c@);
                        commits.push(commit);
                        proof {
                            assert(commits@.map_values(|c: ParsedCommit| c@) =~= before.push(
                                cv_of_last(commits@),
                            ));
                        }
                    }
                },
            }
            i = i + 1;
        }
        proof {
            assert(msgs.take(commit_messages@.len() as int) =~= msgs);
        }
        Self::from_commits(commits)
    }
}

/// The view of a vector's last commit.
spec fn cv_of_last(s: Seq<ParsedCommit>) -> ParsedCommitView {
    s.last()@
}

/// Derives the analyzer's result for one package from the commit
/// messages reachable since its last stable release, which the
/// version-control collaborator supplies.
pub fn get_conventional_commits_after_last_stable_version(
    package: &Package,
    consider_scopes: bool,
    commit_messages: &Vec<String>,
) -> (r: ConventionalCommits)
    ensures
        r@ == analyze_commits(
            selected_commits(
                commit_messages@.map_values(|m: String| m@),
                consider_scopes,
                package@.scopes,
            ),
        ),
{
    ConventionalCommits::from_commit_messages(commit_messages, consider_scopes, package)
}

} // verus!
