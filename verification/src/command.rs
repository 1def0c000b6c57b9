//! Command steps: substituting the current version and the selected
//! issue's branch name into a configured shell command, and deciding
//! what a command step does under a dry or a real run.

use vstd::prelude::*;

use crate::errors::StepError;
use crate::package::package_wf;
use crate::state::{Issue, IssueState, OutsideAction, ReleaseState, RunType, State};
use crate::text::{chars_of, string_from_chars};
use crate::version::fmt_version;

verus! {

/// A value that can replace a placeholder in a command string.
#[derive(Clone, Copy, Debug, PartialEq, Eq, Structural)]
pub enum Variable {
    /// The version being released (or the current one, before any
    /// release is prepared).
    Version,
    /// The branch name generated for the selected issue.
    IssueBranch,
}

/// What replacing every occurrence of a pattern yields: the result
/// depends on the three strings alone.
pub uninterp spec fn replace_of(s: Seq<char>, from: Seq<char>, to: Seq<char>) -> Seq<char>;

/// Relies on `str::replace`: it replaces every non-overlapping
/// occurrence of `from` with `to`, left to right, as a function of the
/// three strings.
#[verifier::external_body]
fn replace_all(s: &str, from: &str, to: &str) -> (r: String)
    ensures
        r@ == replace_of(s@, from@, to@),
{
    s.replace(from, to)
}

/// The branch name derived from an issue: its key, a dash, its summary.
pub open spec fn branch_name_spec(issue: Issue) -> Seq<char> {
    issue.key@ + seq!['-'] + issue.summary@
}

/// The branch name for the selected issue.
pub fn branch_name_from_issue(issue: &Issue) -> (r: String)
    ensures
        r@ == branch_name_spec(*issue),
{
    let mut v = chars_of(&issue.key);
    v.push('-');
    let mut s = chars_of(&issue.summary);
    v.append(&mut s);
    proof {
        assert(v@ =~= branch_name_spec(*issue));
    }
    string_from_chars(&v)
}

/// The version text a command's `Version` variable stands for: the
/// version of the most recently decided release, or, before any, the
/// version the single package's files record.
pub open spec fn command_version_text(state: &State) -> Seq<char> {
    if state.releases@.len() > 0 {
        match state.releases@.last() {
            ReleaseState::Bumped(v) => fmt_version(v@),
            ReleaseState::Prepared(r) => fmt_version(r.version@),
        }
    } else {
        fmt_version(state.packages@[0]@.versioned_files[0].version)
    }
}

/// Whether the state can answer a command's `Version` variable at all:
/// either a release has been decided, or the single package's files
/// record a version. A tags-only package with nothing decided yet has
/// no current version to substitute.
pub open spec fn command_version_known(state: &State) -> bool {
    state.releases@.len() > 0 || (state.packages@.len() == 1
        && state.packages@[0]@.versioned_files.len() > 0)
}

/// The branch a command's `IssueBranch` variable stands for, if an
/// issue is selected.
pub open spec fn state_branch(state: &State) -> Option<Seq<char>> {
    match state.issue {
        IssueState::Initial => None,
        IssueState::Selected(i) => Some(branch_name_spec(i)),
    }
}

/// What variable substitution yields, or why it fails.
pub enum ReplaceOutcome {
    Done(Seq<char>),
    TooManyPackages,
    NoPackages,
    NoVersion,
    NoIssue,
}

/// Substitution of the variables into the command, in order. A
/// `Version` variable needs exactly one package; an `IssueBranch`
/// variable needs a selected issue; the first violation decides the
/// failure.
pub open spec fn replace_spec(
    cmd: Seq<char>,
    vars: Seq<(Seq<char>, Variable)>,
    n_packages: int,
    version_known: bool,
    version_text: Seq<char>,
    branch: Option<Seq<char>>,
) -> ReplaceOutcome
    decreases vars.len(),
{
    if vars.len() == 0 {
        ReplaceOutcome::Done(cmd)
    } else {
        match replace_spec(cmd, vars.drop_last(), n_packages, version_known, version_text, branch) {
            ReplaceOutcome::Done(c) => {
                let pair = vars.last();
                match pair.1 {
                    Variable::Version => if n_packages > 1 {
                        ReplaceOutcome::TooManyPackages
                    } else if n_packages == 0 {
                        ReplaceOutcome::NoPackages
                    } else if !version_known {
                        ReplaceOutcome::NoVersion
                    } else {
                        ReplaceOutcome::Done(replace_of(c, pair.0, version_text))
                    },
                    Variable::IssueBranch => match branch {
                        None => ReplaceOutcome::NoIssue,
                        Some(b) => ReplaceOutcome::Done(replace_of(c, pair.0, b)),
                    },
                }
            },
            e => e,
        }
    }
}

/// Once substitution has failed on a prefix of the variables, the whole
/// list fails the same way.
proof fn lemma_replace_error_persists(
    cmd: Seq<char>,
    vars: Seq<(Seq<char>, Variable)>,
    i: int,
    n_packages: int,
    version_known: bool,
    version_text: Seq<char>,
    branch: Option<Seq<char>>,
)
    requires
        0 <= i <= vars.len(),
        !(replace_spec(cmd, vars.take(i), n_packages, version_known, version_text, branch)
            is Done),
    ensures
        replace_spec(cmd, vars, n_packages, version_known, version_text, branch) == replace_spec(
            cmd,
            vars.take(i),
            n_packages,
            version_known,
            version_text,
            branch,
        ),
    decreases vars.len() - i,
{
    if i < vars.len() {
        assert(vars.take(i + 1).drop_last() =~= vars.take(i));
        lemma_replace_error_persists(
            cmd,
            vars,
            i + 1,
            n_packages,
            version_known,
            version_text,
            branch,
        );
    } else {
        assert(vars.take(i) =~= vars);
    }
}

/// The version text, as a string.
fn render_command_version(state: &State) -> (r: String)
    requires
        state.packages@.len() == 1 ==> package_wf(state.packages@[0]@),
        command_version_known(state),
    ensures
        r@ == command_version_text(state),
{
    if state.releases.len() > 0 {
        match &state.releases[state.releases.len() - 1] {
            ReleaseState::Bumped(v) => v.render(),
            ReleaseState::Prepared(r) => r.version.render(),
        }
    } else {
        state.packages[0].get_version().render()
    }
}

/// Replaces each declared variable in the command with the value it
/// stands for, in declaration order.
pub fn replace_variables(command: String, variables: &Vec<(String, Variable)>, state: &State) -> (r:
    Result<String, StepError>)
    requires
        state.packages@.len() == 1 ==> package_wf(state.packages@[0]@),
    ensures
        ({
            let out = replace_spec(
                command@,
                variables@.map_values(|p: (String, Variable)| (p.0@, p.1)),
                state.packages@.len() as int,
                command_version_known(state),
                command_version_text(state),
                state_branch(state),
            );
            match r {
                Ok(c) => out == ReplaceOutcome::Done(c@),
                Err(e) => (out == ReplaceOutcome::TooManyPackages && e
                    == StepError::TooManyPackages) || (out == ReplaceOutcome::NoPackages && e
                    == StepError::NoDefinedPackages) || (out == ReplaceOutcome::NoVersion && e
                    == StepError::NoCurrentVersion) || (out == ReplaceOutcome::NoIssue && e
                    == StepError::NoIssueSelected),
            }
        }),
{
    let ghost vars = variables@.map_values(|p: (String, Variable)| (p.0@, p.1));
    let ghost cmd0 = command@;
    let ghost n_packages = state.packages@.len() as int;
    let ghost version_known = command_version_known(state);
    let ghost version_text = command_version_text(state);
    let ghost branch = state_branch(state);
    let mut cmd = command.clone();
    let mut i: usize = 0;
    proof {
        assert(vars.take(0) =~= Seq::<(Seq<char>, Variable)>::empty());
    }
    while i < variables.len()
        invariant
            i <= variables@.len(),
            cmd0 == command@,
            vars == variables@.map_values(|p: (String, Variable)| (p.0@, p.1)),
            n_packages == state.packages@.len() as int,
            version_known == command_version_known(state),
            version_text == command_version_text(state),
            branch == state_branch(state),
            state.packages@.len() == 1 ==> package_wf(state.packages@[0]@),
            replace_spec(cmd0, vars.take(i as int), n_packages, version_known, version_text, branch)
                == ReplaceOutcome::Done(cmd@),
        decreases variables@.len() - i,
    {
        proof {
            assert(vars.take(i + 1).drop_last() =~= vars.take(i as int));
            assert(vars.take(i + 1).last() == vars[i as int]);
        }
        match variables[i].1 {
            Variable::Version => {
                if state.packages.len() > 1 {
                    proof {
                        lemma_replace_error_persists(
                            cmd0,
                            vars,
                            i + 1,
                            n_packages,
                            version_known,
                            version_text,
                            branch,
                        );
                    }
                    return Err(StepError::TooManyPackages);
                }
                if state.packages.len() == 0 {
                    proof {
                        lemma_replace_error_persists(
                            cmd0,
                            vars,
                            i + 1,
                            n_packages,
                            version_known,
                            version_text,
                            branch,
                        );
                    }
                    return Err(StepError::NoDefinedPackages);
                }
                if state.releases.len() == 0 && state.packages[0].versioned_files.len() == 0 {
                    proof {
                        lemma_replace_error_persists(
                            cmd0,
                            vars,
                            i + 1,
                            n_packages,
                            version_known,
                            version_text,
                            branch,
                        );
                    }
                    return Err(StepError::NoCurrentVersion);
                }
                let version = render_command_version(state);
                cmd = replace_all(cmd.as_str(), variables[i].0.as_str(), version.as_str());
            },
            Variable::IssueBranch => {
                match &state.issue {
                    IssueState::Initial => {
                        proof {
                            lemma_replace_error_persists(
                                cmd0,
                                vars,
                                i + 1,
                                n_packages,
                                version_known,
                                version_text,
                                branch,
                            );
                        }
                        return Err(StepError::NoIssueSelected);
                    },
                    IssueState::Selected(issue) => {
                        let branch_name = branch_name_from_issue(issue);
                        cmd = replace_all(
                            cmd.as_str(),
                            variables[i].0.as_str(),
                            branch_name.as_str(),
                        );
                    },
                }
            },
        }
        i = i + 1;
    }
    proof {
        assert(vars.take(variables@.len() as int) =~= vars);
    }
    Ok(cmd)
}

/// Decides what a command step does: substitutes any declared
/// variables, then either narrates the command (dry run) or asks the
/// collaborator to run it (real run). Whether the command succeeds is
/// the collaborator's report, not decided here.
pub fn run_command(
    run_type: RunType,
    command: String,
    variables: Option<Vec<(String, Variable)>>,
) -> (r: Result<RunType, StepError>)
    requires
        ({
            let st = match run_type {
                RunType::DryRun { ref state, .. } => state,
                RunType::Real(ref state) => state,
            };
            st.packages@.len() == 1 ==> package_wf(st.packages@[0]@)
        }),
    ensures
        ({
            let st = match run_type {
                RunType::DryRun { ref state, .. } => state,
                RunType::Real(ref state) => state,
            };
            let out = match variables {
                Some(ref vs) => replace_spec(
                    command@,
                    vs@.map_values(|p: (String, Variable)| (p.0@, p.1)),
                    st.packages@.len() as int,
                    command_version_known(st),
                    command_version_text(st),
                    state_branch(st),
                ),
                None => ReplaceOutcome::Done(command@),
            };
            match r {
                Ok(RunType::DryRun { ref state, ref stdout }) => run_type matches RunType::DryRun {
                    state: s0,
                    stdout: out0,
                } && *state == s0 && (out matches ReplaceOutcome::Done(c) && stdout@.len()
                    == out0@.len() + 1 && stdout@.take(out0@.len() as int) == out0@
                    && stdout@.last()@ == "Would run "@ + c),
                Ok(RunType::Real(ref state)) => run_type matches RunType::Real(s0) && (out matches
                    ReplaceOutcome::Done(c) && state.actions@.len() == s0.actions@.len() + 1
                    && state.actions@.take(s0.actions@.len() as int) == s0.actions@
                    && (state.actions@.last() matches OutsideAction::RunCommand { command: rc }
                    && rc@ == c) && state.github_config == s0.github_config && state.issue
                    == s0.issue && state.packages == s0.packages && state.releases == s0.releases
                    && state.tags == s0.tags && state.commit_messages == s0.commit_messages
                    && state.changesets == s0.changesets),
                Ok(_) => false,
                Err(e) => !(out is Done) && ((out == ReplaceOutcome::TooManyPackages && e
                    == StepError::TooManyPackages) || (out == ReplaceOutcome::NoPackages && e
                    == StepError::NoDefinedPackages) || (out == ReplaceOutcome::NoVersion && e
                    == StepError::NoCurrentVersion) || (out == ReplaceOutcome::NoIssue && e
                    == StepError::NoIssueSelected)),
            }
        }),
{
    match run_type {
        RunType::DryRun { state, mut stdout } => {
            let command = match &variables {
                Some(vs) => {
                    match replace_variables(command, vs, &state) {
                        Ok(c) => c,
                        Err(e) => {
                            return Err(e);
                        },
                    }
                },
                None => command,
            };
            let mut msg = crate::text::chars_vec_of("Would run ");
            let mut cmd_chars = chars_of(&command);
            msg.append(&mut cmd_chars);
            let line = string_from_chars(&msg);
            stdout.push(line);
            Ok(RunType::DryRun { state, stdout })
        },
        RunType::Real(mut state) => {
            let command = match &variables {
                Some(vs) => {
                    match replace_variables(command, vs, &state) {
                        Ok(c) => c,
                        Err(e) => {
                            return Err(e);
                        },
                    }
                },
                None => command,
            };
            state.actions.push(OutsideAction::RunCommand { command });
            Ok(RunType::Real(state))
        },
    }
}

} // verus!
