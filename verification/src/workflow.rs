//! Workflows: the configured step lists a run executes in order, the
//! dispatcher that applies one step to the run state, and validation of
//! workflows by dry-running them.

use vstd::prelude::*;

use crate::command::{run_command, Variable};
use crate::errors::StepError;
use crate::package::{package_wf, Package};
use crate::releases::{bump_version_and_update_state, release, update_project_from_conventional_commits};
use crate::semver::Rule;
use crate::state::{state_of, RunType, State};

verus! {

/// One step of a workflow.
#[derive(Debug)]
pub enum Step {
    /// Run a shell command, after substituting any declared variables.
    Command { command: String, variables: Option<Vec<(String, Variable)>> },
    /// Prepare a release from conventional commits and changesets.
    PrepareRelease { prerelease_label: Option<String> },
    /// Bump the version under a fixed rule.
    BumpVersion(Rule),
    /// Publish the most recently prepared release.
    Release,
}

impl Step {
    /// Sets the prerelease label, where this step prepares a release.
    pub fn set_prerelease_label(&mut self, label: &str)
        ensures
            match *old(self) {
                Step::PrepareRelease { .. } => (*final(self)) matches Step::PrepareRelease {
                    prerelease_label: Some(l),
                } && l@ == label@,
                _ => *final(self) == *old(self),
            },
    {
        match self {
            Step::PrepareRelease { prerelease_label } => {
                *prerelease_label = Some(label.to_owned());
            },
            _ => {},
        }
    }

    /// Applies this step to the run state. Every step leaves the
    /// packages of the resulting state well formed.
    pub fn run(self, run_type: RunType) -> (r: Result<RunType, StepError>)
        requires
            forall|i: int|
                0 <= i < state_of(run_type).packages@.len() ==> package_wf(
                    #[trigger] state_of(run_type).packages@[i]@,
                ),
        ensures
            r matches Ok(rt2) ==> forall|i: int|
                0 <= i < state_of(rt2).packages@.len() ==> package_wf(
                    #[trigger] state_of(rt2).packages@[i]@,
                ),
    {
        let ghost rt0 = run_type;
        match self {
            Step::Command { command, variables } => {
                let r = run_command(run_type, command, variables);
                proof {
                    if r is Ok {
                        let rt2 = r->Ok_0;
                        assert(state_of(rt2).packages == state_of(rt0).packages);
                        assert forall|i: int|
                            0 <= i < state_of(rt2).packages@.len() implies package_wf(
                            #[trigger] state_of(rt2).packages@[i]@,
                        ) by {
                            assert(state_of(rt0).packages@[i]@ == state_of(rt2).packages@[i]@);
                        }
                    }
                }
                r
            },
            Step::PrepareRelease { prerelease_label } => {
                let r = update_project_from_conventional_commits(run_type, &prerelease_label);
                proof {
                    if r is Ok {
                        let rt2 = r->Ok_0;
                        let st = state_of(rt0);
                        let pv0 = st.packages@.map_values(|p: Package| p@);
                        let ev = st.changesets@.map_values(
                            |e: crate::changesets::ChangesetEntry| e@,
                        );
                        let label = match prerelease_label {
                            Some(l) => Some(l@),
                            None => None::<Seq<char>>,
                        };
                        crate::changesets::lemma_distribute_preserves(pv0, ev, label is Some);
                        let dist = crate::changesets::distribute_spec(pv0, ev, label is Some);
                        assert forall|i: int|
                            0 <= i < state_of(rt2).packages@.len() implies package_wf(
                            #[trigger] state_of(rt2).packages@[i]@,
                        ) by {
                            assert(state_of(rt2).packages@.map_values(|p: Package| p@)[i]
                                == dist.0[i]);
                            assert(dist.0[i].versioned_files == pv0[i].versioned_files);
                            assert(package_wf(pv0[i]));
                        }
                    }
                }
                r
            },
            Step::BumpVersion(rule) => {
                let r = bump_version_and_update_state(run_type, rule);
                proof {
                    if r is Ok {
                        let rt2 = r->Ok_0;
                        assert(state_of(rt2).packages == state_of(rt0).packages);
                        assert forall|i: int|
                            0 <= i < state_of(rt2).packages@.len() implies package_wf(
                            #[trigger] state_of(rt2).packages@[i]@,
                        ) by {
                            assert(state_of(rt0).packages@[i]@ == state_of(rt2).packages@[i]@);
                        }
                    }
                }
                r
            },
            Step::Release => {
                let r = release(run_type);
                proof {
                    if r is Ok {
                        let rt2 = r->Ok_0;
                        assert(state_of(rt2).packages == state_of(rt0).packages);
                        assert forall|i: int|
                            0 <= i < state_of(rt2).packages@.len() implies package_wf(
                            #[trigger] state_of(rt2).packages@[i]@,
                        ) by {
                            assert(state_of(rt0).packages@[i]@ == state_of(rt2).packages@[i]@);
                        }
                    }
                }
                r
            },
        }
    }
}

/// A workflow: a named list of steps run in order, stopping at the
/// first failure.
#[derive(Debug)]
pub struct Workflow {
    /// The display name of this workflow.
    pub name: String,
    /// The steps to execute, in order.
    pub steps: Vec<Step>,
}

impl Workflow {
    /// Sets `prerelease_label` on every step that prepares a release.
    pub fn set_prerelease_label(&mut self, prerelease_label: &str)
        ensures
            final(self).name == old(self).name,
            final(self).steps@.len() == old(self).steps@.len(),
            forall|j: int|
                0 <= j < old(self).steps@.len() ==> match old(self).steps@[j] {
                    Step::PrepareRelease { .. } => (#[trigger] final(self).steps@[j]) matches
                        Step::PrepareRelease { prerelease_label: Some(l) } && l@
                        == prerelease_label@,
                    _ => final(self).steps@[j] == old(self).steps@[j],
                },
    {
        let ghost steps0 = self.steps@;
        let n0 = self.steps.len();
        proof {
            assert(steps0.len() == n0 as int);
        }
        let mut rebuilt: Vec<Step> = Vec::new();
        let mut i: usize = 0;
        while self.steps.len() > 0
            invariant
                self.name == old(self).name,
                i == rebuilt@.len(),
                steps0.len() <= usize::MAX,
                i + self.steps@.len() == steps0.len(),
                forall|j: int| 0 <= j < self.steps@.len() ==> #[trigger] self.steps@[j] == steps0[i
                    + j],
                forall|j: int|
                    0 <= j < i ==> match steps0[j] {
                        Step::PrepareRelease { .. } => (#[trigger] rebuilt@[j]) matches
                            Step::PrepareRelease { prerelease_label: Some(l) } && l@
                            == prerelease_label@,
                        _ => rebuilt@[j] == steps0[j],
                    },
            decreases self.steps@.len(),
        {
            let ghost before = self.steps@;
            let mut step = self.steps.remove(0);
            proof {
                assert(self.steps@ =~= before.skip(1));
            }
            step.set_prerelease_label(prerelease_label);
            rebuilt.push(step);
            i = i + 1;
        }
        self.steps = rebuilt;
    }
}

/// An error from running a single workflow: the failing workflow's
/// name and the step error beneath it.
#[derive(Debug)]
pub struct Error {
    pub name: String,
    pub inner: StepError,
}

/// The errors collected from validating the defined workflows.
#[derive(Debug)]
pub struct ValidationErrorCollection {
    pub errors: Vec<Error>,
}

/// Whether to narrate progress. Verbosity does not change any
/// decision.
#[derive(Clone, Copy, Debug, PartialEq, Eq, Structural)]
pub enum Verbose {
    Yes,
    No,
}

/// The verbosity a flag stands for.
pub open spec fn verbose_of(flag: bool) -> Verbose {
    if flag {
        Verbose::Yes
    } else {
        Verbose::No
    }
}

impl From<bool> for Verbose {
    fn from(verbose: bool) -> (r: Self)
        ensures
            r == verbose_of(verbose),
    {
        if verbose {
            Verbose::Yes
        } else {
            Verbose::No
        }
    }
}

impl vstd::std_specs::convert::FromSpecImpl<bool> for Verbose {
    open spec fn obeys_from_spec() -> bool {
        true
    }

    open spec fn from_spec(flag: bool) -> Verbose {
        verbose_of(flag)
    }
}

/// Whether `states` is a chain of run states through the first `n`
/// steps: it starts at the initial state and each of those steps, taken
/// in declaration order, ran on the previous state and produced the
/// next one (per [`Step::run`]'s contract).
pub open spec fn steps_ran(
    steps: Seq<Step>,
    initial: RunType,
    states: Seq<RunType>,
    n: int,
) -> bool {
    &&& 0 <= n <= steps.len()
    &&& states.len() == n + 1
    &&& states[0] == initial
    &&& forall|i: int|
        0 <= i < n ==> call_ensures(
            Step::run,
            (steps[i], #[trigger] states[i]),
            Result::<RunType, StepError>::Ok(states[i + 1]),
        )
}

/// Runs a workflow's steps in order, each receiving the previous step's
/// state. The run succeeds exactly when every step does; the first
/// failing step stops the run, no later step runs, and the error
/// carries the workflow's name and that step's error.
#[verifier::loop_isolation(false)]
pub fn run(workflow: Workflow, state: RunType, verbose: Verbose) -> (r: Result<(), Error>)
    requires
        forall|i: int|
            0 <= i < state_of(state).packages@.len() ==> package_wf(
                #[trigger] state_of(state).packages@[i]@,
            ),
    ensures
        match r {
            Ok(_) => exists|states: Seq<RunType>|
                #[trigger] steps_ran(workflow.steps@, state, states, workflow.steps@.len() as int),
            Err(e) => e.name == workflow.name && exists|states: Seq<RunType>, k: int|
                #[trigger] steps_ran(workflow.steps@, state, states, k) && k < workflow.steps@.len()
                    && call_ensures(
                    Step::run,
                    (workflow.steps@[k], states[k]),
                    Result::<RunType, StepError>::Err(e.inner),
                ),
        },
{
    let Workflow { name, steps } = workflow;
    let ghost all_steps = steps@;
    let mut steps = steps;
    let total = steps.len();
    proof {
        assert(all_steps.len() == total as int);
    }
    let mut rt = state;
    let ghost mut states: Seq<RunType> = seq![state];
    let mut done: usize = 0;
    while steps.len() > 0
        invariant
            all_steps.len() <= usize::MAX,
            done + steps@.len() == all_steps.len(),
            steps@ == all_steps.skip(done as int),
            steps_ran(all_steps, state, states, done as int),
            states.last() == rt,
            forall|i: int|
                0 <= i < state_of(rt).packages@.len() ==> package_wf(
                    #[trigger] state_of(rt).packages@[i]@,
                ),
        decreases steps@.len(),
    {
        let ghost steps_before = steps@;
        let step = steps.remove(0);
        proof {
            assert(steps@ =~= steps_before.skip(1));
            assert(steps@ =~= all_steps.skip(done + 1));
            assert(step == all_steps[done as int]);
        }
        match step.run(rt) {
            Ok(next) => {
                proof {
                    states = states.push(next);
                }
                rt = next;
            },
            Err(err) => {
                proof {
                    let ghost k = done as int;
                    assert(steps_ran(all_steps, state, states, k));
                    assert(call_ensures(
                        Step::run,
                        (all_steps[k], states[k]),
                        Result::<RunType, StepError>::Err(err),
                    ));
                }
                return Err(Error { name, inner: err });
            },
        }
        done = done + 1;
    }
    proof {
        assert(steps_ran(all_steps, state, states, all_steps.len() as int));
    }
    let _ = verbose;
    Ok(())
}

/// Copies the inputs of a run into a fresh state with an empty release
/// ledger and no pending actions, for an independent dry run.
fn dry_copy(state: &State) -> (r: State)
    ensures
        r.packages@.len() == state.packages@.len(),
        forall|i: int|
            0 <= i < state.packages@.len() ==> (#[trigger] r.packages@[i])@
                == state.packages@[i]@,
        r.releases@ == Seq::<crate::state::ReleaseState>::empty(),
        r.actions@ == Seq::<crate::state::OutsideAction>::empty(),
{
    let github_config = match &state.github_config {
        Some(c) => Some(
            crate::state::GitHubConfig { owner: c.owner.clone(), repo: c.repo.clone() },
        ),
        None => None,
    };
    let issue = match &state.issue {
        crate::state::IssueState::Initial => crate::state::IssueState::Initial,
        crate::state::IssueState::Selected(i) => crate::state::IssueState::Selected(i.duplicate()),
    };
    let mut packages: Vec<Package> = Vec::new();
    let mut i: usize = 0;
    while i < state.packages.len()
        invariant
            i <= state.packages@.len(),
            packages@.len() == i,
            forall|j: int|
                0 <= j < i ==> (#[trigger] packages@[j])@ == state.packages@[j]@,
        decreases state.packages@.len() - i,
    {
        packages.push(state.packages[i].duplicate());
        i = i + 1;
    }
    let tags = dup_strings(&state.tags);
    let commit_messages = dup_strings(&state.commit_messages);
    let mut changesets: Vec<crate::changesets::ChangesetEntry> = Vec::new();
    let mut k: usize = 0;
    while k < state.changesets.len()
        invariant
            k <= state.changesets@.len(),
            changesets@.len() == k,
        decreases state.changesets@.len() - k,
    {
        changesets.push(state.changesets[k].duplicate());
        k = k + 1;
    }
    State {
        github_config,
        issue,
        packages,
        releases: Vec::new(),
        tags,
        commit_messages,
        changesets,
        actions: Vec::new(),
    }
}

/// A copy of a string list, equal in contents.
fn dup_strings(v: &Vec<String>) -> (r: Vec<String>)
    ensures
        r@ == v@,
{
    let mut out: Vec<String> = Vec::new();
    let mut i: usize = 0;
    while i < v.len()
        invariant
            i <= v@.len(),
            out@.len() == i,
            forall|j: int| 0 <= j < i ==> #[trigger] out@[j] == v@[j],
        decreases v@.len() - i,
    {
        out.push(v[i].clone());
        i = i + 1;
    }
    proof {
        assert(out@ =~= v@);
    }
    out
}

/// Dry-runs every workflow against a copy of the state and collects
/// the failures; succeeds only when every workflow would run clean.
#[verifier::loop_isolation(false)]
pub fn validate(workflows: Vec<Workflow>, state: State, verbose: Verbose) -> (r: Result<
    (),
    ValidationErrorCollection,
>)
    requires
        forall|i: int|
            0 <= i < state.packages@.len() ==> package_wf(#[trigger] state.packages@[i]@),
    ensures
        r matches Err(c) ==> c.errors@.len() > 0,
{
    let mut errors: Vec<Error> = Vec::new();
    let mut remaining = workflows;
    while remaining.len() > 0
        decreases remaining@.len(),
    {
        let workflow = remaining.remove(0);
        let copy = dry_copy(&state);
        let trial = RunType::DryRun { state: copy, stdout: Vec::new() };
        match run(workflow, trial, verbose) {
            Ok(()) => {},
            Err(e) => {
                errors.push(e);
            },
        }
    }
    if errors.len() == 0 {
        Ok(())
    } else {
        Err(ValidationErrorCollection { errors })
    }
}

} // verus!
