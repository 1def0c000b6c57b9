//! The rule-application algorithm: how a [`CurrentVersions`] advances
//! under a [`Rule`], including major-version-zero semantics, prerelease
//! cycles, and promotion of a prerelease to stable.

use vstd::prelude::*;

use crate::errors::StepError;
use crate::version::{
    label_wf, stable_le, stable_lt, stable_of, version_view_wf, PreVersion, Prerelease,
    PrereleaseView, StableVersion, Version, VersionView,
};

verus! {

/// The rules that can be derived from conventional commits, by rising
/// severity.
#[derive(Clone, Copy, Debug, PartialEq, Eq, Structural)]
pub enum ConventionalRule {
    Patch,
    Minor,
    Major,
}

impl Default for ConventionalRule {
    /// The least severe rule.
    fn default() -> (r: Self)
        ensures
            r == ConventionalRule::Patch,
    {
        Self::Patch
    }
}

/// A rule for advancing a version.
#[derive(Clone, Debug, PartialEq, Eq)]
pub enum Rule {
    Major,
    Minor,
    Patch,
    Pre { label: String, stable_rule: ConventionalRule },
    Release,
}

/// The mathematical value of a [`Rule`].
pub enum RuleView {
    Major,
    Minor,
    Patch,
    Pre { label: Seq<char>, stable_rule: ConventionalRule },
    Release,
}

impl View for Rule {
    type V = RuleView;

    open spec fn view(&self) -> RuleView {
        match self {
            Rule::Major => RuleView::Major,
            Rule::Minor => RuleView::Minor,
            Rule::Patch => RuleView::Patch,
            Rule::Pre { label, stable_rule } => RuleView::Pre {
                label: label@,
                stable_rule: *stable_rule,
            },
            Rule::Release => RuleView::Release,
        }
    }
}

/// The primary rule standing for a conventional rule.
pub open spec fn rule_of_conventional(c: ConventionalRule) -> Rule {
    match c {
        ConventionalRule::Major => Rule::Major,
        ConventionalRule::Minor => Rule::Minor,
        ConventionalRule::Patch => Rule::Patch,
    }
}

impl From<ConventionalRule> for Rule {
    fn from(conventional_rule: ConventionalRule) -> (r: Self)
        ensures
            r == rule_of_conventional(conventional_rule),
    {
        match conventional_rule {
            ConventionalRule::Major => Rule::Major,
            ConventionalRule::Minor => Rule::Minor,
            ConventionalRule::Patch => Rule::Patch,
        }
    }
}

impl vstd::std_specs::convert::FromSpecImpl<ConventionalRule> for Rule {
    open spec fn obeys_from_spec() -> bool {
        true
    }

    open spec fn from_spec(c: ConventionalRule) -> Rule {
        rule_of_conventional(c)
    }
}

/// The versions a package currently stands at: the last stable release,
/// and the active prerelease, if one exists and has not been superseded.
#[derive(Clone, Debug, PartialEq, Eq)]
pub struct CurrentVersions {
    pub stable: StableVersion,
    pub prerelease: Option<Version>,
}

/// The mathematical value of a [`CurrentVersions`].
pub struct CurrentVersionsView {
    pub stable: StableVersion,
    pub prerelease: Option<VersionView>,
}

impl View for CurrentVersions {
    type V = CurrentVersionsView;

    open spec fn view(&self) -> CurrentVersionsView {
        CurrentVersionsView {
            stable: self.stable,
            prerelease: match self.prerelease {
                Some(p) => Some(p@),
                None => None,
            },
        }
    }
}

/// The invariant of a well-formed [`CurrentVersions`]: a retained
/// prerelease is a prerelease value targeting a stable triple no older
/// than the recorded stable release.
pub open spec fn cv_wf(c: CurrentVersionsView) -> bool {
    match c.prerelease {
        Some(p) => p is Pre && stable_le(c.stable, stable_of(p)) && version_view_wf(p),
        None => true,
    }
}

/// The latest of the two tracked versions: the prerelease when present,
/// else the stable release.
pub open spec fn cv_latest(c: CurrentVersionsView) -> VersionView {
    match c.prerelease {
        Some(p) => p,
        None => VersionView::Stable(c.stable),
    }
}

impl CurrentVersions {
    /// The latest tracked version: the prerelease when present, else the
    /// stable release.
    pub fn latest(&self) -> (r: Version)
        ensures
            r@ == cv_latest(self@),
    {
        match &self.prerelease {
            Some(p) => p.duplicate(),
            None => Version::Stable(self.stable),
        }
    }

    /// Consumes `self`, yielding the latest tracked version.
    pub fn into_latest(self) -> (r: Version)
        ensures
            r@ == cv_latest(self@),
    {
        match self.prerelease {
            Some(p) => p,
            None => Version::Stable(self.stable),
        }
    }
}

impl Default for CurrentVersions {
    /// Version `0.0.0`, with no prerelease.
    fn default() -> (r: Self)
        ensures
            r.stable == (StableVersion { major: 0, minor: 0, patch: 0 }),
            r.prerelease is None,
    {
        Self { stable: StableVersion { major: 0, minor: 0, patch: 0 }, prerelease: None }
    }
}

// ---------------------------------------------------------------------
// Applying a rule
// ---------------------------------------------------------------------

/// Whether applying a conventional rule to `s` would overflow the
/// component it increments.
pub open spec fn bump_overflows(s: StableVersion, r: ConventionalRule) -> bool {
    if r is Major && s.major != 0 {
        s.major == u64::MAX
    } else if (r is Major && s.major == 0) || (r is Minor && s.major != 0) {
        s.minor == u64::MAX
    } else {
        s.patch == u64::MAX
    }
}

/// The next stable triple under a conventional rule. While the major
/// component is zero, `Major` bumps the minor component and `Minor`
/// bumps the patch component: a 0.x version makes no API promise.
pub open spec fn bumped_stable(s: StableVersion, r: ConventionalRule) -> StableVersion {
    if r is Major && s.major != 0 {
        StableVersion { major: (s.major + 1) as u64, minor: 0, patch: 0 }
    } else if (r is Major && s.major == 0) || (r is Minor && s.major != 0) {
        StableVersion { major: s.major, minor: (s.minor + 1) as u64, patch: 0 }
    } else {
        StableVersion { major: s.major, minor: s.minor, patch: (s.patch + 1) as u64 }
    }
}

/// The numeric suffix of the next prerelease: one past the previous
/// suffix when the previous prerelease targets the same stable triple
/// under the same label, else a fresh cycle at zero. `None` when the
/// suffix itself would overflow.
pub open spec fn pre_suffix_spec(
    prev: Option<VersionView>,
    candidate: StableVersion,
    label: Seq<char>,
) -> Option<u64> {
    match prev {
        Some(VersionView::Pre(s, p)) => if s == candidate && p.label == label {
            if p.version == u64::MAX {
                None
            } else {
                Some((p.version + 1) as u64)
            }
        } else {
            Some(0)
        },
        _ => Some(0),
    }
}

/// What a successful application of `rule` to `c` yields; `None` when
/// the application must fail (overflow, or a `Release` with no
/// prerelease).
pub open spec fn bump_ok_spec(c: CurrentVersionsView, rule: RuleView) -> Option<
    CurrentVersionsView,
> {
    match rule {
        RuleView::Major => primary_spec(c, ConventionalRule::Major),
        RuleView::Minor => primary_spec(c, ConventionalRule::Minor),
        RuleView::Patch => primary_spec(c, ConventionalRule::Patch),
        RuleView::Release => match c.prerelease {
            None => None,
            Some(p) => Some(CurrentVersionsView { stable: stable_of(p), prerelease: None }),
        },
        RuleView::Pre { label, stable_rule } => pre_spec(c, label, stable_rule),
    }
}

/// A primary-rule bump: the stable triple advances and any prerelease is
/// cleared, starting a fresh cycle.
pub open spec fn primary_spec(c: CurrentVersionsView, r: ConventionalRule) -> Option<
    CurrentVersionsView,
> {
    if bump_overflows(c.stable, r) {
        None
    } else {
        Some(CurrentVersionsView { stable: bumped_stable(c.stable, r), prerelease: None })
    }
}

/// A prerelease bump: the stable triple on record does not move; the
/// prerelease becomes the candidate next stable under `stable_rule`,
/// suffixed per [`pre_suffix_spec`].
pub open spec fn pre_spec(
    c: CurrentVersionsView,
    label: Seq<char>,
    stable_rule: ConventionalRule,
) -> Option<CurrentVersionsView> {
    if bump_overflows(c.stable, stable_rule) {
        None
    } else {
        let candidate = bumped_stable(c.stable, stable_rule);
        match pre_suffix_spec(c.prerelease, candidate, label) {
            None => None,
            Some(n) => Some(
                CurrentVersionsView {
                    stable: c.stable,
                    prerelease: Some(
                        VersionView::Pre(candidate, PrereleaseView { label, version: n }),
                    ),
                },
            ),
        }
    }
}

/// Whether a failure of `rule` on `c` is an overflow (as opposed to a
/// `Release` rule finding no prerelease to promote).
pub open spec fn bump_err_is_overflow(rule: RuleView) -> bool {
    !(rule is Release)
}

/// Applies a conventional rule to a stable triple, failing on overflow.
fn apply_stable_rule(s: &StableVersion, r: ConventionalRule) -> (res: Result<
    StableVersion,
    StepError,
>)
    ensures
        match res {
            Ok(n) => !bump_overflows(*s, r) && n == bumped_stable(*s, r),
            Err(e) => bump_overflows(*s, r) && e == StepError::VersionOverflow,
        },
{
    match r {
        ConventionalRule::Major => {
            if s.major != 0 {
                if s.major == u64::MAX {
                    return Err(StepError::VersionOverflow);
                }
                Ok(s.increment_major())
            } else {
                if s.minor == u64::MAX {
                    return Err(StepError::VersionOverflow);
                }
                Ok(s.increment_minor())
            }
        },
        ConventionalRule::Minor => {
            if s.major != 0 {
                if s.minor == u64::MAX {
                    return Err(StepError::VersionOverflow);
                }
                Ok(s.increment_minor())
            } else {
                if s.patch == u64::MAX {
                    return Err(StepError::VersionOverflow);
                }
                Ok(s.increment_patch())
            }
        },
        ConventionalRule::Patch => {
            if s.patch == u64::MAX {
                return Err(StepError::VersionOverflow);
            }
            Ok(s.increment_patch())
        },
    }
}

/// Bumps the prerelease of a version set.
///
/// `stable_rule` gives the candidate next stable triple (with the usual
/// major-zero semantics); the suffix continues an existing cycle only
/// when the previous prerelease targets that same candidate under the
/// same label. The recorded stable release does not change.
pub fn bump_pre(
    stable_only: CurrentVersions,
    prerelease: Option<Version>,
    label: &str,
    stable_rule: ConventionalRule,
) -> (res: Result<CurrentVersions, StepError>)
    ensures
        ({
            let c = CurrentVersionsView {
                stable: stable_only@.stable,
                prerelease: match prerelease {
                    Some(p) => Some(p@),
                    None => None,
                },
            };
            match res {
                Ok(n) => pre_spec(c, label@, stable_rule) == Some(n@),
                Err(e) => pre_spec(c, label@, stable_rule) is None && e
                    == StepError::VersionOverflow,
            }
        }),
{
    let candidate = match apply_stable_rule(&stable_only.stable, stable_rule) {
        Ok(c) => c,
        Err(e) => {
            return Err(e);
        },
    };
    let suffix: u64 = match &prerelease {
        Some(Version::Pre(prev)) => {
            if prev.stable_component == candidate && crate::text::str_eq(
                prev.pre_component.label.as_str(),
                label,
            ) {
                if prev.pre_component.version == u64::MAX {
                    return Err(StepError::VersionOverflow);
                }
                prev.pre_component.version + 1
            } else {
                0
            }
        },
        _ => 0,
    };
    Ok(
        CurrentVersions {
            stable: stable_only.stable,
            prerelease: Some(
                Version::Pre(
                    PreVersion {
                        stable_component: candidate,
                        pre_component: Prerelease { label: label.to_owned(), version: suffix },
                    },
                ),
            ),
        },
    )
}

/// Applies `rule` to `version`, yielding the next version set.
///
/// A primary rule advances the stable triple (with major-zero
/// semantics) and clears any prerelease. `Release` promotes the
/// existing prerelease to stable and fails when there is none. `Pre`
/// starts or continues a prerelease cycle. Overflow of any component is
/// an error, never silent wraparound.
pub fn bump(version: CurrentVersions, rule: Rule) -> (res: Result<CurrentVersions, StepError>)
    ensures
        match res {
            Ok(n) => bump_ok_spec(version@, rule@) == Some(n@),
            Err(e) => bump_ok_spec(version@, rule@) is None && (if bump_err_is_overflow(rule@) {
                e == StepError::VersionOverflow
            } else {
                e matches StepError::InvalidPreReleaseVersion(_)
            }),
        },
{
    let CurrentVersions { stable, prerelease } = version;
    match rule {
        Rule::Major => match apply_stable_rule(&stable, ConventionalRule::Major) {
            Ok(n) => Ok(CurrentVersions { stable: n, prerelease: None }),
            Err(e) => Err(e),
        },
        Rule::Minor => match apply_stable_rule(&stable, ConventionalRule::Minor) {
            Ok(n) => Ok(CurrentVersions { stable: n, prerelease: None }),
            Err(e) => Err(e),
        },
        Rule::Patch => match apply_stable_rule(&stable, ConventionalRule::Patch) {
            Ok(n) => Ok(CurrentVersions { stable: n, prerelease: None }),
            Err(e) => Err(e),
        },
        Rule::Release => match prerelease {
            None => Err(
                StepError::InvalidPreReleaseVersion(
                    "No prerelease version found, but a Release rule was requested".to_owned(),
                ),
            ),
            Some(p) => Ok(
                CurrentVersions { stable: p.stable_component(), prerelease: None },
            ),
        },
        Rule::Pre { label, stable_rule } => bump_pre(
            CurrentVersions { stable, prerelease: None },
            prerelease,
            label.as_str(),
            stable_rule,
        ),
    }
}

// ---------------------------------------------------------------------
// Laws of the rule-application algorithm
// ---------------------------------------------------------------------

/// The numeric suffix of the tracked prerelease, if one is tracked.
pub open spec fn pre_suffix_of(c: CurrentVersionsView) -> Option<u64> {
    match c.prerelease {
        Some(VersionView::Pre(_, p)) => Some(p.version),
        _ => None,
    }
}

/// A successful bump never lowers the recorded stable release, under any
/// rule; a primary rule raises it strictly.
pub proof fn lemma_bump_never_decreases_stable(c: CurrentVersionsView, rule: RuleView)
    requires
        cv_wf(c),
        bump_ok_spec(c, rule) is Some,
    ensures
        stable_le(c.stable, bump_ok_spec(c, rule)->Some_0.stable),
        rule is Major || rule is Minor || rule is Patch ==> stable_lt(
            c.stable,
            bump_ok_spec(c, rule)->Some_0.stable,
        ),
{
}

/// The major-zero law: while the major component is zero, `Major` bumps
/// the minor component (major stays zero) and `Minor` bumps the patch
/// component (minor stays put).
pub proof fn lemma_zero_major_bump(c: CurrentVersionsView)
    requires
        c.stable.major == 0,
        c.stable.minor < u64::MAX,
        c.stable.patch < u64::MAX,
    ensures
        bump_ok_spec(c, RuleView::Major) matches Some(n) && n.stable.major == 0
            && n.stable.minor == c.stable.minor + 1,
        bump_ok_spec(c, RuleView::Minor) matches Some(n) && n.stable.minor == c.stable.minor
            && n.stable.patch == c.stable.patch + 1,
{
}

/// Prerelease suffix progression: from a state with no prerelease, the
/// same `Pre` rule yields suffixes 0 then 1, and a third application
/// with a different label restarts the cycle at 0.
pub proof fn lemma_prerelease_monotonicity(
    c: CurrentVersionsView,
    label: Seq<char>,
    label2: Seq<char>,
    stable_rule: ConventionalRule,
)
    requires
        c.prerelease is None,
        !bump_overflows(c.stable, stable_rule),
        label2 != label,
    ensures
        bump_ok_spec(c, RuleView::Pre { label, stable_rule }) matches Some(c1) && (bump_ok_spec(
            c1,
            RuleView::Pre { label, stable_rule },
        ) matches Some(c2) && (bump_ok_spec(c2, RuleView::Pre { label: label2, stable_rule })
            matches Some(c3) && pre_suffix_of(c1) == Some(0u64) && pre_suffix_of(c2) == Some(1u64)
            && pre_suffix_of(c3) == Some(0u64))),
{
}

} // verus!
