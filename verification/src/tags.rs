//! Resolution of a package's current versions from version-control tag
//! names, and the tag names the engine itself produces.

use vstd::prelude::*;

use crate::semver::{cv_wf, CurrentVersions, CurrentVersionsView};
use crate::text::{chars_of, has_prefix, starts_with, string_from_chars, subrange_chars};
use crate::version::{
    parse_version_chars, parse_version_spec, stable_lt, stable_of, version_less, version_lt,
    version_view_wf, fmt_version, StableVersion, Version, VersionView,
};

verus! {

/// The tag prefix a package's release tags carry: `<name>/v` for a named
/// package, plain `v` otherwise.
pub open spec fn tag_prefix(name: Option<Seq<char>>) -> Seq<char> {
    match name {
        Some(n) => n + seq!['/', 'v'],
        None => seq!['v'],
    }
}

/// The characters of the tag prefix for `package_name`.
pub(crate) fn tag_prefix_chars(package_name: &Option<String>) -> (r: Vec<char>)
    ensures
        r@ == tag_prefix(match package_name {
            Some(n) => Some(n@),
            None => None,
        }),
{
    match package_name {
        Some(name) => {
            let mut v = chars_of(name);
            v.push('/');
            v.push('v');
            proof {
                assert(v@ =~= name@ + seq!['/', 'v']);
            }
            v
        },
        None => {
            let mut v: Vec<char> = Vec::new();
            v.push('v');
            proof {
                assert(v@ =~= seq!['v']);
            }
            v
        },
    }
}

/// The tag name recorded for a released version: the package's tag
/// prefix followed by the version's wire form.
pub fn tag_name(version: &Version, package_name: &Option<String>) -> (r: String)
    ensures
        r@ == tag_prefix(match package_name {
            Some(n) => Some(n@),
            None => None,
        }) + fmt_version(version@),
{
    let mut chars = tag_prefix_chars(package_name);
    let mut ver = version.to_chars();
    chars.append(&mut ver);
    string_from_chars(&chars)
}

/// The state of the tag scan: the greatest stable version seen, and the
/// greatest not-yet-superseded prerelease.
pub struct ResolveState {
    pub stable: Option<StableVersion>,
    pub prerelease: Option<VersionView>,
}

/// One tag's effect on the scan. A tag counts only when it carries the
/// prefix and the remainder parses as a version. A new greatest stable
/// version evicts any tracked prerelease; a prerelease is tracked only
/// while no stable version at or above it has been seen, and only the
/// greatest such prerelease is kept.
pub open spec fn resolve_step(st: ResolveState, tag: Seq<char>, pattern: Seq<char>) -> ResolveState {
    if !starts_with(tag, pattern) {
        st
    } else {
        match parse_version_spec(tag.skip(pattern.len() as int)) {
            None => st,
            Some(v) => match v {
                VersionView::Stable(s) => if st.stable is None || stable_lt(st.stable->0, s) {
                    ResolveState { stable: Some(s), prerelease: None }
                } else {
                    st
                },
                VersionView::Pre(_, _) => {
                    let superseded = st.stable matches Some(s) && !version_lt(
                        VersionView::Stable(s),
                        v,
                    );
                    if !superseded && (st.prerelease is None || version_lt(st.prerelease->0, v)) {
                        ResolveState { stable: st.stable, prerelease: Some(v) }
                    } else {
                        st
                    }
                },
            },
        }
    }
}

/// The scan over a whole tag list, in order.
pub open spec fn resolve_spec(tags: Seq<Seq<char>>, pattern: Seq<char>) -> ResolveState
    decreases tags.len(),
{
    if tags.len() == 0 {
        ResolveState { stable: None, prerelease: None }
    } else {
        resolve_step(resolve_spec(tags.drop_last(), pattern), tags.last(), pattern)
    }
}

/// The scan state is always well formed: a tracked prerelease is a
/// prerelease value strictly above any tracked stable version.
pub open spec fn resolve_state_wf(st: ResolveState) -> bool {
    match st.prerelease {
        Some(p) => p is Pre && version_view_wf(p) && (st.stable matches Some(s) ==> stable_lt(
            s,
            stable_of(p),
        )),
        None => true,
    }
}

/// The ref that bounds "commits since the last stable release" for a
/// package: the tag of its greatest stable version, or `None` when no
/// stable release exists yet — a resolved `0.0.0` counts as none, so
/// the whole history is read.
pub fn last_stable_ref(tags: &Vec<String>, package_name: &Option<String>) -> (r: Option<String>)
    ensures
        ({
            let st = resolve_spec(
                tags@.map_values(|t: String| t@),
                tag_prefix(
                    match package_name {
                        Some(n) => Some(n@),
                        None => None,
                    },
                ),
            );
            match r {
                None => st.stable is None || st.stable == Some(
                    StableVersion { major: 0, minor: 0, patch: 0 },
                ),
                Some(t) => st.stable matches Some(s) && s != (StableVersion {
                    major: 0,
                    minor: 0,
                    patch: 0,
                }) && t@ == tag_prefix(
                    match package_name {
                        Some(n) => Some(n@),
                        None => None,
                    },
                ) + crate::version::fmt_stable(s),
            }
        }),
{
    match get_current_versions_from_tag(tags, package_name) {
        None => None,
        Some(current) => {
            let s = current.stable;
            if s.major == 0 && s.minor == 0 && s.patch == 0 {
                None
            } else {
                Some(tag_name(&Version::Stable(s), package_name))
            }
        },
    }
}

/// Resolves the current versions of a package from the full tag list.
///
/// Only tags with the package's prefix whose remainder parses as a
/// version count; among them the greatest stable version wins, and the
/// greatest prerelease is reported only while no stable version at or
/// above it exists. With no matching stable tag the result is `None`
/// and the caller falls back to `0.0.0`.
pub fn get_current_versions_from_tag(tags: &Vec<String>, package_name: &Option<String>) -> (r:
    Option<CurrentVersions>)
    ensures
        ({
            let st = resolve_spec(
                tags@.map_values(|t: String| t@),
                tag_prefix(
                    match package_name {
                        Some(n) => Some(n@),
                        None => None,
                    },
                ),
            );
            match r {
                None => st.stable is None,
                Some(cv) => st.stable == Some(cv@.stable) && cv@.prerelease == st.prerelease
                    && cv_wf(cv@),
            }
        }),
{
    let pattern = tag_prefix_chars(package_name);
    let ghost tag_seq = tags@.map_values(|t: String| t@);
    let mut stable: Option<StableVersion> = None;
    let mut prerelease: Option<Version> = None;
    let mut i: usize = 0;
    while i < tags.len()
        invariant
            i <= tags@.len(),
            pattern@ == tag_prefix(
                match package_name {
                    Some(n) => Some(n@),
                    None => None,
                },
            ),
            tag_seq == tags@.map_values(|t: String| t@),
            ({
                let st = resolve_spec(tag_seq.take(i as int), pattern@);
                st.stable == stable && st.prerelease == (match prerelease {
                    Some(p) => Some(p@),
                    None => None::<VersionView>,
                }) && resolve_state_wf(st)
            }),
        decreases tags@.len() - i,
    {
        let ghost prev = resolve_spec(tag_seq.take(i as int), pattern@);
        proof {
            assert(tag_seq.take(i + 1).drop_last() =~= tag_seq.take(i as int));
            assert(tag_seq.take(i + 1).last() == tags@[i as int]@);
        }
        let tag_chars = chars_of(&tags[i]);
        if has_prefix(&tag_chars, &pattern) {
            let rest = subrange_chars(&tag_chars, pattern.len(), tag_chars.len());
            proof {
                assert(rest@ =~= tag_chars@.skip(pattern@.len() as int));
            }
            match parse_version_chars(&rest) {
                None => {},
                Some(v) => {
                    match &v {
                        Version::Stable(s) => {
                            let accept = match &stable {
                                None => true,
                                Some(old_s) => crate::version::stable_less(old_s, s),
                            };
                            if accept {
                                stable = Some(*s);
                                prerelease = None;
                            }
                        },
                        Version::Pre(_) => {
                            let superseded = match &stable {
                                None => false,
                                Some(s) => !version_less(&Version::Stable(*s), &v),
                            };
                            if !superseded {
                                let improves = match &prerelease {
                                    None => true,
                                    Some(old_p) => version_less(old_p, &v),
                                };
                                if improves {
                                    proof {
                                        crate::version::lemma_parse_version_wf(rest@);
                                    }
                                    prerelease = Some(v);
                                }
                            }
                        },
                    }
                },
            }
        }
        i = i + 1;
    }
    proof {
        assert(tag_seq.take(tags@.len() as int) =~= tag_seq);
    }
    match stable {
        None => None,
        Some(s) => Some(CurrentVersions { stable: s, prerelease }),
    }
}

} // verus!
