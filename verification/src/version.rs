//! Semantic versions: stable triples, prerelease components, the tagged
//! `Version` union, their wire format (`<major>.<minor>.<patch>` with an
//! optional `-<label>.<n>` suffix), parsing, and ordering.

use vstd::prelude::*;

use crate::errors::StepError;
use crate::text::{
    all_digits, chars_vec_of, dec_rep, find_in, find_spec, format_u64, is_digit,
    lemma_dec_rep_digits, lemma_dec_rep_round_trip, lemma_find_spec_none,
    lemma_find_spec_of_first, lex_lt, lex_lt_chars, parse_u64_range, parse_u64_spec,
    string_from_chars, subrange_chars,
};

verus! {

/// A released version: the `major.minor.patch` triple.
#[derive(Clone, Copy, Debug, PartialEq, Eq, Structural)]
pub struct StableVersion {
    pub major: u64,
    pub minor: u64,
    pub patch: u64,
}

impl StableVersion {
    /// The next major version: `major + 1`, with minor and patch reset.
    pub fn increment_major(self) -> (r: Self)
        requires
            self.major < u64::MAX,
        ensures
            r == (StableVersion { major: (self.major + 1) as u64, minor: 0, patch: 0 }),
    {
        Self { major: (self.major + 1) as u64, minor: 0, patch: 0 }
    }

    /// The next minor version: `minor + 1`, with patch reset.
    pub fn increment_minor(self) -> (r: Self)
        requires
            self.minor < u64::MAX,
        ensures
            r == (StableVersion { major: self.major, minor: (self.minor + 1) as u64, patch: 0 }),
    {
        Self { major: self.major, minor: (self.minor + 1) as u64, patch: 0 }
    }

    /// The next patch version: `patch + 1`.
    pub fn increment_patch(self) -> (r: Self)
        requires
            self.patch < u64::MAX,
        ensures
            r == (StableVersion { major: self.major, minor: self.minor, patch: (self.patch + 1) as u64 }),
    {
        Self { major: self.major, minor: self.minor, patch: (self.patch + 1) as u64 }
    }
}

impl Default for StableVersion {
    /// Version `0.0.0`.
    fn default() -> (r: Self)
        ensures
            r == (StableVersion { major: 0, minor: 0, patch: 0 }),
    {
        Self { major: 0, minor: 0, patch: 0 }
    }
}

/// The prerelease component of a version: a label and a numeric suffix,
/// e.g. `rc.1`.
#[derive(Clone, Debug, PartialEq, Eq)]
pub struct Prerelease {
    pub label: String,
    pub version: u64,
}

/// The mathematical value of a [`Prerelease`].
pub struct PrereleaseView {
    pub label: Seq<char>,
    pub version: u64,
}

impl View for Prerelease {
    type V = PrereleaseView;

    open spec fn view(&self) -> PrereleaseView {
        PrereleaseView { label: self.label@, version: self.version }
    }
}

impl Prerelease {
    pub fn new(label: String, version: u64) -> (r: Self)
        ensures
            r.label == label,
            r.version == version,
    {
        Self { label, version }
    }
}

/// A prerelease version: the stable triple it targets plus the
/// prerelease component.
#[derive(Clone, Debug, PartialEq, Eq)]
pub struct PreVersion {
    pub stable_component: StableVersion,
    pub pre_component: Prerelease,
}

/// A semantic version: either stable or a prerelease.
#[derive(Clone, Debug, PartialEq, Eq)]
pub enum Version {
    Stable(StableVersion),
    Pre(PreVersion),
}

/// The mathematical value of a [`Version`].
pub enum VersionView {
    Stable(StableVersion),
    Pre(StableVersion, PrereleaseView),
}

impl View for Version {
    type V = VersionView;

    open spec fn view(&self) -> VersionView {
        match self {
            Version::Stable(s) => VersionView::Stable(*s),
            Version::Pre(p) => VersionView::Pre(p.stable_component, p.pre_component@),
        }
    }
}

/// The stable triple of a version value: its own for a stable version,
/// the targeted one for a prerelease.
pub open spec fn stable_of(v: VersionView) -> StableVersion {
    match v {
        VersionView::Stable(s) => s,
        VersionView::Pre(s, _) => s,
    }
}

impl Version {
    /// Assembles a version from its components.
    pub fn new(major: u64, minor: u64, patch: u64, pre: Option<Prerelease>) -> (r: Self)
        ensures
            stable_of(r@) == (StableVersion { major, minor, patch }),
            match pre {
                Some(p) => r@ matches VersionView::Pre(_, q) && q == p@,
                None => r@ is Stable,
            },
    {
        let stable = StableVersion { major, minor, patch };
        match pre {
            Some(pre) => Self::Pre(PreVersion { stable_component: stable, pre_component: pre }),
            None => Self::Stable(stable),
        }
    }

    /// The stable triple of this version.
    pub fn stable_component(&self) -> (r: StableVersion)
        ensures
            r == stable_of(self@),
    {
        match self {
            Self::Stable(stable) => *stable,
            Self::Pre(pre) => pre.stable_component,
        }
    }

    /// Whether this version is a prerelease.
    pub fn is_prerelease(&self) -> (r: bool)
        ensures
            r == (self@ is Pre),
    {
        matches!(self, Version::Pre(_))
    }

    /// A copy of this version, equal to the original.
    pub fn duplicate(&self) -> (r: Self)
        ensures
            r == *self,
    {
        match self {
            Self::Stable(stable) => Self::Stable(*stable),
            Self::Pre(pre) => Self::Pre(
                PreVersion {
                    stable_component: pre.stable_component,
                    pre_component: Prerelease {
                        label: pre.pre_component.label.clone(),
                        version: pre.pre_component.version,
                    },
                },
            ),
        }
    }
}

impl Default for Version {
    /// Version `0.0.0`.
    fn default() -> (r: Self)
        ensures
            r == Version::Stable(StableVersion { major: 0, minor: 0, patch: 0 }),
    {
        Self::Stable(StableVersion { major: 0, minor: 0, patch: 0 })
    }
}

// ---------------------------------------------------------------------
// Ordering
// ---------------------------------------------------------------------

/// Strict order on stable triples: lexicographic on (major, minor, patch).
pub open spec fn stable_lt(a: StableVersion, b: StableVersion) -> bool {
    a.major < b.major || (a.major == b.major && (a.minor < b.minor || (a.minor == b.minor
        && a.patch < b.patch)))
}

/// Non-strict order on stable triples.
pub open spec fn stable_le(a: StableVersion, b: StableVersion) -> bool {
    a == b || stable_lt(a, b)
}

/// Strict order on prerelease components: labels compare as strings,
/// then the numeric suffix decides.
pub open spec fn pre_lt(a: PrereleaseView, b: PrereleaseView) -> bool {
    lex_lt(a.label, b.label) || (a.label == b.label && a.version < b.version)
}

/// Strict order on versions: the stable triple decides first; for an
/// equal triple a stable release supersedes any prerelease of it, and
/// two prereleases compare by (label, suffix).
pub open spec fn version_lt(a: VersionView, b: VersionView) -> bool {
    if stable_lt(stable_of(a), stable_of(b)) {
        true
    } else if stable_of(a) == stable_of(b) {
        match (a, b) {
            (VersionView::Pre(_, _), VersionView::Stable(_)) => true,
            (VersionView::Pre(_, pa), VersionView::Pre(_, pb)) => pre_lt(pa, pb),
            _ => false,
        }
    } else {
        false
    }
}

/// Whether `a` is strictly below `b` in the stable order.
pub fn stable_less(a: &StableVersion, b: &StableVersion) -> (r: bool)
    ensures
        r == stable_lt(*a, *b),
{
    if a.major != b.major {
        a.major < b.major
    } else if a.minor != b.minor {
        a.minor < b.minor
    } else {
        a.patch < b.patch
    }
}

/// Whether `a` is strictly below `b` in the version order.
pub fn version_less(a: &Version, b: &Version) -> (r: bool)
    ensures
        r == version_lt(a@, b@),
{
    let sa = a.stable_component();
    let sb = b.stable_component();
    if stable_less(&sa, &sb) {
        return true;
    }
    if sa != sb {
        return false;
    }
    match (a, b) {
        (Version::Pre(_), Version::Stable(_)) => true,
        (Version::Pre(pa), Version::Pre(pb)) => {
            let la = chars_vec_of(pa.pre_component.label.as_str());
            let lb = chars_vec_of(pb.pre_component.label.as_str());
            if lex_lt_chars(&la, &lb) {
                true
            } else if pa.pre_component.label == pb.pre_component.label {
                pa.pre_component.version < pb.pre_component.version
            } else {
                false
            }
        },
        _ => false,
    }
}

/// Whether two versions hold the same value.
pub fn version_eq(a: &Version, b: &Version) -> (r: bool)
    ensures
        r == (a@ == b@),
{
    match (a, b) {
        (Version::Stable(sa), Version::Stable(sb)) => sa == sb,
        (Version::Pre(pa), Version::Pre(pb)) => pa.stable_component == pb.stable_component
            && pa.pre_component.label == pb.pre_component.label && pa.pre_component.version
            == pb.pre_component.version,
        _ => false,
    }
}

// ---------------------------------------------------------------------
// Formatting
// ---------------------------------------------------------------------

/// The wire form of a stable triple: `<major>.<minor>.<patch>`.
pub open spec fn fmt_stable(s: StableVersion) -> Seq<char> {
    dec_rep(s.major as nat) + seq!['.'] + dec_rep(s.minor as nat) + seq!['.'] + dec_rep(
        s.patch as nat,
    )
}

/// The wire form of a prerelease component: `<label>.<n>`.
pub open spec fn fmt_pre(p: PrereleaseView) -> Seq<char> {
    p.label + seq!['.'] + dec_rep(p.version as nat)
}

/// The wire form of a version.
pub open spec fn fmt_version(v: VersionView) -> Seq<char> {
    match v {
        VersionView::Stable(s) => fmt_stable(s),
        VersionView::Pre(s, p) => fmt_stable(s) + seq!['-'] + fmt_pre(p),
    }
}

impl StableVersion {
    /// The characters of the wire form.
    pub fn to_chars(&self) -> (r: Vec<char>)
        ensures
            r@ == fmt_stable(*self),
    {
        let mut v = format_u64(self.major);
        v.push('.');
        let mut m = format_u64(self.minor);
        v.append(&mut m);
        v.push('.');
        let mut p = format_u64(self.patch);
        v.append(&mut p);
        proof {
            assert(v@ =~= fmt_stable(*self));
        }
        v
    }

    /// The wire form, e.g. `1.2.3`.
    pub fn render(&self) -> (r: String)
        ensures
            r@ == fmt_stable(*self),
    {
        let chars = self.to_chars();
        string_from_chars(&chars)
    }
}

impl Version {
    /// The characters of the wire form.
    pub fn to_chars(&self) -> (r: Vec<char>)
        ensures
            r@ == fmt_version(self@),
    {
        match self {
            Self::Stable(stable) => stable.to_chars(),
            Self::Pre(pre) => {
                let mut v = pre.stable_component.to_chars();
                v.push('-');
                let mut label = chars_vec_of(pre.pre_component.label.as_str());
                v.append(&mut label);
                v.push('.');
                let mut num = format_u64(pre.pre_component.version);
                v.append(&mut num);
                proof {
                    assert(v@ =~= fmt_version(self@));
                }
                v
            },
        }
    }

    /// The wire form, e.g. `1.2.3` or `1.2.3-rc.0`.
    pub fn render(&self) -> (r: String)
        ensures
            r@ == fmt_version(self@),
    {
        let chars = self.to_chars();
        string_from_chars(&chars)
    }
}

// ---------------------------------------------------------------------
// Parsing
// ---------------------------------------------------------------------

/// What a stable triple string denotes: exactly three dot-separated
/// decimal numbers.
pub open spec fn parse_stable_spec(s: Seq<char>) -> Option<StableVersion> {
    match find_spec(s, '.') {
        None => None,
        Some(i) => {
            let rest = s.skip(i + 1);
            match find_spec(rest, '.') {
                None => None,
                Some(j) => {
                    let pats = rest.skip(j + 1);
                    if find_spec(pats, '.') is Some {
                        None
                    } else {
                        match (
                            parse_u64_spec(s.take(i)),
                            parse_u64_spec(rest.take(j)),
                            parse_u64_spec(pats),
                        ) {
                            (Some(ma), Some(mi), Some(pa)) => Some(
                                StableVersion { major: ma, minor: mi, patch: pa },
                            ),
                            _ => None,
                        }
                    }
                },
            }
        },
    }
}

/// What a prerelease string denotes: a label before the first dot, and a
/// decimal suffix after it.
pub open spec fn parse_pre_spec(s: Seq<char>) -> Option<PrereleaseView> {
    match find_spec(s, '.') {
        None => None,
        Some(i) => match parse_u64_spec(s.skip(i + 1)) {
            None => None,
            Some(ver) => Some(PrereleaseView { label: s.take(i), version: ver }),
        },
    }
}

/// What a version string denotes: a stable triple, optionally followed
/// by `-` and a prerelease component. The split is at the first `-`.
pub open spec fn parse_version_spec(s: Seq<char>) -> Option<VersionView> {
    match find_spec(s, '-') {
        None => match parse_stable_spec(s) {
            Some(st) => Some(VersionView::Stable(st)),
            None => None,
        },
        Some(h) => match (parse_stable_spec(s.take(h)), parse_pre_spec(s.skip(h + 1))) {
            (Some(st), Some(p)) => Some(VersionView::Pre(st, p)),
            _ => None,
        },
    }
}

/// Parses the characters in `[lo, hi)` as a stable triple.
fn parse_stable_range(v: &Vec<char>, lo: usize, hi: usize) -> (r: Option<StableVersion>)
    requires
        lo <= hi <= v@.len(),
    ensures
        r == parse_stable_spec(v@.subrange(lo as int, hi as int)),
{
    let ghost s = v@.subrange(lo as int, hi as int);
    match find_in(v, lo, hi, '.') {
        None => None,
        Some(i) => {
            let d1 = lo + i;
            proof {
                assert(s.take(i as int) =~= v@.subrange(lo as int, d1 as int));
                assert(s.skip(i + 1) =~= v@.subrange(d1 + 1, hi as int));
            }
            let maj_opt = parse_u64_range(v, lo, d1);
            let rest_lo = d1 + 1;
            let ghost rest = s.skip(i + 1);
            match find_in(v, rest_lo, hi, '.') {
                None => None,
                Some(j) => {
                    let d2 = rest_lo + j;
                    proof {
                        assert(rest.take(j as int) =~= v@.subrange(rest_lo as int, d2 as int));
                        assert(rest.skip(j + 1) =~= v@.subrange(d2 + 1, hi as int));
                    }
                    let min_opt = parse_u64_range(v, rest_lo, d2);
                    let pat_lo = d2 + 1;
                    match find_in(v, pat_lo, hi, '.') {
                        Some(_) => None,
                        None => {
                            let pat_opt = parse_u64_range(v, pat_lo, hi);
                            match (maj_opt, min_opt, pat_opt) {
                                (Some(ma), Some(mi), Some(pa)) => Some(
                                    StableVersion { major: ma, minor: mi, patch: pa },
                                ),
                                _ => None,
                            }
                        },
                    }
                },
            }
        },
    }
}

/// Parses the characters in `[lo, hi)` as a prerelease component.
fn parse_pre_range(v: &Vec<char>, lo: usize, hi: usize) -> (r: Option<Prerelease>)
    requires
        lo <= hi <= v@.len(),
    ensures
        match r {
            Some(p) => parse_pre_spec(v@.subrange(lo as int, hi as int)) == Some(p@),
            None => parse_pre_spec(v@.subrange(lo as int, hi as int)) is None,
        },
{
    let ghost s = v@.subrange(lo as int, hi as int);
    match find_in(v, lo, hi, '.') {
        None => None,
        Some(i) => {
            let d = lo + i;
            proof {
                assert(s.take(i as int) =~= v@.subrange(lo as int, d as int));
                assert(s.skip(i + 1) =~= v@.subrange(d + 1, hi as int));
            }
            match parse_u64_range(v, d + 1, hi) {
                None => None,
                Some(ver) => {
                    let label_chars = subrange_chars(v, lo, d);
                    let label = string_from_chars(&label_chars);
                    Some(Prerelease { label, version: ver })
                },
            }
        },
    }
}

/// Parses a whole character vector as a version.
pub(crate) fn parse_version_chars(v: &Vec<char>) -> (r: Option<Version>)
    ensures
        match r {
            Some(ver) => parse_version_spec(v@) == Some(ver@),
            None => parse_version_spec(v@) is None,
        },
{
    let n = v.len();
    proof {
        assert(v@.subrange(0, n as int) =~= v@);
    }
    match find_in(v, 0, n, '-') {
        None => match parse_stable_range(v, 0, n) {
            Some(st) => Some(Version::Stable(st)),
            None => None,
        },
        Some(h) => {
            proof {
                assert(v@.take(h as int) =~= v@.subrange(0, h as int));
                assert(v@.skip(h + 1) =~= v@.subrange(h + 1, n as int));
            }
            match parse_stable_range(v, 0, h) {
                None => None,
                Some(st) => match parse_pre_range(v, h + 1, n) {
                    None => None,
                    Some(p) => Some(
                        Version::Pre(PreVersion { stable_component: st, pre_component: p }),
                    ),
                },
            }
        },
    }
}

impl Version {
    /// Parses a version string; rejects anything that is not exactly a
    /// semantic version in the wire format.
    pub fn parse(s: &str) -> (r: Result<Version, StepError>)
        ensures
            match r {
                Ok(v) => parse_version_spec(s@) == Some(v@),
                Err(e) => parse_version_spec(s@) is None && (e matches
                    StepError::InvalidSemanticVersion(m) && m@ == s@),
            },
    {
        let chars = chars_vec_of(s);
        match parse_version_chars(&chars) {
            Some(v) => Ok(v),
            None => Err(StepError::InvalidSemanticVersion(s.to_owned())),
        }
    }
}

// ---------------------------------------------------------------------
// The formatting / parsing round trip
// ---------------------------------------------------------------------

/// Whether a prerelease label can survive the wire format: it must not
/// contain the `.` that separates it from the numeric suffix.
pub open spec fn label_wf(l: Seq<char>) -> bool {
    forall|i: int| 0 <= i < l.len() ==> l[i] != '.'
}

/// A version value the library considers well formed.
pub open spec fn version_view_wf(v: VersionView) -> bool {
    match v {
        VersionView::Stable(_) => true,
        VersionView::Pre(_, p) => label_wf(p.label),
    }
}

/// Whatever the parser accepts is well formed: a parsed label stops at
/// the first dot, so it contains none.
pub proof fn lemma_parse_version_wf(s: Seq<char>)
    ensures
        parse_version_spec(s) matches Some(v) ==> version_view_wf(v),
{
    match find_spec(s, '-') {
        None => {},
        Some(h) => {
            let pre = s.skip(h + 1);
            match find_spec(pre, '.') {
                None => {},
                Some(i) => {
                    crate::text::lemma_find_spec(pre, '.');
                    assert(label_wf(pre.take(i))) by {
                        assert(forall|j: int| 0 <= j < i ==> pre.take(i)[j] == pre[j]);
                    }
                },
            }
        },
    }
}

/// Every character of a stable triple's wire form is a digit or `.`.
proof fn lemma_fmt_stable_chars(s: StableVersion)
    ensures
        forall|i: int|
            0 <= i < fmt_stable(s).len() ==> (is_digit(#[trigger] fmt_stable(s)[i])
                || fmt_stable(s)[i] == '.'),
{
    let a = dec_rep(s.major as nat);
    let b = dec_rep(s.minor as nat);
    let c = dec_rep(s.patch as nat);
    lemma_dec_rep_digits(s.major as nat);
    lemma_dec_rep_digits(s.minor as nat);
    lemma_dec_rep_digits(s.patch as nat);
    let f = fmt_stable(s);
    assert forall|i: int| 0 <= i < f.len() implies (is_digit(f[i]) || f[i] == '.') by {
        if i < a.len() {
            assert(f[i] == a[i]);
        } else if i == a.len() {
            assert(f[i] == '.');
        } else if i < a.len() + 1 + b.len() {
            assert(f[i] == b[i - a.len() - 1]);
        } else if i == a.len() + 1 + b.len() {
            assert(f[i] == '.');
        } else {
            assert(f[i] == c[i - a.len() - b.len() - 2]);
        }
    }
}

/// Parsing inverts formatting on stable triples.
proof fn lemma_parse_fmt_stable(s: StableVersion)
    ensures
        parse_stable_spec(fmt_stable(s)) == Some(s),
{
    let a = dec_rep(s.major as nat);
    let b = dec_rep(s.minor as nat);
    let c = dec_rep(s.patch as nat);
    lemma_dec_rep_digits(s.major as nat);
    lemma_dec_rep_digits(s.minor as nat);
    lemma_dec_rep_digits(s.patch as nat);
    lemma_dec_rep_round_trip(s.major);
    lemma_dec_rep_round_trip(s.minor);
    lemma_dec_rep_round_trip(s.patch);
    let f = fmt_stable(s);
    assert(f[a.len() as int] == '.');
    assert forall|j: int| 0 <= j < a.len() implies f[j] != '.' by {
        assert(f[j] == a[j]);
        assert(is_digit(a[j]));
    }
    lemma_find_spec_of_first(f, '.', a.len() as int);
    assert(f.take(a.len() as int) =~= a);
    let rest = f.skip(a.len() as int + 1);
    assert(rest =~= b + seq!['.'] + c);
    assert(rest[b.len() as int] == '.');
    assert forall|j: int| 0 <= j < b.len() implies rest[j] != '.' by {
        assert(rest[j] == b[j]);
        assert(is_digit(b[j]));
    }
    lemma_find_spec_of_first(rest, '.', b.len() as int);
    assert(rest.take(b.len() as int) =~= b);
    let pats = rest.skip(b.len() as int + 1);
    assert(pats =~= c);
    assert forall|j: int| 0 <= j < pats.len() implies pats[j] != '.' by {
        assert(is_digit(c[j]));
    }
    lemma_find_spec_none(pats, '.');
}

/// A stable triple's wire form contains no `-`.
proof fn lemma_fmt_stable_no_dash(s: StableVersion)
    ensures
        forall|i: int| 0 <= i < fmt_stable(s).len() ==> #[trigger] fmt_stable(s)[i] != '-',
{
    lemma_fmt_stable_chars(s);
}

/// Formatting a well-formed version and parsing the result yields the
/// same value: the wire format loses nothing.
pub proof fn lemma_version_round_trip(v: VersionView)
    requires
        version_view_wf(v),
    ensures
        parse_version_spec(fmt_version(v)) == Some(v),
{
    match v {
        VersionView::Stable(s) => {
            lemma_fmt_stable_no_dash(s);
            lemma_find_spec_none(fmt_version(v), '-');
            lemma_parse_fmt_stable(s);
        },
        VersionView::Pre(s, p) => {
            let f = fmt_version(v);
            let fs = fmt_stable(s);
            let d = dec_rep(p.version as nat);
            lemma_fmt_stable_no_dash(s);
            lemma_dec_rep_digits(p.version as nat);
            lemma_dec_rep_round_trip(p.version);
            assert(f[fs.len() as int] == '-');
            assert forall|j: int| 0 <= j < fs.len() implies f[j] != '-' by {
                assert(f[j] == fs[j]);
            }
            lemma_find_spec_of_first(f, '-', fs.len() as int);
            assert(f.take(fs.len() as int) =~= fs);
            lemma_parse_fmt_stable(s);
            let pre = f.skip(fs.len() as int + 1);
            assert(pre =~= p.label + seq!['.'] + d);
            assert(pre[p.label.len() as int] == '.');
            assert forall|j: int| 0 <= j < p.label.len() implies pre[j] != '.' by {
                assert(pre[j] == p.label[j]);
            }
            lemma_find_spec_of_first(pre, '.', p.label.len() as int);
            assert(pre.take(p.label.len() as int) =~= p.label);
            assert(pre.skip(p.label.len() as int + 1) =~= d);
            assert(parse_pre_spec(pre) == Some(PrereleaseView { label: p.label, version: p.version }));
            assert(PrereleaseView { label: p.label, version: p.version } == p);
        },
    }
}

} // verus!
