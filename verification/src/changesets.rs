//! Manually authored change entries: their vocabulary of change types,
//! the pending changes they induce per package, and the distribution of
//! a changeset directory's entries across the configured packages.

use vstd::prelude::*;

use crate::semver::ConventionalRule;

verus! {

/// The kind of a change, as recorded in a changeset entry or derived
/// from a commit.
#[derive(Clone, Debug, Hash, PartialEq, Eq)]
pub enum ChangeType {
    Breaking,
    Feature,
    Fix,
    Custom(String),
}

/// The mathematical value of a [`ChangeType`].
pub enum ChangeTypeView {
    Breaking,
    Feature,
    Fix,
    Custom(Seq<char>),
}

impl View for ChangeType {
    type V = ChangeTypeView;

    open spec fn view(&self) -> ChangeTypeView {
        match self {
            ChangeType::Breaking => ChangeTypeView::Breaking,
            ChangeType::Feature => ChangeTypeView::Feature,
            ChangeType::Fix => ChangeTypeView::Fix,
            ChangeType::Custom(name) => ChangeTypeView::Custom(name@),
        }
    }
}

/// The version-bump severity a change type carries: breaking changes
/// are major, features minor, fixes patch; a custom type carries none.
pub open spec fn severity_spec(t: ChangeTypeView) -> Option<ConventionalRule> {
    match t {
        ChangeTypeView::Breaking => Some(ConventionalRule::Major),
        ChangeTypeView::Feature => Some(ConventionalRule::Minor),
        ChangeTypeView::Fix => Some(ConventionalRule::Patch),
        ChangeTypeView::Custom(_) => None,
    }
}

impl ChangeType {
    /// The version-bump severity this change type carries.
    pub fn severity(&self) -> (r: Option<ConventionalRule>)
        ensures
            r == severity_spec(self@),
    {
        match self {
            ChangeType::Breaking => Some(ConventionalRule::Major),
            ChangeType::Feature => Some(ConventionalRule::Minor),
            ChangeType::Fix => Some(ConventionalRule::Patch),
            ChangeType::Custom(_) => None,
        }
    }

    /// A copy of this change type, equal to the original.
    pub fn duplicate(&self) -> (r: Self)
        ensures
            r == *self,
    {
        match self {
            ChangeType::Breaking => ChangeType::Breaking,
            ChangeType::Feature => ChangeType::Feature,
            ChangeType::Fix => ChangeType::Fix,
            ChangeType::Custom(name) => ChangeType::Custom(name.clone()),
        }
    }
}

/// Where a pending change came from.
#[derive(Clone, Copy, Debug, PartialEq, Eq, Structural)]
pub enum ChangeSource {
    ConventionalCommit,
    ChangeSet,
}

/// One pending change of a package: its kind, its free-text summary,
/// and where it came from. Changes feed changelog rendering and rule
/// derivation; they are never written back.
#[derive(Clone, Debug, PartialEq, Eq)]
pub struct Change {
    pub change_type: ChangeType,
    pub summary: String,
    pub source: ChangeSource,
}

/// The mathematical value of a [`Change`].
pub struct ChangeView {
    pub change_type: ChangeTypeView,
    pub summary: Seq<char>,
    pub source: ChangeSource,
}

impl View for Change {
    type V = ChangeView;

    open spec fn view(&self) -> ChangeView {
        ChangeView { change_type: self.change_type@, summary: self.summary@, source: self.source }
    }
}

impl Change {
    /// A copy of this change, equal to the original.
    pub fn duplicate(&self) -> (r: Self)
        ensures
            r == *self,
    {
        Change {
            change_type: self.change_type.duplicate(),
            summary: self.summary.clone(),
            source: self.source,
        }
    }
}

/// One changeset entry, as loaded from its file: the file's name, the
/// change summary, and which packages it targets at which severity.
#[derive(Clone, Debug, PartialEq, Eq)]
pub struct ChangesetEntry {
    pub file_name: String,
    pub summary: String,
    pub versioning: Vec<(String, ChangeType)>,
}

/// The mathematical value of a [`ChangesetEntry`].
pub struct ChangesetEntryView {
    pub file_name: Seq<char>,
    pub summary: Seq<char>,
    pub versioning: Seq<(Seq<char>, ChangeTypeView)>,
}

impl View for ChangesetEntry {
    type V = ChangesetEntryView;

    open spec fn view(&self) -> ChangesetEntryView {
        ChangesetEntryView {
            file_name: self.file_name@,
            summary: self.summary@,
            versioning: self.versioning@.map_values(|p: (String, ChangeType)| (p.0@, p.1@)),
        }
    }
}

impl ChangesetEntry {
    /// A copy of this entry, equal in value.
    pub fn duplicate(&self) -> (r: Self)
        ensures
            r@ == self@,
    {
        let mut versioning: Vec<(String, ChangeType)> = Vec::new();
        let mut i: usize = 0;
        while i < self.versioning.len()
            invariant
                i <= self.versioning@.len(),
                versioning@.len() == i,
                forall|j: int| 0 <= j < i ==> #[trigger] versioning@[j] == self.versioning@[j],
            decreases self.versioning@.len() - i,
        {
            versioning.push((self.versioning[i].0.clone(), self.versioning[i].1.duplicate()));
            i = i + 1;
        }
        proof {
            assert(versioning@ =~= self.versioning@);
        }
        ChangesetEntry {
            file_name: self.file_name.clone(),
            summary: self.summary.clone(),
            versioning,
        }
    }
}

/// The change type an entry assigns to the package keyed `key`: the
/// first binding for that key, if any.
pub open spec fn lookup_spec(
    versioning: Seq<(Seq<char>, ChangeTypeView)>,
    key: Seq<char>,
) -> Option<ChangeTypeView>
    decreases versioning.len(),
{
    if versioning.len() == 0 {
        None
    } else if versioning[0].0 == key {
        Some(versioning[0].1)
    } else {
        lookup_spec(versioning.drop_first(), key)
    }
}

/// Looks up the change type an entry assigns to `key`.
fn lookup(versioning: &Vec<(String, ChangeType)>, key: &Vec<char>) -> (r: Option<ChangeType>)
    ensures
        ({
            let vv = versioning@.map_values(|p: (String, ChangeType)| (p.0@, p.1@));
            match r {
                Some(t) => lookup_spec(vv, key@) == Some(t@),
                None => lookup_spec(vv, key@) is None,
            }
        }),
{
    let ghost vv = versioning@.map_values(|p: (String, ChangeType)| (p.0@, p.1@));
    let mut i: usize = 0;
    proof {
        assert(vv.skip(0) =~= vv);
    }
    while i < versioning.len()
        invariant
            i <= versioning@.len(),
            vv == versioning@.map_values(|p: (String, ChangeType)| (p.0@, p.1@)),
            lookup_spec(vv, key@) == lookup_spec(vv.skip(i as int), key@),
        decreases versioning@.len() - i,
    {
        let ghost tail = vv.skip(i as int);
        proof {
            assert(tail[0] == vv[i as int]);
            assert(tail.drop_first() =~= vv.skip(i + 1));
        }
        let name_chars = crate::text::chars_of(&versioning[i].0);
        if crate::text::chars_eq(&name_chars, key) {
            return Some(versioning[i].1.duplicate());
        }
        i = i + 1;
    }
    None
}

/// The Markdown file name a change summary is stored under: the result
/// depends on the summary text alone, so the same logical change always
/// produces the same file.
pub uninterp spec fn change_file_name_of(summary: Seq<char>) -> Seq<char>;

/// Relies on `changesets::UniqueId::normalize` and
/// `UniqueId::to_file_name`: the file name is computed from the summary
/// text alone.
#[verifier::external_body]
fn unique_file_name(summary: &str) -> (r: String)
    ensures
        r@ == change_file_name_of(summary@),
{
    changesets::UniqueId::normalize(summary).to_file_name()
}

/// Assembles a new change entry from a summary and the affected
/// packages with their severities. The file name derives from the
/// summary; the stored summary carries the Markdown heading marker.
pub fn new_change_entry(summary: &String, versioning: Vec<(String, ChangeType)>) -> (r:
    ChangesetEntry)
    ensures
        r@.file_name == change_file_name_of(summary@),
        r@.summary == seq!['#', ' '] + summary@,
        r@.versioning == versioning@.map_values(|p: (String, ChangeType)| (p.0@, p.1@)),
{
    let file_name = unique_file_name(summary.as_str());
    let mut heading: Vec<char> = Vec::new();
    heading.push('#');
    heading.push(' ');
    let mut body = crate::text::chars_of(summary);
    heading.append(&mut body);
    proof {
        assert(heading@ =~= seq!['#', ' '] + summary@);
    }
    let summary_text = crate::text::string_from_chars(&heading);
    ChangesetEntry { file_name, summary: summary_text, versioning }
}

// ---------------------------------------------------------------------
// Distributing a changeset across packages
// ---------------------------------------------------------------------

/// The key a package is looked up under in changeset entries: its name,
/// or the fixed key for unnamed single-package projects.
pub open spec fn default_package_key() -> Seq<char> {
    seq!['d', 'e', 'f', 'a', 'u', 'l', 't']
}

/// The changeset key of a package.
pub open spec fn package_key(p: crate::package::PackageView) -> Seq<char> {
    match p.name {
        Some(n) => n,
        None => default_package_key(),
    }
}

/// The characters of a package's changeset key.
fn package_key_chars(p: &crate::package::Package) -> (r: Vec<char>)
    ensures
        r@ == package_key(p@),
{
    match &p.name {
        Some(name) => crate::text::chars_of(name),
        None => {
            let mut v: Vec<char> = Vec::new();
            v.push('d');
            v.push('e');
            v.push('f');
            v.push('a');
            v.push('u');
            v.push('l');
            v.push('t');
            proof {
                assert(v@ =~= default_package_key());
            }
            v
        },
    }
}

/// The pending changes the entries contribute to the package keyed
/// `key`, in entry order.
pub open spec fn changes_of_entries(
    entries: Seq<ChangesetEntryView>,
    key: Seq<char>,
) -> Seq<ChangeView>
    decreases entries.len(),
{
    if entries.len() == 0 {
        Seq::empty()
    } else {
        let prefix = changes_of_entries(entries.drop_last(), key);
        match lookup_spec(entries.last().versioning, key) {
            Some(t) => prefix.push(
                ChangeView {
                    change_type: t,
                    summary: entries.last().summary,
                    source: ChangeSource::ChangeSet,
                },
            ),
            None => prefix,
        }
    }
}

/// The entry files newly due for deletion while serving the package
/// keyed `key`: each entry that contributes to it and whose file is not
/// already slated, once, in entry order.
pub open spec fn deletions_of_entries(
    entries: Seq<ChangesetEntryView>,
    key: Seq<char>,
    already: Seq<Seq<char>>,
) -> Seq<Seq<char>>
    decreases entries.len(),
{
    if entries.len() == 0 {
        Seq::empty()
    } else {
        let prefix = deletions_of_entries(entries.drop_last(), key, already);
        let e = entries.last();
        if lookup_spec(e.versioning, key) is Some && !already.contains(e.file_name)
            && !prefix.contains(e.file_name) {
            prefix.push(e.file_name)
        } else {
            prefix
        }
    }
}

/// Membership in a concatenation is membership in either part.
proof fn lemma_concat_contains(a: Seq<Seq<char>>, b: Seq<Seq<char>>, x: Seq<char>)
    ensures
        (a + b).contains(x) <==> (a.contains(x) || b.contains(x)),
{
    if a.contains(x) {
        let w = choose|w: int| 0 <= w < a.len() && a[w] == x;
        assert((a + b)[w] == x);
    }
    if b.contains(x) {
        let w = choose|w: int| 0 <= w < b.len() && b[w] == x;
        assert((a + b)[a.len() + w] == x);
    }
    if (a + b).contains(x) {
        let w = choose|w: int| 0 <= w < (a + b).len() && (a + b)[w] == x;
        if w < a.len() {
            assert(a[w] == x);
        } else {
            assert(b[w - a.len()] == x);
        }
    }
}

/// The distribution of a changeset across the packages, in
/// configuration order. A package receives the changes of every entry
/// keyed to it, unless an earlier package carries the same key (each
/// key is served once). Entry files become due for deletion, each
/// exactly once, only when the run is not producing a prerelease.
pub open spec fn distribute_spec(
    packages: Seq<crate::package::PackageView>,
    entries: Seq<ChangesetEntryView>,
    is_prerelease: bool,
) -> (Seq<crate::package::PackageView>, Seq<Seq<char>>)
    decreases packages.len(),
{
    if packages.len() == 0 {
        (Seq::empty(), Seq::empty())
    } else {
        let rec = distribute_spec(packages.drop_last(), entries, is_prerelease);
        let p = packages.last();
        let key = package_key(p);
        if exists|j: int|
            0 <= j < packages.len() - 1 && package_key(#[trigger] packages[j]) == key {
            (rec.0.push(p), rec.1)
        } else {
            let served = crate::package::PackageView {
                pending_changes: p.pending_changes + changes_of_entries(entries, key),
                ..p
            };
            let new_dels = if is_prerelease {
                Seq::empty()
            } else {
                deletions_of_entries(entries, key, rec.1)
            };
            (rec.0.push(served), rec.1 + new_dels)
        }
    }
}

/// Distribution only adds pending changes: every package keeps its
/// name, scopes and versioned files.
pub proof fn lemma_distribute_preserves(
    packages: Seq<crate::package::PackageView>,
    entries: Seq<ChangesetEntryView>,
    is_prerelease: bool,
)
    ensures
        ({
            let out = distribute_spec(packages, entries, is_prerelease);
            out.0.len() == packages.len() && forall|i: int|
                0 <= i < packages.len() ==> (#[trigger] out.0[i]).versioned_files
                    == packages[i].versioned_files && out.0[i].name == packages[i].name
                    && out.0[i].scopes == packages[i].scopes
        }),
    decreases packages.len(),
{
    if packages.len() > 0 {
        lemma_distribute_preserves(packages.drop_last(), entries, is_prerelease);
    }
}

/// Distributes the loaded changeset entries across the packages, in
/// order, and reports which entry files are now consumed and should be
/// deleted (none while producing a prerelease, so later runs still see
/// them). The decision is the same whether or not the run applies its
/// effects.
pub fn add_releases_from_changeset(
    packages: Vec<crate::package::Package>,
    is_prerelease: bool,
    entries: &Vec<ChangesetEntry>,
) -> (r: (Vec<crate::package::Package>, Vec<String>))
    ensures
        ({
            let out = distribute_spec(
                packages@.map_values(|p: crate::package::Package| p@),
                entries@.map_values(|e: ChangesetEntry| e@),
                is_prerelease,
            );
            r.0@.map_values(|p: crate::package::Package| p@) == out.0 && r.1@.map_values(
                |s: String| s@,
            ) == out.1
        }),
{
    let ghost pv = packages@.map_values(|p: crate::package::Package| p@);
    let ghost ev = entries@.map_values(|e: ChangesetEntry| e@);
    let mut remaining = packages;
    let mut result: Vec<crate::package::Package> = Vec::new();
    let mut deletions: Vec<String> = Vec::new();
    let mut keys: Vec<Vec<char>> = Vec::new();
    proof {
        assert(pv.take(0) =~= Seq::<crate::package::PackageView>::empty());
        assert(result@.map_values(|p: crate::package::Package| p@) =~= Seq::<
            crate::package::PackageView,
        >::empty());
        assert(deletions@.map_values(|s: String| s@) =~= Seq::<Seq<char>>::empty());
        assert(remaining@.map_values(|p: crate::package::Package| p@) =~= pv.skip(0));
    }
    while remaining.len() > 0
        invariant
            result@.len() + remaining@.len() == pv.len(),
            keys@.len() == result@.len(),
            pv == packages@.map_values(|p: crate::package::Package| p@),
            ev == entries@.map_values(|e: ChangesetEntry| e@),
            remaining@.map_values(|p: crate::package::Package| p@) == pv.skip(
                result@.len() as int,
            ),
            forall|j: int| 0 <= j < keys@.len() ==> #[trigger] keys@[j]@ == package_key(pv[j]),
            ({
                let out = distribute_spec(pv.take(result@.len() as int), ev, is_prerelease);
                result@.map_values(|p: crate::package::Package| p@) == out.0 && deletions@
                    .map_values(|s: String| s@) == out.1
            }),
        decreases remaining@.len(),
    {
        let ghost i = result@.len() as int;
        proof {
            assert(pv.take(i + 1).drop_last() =~= pv.take(i));
            assert(pv.take(i + 1).last() == pv[i]);
            assert(remaining@.map_values(|p: crate::package::Package| p@)[0] == pv[i]);
        }
        let ghost rem_before = remaining@;
        let mut p = remaining.remove(0);
        proof {
            assert(remaining@ =~= rem_before.skip(1));
            let rm = remaining@.map_values(|p: crate::package::Package| p@);
            assert forall|j: int| 0 <= j < rm.len() implies #[trigger] rm[j] == pv.skip(
                i + 1,
            )[j] by {
                assert(remaining@[j] == rem_before[j + 1]);
                assert(rem_before.map_values(|p: crate::package::Package| p@)[j + 1] == pv.skip(
                    i,
                )[j + 1]);
            }
            assert(rm =~= pv.skip(i + 1));
        }
        let key = package_key_chars(&p);
        let mut served_earlier = false;
        let mut j: usize = 0;
        while j < keys.len()
            invariant
                j <= keys@.len(),
                forall|k: int| 0 <= k < keys@.len() ==> #[trigger] keys@[k]@ == package_key(pv[k]),
                key@ == package_key(pv[i]),
                !served_earlier ==> forall|k: int| 0 <= k < j ==> #[trigger] keys@[k]@ != key@,
                served_earlier ==> exists|k: int|
                    0 <= k < keys@.len() && #[trigger] keys@[k]@ == key@,
            decreases keys@.len() - j,
        {
            if crate::text::chars_eq(&keys[j], &key) {
                served_earlier = true;
            }
            j = j + 1;
        }
        if served_earlier {
            proof {
                let k = choose|k: int| 0 <= k < keys@.len() && #[trigger] keys@[k]@ == key@;
                assert(package_key(pv.take(i + 1)[k]) == package_key(pv[i]));
            }
            result.push(p);
            proof {
                assert(result@.map_values(|p: crate::package::Package| p@) =~= distribute_spec(
                    pv.take(i + 1),
                    ev,
                    is_prerelease,
                ).0);
            }
        } else {
            proof {
                assert forall|k: int| 0 <= k < i implies package_key(
                    #[trigger] pv.take(i + 1)[k],
                ) != package_key(pv[i]) by {
                    assert(keys@[k]@ == package_key(pv[k]));
                }
            }
            let ghost dels_before = deletions@.map_values(|s: String| s@);
            let ghost p_orig = p@;
            let mut k: usize = 0;
            proof {
                assert(ev.take(0) =~= Seq::<ChangesetEntryView>::empty());
                assert(p@.pending_changes + changes_of_entries(ev.take(0), key@)
                    =~= p@.pending_changes);
            }
            while k < entries.len()
                invariant
                    k <= entries@.len(),
                    ev == entries@.map_values(|e: ChangesetEntry| e@),
                    key@ == package_key(p_orig),
                    p@.name == p_orig.name,
                    p@.scopes == p_orig.scopes,
                    p@.versioned_files == p_orig.versioned_files,
                    p@.pending_changes == p_orig.pending_changes + changes_of_entries(
                        ev.take(k as int),
                        key@,
                    ),
                    deletions@.map_values(|s: String| s@) == dels_before + (if is_prerelease {
                        Seq::<Seq<char>>::empty()
                    } else {
                        deletions_of_entries(ev.take(k as int), key@, dels_before)
                    }),
                decreases entries@.len() - k,
            {
                proof {
                    assert(ev.take(k + 1).drop_last() =~= ev.take(k as int));
                    assert(ev.take(k + 1).last() == ev[k as int]);
                    if is_prerelease {
                        assert(dels_before + Seq::<Seq<char>>::empty() =~= dels_before);
                    }
                }
                let entry = &entries[k];
                match lookup(&entry.versioning, &key) {
                    None => {},
                    Some(change_type) => {
                        let ghost pending_before = p@.pending_changes;
                        p.push_change(
                            Change {
                                change_type,
                                summary: entry.summary.clone(),
                                source: ChangeSource::ChangeSet,
                            },
                        );
                        proof {
                            assert(p@.pending_changes =~= p_orig.pending_changes
                                + changes_of_entries(ev.take(k + 1), key@));
                        }
                        if !is_prerelease {
                            let ghost prefix = deletions_of_entries(
                                ev.take(k as int),
                                key@,
                                dels_before,
                            );
                            proof {
                                lemma_concat_contains(
                                    dels_before,
                                    prefix,
                                    ev[k as int].file_name,
                                );
                            }
                            if !crate::text::contains_string(&deletions, &entry.file_name) {
                                let ghost dels_old = deletions@.map_values(|s: String| s@);
                                deletions.push(entry.file_name.clone());
                                proof {
                                    assert(deletions@.map_values(|s: String| s@) =~= dels_old.push(
                                        ev[k as int].file_name,
                                    ));
                                    assert(deletions_of_entries(ev.take(k + 1), key@, dels_before)
                                        == prefix.push(ev[k as int].file_name));
                                    assert(dels_before + prefix.push(ev[k as int].file_name)
                                        =~= dels_old.push(ev[k as int].file_name));
                                }
                            } else {
                                proof {
                                    assert(deletions_of_entries(ev.take(k + 1), key@, dels_before)
                                        == prefix);
                                }
                            }
                        }
                    },
                }
                k = k + 1;
            }
            proof {
                assert(ev.take(entries@.len() as int) =~= ev);
            }
            result.push(p);
            proof {
                let out_prev = distribute_spec(pv.take(i), ev, is_prerelease);
                let served = crate::package::PackageView {
                    pending_changes: pv[i].pending_changes + changes_of_entries(ev, key@),
                    ..pv[i]
                };
                assert(result@.map_values(|p: crate::package::Package| p@) =~= out_prev.0.push(
                    served,
                ));
                assert(result@.map_values(|p: crate::package::Package| p@) == distribute_spec(
                    pv.take(i + 1),
                    ev,
                    is_prerelease,
                ).0);
            }
        }
        keys.push(key);
        proof {
            assert(forall|k: int|
                0 <= k < keys@.len() - 1 ==> #[trigger] keys@[k]@ == keys@.take(
                    keys@.len() - 1,
                )[k]@);
        }
    }
    proof {
        assert(pv.take(pv.len() as int) =~= pv);
    }
    (result, deletions)
}

} // verus!
