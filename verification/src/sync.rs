//! The sync engine's plan: which repositories to clone and which to
//! fetch, how submodules are resolved, the synced set one run records,
//! and the orphan report comparing the destination directory against
//! that set. The front end performs the clones and fetches; everything
//! decided here is a pure function of the project and the observations.

use vstd::prelude::*;

use crate::fleet::RepoEntry;
use crate::fleet::RepoEntryView;
use crate::fleet::spec_entries;
use crate::manifest::Project;
use crate::strutil::str_eq;
use crate::util::concat_str;
use crate::util::join_path;
use crate::util::join_path_chars;
use crate::util::path_canon;
use crate::util::spec_path_canon;

verus! {

/// How one repository is brought up to date: opened and fetched when its
/// destination already exists, cloned fresh otherwise.
#[derive(Clone, Copy, Debug, PartialEq, Eq, Structural)]
pub enum SyncKind {
    FetchExisting,
    CloneFresh,
}

/// One repository's sync work: the clone URL (prefix concatenated with
/// the declared path), the destination directory, and whether to fetch
/// or clone.
pub struct SyncStep {
    pub url: String,
    pub dest: String,
    pub kind: SyncKind,
}

/// The mathematical content of a [`SyncStep`].
pub ghost struct SyncStepView {
    pub url: Seq<char>,
    pub dest: Seq<char>,
    pub kind: SyncKind,
}

impl View for SyncStep {
    type V = SyncStepView;

    open spec fn view(&self) -> SyncStepView {
        SyncStepView { url: self.url@, dest: self.dest@, kind: self.kind }
    }
}

impl DeepView for SyncStep {
    type V = SyncStepView;

    open spec fn deep_view(&self) -> SyncStepView {
        self.view()
    }
}

/// The sync work for the whole fleet, one step per entry: the URL is
/// `prefix + repo_path`, and a step clones exactly when its destination
/// does not exist yet.
pub open spec fn spec_sync_steps(
    prefix: Seq<char>,
    entries: Seq<RepoEntryView>,
    exists: Seq<bool>,
) -> Seq<SyncStepView> {
    Seq::new(
        entries.len(),
        |i: int|
            SyncStepView {
                url: prefix + entries[i].repo_path,
                dest: entries[i].dest,
                kind: if exists[i] {
                    SyncKind::FetchExisting
                } else {
                    SyncKind::CloneFresh
                },
            },
    )
}

/// Builds the fleet's sync steps from the planned entries and the
/// observed existence of each destination directory.
pub fn sync_steps(project: &Project, entries: &Vec<RepoEntry>, exists: &Vec<bool>) -> (steps: Vec<
    SyncStep,
>)
    requires
        exists.len() == entries.len(),
    ensures
        steps.deep_view() == spec_sync_steps(project@.prefix, entries.deep_view(), exists@),
{
    let ghost target = spec_sync_steps(project@.prefix, entries.deep_view(), exists@);
    let mut steps: Vec<SyncStep> = Vec::new();
    let mut i: usize = 0;
    while i < entries.len()
        invariant
            0 <= i <= entries.len(),
            exists.len() == entries.len(),
            target == spec_sync_steps(project@.prefix, entries.deep_view(), exists@),
            target.len() == entries.len(),
            steps.deep_view() == target.take(i as int),
        decreases entries.len() - i,
    {
        let url = concat_str(project.prefix.as_str(), entries[i].repo_path.as_str());
        let dest = entries[i].dest.clone();
        let kind = if exists[i] {
            SyncKind::FetchExisting
        } else {
            SyncKind::CloneFresh
        };
        let step = SyncStep { url, dest, kind };
        let ghost sv = step@;
        let ghost prev = steps.deep_view();
        steps.push(step);
        proof {
            assert(entries.deep_view()[i as int] == entries@[i as int]@);
            assert(sv == target[i as int]);
            assert(steps.deep_view() =~= prev.push(sv));
            assert(steps.deep_view() =~= target.take(i as int + 1));
        }
        i = i + 1;
    }
    proof {
        assert(target.take(target.len() as int) =~= target);
    }
    steps
}

/// The synced set one run records: the destination directory of every
/// visited entry, in visit order. It depends on the project and the
/// destination root alone, not on what already existed on disk.
pub open spec fn spec_synced_set(repos: Seq<Seq<char>>, root: Seq<char>) -> Seq<Seq<char>> {
    spec_entries(repos, root).map_values(|e: RepoEntryView| e.dest)
}

/// Collects the destination of every entry: the synced set.
pub fn synced_set(entries: &Vec<RepoEntry>) -> (v: Vec<String>)
    ensures
        v.deep_view() == entries.deep_view().map_values(|e: RepoEntryView| e.dest),
{
    let ghost target = entries.deep_view().map_values(|e: RepoEntryView| e.dest);
    let mut v: Vec<String> = Vec::new();
    let mut i: usize = 0;
    while i < entries.len()
        invariant
            0 <= i <= entries.len(),
            target == entries.deep_view().map_values(|e: RepoEntryView| e.dest),
            target.len() == entries.len(),
            v.deep_view() == target.take(i as int),
        decreases entries.len() - i,
    {
        let ghost prev = v.deep_view();
        v.push(entries[i].dest.clone());
        proof {
            assert(entries.deep_view()[i as int] == entries@[i as int]@);
            assert(v.deep_view() =~= prev.push(target[i as int]));
            assert(v.deep_view() =~= target.take(i as int + 1));
        }
        i = i + 1;
    }
    proof {
        assert(target.take(target.len() as int) =~= target);
    }
    v
}

/// One submodule's work: its clone URL derived from the prefix and the
/// canonicalized relative path, its on-disk directory under the parent
/// repository, and whether its git metadata already exists (update in
/// place) or not (clone fresh, then update).
pub struct SubmoduleStep {
    pub url: String,
    pub dest: String,
    pub update_only: bool,
}

/// Resolves one submodule of a repository: the relative path is the
/// parent's declared path joined with the submodule's URL field and
/// canonicalized; the clone URL is the project prefix applied to it; the
/// working directory is the submodule's path under the parent's
/// destination. A rooted parent path is a programming error upstream and
/// is excluded here.
pub fn submodule_step(
    project: &Project,
    entry: &RepoEntry,
    sub_url: &str,
    sub_path: &str,
    git_exists: bool,
) -> (s: SubmoduleStep)
    requires
        entry@.repo_path.len() > 0,
        entry@.repo_path[0] != '/',
    ensures
        s.url@ == project@.prefix + spec_path_canon(
            join_path_chars(entry@.repo_path, sub_url@),
        ),
        s.dest@ == join_path_chars(entry@.dest, sub_path@),
        s.update_only == git_exists,
{
    let joined = join_path(entry.repo_path.as_str(), sub_url);
    proof {
        assert(joined@[0] == entry@.repo_path[0]);
    }
    let rel = path_canon(joined.as_str());
    let url = concat_str(project.prefix.as_str(), rel.as_str());
    let dest = join_path(entry.dest.as_str(), sub_path);
    SubmoduleStep { url, dest, update_only: git_exists }
}

/// True when one of the strings equals `s`.
pub fn contains_string(v: &Vec<String>, s: &str) -> (b: bool)
    ensures
        b == v.deep_view().contains(s@),
{
    let ghost dv = v.deep_view();
    let mut i: usize = 0;
    while i < v.len()
        invariant
            0 <= i <= v.len(),
            dv == v.deep_view(),
            dv.len() == v.len(),
            forall|j: int| 0 <= j < i ==> dv[j] != s@,
        decreases v.len() - i,
    {
        if str_eq(v[i].as_str(), s) {
            proof {
                assert(dv[i as int] == s@);
            }
            return true;
        }
        proof {
            assert(v.deep_view()[i as int] == v@[i as int]@);
        }
        i = i + 1;
    }
    proof {
        assert(!dv.contains(s@));
    }
    false
}

/// The orphan report: every listed directory entry that the synced set
/// does not contain, in listing order. Diagnostic only; nothing is
/// deleted.
pub open spec fn spec_orphans(listing: Seq<Seq<char>>, synced: Seq<Seq<char>>) -> Seq<Seq<char>>
    decreases listing.len(),
{
    if listing.len() == 0 {
        Seq::empty()
    } else {
        let prev = spec_orphans(listing.drop_last(), synced);
        if synced.contains(listing.last()) {
            prev
        } else {
            prev.push(listing.last())
        }
    }
}

/// Flags every directory entry that no sync step maintains.
pub fn orphan_report(listing: &Vec<String>, synced: &Vec<String>) -> (orphans: Vec<String>)
    ensures
        orphans.deep_view() == spec_orphans(listing.deep_view(), synced.deep_view()),
{
    let ghost ls = listing.deep_view();
    let mut orphans: Vec<String> = Vec::new();
    let mut i: usize = 0;
    proof {
        assert(ls.take(0) =~= Seq::<Seq<char>>::empty());
        assert(orphans.deep_view() =~= spec_orphans(ls.take(0), synced.deep_view()));
    }
    while i < listing.len()
        invariant
            0 <= i <= listing.len(),
            ls == listing.deep_view(),
            ls.len() == listing.len(),
            orphans.deep_view() == spec_orphans(ls.take(i as int), synced.deep_view()),
        decreases listing.len() - i,
    {
        proof {
            assert(listing.deep_view()[i as int] == listing@[i as int]@);
            assert(ls.take(i as int + 1).drop_last() =~= ls.take(i as int));
            assert(ls.take(i as int + 1).last() == ls[i as int]);
        }
        if !contains_string(synced, listing[i].as_str()) {
            let ghost prev = orphans.deep_view();
            orphans.push(listing[i].clone());
            proof {
                assert(orphans.deep_view() =~= prev.push(ls[i as int]));
            }
        }
        i = i + 1;
    }
    proof {
        assert(ls.take(ls.len() as int) =~= ls);
    }
    orphans
}

/// Law: sync is idempotent over an unchanged remote set. The synced set
/// is a function of the project's repos and the destination root alone,
/// so a second run records the same set and, read against the same
/// directory listing, produces the same orphan report; and since the
/// first run created every destination, the second run only fetches —
/// it clones nothing.
pub proof fn lemma_sync_idempotent(
    prefix: Seq<char>,
    repos: Seq<Seq<char>>,
    root: Seq<char>,
    exists_second: Seq<bool>,
)
    requires
        exists_second.len() == spec_entries(repos, root).len(),
        forall|i: int| 0 <= i < exists_second.len() ==> exists_second[i],
    ensures
        spec_sync_steps(prefix, spec_entries(repos, root), exists_second).map_values(
            |s: SyncStepView| s.dest,
        ) == spec_synced_set(repos, root),
        forall|i: int|
            0 <= i < spec_entries(repos, root).len() ==> (#[trigger] spec_sync_steps(
                prefix,
                spec_entries(repos, root),
                exists_second,
            )[i]).kind == SyncKind::FetchExisting,
{
    let entries = spec_entries(repos, root);
    let steps = spec_sync_steps(prefix, entries, exists_second);
    assert(steps.map_values(|s: SyncStepView| s.dest) =~= spec_synced_set(repos, root));
}

} // verus!
