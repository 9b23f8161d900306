//! The fleet iterator: maps each declared repository path of a resolved
//! project to its local destination directory, skipping paths that have
//! no basename, in declaration order. Every fleet-wide operation walks
//! the entries this planner produces.

use vstd::prelude::*;

use crate::manifest::Project;
use crate::util::basename;
use crate::util::join_path;
use crate::util::join_path_chars;
use crate::util::spec_basename;

verus! {

/// One repository of the fleet, resolved against a destination root:
/// the declared path, its basename, and the local directory
/// `root/basename` it lives in.
pub struct RepoEntry {
    pub repo_path: String,
    pub name: String,
    pub dest: String,
}

/// The mathematical content of a [`RepoEntry`].
pub ghost struct RepoEntryView {
    pub repo_path: Seq<char>,
    pub name: Seq<char>,
    pub dest: Seq<char>,
}

impl View for RepoEntry {
    type V = RepoEntryView;

    open spec fn view(&self) -> RepoEntryView {
        RepoEntryView { repo_path: self.repo_path@, name: self.name@, dest: self.dest@ }
    }
}

impl DeepView for RepoEntry {
    type V = RepoEntryView;

    open spec fn deep_view(&self) -> RepoEntryView {
        self.view()
    }
}

/// The entries a fleet walk visits: one per repo path that has a
/// basename, in declaration order, resolved against `root`.
pub open spec fn spec_entries(repos: Seq<Seq<char>>, root: Seq<char>) -> Seq<RepoEntryView>
    decreases repos.len(),
{
    if repos.len() == 0 {
        Seq::empty()
    } else {
        let prev = spec_entries(repos.drop_last(), root);
        match spec_basename(repos.last()) {
            None => prev,
            Some(b) => prev.push(
                RepoEntryView { repo_path: repos.last(), name: b, dest: join_path_chars(root, b) },
            ),
        }
    }
}

/// The repo paths a fleet walk skips: those without a basename, in
/// declaration order.
pub open spec fn spec_skipped(repos: Seq<Seq<char>>) -> Seq<Seq<char>>
    decreases repos.len(),
{
    if repos.len() == 0 {
        Seq::empty()
    } else {
        let prev = spec_skipped(repos.drop_last());
        match spec_basename(repos.last()) {
            None => prev.push(repos.last()),
            Some(_) => prev,
        }
    }
}

/// The resolved walk of one fleet: the entries to visit and the repo
/// paths that were skipped for want of a basename.
pub struct FleetPlan {
    pub entries: Vec<RepoEntry>,
    pub skipped: Vec<String>,
}

/// Resolves every repo path of the project against the destination
/// root: paths with a basename become entries at `root/basename`, the
/// rest are reported as skipped. Order follows the declaration.
pub fn plan_repos(project: &Project, dest_root: &str) -> (plan: FleetPlan)
    ensures
        plan.entries.deep_view() == spec_entries(project@.repos, dest_root@),
        plan.skipped.deep_view() == spec_skipped(project@.repos),
{
    let ghost repos = project@.repos;
    let mut entries: Vec<RepoEntry> = Vec::new();
    let mut skipped: Vec<String> = Vec::new();
    let mut i: usize = 0;
    proof {
        assert(repos.take(0) =~= Seq::<Seq<char>>::empty());
        assert(entries.deep_view() =~= spec_entries(repos.take(0), dest_root@));
        assert(skipped.deep_view() =~= spec_skipped(repos.take(0)));
    }
    while i < project.repos.len()
        invariant
            0 <= i <= project.repos.len(),
            repos == project@.repos,
            repos.len() == project.repos.len(),
            entries.deep_view() == spec_entries(repos.take(i as int), dest_root@),
            skipped.deep_view() == spec_skipped(repos.take(i as int)),
        decreases project.repos.len() - i,
    {
        proof {
            assert(project.repos.deep_view()[i as int] == project.repos@[i as int]@);
            assert(repos.take(i as int + 1).drop_last() =~= repos.take(i as int));
            assert(repos.take(i as int + 1).last() == repos[i as int]);
        }
        let repo = &project.repos[i];
        match basename(repo.as_str()) {
            None => {
                let ghost prev = skipped.deep_view();
                skipped.push(repo.clone());
                proof {
                    assert(skipped.deep_view() =~= prev.push(repos[i as int]));
                }
            },
            Some(name) => {
                let dest = join_path(dest_root, name.as_str());
                let entry = RepoEntry { repo_path: repo.clone(), name, dest };
                let ghost prev = entries.deep_view();
                let ghost ev = entry@;
                entries.push(entry);
                proof {
                    assert(entries.deep_view() =~= prev.push(ev));
                }
            },
        }
        i = i + 1;
    }
    proof {
        assert(repos.take(repos.len() as int) =~= repos);
    }
    FleetPlan { entries, skipped }
}

} // verus!
