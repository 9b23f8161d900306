//! The manifest model: named projects, each a clone-URL prefix, a remote
//! name and an ordered list of repository paths; lookup of a named project
//! and the merge of all projects of one manifest into a single fleet.

use vstd::prelude::*;
use vstd::string::StrSliceExecFns;
use vstd::string::StringExecFns;
use crate::strutil::str_eq;

verus! {

/// One fleet: a clone-URL prefix, an ordered list of repository paths,
/// and the name of the remote that every operation pushes to and
/// resolves against.
#[derive(Debug)]
pub struct Project {
    pub prefix: String,
    pub repos: Vec<String>,
    pub remote_name: String,
}

/// The mathematical content of a [`Project`].
pub ghost struct ProjectView {
    pub prefix: Seq<char>,
    pub repos: Seq<Seq<char>>,
    pub remote_name: Seq<char>,
}

impl View for Project {
    type V = ProjectView;

    open spec fn view(&self) -> ProjectView {
        ProjectView {
            prefix: self.prefix@,
            repos: self.repos.deep_view(),
            remote_name: self.remote_name@,
        }
    }
}

impl Clone for Project {
    fn clone(&self) -> (r: Self)
        ensures
            r@ == self@,
    {
        let r = Project {
            prefix: self.prefix.clone(),
            repos: clone_string_vec(&self.repos),
            remote_name: self.remote_name.clone(),
        };
        r
    }
}

/// Copies a vector of strings element by element.
fn clone_string_vec(v: &Vec<String>) -> (r: Vec<String>)
    ensures
        r.deep_view() == v.deep_view(),
{
    let mut r: Vec<String> = Vec::new();
    let mut i: usize = 0;
    while i < v.len()
        invariant
            0 <= i <= v.len(),
            r.len() == i,
            forall|j: int| 0 <= j < i ==> r.deep_view()[j] == v.deep_view()[j],
        decreases v.len() - i,
    {
        r.push(v[i].clone());
        i = i + 1;
    }
    proof {
        assert(r.deep_view() =~= v.deep_view());
    }
    r
}

/// A named collection of projects, as one manifest file declares it.
#[derive(Debug)]
pub struct Manifest {
    projects: Vec<(String, Project)>,
}

/// The mathematical content of a [`Manifest`]: name/project pairs in
/// declaration order.
pub ghost struct ManifestView {
    pub projects: Seq<(Seq<char>, ProjectView)>,
}

impl View for Manifest {
    type V = ManifestView;

    closed spec fn view(&self) -> ManifestView {
        ManifestView {
            projects: Seq::new(
                self.projects@.len(),
                |i: int| (self.projects@[i].0@, self.projects@[i].1@),
            ),
        }
    }
}

impl Clone for Manifest {
    fn clone(&self) -> (r: Self)
        ensures
            r@ == self@,
    {
        let mut projects: Vec<(String, Project)> = Vec::new();
        let mut i: usize = 0;
        while i < self.projects.len()
            invariant
                0 <= i <= self.projects.len(),
                projects.len() == i,
                forall|j: int|
                    0 <= j < i ==> (#[trigger] projects@[j]).0@ == self.projects@[j].0@
                        && projects@[j].1@ == self.projects@[j].1@,
            decreases self.projects.len() - i,
        {
            let name = self.projects[i].0.clone();
            let project = self.projects[i].1.clone();
            projects.push((name, project));
            i = i + 1;
        }
        let r = Manifest { projects };
        proof {
            assert(r@.projects =~= self@.projects);
        }
        r
    }
}

/// The first value stored under `name`, searching in declaration order.
pub open spec fn spec_assoc<V>(ms: Seq<(Seq<char>, V)>, name: Seq<char>) -> Option<V>
    decreases ms.len(),
{
    if ms.len() == 0 {
        None
    } else if ms[0].0 == name {
        Some(ms[0].1)
    } else {
        spec_assoc(ms.drop_first(), name)
    }
}

/// Why resolving a project from a manifest failed.
#[derive(Debug)]
pub enum ProjectError {
    NoDefined,
    CannotMergePrefix(String, String),
    CannotMergeRemoteName(String, String),
    CannotFind(String),
}

/// Every project of the sequence shares the first one's prefix and
/// remote name, the condition under which a manifest merges.
pub open spec fn projects_mergeable(ps: Seq<(Seq<char>, ProjectView)>) -> bool {
    forall|i: int|
        0 <= i < ps.len() ==> (#[trigger] ps[i]).1.prefix == ps[0].1.prefix && ps[i].1.remote_name
            == ps[0].1.remote_name
}

/// The repo lists of all projects, concatenated in declaration order.
pub open spec fn concat_repos(ps: Seq<(Seq<char>, ProjectView)>) -> Seq<Seq<char>>
    decreases ps.len(),
{
    if ps.len() == 0 {
        Seq::empty()
    } else {
        concat_repos(ps.drop_last()) + ps.last().1.repos
    }
}

/// What merging a manifest's projects yields, when it succeeds: the
/// shared prefix and remote name, and the concatenation of every repo
/// list in declaration order.
pub open spec fn spec_merge(ps: Seq<(Seq<char>, ProjectView)>) -> Option<ProjectView> {
    if ps.len() == 0 || !projects_mergeable(ps) {
        None
    } else {
        Some(
            ProjectView {
                prefix: ps[0].1.prefix,
                repos: concat_repos(ps),
                remote_name: ps[0].1.remote_name,
            },
        )
    }
}

proof fn lemma_concat_repos_take_step(ps: Seq<(Seq<char>, ProjectView)>, k: int)
    requires
        0 <= k < ps.len(),
    ensures
        concat_repos(ps.take(k + 1)) == concat_repos(ps.take(k)) + ps[k].1.repos,
{
    assert(ps.take(k + 1).drop_last() =~= ps.take(k));
    assert(ps.take(k + 1).last() == ps[k]);
}

/// The error a failed merge reports is the right one for the projects:
/// nothing declared, or the first project and the first offender whose
/// prefix or remote name departs from it.
pub open spec fn merge_error_ok(ps: Seq<(Seq<char>, ProjectView)>, e: ProjectError) -> bool {
    match e {
        ProjectError::NoDefined => ps.len() == 0,
        ProjectError::CannotMergePrefix(a, b) => exists|i: int|
            1 <= i < ps.len() && a@ == ps[0].0 && b@ == (#[trigger] ps[i]).0 && ps[i].1.prefix
                != ps[0].1.prefix && (forall|j: int|
                1 <= j < i ==> (#[trigger] ps[j]).1.prefix == ps[0].1.prefix
                    && ps[j].1.remote_name == ps[0].1.remote_name),
        ProjectError::CannotMergeRemoteName(a, b) => exists|i: int|
            1 <= i < ps.len() && a@ == ps[0].0 && b@ == (#[trigger] ps[i]).0 && ps[i].1.prefix
                == ps[0].1.prefix && ps[i].1.remote_name != ps[0].1.remote_name && (forall|j: int|
                1 <= j < i ==> (#[trigger] ps[j]).1.prefix == ps[0].1.prefix
                    && ps[j].1.remote_name == ps[0].1.remote_name),
        ProjectError::CannotFind(_) => false,
    }
}

impl Manifest {
    /// Builds a manifest from name/project pairs in declaration order.
    pub fn new(projects: Vec<(String, Project)>) -> (m: Manifest)
        ensures
            m@.projects == Seq::new(
                projects@.len(),
                |i: int| (projects@[i].0@, projects@[i].1@),
            ),
    {
        Manifest { projects }
    }

    /// Folds every project of the manifest into one fleet. All projects
    /// must agree on prefix and remote name; the merged repo list is the
    /// concatenation in declaration order, duplicates preserved. A
    /// mismatch names the first project and the first offender.
    pub fn merge_project(&self) -> (r: Result<Project, ProjectError>)
        ensures
            r is Ok <==> spec_merge(self@.projects) is Some,
            match r {
                Ok(p) => spec_merge(self@.projects) == Some(p@),
                Err(e) => merge_error_ok(self@.projects, e),
            },
    {
        let ghost ps = self@.projects;
        if self.projects.len() == 0 {
            return Err(ProjectError::NoDefined);
        }
        let mut overall: Project = self.projects[0].1.clone();
        proof {
            assert(overall@ == ps[0].1);
            assert(ps.take(1).drop_last() =~= Seq::<(Seq<char>, ProjectView)>::empty());
            assert(ps.take(1).last() == ps[0]);
            assert(concat_repos(Seq::<(Seq<char>, ProjectView)>::empty())
                == Seq::<Seq<char>>::empty());
            assert(concat_repos(ps.take(1)) =~= ps[0].1.repos);
        }
        let mut k: usize = 1;
        while k < self.projects.len()
            invariant
                1 <= k <= ps.len(),
                ps == self@.projects,
                ps.len() == self.projects.len(),
                forall|i: int| #![auto] 0 <= i < ps.len() ==> ps[i] == (
                    self.projects@[i].0@,
                    self.projects@[i].1@,
                ),
                forall|j: int|
                    1 <= j < k ==> (#[trigger] ps[j]).1.prefix == ps[0].1.prefix
                        && ps[j].1.remote_name == ps[0].1.remote_name,
                overall@.prefix == ps[0].1.prefix,
                overall@.remote_name == ps[0].1.remote_name,
                overall@.repos == concat_repos(ps.take(k as int)),
            decreases ps.len() - k,
        {
            let prefix_same = str_eq(self.projects[k].1.prefix.as_str(), overall.prefix.as_str());
            if !prefix_same {
                let a = self.projects[0].0.clone();
                let b = self.projects[k].0.clone();
                proof {
                    assert(ps[0] == (self.projects@[0].0@, self.projects@[0].1@));
                    assert(ps[k as int] == (
                        self.projects@[k as int].0@,
                        self.projects@[k as int].1@,
                    ));
                    assert(a@ == ps[0].0);
                    assert(b@ == ps[k as int].0);
                    assert(ps[k as int].1.prefix != ps[0].1.prefix);
                    assert(!projects_mergeable(ps));
                }
                return Err(ProjectError::CannotMergePrefix(a, b));
            }
            let remote_same = str_eq(
                self.projects[k].1.remote_name.as_str(),
                overall.remote_name.as_str(),
            );
            if !remote_same {
                let a = self.projects[0].0.clone();
                let b = self.projects[k].0.clone();
                proof {
                    assert(ps[0] == (self.projects@[0].0@, self.projects@[0].1@));
                    assert(ps[k as int] == (
                        self.projects@[k as int].0@,
                        self.projects@[k as int].1@,
                    ));
                    assert(a@ == ps[0].0);
                    assert(b@ == ps[k as int].0);
                    assert(ps[k as int].1.prefix == ps[0].1.prefix);
                    assert(ps[k as int].1.remote_name != ps[0].1.remote_name);
                    assert(!projects_mergeable(ps));
                }
                return Err(ProjectError::CannotMergeRemoteName(a, b));
            }
            let ghost old_repos = overall.repos.deep_view();
            let mut j: usize = 0;
            let more = &self.projects[k].1.repos;
            while j < more.len()
                invariant
                    0 <= j <= more.len(),
                    more.deep_view() == self@.projects[k as int].1.repos,
                    k < self@.projects.len(),
                    overall@.prefix == self@.projects[0].1.prefix,
                    overall@.remote_name == self@.projects[0].1.remote_name,
                    overall.repos.deep_view() == old_repos + more.deep_view().take(j as int),
                decreases more.len() - j,
            {
                let item = more[j].clone();
                let ghost prev = overall.repos.deep_view();
                overall.repos.push(item);
                proof {
                    assert(overall.repos.deep_view() =~= prev.push(
                        more.deep_view()[j as int],
                    ));
                    assert(more.deep_view().take(j as int + 1) =~= more.deep_view().take(
                        j as int,
                    ).push(more.deep_view()[j as int]));
                    assert(overall.repos.deep_view() =~= old_repos + more.deep_view().take(
                        j as int + 1,
                    ));
                }
                j = j + 1;
            }
            proof {
                assert(more.deep_view().take(more.len() as int) =~= more.deep_view());
                lemma_concat_repos_take_step(ps, k as int);
            }
            k = k + 1;
        }
        proof {
            assert(ps.take(ps.len() as int) =~= ps);
            assert(projects_mergeable(ps));
        }
        Ok(overall)
    }

    /// Resolves a project: by exact name when one is given, by merging
    /// the whole manifest otherwise. A missing name reports the name; a
    /// failed merge reports as [`Manifest::merge_project`] does.
    pub fn get_project(&self, project_name: Option<&str>) -> (r: Result<Project, ProjectError>)
        ensures
            ({
                let ps = self@.projects;
                match project_name {
                    None => {
                        &&& (r is Ok <==> spec_merge(ps) is Some)
                        &&& match r {
                            Ok(p) => spec_merge(ps) == Some(p@),
                            Err(e) => merge_error_ok(ps, e),
                        }
                    },
                    Some(name) => match r {
                        Ok(p) => exists|i: int|
                            0 <= i < ps.len() && (#[trigger] ps[i]).0 == name@ && p@ == ps[i].1
                                && (forall|j: int|
                                0 <= j < i ==> (#[trigger] ps[j]).0 != name@),
                        Err(e) => match e {
                            ProjectError::CannotFind(t) => t@ == name@ && forall|i: int|
                                0 <= i < ps.len() ==> (#[trigger] ps[i]).0 != name@,
                            _ => false,
                        },
                    },
                }
            }),
    {
        match project_name {
            None => self.merge_project(),
            Some(name) => {
                let ghost ps = self@.projects;
                let mut i: usize = 0;
                while i < self.projects.len()
                    invariant
                        0 <= i <= ps.len(),
                        project_name == Some(name),
                        ps == self@.projects,
                        ps.len() == self.projects.len(),
                        forall|k: int| #![auto] 0 <= k < ps.len() ==> ps[k] == (
                            self.projects@[k].0@,
                            self.projects@[k].1@,
                        ),
                        forall|j: int| 0 <= j < i ==> (#[trigger] ps[j]).0 != name@,
                    decreases ps.len() - i,
                {
                    if str_eq(self.projects[i].0.as_str(), name) {
                        let p = self.projects[i].1.clone();
                        proof {
                            assert(ps[i as int].0 == name@);
                            assert(p@ == ps[i as int].1);
                            assert(exists|ii: int|
                                0 <= ii < ps.len() && (#[trigger] ps[ii]).0 == name@ && p@
                                    == ps[ii].1 && (forall|j: int|
                                    0 <= j < ii ==> (#[trigger] ps[j]).0 != name@)) by {
                                assert(0 <= (i as int) && (i as int) < ps.len() && ps[
                                    i as int
                                ].0 == name@ && p@ == ps[i as int].1 && (forall|j: int|
                                    0 <= j < i as int ==> (#[trigger] ps[j]).0 != name@));
                            }
                        }
                        return Ok(p);
                    }
                    i = i + 1;
                }
                Err(ProjectError::CannotFind(name.to_owned()))
            },
        }
    }
}

/// The manifest name a file of the manifest directory contributes: the
/// file name with the `.toml` suffix removed. A file without that suffix
/// is not a manifest and contributes nothing.
pub fn manifest_file_stem(filename: &str) -> (r: Option<String>)
    ensures
        match r {
            Some(stem) => filename@.len() >= 5 && stem@ == filename@.take(
                filename@.len() - 5,
            ) && filename@.skip(filename@.len() - 5) =~= seq!['.', 't', 'o', 'm', 'l'],
            None => filename@.len() < 5 || !(filename@.skip(filename@.len() - 5) =~= seq![
                '.',
                't',
                'o',
                'm',
                'l',
            ]),
        },
{
    proof {
        reveal_strlit(".toml");
        assert(".toml"@ =~= seq!['.', 't', 'o', 'm', 'l']);
    }
    let n = filename.unicode_len();
    if n < 5 {
        return None;
    }
    let suffix = filename.substring_char(n - 5, n);
    if str_eq(suffix, ".toml") {
        let stem = filename.substring_char(0, n - 5).to_owned();
        proof {
            assert(filename@.skip(filename@.len() - 5) =~= suffix@);
            assert(stem@ =~= filename@.take(filename@.len() - 5));
        }
        Some(stem)
    } else {
        proof {
            assert(filename@.skip(filename@.len() - 5) =~= suffix@);
        }
        None
    }
}

/// The manifests known to one run, each under its file-derived name.
#[derive(Debug)]
pub struct Manifests {
    manifests: Vec<(String, Manifest)>,
}

/// The mathematical content of [`Manifests`].
pub ghost struct ManifestsView {
    pub manifests: Seq<(Seq<char>, ManifestView)>,
}

impl View for Manifests {
    type V = ManifestsView;

    closed spec fn view(&self) -> ManifestsView {
        ManifestsView {
            manifests: Seq::new(
                self.manifests@.len(),
                |i: int| (self.manifests@[i].0@, self.manifests@[i].1@),
            ),
        }
    }
}

impl Manifests {
    /// Builds the collection from name/manifest pairs.
    pub fn new(manifests: Vec<(String, Manifest)>) -> (r: Manifests)
        ensures
            r@.manifests == Seq::new(
                manifests@.len(),
                |i: int| (manifests@[i].0@, manifests@[i].1@),
            ),
    {
        Manifests { manifests }
    }

    /// Looks a manifest up by name; the first pair with that name wins.
    pub fn get(&self, name: &str) -> (r: Option<&Manifest>)
        ensures
            match r {
                Some(m) => spec_assoc(self@.manifests, name@) == Some(m@),
                None => spec_assoc(self@.manifests, name@) is None,
            },
    {
        let ghost ms = self@.manifests;
        let mut i: usize = 0;
        proof {
            assert(ms.skip(0) =~= ms);
        }
        while i < self.manifests.len()
            invariant
                0 <= i <= ms.len(),
                ms == self@.manifests,
                ms.len() == self.manifests.len(),
                forall|k: int| #![auto] 0 <= k < ms.len() ==> ms[k] == (
                    self.manifests@[k].0@,
                    self.manifests@[k].1@,
                ),
                spec_assoc(ms, name@) == spec_assoc(ms.skip(i as int), name@),
            decreases ms.len() - i,
        {
            proof {
                assert(ms.skip(i as int)[0] == ms[i as int]);
                assert(ms.skip(i as int).drop_first() =~= ms.skip(i as int + 1));
            }
            if str_eq(self.manifests[i].0.as_str(), name) {
                let m = &self.manifests[i].1;
                proof {
                    assert(ms[i as int].0 == name@);
                    assert(m@ == ms[i as int].1);
                    assert(spec_assoc(ms.skip(i as int), name@) == Some(ms[i as int].1));
                }
                return Some(m);
            }
            i = i + 1;
        }
        proof {
            assert(ms.skip(ms.len() as int) =~= Seq::<(Seq<char>, ManifestView)>::empty());
        }
        None
    }
}

/// Law: two projects sharing prefix and remote name merge into the
/// concatenation of their repo lists in input order; two projects
/// differing in either field do not merge at all.
pub proof fn lemma_merge_two(n1: Seq<char>, p1: ProjectView, n2: Seq<char>, p2: ProjectView)
    ensures
        p1.prefix == p2.prefix && p1.remote_name == p2.remote_name ==> spec_merge(
            seq![(n1, p1), (n2, p2)],
        ) == Some(ProjectView { prefix: p1.prefix, repos: p1.repos + p2.repos, remote_name: p1.remote_name }),
        p1.prefix != p2.prefix || p1.remote_name != p2.remote_name ==> spec_merge(
            seq![(n1, p1), (n2, p2)],
        ) is None,
{
    let ps = seq![(n1, p1), (n2, p2)];
    assert(ps.drop_last() =~= seq![(n1, p1)]);
    assert(seq![(n1, p1)].drop_last() =~= Seq::<(Seq<char>, ProjectView)>::empty());
    assert(concat_repos(Seq::<(Seq<char>, ProjectView)>::empty()) =~= Seq::<Seq<char>>::empty());
    assert(concat_repos(seq![(n1, p1)]) =~= p1.repos);
    assert(concat_repos(ps) =~= p1.repos + p2.repos);
    if p1.prefix == p2.prefix && p1.remote_name == p2.remote_name {
        assert(projects_mergeable(ps));
    } else {
        assert(ps[1].1 == p2);
        assert(!projects_mergeable(ps));
    }
}

} // verus!
