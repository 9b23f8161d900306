//! The invocation context shared by every command: which manifest to
//! use (an explicitly supplied one, or one of the loaded set picked by
//! the selector), which project of it, and the selector syntax
//! `manifest` or `manifest::project`.

use vstd::prelude::*;
use vstd::string::StrSliceExecFns;
use vstd::string::StringExecFns;

use crate::manifest::Manifest;
use crate::manifest::ManifestView;
use crate::manifest::Manifests;
use crate::manifest::Project;
use crate::manifest::spec_assoc;
use crate::manifest::spec_merge;

verus! {

/// A double colon stands at `i`.
pub open spec fn dcolon_at(s: Seq<char>, i: int) -> bool {
    0 <= i && i + 1 < s.len() && s[i] == ':' && s[i + 1] == ':'
}

/// Index of the first double colon, if any.
pub open spec fn find_dcolon(s: Seq<char>) -> Option<int>
    decreases s.len(),
{
    if s.len() < 2 {
        None
    } else if s[0] == ':' && s[1] == ':' {
        Some(0)
    } else {
        match find_dcolon(s.drop_first()) {
            None => None,
            Some(i) => Some(i + 1),
        }
    }
}

pub proof fn lemma_find_dcolon_spec(s: Seq<char>)
    ensures
        match find_dcolon(s) {
            None => forall|j: int| !dcolon_at(s, j),
            Some(i) => dcolon_at(s, i) && forall|j: int| 0 <= j < i ==> !dcolon_at(s, j),
        },
    decreases s.len(),
{
    if s.len() >= 2 && !(s[0] == ':' && s[1] == ':') {
        lemma_find_dcolon_spec(s.drop_first());
        let d = s.drop_first();
        match find_dcolon(d) {
            None => {
                assert forall|j: int| !dcolon_at(s, j) by {
                    if dcolon_at(s, j) {
                        assert(j >= 1);
                        assert(d[j - 1] == s[j] && d[j] == s[j + 1]);
                        assert(dcolon_at(d, j - 1));
                    }
                }
            },
            Some(i) => {
                assert(d[i] == s[i + 1] && d[i + 1] == s[i + 2]);
                assert(dcolon_at(s, i + 1));
                assert forall|j: int| 0 <= j < i + 1 implies !dcolon_at(s, j) by {
                    if j >= 1 && dcolon_at(s, j) {
                        assert(d[j - 1] == s[j] && d[j] == s[j + 1]);
                        assert(dcolon_at(d, j - 1));
                    }
                }
            },
        }
    } else if s.len() < 2 {
        assert forall|j: int| !dcolon_at(s, j) by {}
    }
}

/// Finds the first double colon of a string.
fn find_dcolon_str(s: &str) -> (r: Option<usize>)
    ensures
        match r {
            None => find_dcolon(s@) is None,
            Some(i) => find_dcolon(s@) == Some(i as int),
        },
{
    proof {
        lemma_find_dcolon_spec(s@);
    }
    let n = s.unicode_len();
    if n < 2 {
        return None;
    }
    let mut i: usize = 0;
    while i + 1 < n
        invariant
            0 <= i <= n - 1,
            n >= 2,
            n == s@.len(),
            forall|j: int| 0 <= j < i ==> !dcolon_at(s@, j),
            match find_dcolon(s@) {
                None => forall|j: int| !dcolon_at(s@, j),
                Some(k) => dcolon_at(s@, k) && forall|j: int| 0 <= j < k ==> !dcolon_at(s@, j),
            },
        decreases n - i,
    {
        if s.get_char(i) == ':' && s.get_char(i + 1) == ':' {
            proof {
                assert(dcolon_at(s@, i as int));
                if let Some(k) = find_dcolon(s@) {
                    assert(!(k < i) && !(i < k));
                }
            }
            return Some(i);
        }
        i = i + 1;
    }
    proof {
        assert forall|j: int| !dcolon_at(s@, j) by {
            if dcolon_at(s@, j) {
                assert(j + 1 < n);
                assert(0 <= j < i);
            }
        }
        if let Some(k) = find_dcolon(s@) {
            assert(dcolon_at(s@, k));
        }
    }
    None
}

/// A parsed project selector: one name picks a manifest whose projects
/// merge; two names, written `manifest::project`, pick a named project
/// of a manifest.
pub enum Selector {
    One(String),
    Two(String, String),
}

/// The manifest name a selector carries: everything before the first
/// double colon, or the whole selector.
pub open spec fn spec_sel_name(s: Seq<char>) -> Seq<char> {
    match find_dcolon(s) {
        None => s,
        Some(i) => s.take(i),
    }
}

/// The selector parses: at most one double colon.
pub open spec fn spec_sel_ok(s: Seq<char>) -> bool {
    match find_dcolon(s) {
        None => true,
        Some(i) => find_dcolon(s.skip(i + 2)) is None,
    }
}

/// The project name a selector carries, when it names one.
pub open spec fn spec_sel_project(s: Seq<char>) -> Option<Seq<char>> {
    match find_dcolon(s) {
        None => None,
        Some(i) => Some(s.skip(i + 2)),
    }
}

/// The parameters of one invocation: the backend mode, the manifests
/// loaded at start, the selector, an explicitly supplied manifest
/// overriding them, and the destination directory override.
pub struct AppParams {
    pub git_exec: bool,
    pub sys_manifests: Option<Manifests>,
    pub manifest_selector: Option<String>,
    pub manifest_file: Option<Manifest>,
    pub manifest_dest: Option<String>,
}

impl AppParams {
    /// The manifest this invocation works on, when its parameters
    /// determine one: the explicitly supplied manifest, or the loaded
    /// manifest the selector names.
    pub open spec fn spec_manifest_of(&self) -> Option<ManifestView> {
        match self.manifest_file {
            Some(f) => Some(f@),
            None => match self.manifest_selector {
                None => None,
                Some(sel) => if spec_sel_ok(sel@) && self.sys_manifests is Some {
                    spec_assoc(self.sys_manifests->0@.manifests, spec_sel_name(sel@))
                } else {
                    None
                },
            },
        }
    }

    /// Splits the selector on `::`: one part or two; more parts, or no
    /// selector at all, parse to nothing.
    pub fn selector(&self) -> (r: Option<Selector>)
        ensures
            match self.manifest_selector {
                None => r is None,
                Some(sel) => match find_dcolon(sel@) {
                    None => match r {
                        Some(Selector::One(a)) => a@ == sel@,
                        _ => false,
                    },
                    Some(i) => match find_dcolon(sel@.skip(i + 2)) {
                        None => match r {
                            Some(Selector::Two(a, b)) => a@ == sel@.take(i) && b@ == sel@.skip(
                                i + 2,
                            ),
                            _ => false,
                        },
                        Some(_) => r is None,
                    },
                },
            },
    {
        match &self.manifest_selector {
            None => None,
            Some(sel) => {
                let s = sel.as_str();
                match find_dcolon_str(s) {
                    None => Some(Selector::One(sel.clone())),
                    Some(i) => {
                        proof {
                            lemma_find_dcolon_spec(sel@);
                            assert(dcolon_at(sel@, i as int));
                        }
                        let n = s.unicode_len();
                        let head = s.substring_char(0, i).to_owned();
                        let rest = s.substring_char(i + 2, n).to_owned();
                        proof {
                            assert(head@ =~= sel@.take(find_dcolon(sel@)->0));
                            assert(rest@ =~= sel@.skip(find_dcolon(sel@)->0 + 2));
                        }
                        match find_dcolon_str(rest.as_str()) {
                            Some(_) => None,
                            None => Some(Selector::Two(head, rest)),
                        }
                    },
                }
            },
        }
    }

    /// The manifest this invocation works on. The caller must have
    /// supplied one or named a loaded one; anything else is a
    /// configuration error upstream and is excluded here.
    pub fn get_manifest(&self) -> (m: Manifest)
        requires
            self.spec_manifest_of() is Some,
        ensures
            Some(m@) == self.spec_manifest_of(),
    {
        match &self.manifest_file {
            Some(f) => f.clone(),
            None => {
                let name = match self.selector() {
                    Some(Selector::One(a)) => a,
                    Some(Selector::Two(a, _)) => a,
                    None => {
                        proof {
                            assert(false);
                        }
                        unreached()
                    },
                };
                match &self.sys_manifests {
                    Some(ms) => match ms.get(name.as_str()) {
                        Some(m) => m.clone(),
                        None => {
                            proof {
                                assert(false);
                            }
                            unreached()
                        },
                    },
                    None => {
                        proof {
                            assert(false);
                        }
                        unreached()
                    },
                }
            },
        }
    }

    /// Resolves the invocation's manifest and project: a two-part
    /// selector picks the named project, a one-part selector merges the
    /// manifest. The selector must parse and the project resolution must
    /// succeed; failed resolution is a configuration error upstream and
    /// is excluded here.
    pub fn get_project(&self) -> (r: (Manifest, Project))
        requires
            self.spec_manifest_of() is Some,
            self.manifest_selector is Some,
            spec_sel_ok(self.manifest_selector->0@),
            ({
                let mv = self.spec_manifest_of()->0;
                match spec_sel_project(self.manifest_selector->0@) {
                    Some(pname) => exists|k: int|
                        0 <= k < mv.projects.len() && (#[trigger] mv.projects[k]).0 == pname,
                    None => spec_merge(mv.projects) is Some,
                }
            }),
        ensures
            Some(r.0@) == self.spec_manifest_of(),
            ({
                let mv = self.spec_manifest_of()->0;
                match spec_sel_project(self.manifest_selector->0@) {
                    Some(pname) => exists|k: int|
                        0 <= k < mv.projects.len() && (#[trigger] mv.projects[k]).0 == pname
                            && r.1@ == mv.projects[k].1 && (forall|j: int|
                            0 <= j < k ==> (#[trigger] mv.projects[j]).0 != pname),
                    None => spec_merge(mv.projects) == Some(r.1@),
                }
            }),
    {
        let manifest = self.get_manifest();
        let project = match self.selector() {
            Some(Selector::Two(_, x)) => {
                match manifest.get_project(Some(x.as_str())) {
                    Ok(p) => p,
                    Err(_) => {
                        proof {
                            assert(false);
                        }
                        unreached()
                    },
                }
            },
            Some(Selector::One(_)) => {
                match manifest.get_project(None) {
                    Ok(p) => p,
                    Err(_) => {
                        proof {
                            assert(false);
                        }
                        unreached()
                    },
                }
            },
            None => {
                proof {
                    assert(false);
                }
                unreached()
            },
        };
        (manifest, project)
    }
}

} // verus!
