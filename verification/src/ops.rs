//! The fleet consistency operations: branch creation, the two-phase tag
//! operation, the changed-since-tag check and the changelog. Each is a
//! pure decision over per-repository observations that the front end
//! gathers from the version-control backend; the verdicts say exactly
//! which mutation, report or abort follows.

use vstd::prelude::*;
use vstd::string::StringExecFns;

use crate::fleet::RepoEntry;
use crate::strutil::str_eq;
use crate::util::join_path;
use crate::util::join_path_chars;

verus! {

/// The reference a push sends: a tag or a branch, by name.
pub enum PushSpecifier<'a> {
    Tag(&'a str),
    Branch(&'a str),
}

/// The remote-qualified name of a branch, `remote/branch`, the form the
/// backend's remote-branch listing uses.
pub fn remote_ref_name(remote: &str, branch: &str) -> (r: String)
    ensures
        r@ == join_path_chars(remote@, branch@),
{
    join_path(remote, branch)
}

/// The full refspec a push sends for a tag or a branch.
pub fn push_refspec(spec: &PushSpecifier<'_>) -> (r: String)
    ensures
        match *spec {
            PushSpecifier::Tag(t) => r@ == "refs/tags/"@ + t@,
            PushSpecifier::Branch(b) => r@ == "refs/heads/"@ + b@,
        },
{
    match spec {
        PushSpecifier::Tag(t) => {
            let mut s = "refs/tags/".to_owned();
            s.append(t);
            s
        },
        PushSpecifier::Branch(b) => {
            let mut s = "refs/heads/".to_owned();
            s.append(b);
            s
        },
    }
}

/// The manual push command printed when pushing is skipped, for the
/// operator to run by hand.
pub fn manual_push_command(dest: &str, refname: &str) -> (r: String)
    ensures
        r@ == "git --git-dir="@ + dest@ + "/.git push origin "@ + refname@,
{
    let mut s = "git --git-dir=".to_owned();
    s.append(dest);
    s.append("/.git push origin ");
    s.append(refname);
    s
}

/// What the backend reported of one repository before a branch is set:
/// whether the branch to create already exists on the remote, and the
/// commits the base reference and the fallback reference resolve to.
pub struct BranchObs {
    pub branch_exists: bool,
    pub base: Option<String>,
    pub or_base: Option<String>,
}

/// The per-repository outcome of the branch operation.
pub enum SetBranchVerdict {
    /// The branch already exists and the run was told to continue:
    /// report and skip this repository.
    SkipExists,
    /// The branch already exists and the run was not told to continue:
    /// the whole operation aborts.
    AbortExists,
    /// Neither the base nor the fallback reference resolves: report and
    /// skip this repository — deliberately milder than the tag
    /// operation's validation failure.
    SkipUnresolvable,
    /// Create the branch at this commit, then push or print the manual
    /// command.
    CreateAt(String),
}

/// Decides one repository of the branch operation. An existing branch
/// skips or aborts according to `continue_if_exists`; an unresolvable
/// base (after trying the fallback) is reported and skipped; otherwise
/// the branch is created at the resolved commit, the base taking
/// precedence over the fallback.
pub fn set_branch_decide(obs: &BranchObs, continue_if_exists: bool) -> (v: SetBranchVerdict)
    ensures
        match v {
            SetBranchVerdict::SkipExists => obs.branch_exists && continue_if_exists,
            SetBranchVerdict::AbortExists => obs.branch_exists && !continue_if_exists,
            SetBranchVerdict::SkipUnresolvable => !obs.branch_exists && obs.base is None
                && obs.or_base is None,
            SetBranchVerdict::CreateAt(c) => !obs.branch_exists && match obs.base {
                Some(b) => c@ == b@,
                None => obs.or_base is Some && c@ == obs.or_base->0@,
            },
        },
{
    if obs.branch_exists {
        if continue_if_exists {
            SetBranchVerdict::SkipExists
        } else {
            SetBranchVerdict::AbortExists
        }
    } else {
        match &obs.base {
            Some(c) => SetBranchVerdict::CreateAt(c.clone()),
            None => match &obs.or_base {
                Some(c) => SetBranchVerdict::CreateAt(c.clone()),
                None => SetBranchVerdict::SkipUnresolvable,
            },
        }
    }
}

/// What the backend reported of one repository before the fleet is
/// tagged: whether the tag already exists, and the commits the branch
/// and the fallback branch resolve to.
pub struct TagObs {
    pub has_tag: bool,
    pub branch: Option<String>,
    pub or_branch: Option<String>,
}

/// The mathematical content of a [`TagObs`].
pub ghost struct TagObsView {
    pub has_tag: bool,
    pub branch: Option<Seq<char>>,
    pub or_branch: Option<Seq<char>>,
}

impl View for TagObs {
    type V = TagObsView;

    open spec fn view(&self) -> TagObsView {
        TagObsView {
            has_tag: self.has_tag,
            branch: match self.branch {
                Some(ref c) => Some(c@),
                None => None,
            },
            or_branch: match self.or_branch {
                Some(ref c) => Some(c@),
                None => None,
            },
        }
    }
}

impl DeepView for TagObs {
    type V = TagObsView;

    open spec fn deep_view(&self) -> TagObsView {
        self.view()
    }
}

/// The commit one repository's tag would land on: the branch resolution,
/// or the fallback's when the branch does not resolve.
pub open spec fn obs_resolved(o: TagObsView) -> Option<Seq<char>> {
    match o.branch {
        Some(c) => Some(c),
        None => o.or_branch,
    }
}

/// One repository passes the tag operation's validation phase: a
/// repository already carrying the tag passes only when the run was told
/// to continue, every other repository must resolve its branch.
pub open spec fn obs_ok(o: TagObsView, continue_if_exists: bool) -> bool {
    if o.has_tag {
        continue_if_exists
    } else {
        obs_resolved(o) is Some
    }
}

/// The outcome of the tag operation's validation phase: proceed to
/// mutation, or the index of the first repository that stopped the run.
#[derive(Clone, Copy, Debug, PartialEq, Eq, Structural)]
pub enum SetTagCheck {
    /// Every repository passed; the mutation phase may run.
    Proceed,
    /// This repository already carries the tag and the run was not told
    /// to continue: the whole operation stops before any mutation.
    TagExists(usize),
    /// This repository resolves neither the branch nor the fallback:
    /// the whole operation stops before any mutation.
    Unresolvable(usize),
}

/// Validation, the first phase of the tag operation: purely read-only.
/// Walks the observations in fleet order and stops at the first
/// repository that fails.
pub fn set_tag_validate(obs: &Vec<TagObs>, continue_if_exists: bool) -> (r: SetTagCheck)
    ensures
        r == SetTagCheck::Proceed <==> (forall|i: int|
            0 <= i < obs.deep_view().len() ==> obs_ok(
                #[trigger] obs.deep_view()[i],
                continue_if_exists,
            )),
        match r {
            SetTagCheck::Proceed => true,
            SetTagCheck::TagExists(i) => i < obs.deep_view().len() && obs.deep_view()[
                i as int
            ].has_tag && !continue_if_exists && (forall|j: int|
                0 <= j < i ==> obs_ok(#[trigger] obs.deep_view()[j], continue_if_exists)),
            SetTagCheck::Unresolvable(i) => i < obs.deep_view().len() && !obs.deep_view()[
                i as int
            ].has_tag && obs_resolved(obs.deep_view()[i as int]) is None && (forall|j: int|
                0 <= j < i ==> obs_ok(#[trigger] obs.deep_view()[j], continue_if_exists)),
        },
{
    let ghost dv = obs.deep_view();
    let mut i: usize = 0;
    while i < obs.len()
        invariant
            0 <= i <= obs.len(),
            dv == obs.deep_view(),
            dv.len() == obs.len(),
            forall|j: int| 0 <= j < i ==> obs_ok(#[trigger] dv[j], continue_if_exists),
        decreases obs.len() - i,
    {
        proof {
            assert(obs.deep_view()[i as int] == obs@[i as int]@);
        }
        let o = &obs[i];
        if o.has_tag {
            if !continue_if_exists {
                return SetTagCheck::TagExists(i);
            }
        } else if o.branch.is_none() && o.or_branch.is_none() {
            return SetTagCheck::Unresolvable(i);
        }
        proof {
            assert(obs_ok(dv[i as int], continue_if_exists));
        }
        i = i + 1;
    }
    SetTagCheck::Proceed
}

/// One tag mutation: create a lightweight tag at this commit in this
/// destination, then push it or print the manual command.
pub struct TagAction {
    pub dest: String,
    pub commit: String,
    pub push: bool,
}

/// The mathematical content of a [`TagAction`].
pub ghost struct TagActionView {
    pub dest: Seq<char>,
    pub commit: Seq<char>,
    pub push: bool,
}

impl View for TagAction {
    type V = TagActionView;

    open spec fn view(&self) -> TagActionView {
        TagActionView { dest: self.dest@, commit: self.commit@, push: self.push }
    }
}

impl DeepView for TagAction {
    type V = TagActionView;

    open spec fn deep_view(&self) -> TagActionView {
        self.view()
    }
}

/// The whole two-phase tag operation's plan: validation over every
/// repository first, and the mutation list second, built only when
/// validation passed — the hard barrier that keeps a failing repository
/// from leaving the fleet half-tagged. A repository that already carries
/// the tag and was allowed to pass must still resolve its branch when
/// the fleet is tagged; that is required here, as the mutation phase
/// does not return.
pub fn set_tag_plan(
    entries: &Vec<RepoEntry>,
    obs: &Vec<TagObs>,
    continue_if_exists: bool,
    skip_push: bool,
) -> (r: (SetTagCheck, Vec<TagAction>))
    requires
        entries.len() == obs.len(),
        (forall|i: int|
            0 <= i < obs.deep_view().len() ==> obs_ok(
                #[trigger] obs.deep_view()[i],
                continue_if_exists,
            )) ==> (forall|i: int|
            0 <= i < obs.deep_view().len() ==> obs_resolved(#[trigger] obs.deep_view()[i]) is Some),
    ensures
        r.0 == SetTagCheck::Proceed <==> (forall|i: int|
            0 <= i < obs.deep_view().len() ==> obs_ok(
                #[trigger] obs.deep_view()[i],
                continue_if_exists,
            )),
        r.0 != SetTagCheck::Proceed ==> r.1.len() == 0,
        r.0 == SetTagCheck::Proceed ==> r.1.deep_view() == Seq::new(
            entries.deep_view().len(),
            |i: int|
                TagActionView {
                    dest: entries.deep_view()[i].dest,
                    commit: obs_resolved(obs.deep_view()[i])->0,
                    push: !skip_push,
                },
        ),
{
    let ghost dv = obs.deep_view();
    let check = set_tag_validate(obs, continue_if_exists);
    let mut actions: Vec<TagAction> = Vec::new();
    match check {
        SetTagCheck::Proceed => {
            let ghost target = Seq::new(
                entries.deep_view().len(),
                |i: int|
                    TagActionView {
                        dest: entries.deep_view()[i].dest,
                        commit: obs_resolved(dv[i])->0,
                        push: !skip_push,
                    },
            );
            let mut i: usize = 0;
            while i < entries.len()
                invariant
                    0 <= i <= entries.len(),
                    entries.len() == obs.len(),
                    dv == obs.deep_view(),
                    forall|j: int| 0 <= j < dv.len() ==> obs_resolved(#[trigger] dv[j]) is Some,
                    target == Seq::new(
                        entries.deep_view().len(),
                        |j: int|
                            TagActionView {
                                dest: entries.deep_view()[j].dest,
                                commit: obs_resolved(dv[j])->0,
                                push: !skip_push,
                            },
                    ),
                    target.len() == entries.len(),
                    actions.deep_view() == target.take(i as int),
                decreases entries.len() - i,
            {
                proof {
                    assert(obs.deep_view()[i as int] == obs@[i as int]@);
                    assert(entries.deep_view()[i as int] == entries@[i as int]@);
                    assert(obs_resolved(dv[i as int]) is Some);
                }
                let commit = match &obs[i].branch {
                    Some(c) => c.clone(),
                    None => match &obs[i].or_branch {
                        Some(c) => c.clone(),
                        None => {
                            proof {
                                assert(false);
                            }
                            unreached()
                        },
                    },
                };
                let action = TagAction {
                    dest: entries[i].dest.clone(),
                    commit,
                    push: !skip_push,
                };
                let ghost av = action@;
                let ghost prev = actions.deep_view();
                actions.push(action);
                proof {
                    assert(av == target[i as int]);
                    assert(actions.deep_view() =~= prev.push(av));
                    assert(actions.deep_view() =~= target.take(i as int + 1));
                }
                i = i + 1;
            }
            proof {
                assert(target.take(target.len() as int) =~= target);
            }
            (SetTagCheck::Proceed, actions)
        },
        other => (other, actions),
    }
}

/// Law: the two-phase barrier. If any repository of the fleet already
/// carries the tag while the run was not told to continue, validation
/// cannot pass — so the plan holds no tag action and no repository, in
/// particular none earlier in the order, is tagged.
pub proof fn lemma_set_tag_two_phase(dv: Seq<TagObsView>, continue_if_exists: bool, i: int)
    requires
        0 <= i < dv.len(),
        dv[i].has_tag,
        !continue_if_exists,
    ensures
        !(forall|j: int| 0 <= j < dv.len() ==> obs_ok(#[trigger] dv[j], continue_if_exists)),
{
    assert(!obs_ok(dv[i], continue_if_exists));
}

/// What the backend reported of one repository for the change check:
/// whether the tag and the remote branch exist, and the commits each
/// points at when it does.
pub struct ChangeObs {
    pub has_tag: bool,
    pub has_branch: bool,
    pub tag_commit: Option<String>,
    pub branch_commit: Option<String>,
}

/// The per-repository outcome of the change check.
#[derive(Debug)]
pub enum ChangeVerdict {
    /// The tag is missing; fatal unless the run was told to continue.
    MissingTag { fatal: bool },
    /// The tag exists but the branch is missing; fatal unless the run
    /// was told to continue.
    MissingBranch { fatal: bool },
    /// Tag and branch tip point at the same commit.
    Unmodified,
    /// The branch tip moved away from the tagged commit.
    Changed,
}

/// Decides one repository of the change check: both references must
/// exist, and the repository is unmodified exactly when the tag's commit
/// equals the remote branch tip's.
pub fn has_change_decide(obs: &ChangeObs, continue_on_fail: bool) -> (v: ChangeVerdict)
    requires
        obs.has_tag && obs.has_branch ==> obs.tag_commit is Some && obs.branch_commit is Some,
    ensures
        match v {
            ChangeVerdict::MissingTag { fatal } => !obs.has_tag && fatal == !continue_on_fail,
            ChangeVerdict::MissingBranch { fatal } => obs.has_tag && !obs.has_branch && fatal
                == !continue_on_fail,
            ChangeVerdict::Unmodified => obs.has_tag && obs.has_branch && obs.tag_commit->0@
                == obs.branch_commit->0@,
            ChangeVerdict::Changed => obs.has_tag && obs.has_branch && obs.tag_commit->0@
                != obs.branch_commit->0@,
        },
{
    if !obs.has_tag {
        return ChangeVerdict::MissingTag { fatal: !continue_on_fail };
    }
    if !obs.has_branch {
        return ChangeVerdict::MissingBranch { fatal: !continue_on_fail };
    }
    let tag_commit = match &obs.tag_commit {
        Some(c) => c,
        None => {
            proof {
                assert(false);
            }
            unreached()
        },
    };
    let branch_commit = match &obs.branch_commit {
        Some(c) => c,
        None => {
            proof {
                assert(false);
            }
            unreached()
        },
    };
    if str_eq(tag_commit.as_str(), branch_commit.as_str()) {
        ChangeVerdict::Unmodified
    } else {
        ChangeVerdict::Changed
    }
}

/// Looks a tag up in the backend's name-to-commit listing; the first
/// pair with that name wins.
pub fn lookup_tag(tags: &Vec<(String, String)>, name: &str) -> (r: Option<String>)
    ensures
        match r {
            Some(c) => exists|i: int|
                0 <= i < tags@.len() && (#[trigger] tags@[i]).0@ == name@ && c@ == tags@[i].1@ && (
                forall|j: int| 0 <= j < i ==> (#[trigger] tags@[j]).0@ != name@),
            None => forall|i: int| 0 <= i < tags@.len() ==> (#[trigger] tags@[i]).0@ != name@,
        },
{
    let mut i: usize = 0;
    while i < tags.len()
        invariant
            0 <= i <= tags.len(),
            forall|j: int| 0 <= j < i ==> (#[trigger] tags@[j]).0@ != name@,
        decreases tags.len() - i,
    {
        if str_eq(tags[i].0.as_str(), name) {
            let c = tags[i].1.clone();
            proof {
                assert(tags@[i as int].0@ == name@ && c@ == tags@[i as int].1@);
            }
            return Some(c);
        }
        i = i + 1;
    }
    None
}

/// Resolves one changelog revision: first as a known tag, then through
/// the remote-branch resolution the front end supplies as fallback.
pub fn resolve_rev(tags: &Vec<(String, String)>, name: &str, branch_commit: &Option<String>) -> (r:
    Option<String>)
    ensures
        match r {
            Some(c) => (exists|i: int|
                0 <= i < tags@.len() && (#[trigger] tags@[i]).0@ == name@ && c@ == tags@[i].1@ && (
                forall|j: int| 0 <= j < i ==> (#[trigger] tags@[j]).0@ != name@)) || ((forall|
                i: int,
            |
                0 <= i < tags@.len() ==> (#[trigger] tags@[i]).0@ != name@) && branch_commit is Some
                && c@ == branch_commit->0@),
            None => (forall|i: int| 0 <= i < tags@.len() ==> (#[trigger] tags@[i]).0@ != name@)
                && branch_commit is None,
        },
{
    match lookup_tag(tags, name) {
        Some(c) => Some(c),
        None => match branch_commit {
            Some(c) => Some(c.clone()),
            None => None,
        },
    }
}

/// The per-repository outcome of the changelog operation.
pub enum ChangelogVerdict {
    /// The older revision resolves to nothing; fatal unless the run was
    /// told to continue.
    MissingRev1 { fatal: bool },
    /// The newer revision resolves to nothing; fatal unless the run was
    /// told to continue.
    MissingRev2 { fatal: bool },
    /// Log the range between these two resolved commits.
    Range(String, String),
}

/// Decides one repository of the changelog operation from the two
/// resolved revisions: both must resolve, the older one is checked
/// first.
pub fn changelog_decide(
    rev1: &Option<String>,
    rev2: &Option<String>,
    continue_on_fail: bool,
) -> (v: ChangelogVerdict)
    ensures
        match v {
            ChangelogVerdict::MissingRev1 { fatal } => rev1 is None && fatal == !continue_on_fail,
            ChangelogVerdict::MissingRev2 { fatal } => rev1 is Some && rev2 is None && fatal
                == !continue_on_fail,
            ChangelogVerdict::Range(a, b) => rev1 is Some && rev2 is Some && a@ == rev1->0@ && b@
                == rev2->0@,
        },
{
    let a = match rev1 {
        Some(c) => c,
        None => {
            return ChangelogVerdict::MissingRev1 { fatal: !continue_on_fail };
        },
    };
    let b = match rev2 {
        Some(c) => c,
        None => {
            return ChangelogVerdict::MissingRev2 { fatal: !continue_on_fail };
        },
    };
    ChangelogVerdict::Range(a.clone(), b.clone())
}

/// How a repository's changelog output is shown: empty output is silent
/// unless the run asks for a no-difference notice; anything else is
/// printed.
pub enum ChangelogOutput {
    Silent,
    NoDiffNotice,
    ShowDiff,
}

/// Decides how one repository's log output is reported.
pub fn changelog_output(output_empty: bool, show_no_diff: bool) -> (o: ChangelogOutput)
    ensures
        match o {
            ChangelogOutput::Silent => output_empty && !show_no_diff,
            ChangelogOutput::NoDiffNotice => output_empty && show_no_diff,
            ChangelogOutput::ShowDiff => !output_empty,
        },
{
    if output_empty {
        if show_no_diff {
            ChangelogOutput::NoDiffNotice
        } else {
            ChangelogOutput::Silent
        }
    } else {
        ChangelogOutput::ShowDiff
    }
}

} // verus!
