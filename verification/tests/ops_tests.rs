use hexgit::fleet::plan_repos;
use hexgit::manifest::Project;
use hexgit::ops::{
    changelog_decide, changelog_output, has_change_decide, lookup_tag, manual_push_command,
    push_refspec, remote_ref_name, resolve_rev, set_branch_decide, set_tag_plan, set_tag_validate,
    BranchObs, ChangeObs, ChangeVerdict, ChangelogOutput, ChangelogVerdict, PushSpecifier,
    SetBranchVerdict, SetTagCheck, TagObs,
};

fn project(prefix: &str, repos: &[&str]) -> Project {
    Project {
        prefix: prefix.to_string(),
        repos: repos.iter().map(|r| r.to_string()).collect(),
        remote_name: "origin".to_string(),
    }
}

fn tag_obs(has_tag: bool, branch: Option<&str>, or_branch: Option<&str>) -> TagObs {
    TagObs {
        has_tag,
        branch: branch.map(|s| s.to_string()),
        or_branch: or_branch.map(|s| s.to_string()),
    }
}

#[test]
fn set_tag_aborts_before_any_mutation() {
    // Repo B (second in order) already carries the tag and the run was
    // not told to continue: validation stops the whole operation and the
    // plan holds no action, so repo A is not tagged.
    let p = project("git@host:", &["a", "b"]);
    let plan = plan_repos(&p, "/dest");
    let obs = vec![
        tag_obs(false, Some("c1"), None),
        tag_obs(true, Some("c2"), None),
    ];
    let (check, actions) = set_tag_plan(&plan.entries, &obs, false, false);
    assert_eq!(check, SetTagCheck::TagExists(1));
    assert!(actions.is_empty());
}

#[test]
fn set_tag_proceeds_when_clean() {
    let p = project("git@host:", &["a", "b"]);
    let plan = plan_repos(&p, "/dest");
    let obs = vec![
        tag_obs(false, Some("c1"), None),
        tag_obs(false, None, Some("c2")),
    ];
    let (check, actions) = set_tag_plan(&plan.entries, &obs, false, false);
    assert_eq!(check, SetTagCheck::Proceed);
    assert_eq!(actions.len(), 2);
    assert_eq!(actions[0].dest, "/dest/a");
    assert_eq!(actions[0].commit, "c1");
    assert!(actions[0].push);
    assert_eq!(actions[1].dest, "/dest/b");
    assert_eq!(actions[1].commit, "c2");
}

#[test]
fn set_tag_skip_push_prints_instead() {
    let p = project("git@host:", &["a"]);
    let plan = plan_repos(&p, "/dest");
    let obs = vec![tag_obs(false, Some("c1"), None)];
    let (check, actions) = set_tag_plan(&plan.entries, &obs, false, true);
    assert_eq!(check, SetTagCheck::Proceed);
    assert!(!actions[0].push);
}

#[test]
fn set_tag_continue_if_exists_skips_tagged_repo() {
    let obs = vec![
        tag_obs(true, Some("c0"), None),
        tag_obs(false, Some("c1"), None),
    ];
    assert_eq!(set_tag_validate(&obs, true), SetTagCheck::Proceed);
    assert_eq!(set_tag_validate(&obs, false), SetTagCheck::TagExists(0));
}

#[test]
fn set_tag_unresolvable_branch_fails_validation() {
    let obs = vec![
        tag_obs(false, Some("c1"), None),
        tag_obs(false, None, None),
    ];
    assert_eq!(set_tag_validate(&obs, false), SetTagCheck::Unresolvable(1));
}

#[test]
fn set_branch_existing_branch() {
    let obs = BranchObs {
        branch_exists: true,
        base: Some("c1".to_string()),
        or_base: None,
    };
    assert!(matches!(
        set_branch_decide(&obs, true),
        SetBranchVerdict::SkipExists
    ));
    assert!(matches!(
        set_branch_decide(&obs, false),
        SetBranchVerdict::AbortExists
    ));
}

#[test]
fn set_branch_resolution_and_fallback() {
    let obs = BranchObs {
        branch_exists: false,
        base: Some("c1".to_string()),
        or_base: Some("c2".to_string()),
    };
    match set_branch_decide(&obs, false) {
        SetBranchVerdict::CreateAt(c) => assert_eq!(c, "c1"),
        _ => panic!("expected creation at base"),
    }
    let obs = BranchObs {
        branch_exists: false,
        base: None,
        or_base: Some("c2".to_string()),
    };
    match set_branch_decide(&obs, false) {
        SetBranchVerdict::CreateAt(c) => assert_eq!(c, "c2"),
        _ => panic!("expected creation at fallback"),
    }
    // An unresolvable base is a per-repo skip, not a run failure — the
    // deliberate asymmetry with the tag operation's validation.
    let obs = BranchObs {
        branch_exists: false,
        base: None,
        or_base: None,
    };
    assert!(matches!(
        set_branch_decide(&obs, false),
        SetBranchVerdict::SkipUnresolvable
    ));
}

#[test]
fn has_change_verdicts() {
    let both = ChangeObs {
        has_tag: true,
        has_branch: true,
        tag_commit: Some("c1".to_string()),
        branch_commit: Some("c1".to_string()),
    };
    assert!(matches!(
        has_change_decide(&both, false),
        ChangeVerdict::Unmodified
    ));
    let moved = ChangeObs {
        branch_commit: Some("c2".to_string()),
        ..both
    };
    assert!(matches!(
        has_change_decide(&moved, false),
        ChangeVerdict::Changed
    ));
    let no_tag = ChangeObs {
        has_tag: false,
        has_branch: true,
        tag_commit: None,
        branch_commit: None,
    };
    assert!(matches!(
        has_change_decide(&no_tag, false),
        ChangeVerdict::MissingTag { fatal: true }
    ));
    assert!(matches!(
        has_change_decide(&no_tag, true),
        ChangeVerdict::MissingTag { fatal: false }
    ));
    let no_branch = ChangeObs {
        has_tag: true,
        has_branch: false,
        tag_commit: None,
        branch_commit: None,
    };
    assert!(matches!(
        has_change_decide(&no_branch, false),
        ChangeVerdict::MissingBranch { fatal: true }
    ));
}

#[test]
fn tag_lookup_and_revision_resolution() {
    let tags = vec![
        ("v1".to_string(), "c1".to_string()),
        ("v2".to_string(), "c2".to_string()),
    ];
    assert_eq!(lookup_tag(&tags, "v2"), Some("c2".to_string()));
    assert_eq!(lookup_tag(&tags, "v3"), None);
    // A known tag wins; an unknown revision falls back to the branch
    // resolution; nothing resolves otherwise.
    assert_eq!(
        resolve_rev(&tags, "v1", &Some("cb".to_string())),
        Some("c1".to_string())
    );
    assert_eq!(
        resolve_rev(&tags, "main", &Some("cb".to_string())),
        Some("cb".to_string())
    );
    assert_eq!(resolve_rev(&tags, "main", &None), None);
}

#[test]
fn changelog_verdicts() {
    match changelog_decide(&Some("c1".to_string()), &Some("c2".to_string()), false) {
        ChangelogVerdict::Range(a, b) => {
            assert_eq!(a, "c1");
            assert_eq!(b, "c2");
        }
        _ => panic!("expected a range"),
    }
    assert!(matches!(
        changelog_decide(&None, &Some("c2".to_string()), false),
        ChangelogVerdict::MissingRev1 { fatal: true }
    ));
    assert!(matches!(
        changelog_decide(&None, &Some("c2".to_string()), true),
        ChangelogVerdict::MissingRev1 { fatal: false }
    ));
    assert!(matches!(
        changelog_decide(&Some("c1".to_string()), &None, false),
        ChangelogVerdict::MissingRev2 { fatal: true }
    ));
}

#[test]
fn changelog_output_policy() {
    assert!(matches!(
        changelog_output(true, false),
        ChangelogOutput::Silent
    ));
    assert!(matches!(
        changelog_output(true, true),
        ChangelogOutput::NoDiffNotice
    ));
    assert!(matches!(
        changelog_output(false, false),
        ChangelogOutput::ShowDiff
    ));
}

#[test]
fn push_helpers() {
    assert_eq!(remote_ref_name("origin", "main"), "origin/main");
    assert_eq!(
        manual_push_command("/dest/x", "v1"),
        "git --git-dir=/dest/x/.git push origin v1"
    );
    assert_eq!(push_refspec(&PushSpecifier::Tag("v1")), "refs/tags/v1");
    assert_eq!(push_refspec(&PushSpecifier::Branch("main")), "refs/heads/main");
}
