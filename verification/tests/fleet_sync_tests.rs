use hexgit::fleet::plan_repos;
use hexgit::manifest::Project;
use hexgit::sync::{
    orphan_report, submodule_step, sync_steps, synced_set, SyncKind,
};
use hexgit::util::{basename, path_canon};

fn project(prefix: &str, repos: &[&str]) -> Project {
    Project {
        prefix: prefix.to_string(),
        repos: repos.iter().map(|r| r.to_string()).collect(),
        remote_name: "origin".to_string(),
    }
}

fn strings(v: &[&str]) -> Vec<String> {
    v.iter().map(|s| s.to_string()).collect()
}

#[test]
fn path_canon_resolves_dots() {
    assert_eq!(path_canon("a/./b/../c"), "a/c");
    assert_eq!(path_canon("a/b/.."), "a");
    assert_eq!(path_canon("a//b"), "a/b");
    assert_eq!(path_canon(""), "");
    assert_eq!(path_canon(".."), "");
    assert_eq!(path_canon("grp/repo/../lib"), "grp/lib");
}

#[test]
fn basename_picks_last_segment() {
    assert_eq!(basename("grp/repo"), Some("repo".to_string()));
    assert_eq!(basename("repo"), Some("repo".to_string()));
    assert_eq!(basename("grp/repo/"), None);
    assert_eq!(basename(""), None);
    assert_eq!(basename("a/.."), None);
    assert_eq!(basename("a/."), None);
}

#[test]
fn plan_skips_paths_without_basename() {
    let p = project("git@host:", &["grp/x", "y", "z/"]);
    let plan = plan_repos(&p, "/dest");
    assert_eq!(plan.entries.len(), 2);
    assert_eq!(plan.entries[0].repo_path, "grp/x");
    assert_eq!(plan.entries[0].name, "x");
    assert_eq!(plan.entries[0].dest, "/dest/x");
    assert_eq!(plan.entries[1].repo_path, "y");
    assert_eq!(plan.entries[1].dest, "/dest/y");
    assert_eq!(plan.skipped, vec!["z/"]);
}

#[test]
fn sync_steps_fetch_or_clone() {
    let p = project("git@host:", &["grp/x", "y"]);
    let plan = plan_repos(&p, "/dest");
    let steps = sync_steps(&p, &plan.entries, &vec![true, false]);
    assert_eq!(steps.len(), 2);
    assert_eq!(steps[0].url, "git@host:grp/x");
    assert_eq!(steps[0].dest, "/dest/x");
    assert_eq!(steps[0].kind, SyncKind::FetchExisting);
    assert_eq!(steps[1].url, "git@host:y");
    assert_eq!(steps[1].kind, SyncKind::CloneFresh);
}

#[test]
fn orphan_report_flags_unmaintained() {
    let synced = strings(&["/dest/x", "/dest/y"]);
    let listing = strings(&["/dest/x", "/dest/stray", "/dest/y", "/dest/old"]);
    assert_eq!(
        orphan_report(&listing, &synced),
        strings(&["/dest/stray", "/dest/old"])
    );
}

#[test]
fn sync_twice_is_idempotent() {
    // First run: nothing exists yet; second run: everything the first
    // run created exists. The synced set and the orphan report, read
    // against the unchanged listing, are identical; the second run
    // clones nothing.
    let p = project("git@host:", &["grp/x", "y", "z/"]);
    let plan1 = plan_repos(&p, "/dest");
    let synced1 = synced_set(&plan1.entries);
    let steps1 = sync_steps(&p, &plan1.entries, &vec![false, false]);
    assert!(steps1.iter().all(|s| s.kind == SyncKind::CloneFresh));

    let plan2 = plan_repos(&p, "/dest");
    let synced2 = synced_set(&plan2.entries);
    let steps2 = sync_steps(&p, &plan2.entries, &vec![true, true]);
    assert_eq!(synced1, synced2);
    assert!(steps2.iter().all(|s| s.kind == SyncKind::FetchExisting));
    assert_eq!(
        steps2.iter().map(|s| s.dest.clone()).collect::<Vec<_>>(),
        synced2
    );

    let listing = strings(&["/dest/x", "/dest/stray", "/dest/y"]);
    assert_eq!(
        orphan_report(&listing, &synced1),
        orphan_report(&listing, &synced2)
    );
    assert_eq!(orphan_report(&listing, &synced1), strings(&["/dest/stray"]));
}

#[test]
fn submodule_resolution() {
    let p = project("git@host:", &["grp/x"]);
    let plan = plan_repos(&p, "/dest");
    let step = submodule_step(&p, &plan.entries[0], "../lib", "libs/lib", false);
    assert_eq!(step.url, "git@host:grp/lib");
    assert_eq!(step.dest, "/dest/x/libs/lib");
    assert!(!step.update_only);
    let step = submodule_step(&p, &plan.entries[0], "../lib", "libs/lib", true);
    assert!(step.update_only);
}
