use hexgit::manifest::{manifest_file_stem, Manifest, Manifests, Project, ProjectError};

fn project(prefix: &str, remote: &str, repos: &[&str]) -> Project {
    Project {
        prefix: prefix.to_string(),
        repos: repos.iter().map(|r| r.to_string()).collect(),
        remote_name: remote.to_string(),
    }
}

fn manifest(entries: Vec<(&str, Project)>) -> Manifest {
    Manifest::new(
        entries
            .into_iter()
            .map(|(n, p)| (n.to_string(), p))
            .collect(),
    )
}

#[test]
fn merge_concatenates_in_order() {
    let m = manifest(vec![
        ("a", project("git@host:", "origin", &["x", "y"])),
        ("b", project("git@host:", "origin", &["z"])),
    ]);
    let merged = m.merge_project().expect("merge");
    assert_eq!(merged.prefix, "git@host:");
    assert_eq!(merged.remote_name, "origin");
    assert_eq!(merged.repos, vec!["x", "y", "z"]);
}

#[test]
fn merge_keeps_duplicate_repos() {
    let m = manifest(vec![
        ("a", project("p:", "origin", &["x"])),
        ("b", project("p:", "origin", &["x", "y"])),
    ]);
    let merged = m.merge_project().expect("merge");
    assert_eq!(merged.repos, vec!["x", "x", "y"]);
}

#[test]
fn merge_prefix_mismatch_names_both() {
    let m = manifest(vec![
        ("first", project("p1:", "origin", &["x"])),
        ("second", project("p2:", "origin", &["y"])),
    ]);
    match m.merge_project() {
        Err(ProjectError::CannotMergePrefix(a, b)) => {
            assert_eq!(a, "first");
            assert_eq!(b, "second");
        }
        other => panic!("expected prefix mismatch, got {:?}", other),
    }
}

#[test]
fn merge_remote_mismatch_names_both() {
    let m = manifest(vec![
        ("first", project("p:", "origin", &["x"])),
        ("second", project("p:", "upstream", &["y"])),
    ]);
    match m.merge_project() {
        Err(ProjectError::CannotMergeRemoteName(a, b)) => {
            assert_eq!(a, "first");
            assert_eq!(b, "second");
        }
        other => panic!("expected remote mismatch, got {:?}", other),
    }
}

#[test]
fn merge_empty_manifest_fails() {
    let m = Manifest::new(Vec::new());
    assert!(matches!(m.merge_project(), Err(ProjectError::NoDefined)));
}

#[test]
fn merge_single_project_is_itself() {
    let m = manifest(vec![("only", project("p:", "origin", &["a", "b"]))]);
    let merged = m.merge_project().expect("merge");
    assert_eq!(merged.repos, vec!["a", "b"]);
}

#[test]
fn get_project_by_name() {
    let m = manifest(vec![
        ("a", project("p:", "origin", &["x"])),
        ("b", project("p:", "origin", &["y", "z"])),
    ]);
    let p = m.get_project(Some("b")).expect("found");
    assert_eq!(p.repos, vec!["y", "z"]);
}

#[test]
fn get_project_missing_name() {
    let m = manifest(vec![("a", project("p:", "origin", &["x"]))]);
    match m.get_project(Some("nope")) {
        Err(ProjectError::CannotFind(t)) => assert_eq!(t, "nope"),
        other => panic!("expected not-found, got {:?}", other),
    }
}

#[test]
fn get_project_none_merges() {
    let m = manifest(vec![
        ("a", project("p:", "origin", &["x"])),
        ("b", project("p:", "origin", &["y"])),
    ]);
    let p = m.get_project(None).expect("merge");
    assert_eq!(p.repos, vec!["x", "y"]);
}

#[test]
fn manifests_lookup() {
    let ms = Manifests::new(vec![
        (
            "one".to_string(),
            manifest(vec![("a", project("p:", "origin", &["x"]))]),
        ),
        (
            "two".to_string(),
            manifest(vec![("b", project("q:", "origin", &["y"]))]),
        ),
    ]);
    let m = ms.get("two").expect("present");
    let p = m.get_project(None).expect("merge");
    assert_eq!(p.prefix, "q:");
    assert!(ms.get("three").is_none());
}

#[test]
fn manifest_file_name_rule() {
    assert_eq!(manifest_file_stem("fleet.toml"), Some("fleet".to_string()));
    assert_eq!(manifest_file_stem(".toml"), Some("".to_string()));
    assert_eq!(manifest_file_stem("fleet.yaml"), None);
    assert_eq!(manifest_file_stem("toml"), None);
    assert_eq!(manifest_file_stem(""), None);
}
