use hexgit::commands::{AppParams, Selector};
use hexgit::manifest::{Manifest, Manifests, Project};
use hexgit::strutil::{parse_u64, split_str, u64_to_dec};
use hexgit::versions::version_find_matches;
use hexgit::ver::Spec;

fn project(prefix: &str, repos: &[&str]) -> Project {
    Project {
        prefix: prefix.to_string(),
        repos: repos.iter().map(|r| r.to_string()).collect(),
        remote_name: "origin".to_string(),
    }
}

fn manifest(entries: Vec<(&str, Project)>) -> Manifest {
    Manifest::new(
        entries
            .into_iter()
            .map(|(n, p)| (n.to_string(), p))
            .collect(),
    )
}

fn params(selector: Option<&str>, manifests: Option<Manifests>) -> AppParams {
    AppParams {
        git_exec: false,
        sys_manifests: manifests,
        manifest_selector: selector.map(|s| s.to_string()),
        manifest_file: None,
        manifest_dest: None,
    }
}

#[test]
fn selector_forms() {
    let p = params(Some("mani"), None);
    match p.selector() {
        Some(Selector::One(a)) => assert_eq!(a, "mani"),
        _ => panic!("expected one-part selector"),
    }
    let p = params(Some("mani::proj"), None);
    match p.selector() {
        Some(Selector::Two(a, b)) => {
            assert_eq!(a, "mani");
            assert_eq!(b, "proj");
        }
        _ => panic!("expected two-part selector"),
    }
    let p = params(Some("a::b::c"), None);
    assert!(p.selector().is_none());
    let p = params(None, None);
    assert!(p.selector().is_none());
}

#[test]
fn selector_odd_colons() {
    // A single colon belongs to a part; the split is on the first
    // double colon only.
    let p = params(Some("a:::b"), None);
    match p.selector() {
        Some(Selector::Two(a, b)) => {
            assert_eq!(a, "a");
            assert_eq!(b, ":b");
        }
        _ => panic!("expected two-part selector"),
    }
}

#[test]
fn get_manifest_from_loaded_set() {
    let ms = Manifests::new(vec![
        ("one".to_string(), manifest(vec![("a", project("p:", &["x"]))])),
        ("two".to_string(), manifest(vec![("b", project("q:", &["y"]))])),
    ]);
    let p = params(Some("two"), Some(ms));
    let m = p.get_manifest();
    let proj = m.get_project(None).expect("merge");
    assert_eq!(proj.prefix, "q:");
}

#[test]
fn get_manifest_prefers_explicit_file() {
    let ms = Manifests::new(vec![(
        "one".to_string(),
        manifest(vec![("a", project("p:", &["x"]))]),
    )]);
    let mut p = params(Some("one"), Some(ms));
    p.manifest_file = Some(manifest(vec![("f", project("file:", &["z"]))]));
    let m = p.get_manifest();
    let proj = m.get_project(None).expect("merge");
    assert_eq!(proj.prefix, "file:");
}

#[test]
fn get_project_two_part_picks_named() {
    let ms = Manifests::new(vec![(
        "one".to_string(),
        manifest(vec![
            ("a", project("p:", &["x"])),
            ("b", project("p:", &["y", "z"])),
        ]),
    )]);
    let p = params(Some("one::b"), Some(ms));
    let (_m, proj) = p.get_project();
    assert_eq!(proj.repos, vec!["y", "z"]);
}

#[test]
fn get_project_one_part_merges() {
    let ms = Manifests::new(vec![(
        "one".to_string(),
        manifest(vec![
            ("a", project("p:", &["x"])),
            ("b", project("p:", &["y"])),
        ]),
    )]);
    let p = params(Some("one"), Some(ms));
    let (_m, proj) = p.get_project();
    assert_eq!(proj.repos, vec!["x", "y"]);
}

#[test]
fn decimal_parse_and_render() {
    assert_eq!(parse_u64("0"), Some(0));
    assert_eq!(parse_u64("42"), Some(42));
    assert_eq!(parse_u64("007"), Some(7));
    assert_eq!(parse_u64(""), None);
    assert_eq!(parse_u64("4x2"), None);
    assert_eq!(parse_u64("-1"), None);
    assert_eq!(parse_u64("18446744073709551615"), Some(u64::MAX));
    assert_eq!(parse_u64("18446744073709551616"), None);
    assert_eq!(u64_to_dec(0), "0");
    assert_eq!(u64_to_dec(105), "105");
    assert_eq!(u64_to_dec(u64::MAX), "18446744073709551615");
}

#[test]
fn split_str_matches_separator_semantics() {
    let parts = split_str("a.b..c", '.');
    assert_eq!(parts, vec!["a", "b", "", "c"]);
    let parts = split_str("", '.');
    assert_eq!(parts, vec![""]);
    let parts = split_str(".", '.');
    assert_eq!(parts, vec!["", ""]);
}

#[test]
fn version_find_filters_and_sorts() {
    // The worked example: candidates against ">= 1.2".
    let tags: Vec<String> = ["1.1.0", "1.2.0", "1.2.5", "1.3.0", "2.0.0"]
        .iter()
        .map(|s| s.to_string())
        .collect();
    let spec = Some(Spec::parse(">= 1.2").expect("spec"));
    let found = version_find_matches(&tags, &spec);
    assert_eq!(
        found,
        vec![(1, 2, 0), (1, 2, 5), (1, 3, 0), (2, 0, 0)]
    );
}

#[test]
fn version_find_parses_dedupes_and_orders() {
    // Tags that are not SemVer versions are dropped, duplicates appear
    // once, and the result is ordered whatever the input order; a tag
    // with pre-release metadata still contributes its triple.
    let tags: Vec<String> = ["2.0.0", "not-a-version", "1.2.0", "2.0.0", "1.10.0", "1.2.0-rc1"]
        .iter()
        .map(|s| s.to_string())
        .collect();
    let found = version_find_matches(&tags, &None);
    assert_eq!(found, vec![(1, 2, 0), (1, 10, 0), (2, 0, 0)]);
}
