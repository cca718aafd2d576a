use rust_workspace_map::paths::relativize_path;
use rust_workspace_map::module_tree::SourceEntry;
use rust_workspace_map::schema::{CrateType, Error};
use rust_workspace_map::syntax::SourceFile;
use rust_workspace_map::workspace::{
    ancestors, enumerate_members, find_workspace_root, has_glob, manifest_members, resolve_crate_roots,
    ManifestProbe, MemberProbe, MemberReport, PathProbe,
};

fn manifest(text: &str) -> Result<String, String> {
    Ok(text.to_string())
}

fn crate_dir(root: &str, member: &str) -> MemberReport {
    MemberReport {
        member: member.to_string(),
        probe: MemberProbe::Plain(PathProbe { path: format!("{root}/{member}"), is_crate_dir: true }),
    }
}

fn source(path: &str) -> SourceEntry {
    SourceEntry { path: path.to_string(), parsed: Ok(SourceFile { items: vec![] }) }
}

#[test]
fn find_workspace_root_finds_cargo_toml() {
    let tmp = "/tmp/ws1";
    let path = format!("{tmp}/subdir/nested");
    let probes = vec![
        ManifestProbe { dir: format!("{tmp}/subdir/nested"), manifest: None },
        ManifestProbe { dir: format!("{tmp}/subdir"), manifest: None },
        ManifestProbe { dir: tmp.to_string(), manifest: Some(Ok("[workspace]".to_string())) },
    ];
    let result = find_workspace_root(&path, &probes).unwrap();
    assert_eq!(result, tmp);
}

#[test]
fn find_workspace_root_skips_package_manifests() {
    let probes = vec![
        ManifestProbe { dir: "/w/a".to_string(), manifest: Some(Ok("[package]\nname = \"a\"".to_string())) },
        ManifestProbe { dir: "/w".to_string(), manifest: Some(Ok("[workspace]\nmembers = []".to_string())) },
    ];
    assert_eq!(find_workspace_root("/w/a", &probes).unwrap(), "/w");
}

#[test]
fn find_workspace_root_not_found() {
    let probes = vec![ManifestProbe { dir: "/x".to_string(), manifest: Some(Ok("[package]".to_string())) }];
    match find_workspace_root("/x/y", &probes) {
        Err(Error::WorkspaceRootNotFound(p)) => assert_eq!(p, "/x/y"),
        other => panic!("expected WorkspaceRootNotFound, got {other:?}"),
    }
}

#[test]
fn find_workspace_root_read_error() {
    let probes = vec![ManifestProbe { dir: "/x".to_string(), manifest: Some(Err("denied".to_string())) }];
    match find_workspace_root("/x", &probes) {
        Err(Error::FileRead { path, message }) => {
            assert_eq!(path, "/x/Cargo.toml");
            assert_eq!(message, "denied");
        }
        other => panic!("expected FileRead, got {other:?}"),
    }
}

#[test]
fn ancestors_lists_every_parent() {
    assert_eq!(ancestors("/a/b/c"), vec!["/a/b/c", "/a/b", "/a", "/"]);
    assert_eq!(ancestors("a/b"), vec!["a/b", "a", ""]);
}

#[test]
fn enumerate_members_returns_members() {
    let root = "/tmp/ws2";
    let doc = manifest(
        r#"
[workspace]
members = ["crate_a", "crate_b"]
"#,
    );
    let reports = vec![crate_dir(root, "crate_a"), crate_dir(root, "crate_b")];
    let (members, _warnings) = enumerate_members(root, &doc, &reports).unwrap();
    assert_eq!(members.len(), 2);
}

#[test]
fn enumerate_members_returns_err_for_missing_workspace() {
    let doc = manifest("[dependencies]\nfoo = \"1\"");
    let result = enumerate_members("/tmp/ws3", &doc, &vec![]);
    assert!(result.is_err());
    match result.unwrap_err() {
        Error::MissingWorkspaceSection => {}
        other => panic!("expected MissingWorkspaceSection, got {:?}", other),
    }
}

#[test]
fn enumerate_members_applies_exclude() {
    let root = "/tmp/ws4";
    let doc = manifest(
        r#"
[workspace]
members = ["a", "b", "c"]
exclude = ["b"]
"#,
    );
    let reports = vec![crate_dir(root, "a"), crate_dir(root, "b"), crate_dir(root, "c")];
    let (members, _) = enumerate_members(root, &doc, &reports).unwrap();
    let names: Vec<String> = members.iter().map(|p| p.rsplit('/').next().unwrap().to_string()).collect();
    assert!(names.iter().any(|n| *n == "a"));
    assert!(!names.iter().any(|n| *n == "b"));
    assert!(names.iter().any(|n| *n == "c"));
}

#[test]
fn enumerate_members_expands_globs_sorted_without_repeats() {
    let root = "/w";
    let doc = manifest("[workspace]\nmembers = [\"crates/*\", \"crates/beta\", \"missing\"]\n");
    let reports = vec![
        MemberReport {
            member: "crates/*".to_string(),
            probe: MemberProbe::Glob(Ok(vec![
                Ok(PathProbe { path: "/w/crates/gamma".to_string(), is_crate_dir: true }),
                Ok(PathProbe { path: "/w/crates/alpha".to_string(), is_crate_dir: true }),
                Ok(PathProbe { path: "/w/crates/notes.txt".to_string(), is_crate_dir: false }),
                Ok(PathProbe { path: "/w/crates/beta".to_string(), is_crate_dir: true }),
            ])),
        },
        crate_dir(root, "crates/beta"),
        MemberReport {
            member: "missing".to_string(),
            probe: MemberProbe::Plain(PathProbe { path: "/w/missing".to_string(), is_crate_dir: false }),
        },
    ];
    let (members, warnings) = enumerate_members(root, &doc, &reports).unwrap();
    assert_eq!(members, vec!["/w/crates/alpha", "/w/crates/beta", "/w/crates/gamma"]);
    assert_eq!(warnings, vec!["warning: workspace member /w/missing does not exist"]);
}

#[test]
fn enumerate_members_orders_by_components() {
    let root = "/w";
    let doc = manifest("[workspace]\nmembers = [\"a-b\", \"a/b\"]\n");
    let reports = vec![crate_dir(root, "a-b"), crate_dir(root, "a/b")];
    let (members, _) = enumerate_members(root, &doc, &reports).unwrap();
    assert_eq!(members, vec!["/w/a/b", "/w/a-b"]);
}

#[test]
fn enumerate_members_reports_glob_errors() {
    let doc = manifest("[workspace]\nmembers = [\"[\"]\n");
    let reports = vec![MemberReport {
        member: "[".to_string(),
        probe: MemberProbe::Glob(Err("invalid range pattern".to_string())),
    }];
    match enumerate_members("/w", &doc, &reports) {
        Err(Error::GlobPattern(m)) => assert_eq!(m, "invalid range pattern"),
        other => panic!("expected GlobPattern, got {other:?}"),
    }
}

#[test]
fn enumerate_members_reports_manifest_errors() {
    let doc: Result<String, String> = Err("gone".to_string());
    match enumerate_members("/w", &doc, &vec![]) {
        Err(Error::FileRead { path, message }) => {
            assert_eq!(path, "/w/Cargo.toml");
            assert_eq!(message, "gone");
        }
        other => panic!("expected FileRead, got {other:?}"),
    }
}

#[test]
fn has_glob_detects_patterns() {
    assert!(has_glob("crates/*"));
    assert!(has_glob("crate?"));
    assert!(has_glob("c[ab]"));
    assert!(!has_glob("crates/core"));
}

#[test]
fn resolve_crate_roots_detects_lib() {
    let sources = vec![source("/t/src/lib.rs")];
    let roots = resolve_crate_roots("/t", &sources);
    assert_eq!(roots.len(), 1);
    assert_eq!(roots[0].1, CrateType::Lib);
}

#[test]
fn resolve_crate_roots_detects_bin() {
    let sources = vec![source("/t/src/main.rs")];
    let roots = resolve_crate_roots("/t", &sources);
    assert_eq!(roots.len(), 1);
    assert_eq!(roots[0].1, CrateType::Bin);
}

#[test]
fn resolve_crate_roots_lib_before_bin() {
    let sources = vec![source("/t/src/main.rs"), source("/t/src/lib.rs")];
    let roots = resolve_crate_roots("/t", &sources);
    assert_eq!(roots, vec![
        ("/t/src/lib.rs".to_string(), CrateType::Lib),
        ("/t/src/main.rs".to_string(), CrateType::Bin),
    ]);
}

#[test]
fn manifest_members_lists_entries_as_written() {
    let doc = manifest("[workspace]\nmembers = [\"crates/*\", \"tools/x\"]\n");
    assert_eq!(manifest_members("/w", &doc), vec!["crates/*", "tools/x"]);
    assert!(manifest_members("/w", &manifest("[package]\nname = \"a\"\n")).is_empty());
    assert!(manifest_members("/w", &manifest("[workspace\n")).is_empty());
    assert!(manifest_members("/w", &Err("gone".to_string())).is_empty());
}

#[test]
fn relativize_path_handles_roots_with_a_final_slash() {
    assert_eq!(relativize_path("/ws/a/src/lib.rs", "/ws"), "a/src/lib.rs");
    assert_eq!(relativize_path("/ws/a/src/lib.rs", "/ws/"), "a/src/lib.rs");
    assert_eq!(relativize_path("/a", "/"), "a");
    assert_eq!(relativize_path("/wsx/a", "/ws"), "/wsx/a");
    assert_eq!(relativize_path("/ws", "/ws"), "");
}

#[test]
fn enumerate_members_compares_paths_by_components() {
    let root = "/w";
    let doc = manifest("[workspace]\nmembers = [\"a\", \"a/\", \"./a\", \"b//c\"]\nexclude = []\n");
    let reports = vec![crate_dir(root, "a"), crate_dir(root, "a/"), crate_dir(root, "./a"), crate_dir(root, "b//c")];
    let (members, _) = enumerate_members(root, &doc, &reports).unwrap();
    assert_eq!(members, vec!["/w/a", "/w/b/c"]);
    let doc = manifest("[workspace]\nmembers = [\"x/a/\"]\nexclude = [\"a\"]\n");
    let (members, _) = enumerate_members(root, &doc, &vec![crate_dir(root, "x/a/")]).unwrap();
    assert!(members.is_empty());
}
