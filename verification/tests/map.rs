use rust_workspace_map::file_parser::SynParseError;
use rust_workspace_map::lookup::{lookup_file, lookup_symbol, SymbolLookupResult};
use rust_workspace_map::map::{build_map, has_validation_issues, index_exit_status, process_member, CrateSource};
use rust_workspace_map::module_tree::SourceEntry;
use rust_workspace_map::schema::{CrateType, DiagnosticKind, ErrorSeverity};
use rust_workspace_map::syntax::{
    AttrMeta, Attr, FieldDefs, SourceFile, SynItem, UseItemTree, Vis,
};
use rust_workspace_map::workspace::{enumerate_members, MemberProbe, MemberReport, PathProbe};

fn manifest(text: &str) -> Result<String, String> {
    Ok(text.to_string())
}

fn pkg(name: &str) -> Result<String, String> {
    manifest(&format!("[package]\nname = \"{name}\"\nversion = \"0.1.0\"\nedition = \"2021\"\n"))
}

fn strukt(name: &str, line: usize) -> SynItem {
    SynItem::Struct {
        vis: Vis::Public,
        ident: name.to_string(),
        line,
        generics: vec![],
        attrs: vec![Attr { ident: Some("derive".to_string()), meta: AttrMeta::List("Debug".to_string()) }],
        fields: FieldDefs::Unit,
    }
}

fn file(path: &str, items: Vec<SynItem>) -> SourceEntry {
    SourceEntry { path: path.to_string(), parsed: Ok(SourceFile { items }) }
}

fn sample_members() -> Vec<CrateSource> {
    vec![
        CrateSource {
            dir: "/ws/engine".to_string(),
            manifest: pkg("engine"),
            sources: vec![
                file(
                    "/ws/engine/src/lib.rs",
                    vec![
                        SynItem::Mod {
                            vis: Vis::Inherited,
                            ident: "pipeline".to_string(),
                            line: 1,
                            attrs: vec![],
                            content: None,
                        },
                        SynItem::Use {
                            vis: Vis::Inherited,
                            tree: UseItemTree::Path {
                                ident: "core".to_string(),
                                tree: Box::new(UseItemTree::Name("Task".to_string())),
                            },
                        },
                        strukt("Pipeline", 8),
                        SynItem::Use {
                            vis: Vis::Public,
                            tree: UseItemTree::Path {
                                ident: "pipeline".to_string(),
                                tree: Box::new(UseItemTree::Name("PipelineStage".to_string())),
                            },
                        },
                    ],
                ),
                file("/ws/engine/src/pipeline.rs", vec![strukt("PipelineStage", 3)]),
                file("/ws/engine/src/forgotten.rs", vec![]),
            ],
            walked: vec![
                "/ws/engine/src/lib.rs".to_string(),
                "/ws/engine/src/pipeline.rs".to_string(),
                "/ws/engine/src/forgotten.rs".to_string(),
            ],
        },
        CrateSource {
            dir: "/ws/core".to_string(),
            manifest: pkg("core"),
            sources: vec![file("/ws/core/src/lib.rs", vec![strukt("Task", 5), strukt("Task2", 9)])],
            walked: vec!["/ws/core/src/lib.rs".to_string()],
        },
        CrateSource {
            dir: "/ws/broken".to_string(),
            manifest: Ok("[package\nname = ".to_string()),
            sources: vec![],
            walked: vec![],
        },
    ]
}

#[test]
fn build_map_sample_workspace() {
    let map = build_map("/ws", &sample_members(), false);
    assert_eq!(map.workspace.root, ".");
    assert_eq!(map.workspace.workspace_name, "ws");
    let names: Vec<&str> = map.crates.iter().map(|c| c.name.as_str()).collect();
    assert_eq!(names, vec!["core", "engine"]);
    let core = &map.crates[0];
    assert_eq!(core.package.crate_type, CrateType::Lib);
    assert_eq!(core.root, "core/src/lib.rs");
    assert_eq!(core.modules[0].file, "core/src/lib.rs");
    assert!(core.modules[0].public_items.iter().any(|i| i.name == "Task"));
    let engine = &map.crates[1];
    assert_eq!(engine.modules.len(), 2);
    assert_eq!(engine.modules[1].path, "engine::pipeline");
    assert_eq!(engine.cross_crate_imports.len(), 1);
    assert_eq!(engine.cross_crate_imports[0].target_crate, "core");
    assert_eq!(engine.cross_crate_imports[0].symbol, "Task");
    let task = map.cross_references.types.get("core::Task").expect("core::Task should be indexed");
    assert!(task.exported_by.contains(&"core".to_string()));
    assert!(map.symbols.contains_key("core::Task"));
    assert_eq!(map.name_index.get("Task").unwrap()[0].0, "core::Task");
    assert!(map.files.contains_key("engine/src/pipeline.rs"));
    // The broken member gives no crate, but its diagnostic is kept.
    assert_eq!(map.errors.len(), 1);
    assert_eq!(map.errors[0].kind, DiagnosticKind::TomlParseError);
    assert_eq!(map.errors[0].file, "/ws/broken/Cargo.toml");
}

#[test]
fn build_map_validates_on_request() {
    let map = build_map("/ws", &sample_members(), true);
    assert_eq!(map.errors.len(), 2);
    assert_eq!(map.errors[0].kind, DiagnosticKind::TomlParseError);
    let e = &map.errors[1];
    assert_eq!(e.kind, DiagnosticKind::OrphanFile);
    assert_eq!(e.severity, ErrorSeverity::Warning);
    assert_eq!(e.file, "engine/src/forgotten.rs");
    assert!(e.message.contains("forgotten"));
    assert!(e.message.contains("pub mod"));
    // `pub use pipeline::PipelineStage` resolves to a symbol: not dead.
    assert!(!map.errors.iter().any(|e| e.kind == DiagnosticKind::DeadReExport));
}

#[test]
fn test_reexport_chains() {
    let members = vec![CrateSource {
        dir: "/ws/reexporter".to_string(),
        manifest: pkg("reexporter"),
        sources: vec![file(
            "/ws/reexporter/src/lib.rs",
            vec![
                SynItem::Mod {
                    vis: Vis::Inherited,
                    ident: "inner".to_string(),
                    line: 2,
                    attrs: vec![],
                    content: Some(vec![strukt("Secret", 3)]),
                },
                SynItem::Use {
                    vis: Vis::Public,
                    tree: UseItemTree::Path {
                        ident: "inner".to_string(),
                        tree: Box::new(UseItemTree::Name("Secret".to_string())),
                    },
                },
            ],
        )],
        walked: vec![],
    }];
    let map = build_map("/ws", &members, true);
    let reexporter = map.crates.iter().find(|c| c.name == "reexporter").unwrap();
    let has_secret = reexporter
        .modules
        .iter()
        .flat_map(|m| m.re_exports.iter())
        .any(|re| re.import_path.contains("Secret"));
    assert!(has_secret, "should have re-export for Secret");
    assert!(map.errors.is_empty());
}

#[test]
fn dead_re_export_is_reported() {
    let members = vec![CrateSource {
        dir: "/ws/d".to_string(),
        manifest: pkg("d"),
        sources: vec![file(
            "/ws/d/src/lib.rs",
            vec![SynItem::Use {
                vis: Vis::Public,
                tree: UseItemTree::Path {
                    ident: "crate".to_string(),
                    tree: Box::new(UseItemTree::Name("Missing".to_string())),
                },
            }],
        )],
        walked: vec![],
    }];
    let map = build_map("/ws", &members, true);
    assert_eq!(map.errors.len(), 1);
    assert_eq!(map.errors[0].kind, DiagnosticKind::DeadReExport);
    assert_eq!(map.errors[0].severity, ErrorSeverity::Warning);
    assert_eq!(map.errors[0].file, "d/src/lib.rs");
}

#[test]
fn build_map_lookups() {
    let map = build_map("/ws", &sample_members(), false);
    match lookup_symbol(&map, "Task") {
        SymbolLookupResult::Found(entry) => {
            assert_eq!(entry.crate_name, "core");
            assert_eq!(entry.line, 5);
            assert_eq!(entry.derive_attrs, vec!["Debug"]);
        }
        other => panic!("expected Found, got {other:?}"),
    }
    assert!(matches!(lookup_symbol(&map, "Nope"), SymbolLookupResult::NotFound));
    let f = lookup_file(&map, "engine/src/lib.rs").expect("file should be found");
    assert_eq!(f.primary_module.path, "engine");
    assert!(f.file_entry.is_crate_root);
}

#[test]
fn test_parse_failure_error_entry() {
    let members = vec![
        CrateSource {
            dir: "/w/good_crate".to_string(),
            manifest: pkg("good_crate"),
            sources: vec![file("/w/good_crate/src/lib.rs", vec![strukt("Good", 1)])],
            walked: vec![],
        },
        CrateSource {
            dir: "/w/bad_crate".to_string(),
            manifest: pkg("bad_crate"),
            sources: vec![SourceEntry {
                path: "/w/bad_crate/src/lib.rs".to_string(),
                parsed: Err(SynParseError { message: "expected identifier".to_string(), line: 1 }),
            }],
            walked: vec![],
        },
    ];
    let map = build_map("/w", &members, false);
    let parse_errors: Vec<_> = map.errors.iter().filter(|e| e.kind == DiagnosticKind::SynParseError).collect();
    assert!(!parse_errors.is_empty(), "should have parse error entries");
    assert_eq!(parse_errors[0].severity, ErrorSeverity::Error);
}

#[test]
fn process_member_reports_missing_roots_and_bad_manifests() {
    let no_roots = CrateSource {
        dir: "/w/empty".to_string(),
        manifest: pkg("empty"),
        sources: vec![],
        walked: vec![],
    };
    let (info, errors) = process_member("/w", &no_roots);
    assert!(info.is_none());
    assert_eq!(errors[0].kind, DiagnosticKind::MissingCrateRoots);
    assert_eq!(errors[0].message, "no crate entry points found");
    let bad = CrateSource {
        dir: "/w/bad".to_string(),
        manifest: Ok("not = [toml".to_string()),
        sources: vec![],
        walked: vec![],
    };
    let (info, errors) = process_member("/w", &bad);
    assert!(info.is_none());
    assert_eq!(errors[0].kind, DiagnosticKind::TomlParseError);
    let cause = toml::from_str::<toml::Value>("not = [toml").unwrap_err().to_string();
    assert_eq!(
        errors[0].message,
        format!("failed to parse Cargo.toml: failed to parse /w/bad/Cargo.toml: {cause}")
    );
}

#[test]
fn process_member_lib_and_bin() {
    let m = CrateSource {
        dir: "/w/both".to_string(),
        manifest: pkg("both"),
        sources: vec![file("/w/both/src/lib.rs", vec![]), file("/w/both/src/main.rs", vec![])],
        walked: vec![],
    };
    let (info, errors) = process_member("/w", &m);
    let info = info.unwrap();
    assert!(errors.is_empty());
    assert_eq!(info.package.crate_type, CrateType::LibAndBin);
    assert_eq!(info.root, "both/src/lib.rs");
    assert_eq!(info.modules.len(), 2);
}

#[test]
fn indexes_agree_on_sample() {
    let map = build_map("/ws", &sample_members(), false);
    // Every path listed under a name is a symbol, and every symbol is listed.
    for i in 0..map.name_index.len() {
        for p in map.name_index.value_at(i) {
            assert!(map.symbols.contains_key(p.0.as_str()));
        }
    }
    for i in 0..map.symbols.len() {
        let key = &map.symbols.key_at(i).0;
        let listed = (0..map.name_index.len())
            .any(|j| map.name_index.value_at(j).iter().any(|p| &p.0 == key));
        assert!(listed, "{key} should be listed under its name");
    }
    // Every indexed file is the file of a module, with that module's path.
    for i in 0..map.files.len() {
        let file = &map.files.key_at(i).0;
        let entry = map.files.value_at(i);
        assert_ne!(file, "<unresolved>");
        assert!(map
            .crates
            .iter()
            .any(|c| c.modules.iter().any(|m| &m.file == file && m.path == entry.mod_path)));
    }
}

#[test]
fn lookup_ambiguous_lists_every_candidate() {
    let mut members = sample_members();
    members.truncate(2);
    members[0].sources[1] = file("/ws/engine/src/pipeline.rs", vec![strukt("Task", 4)]);
    let map = build_map("/ws", &members, false);
    match lookup_symbol(&map, "Task") {
        SymbolLookupResult::Ambiguous { name, candidates } => {
            assert_eq!(name, "Task");
            let paths: Vec<&str> = candidates.iter().map(|c| c.canonical_path.as_str()).collect();
            assert_eq!(paths, vec!["core::Task", "engine::pipeline::Task"]);
        }
        other => panic!("expected Ambiguous, got {other:?}"),
    }
}

#[test]
fn lookup_file_lists_inline_modules() {
    let members = vec![CrateSource {
        dir: "/ws/solo".to_string(),
        manifest: pkg("solo"),
        sources: vec![file(
            "/ws/solo/src/lib.rs",
            vec![SynItem::Mod {
                vis: Vis::Public,
                ident: "inner".to_string(),
                line: 2,
                attrs: vec![],
                content: Some(vec![strukt("InnerItem", 3)]),
            }],
        )],
        walked: vec![],
    }];
    let map = build_map("/ws", &members, false);
    let f = lookup_file(&map, "solo/src/lib.rs").expect("file should be found");
    assert_eq!(f.primary_module.path, "solo");
    assert_eq!(f.inline_modules.len(), 1);
    assert_eq!(f.inline_modules[0].path, "solo::inner");
    assert_eq!(f.inline_modules[0].file, "solo/src/lib.rs");
    assert!(lookup_file(&map, "solo/src/other.rs").is_none());
}

fn crate_at(dir: &str, name: &str) -> CrateSource {
    CrateSource {
        dir: dir.to_string(),
        manifest: pkg(name),
        sources: vec![file(&format!("{dir}/src/lib.rs"), vec![strukt(name, 1)])],
        walked: vec![format!("{dir}/src/lib.rs")],
    }
}

fn names_of_map(dirs: &[String]) -> Vec<String> {
    let members: Vec<CrateSource> = dirs
        .iter()
        .map(|d| crate_at(d, d.rsplit('/').next().unwrap()))
        .collect();
    let map = build_map("/w", &members, false);
    map.crates.iter().map(|c| c.name.clone()).collect()
}

#[test]
fn test_glob_member_patterns() {
    let doc = manifest("\n[workspace]\nmembers = [\"crates/*\"]\n");
    let hits = ["alpha", "beta", "gamma"]
        .iter()
        .map(|n| Ok(PathProbe { path: format!("/w/crates/{n}"), is_crate_dir: true }))
        .collect();
    let reports = vec![MemberReport { member: "crates/*".to_string(), probe: MemberProbe::Glob(Ok(hits)) }];
    let (dirs, _) = enumerate_members("/w", &doc, &reports).unwrap();
    let names = names_of_map(&dirs);
    assert!(names.contains(&"alpha".to_string()));
    assert!(names.contains(&"beta".to_string()));
    assert!(names.contains(&"gamma".to_string()));
    assert_eq!(names.len(), 3);
}

#[test]
fn test_workspace_with_exclude() {
    let doc = manifest("\n[workspace]\nmembers = [\"a\", \"b\", \"c\"]\nexclude = [\"b\"]\n");
    let reports = ["a", "b", "c"]
        .iter()
        .map(|n| MemberReport {
            member: n.to_string(),
            probe: MemberProbe::Plain(PathProbe { path: format!("/w/{n}"), is_crate_dir: true }),
        })
        .collect();
    let (dirs, _) = enumerate_members("/w", &doc, &reports).unwrap();
    let names = names_of_map(&dirs);
    assert!(names.contains(&"a".to_string()));
    assert!(!names.contains(&"b".to_string()));
    assert!(names.contains(&"c".to_string()));
}

#[test]
fn test_deeply_nested_modules() {
    let m = CrateSource {
        dir: "/w".to_string(),
        manifest: manifest("[workspace]\nmembers = [\".\"]\n\n[package]\nname = \"nested\"\nversion = \"0.1.0\"\nedition = \"2021\"\n"),
        sources: vec![
            file("/w/src/lib.rs", vec![SynItem::Mod { vis: Vis::Inherited, ident: "foo".to_string(), line: 1, attrs: vec![], content: None }]),
            file("/w/src/foo/mod.rs", vec![SynItem::Mod { vis: Vis::Inherited, ident: "bar".to_string(), line: 1, attrs: vec![], content: None }]),
            file("/w/src/foo/bar/mod.rs", vec![SynItem::Mod { vis: Vis::Inherited, ident: "baz".to_string(), line: 1, attrs: vec![], content: None }]),
            file("/w/src/foo/bar/baz.rs", vec![strukt("Deep", 1)]),
        ],
        walked: vec![],
    };
    let map = build_map("/w", &vec![m], false);
    let nested = map.crates.iter().find(|c| c.name == "nested").unwrap();
    let paths: Vec<&str> = nested.modules.iter().map(|m| m.path.as_str()).collect();
    assert!(paths.iter().any(|p| *p == "nested"));
    assert!(paths.iter().any(|p| *p == "nested::foo"));
    assert!(paths.iter().any(|p| *p == "nested::foo::bar"));
    assert!(paths.iter().any(|p| *p == "nested::foo::bar::baz"));
}

#[test]
fn test_orphaned_module_serde_regression() {
    let m = CrateSource {
        dir: "/w/o".to_string(),
        manifest: pkg("o"),
        sources: vec![file(
            "/w/o/src/lib.rs",
            vec![SynItem::Mod { vis: Vis::Inherited, ident: "nonexistent".to_string(), line: 1, attrs: vec![], content: None }],
        )],
        walked: vec![],
    };
    let map = build_map("/w", &vec![m], false);
    let orphaned: Vec<_> = map.errors.iter().filter(|e| e.kind == DiagnosticKind::OrphanedModule).collect();
    assert!(!orphaned.is_empty(), "should have orphaned_module error");
    assert_eq!(orphaned[0].severity, ErrorSeverity::Warning);
}

#[test]
fn index_exit_status_reflects_validation() {
    let map = build_map("/ws", &sample_members(), true);
    assert!(has_validation_issues(&map.errors));
    assert_eq!(index_exit_status(true, &map.errors), 2);
    assert_eq!(index_exit_status(false, &map.errors), 0);
    let clean = build_map("/ws", &sample_members(), false);
    assert_eq!(index_exit_status(true, &clean.errors), 0);
}

fn orphan_members() -> Vec<CrateSource> {
    vec![CrateSource {
        dir: "/w/bad".to_string(),
        manifest: pkg("bad"),
        sources: vec![
            file(
                "/w/bad/src/lib.rs",
                vec![SynItem::Mod {
                    vis: Vis::Public,
                    ident: "sub".to_string(),
                    line: 1,
                    attrs: vec![],
                    content: None,
                }],
            ),
            file("/w/bad/src/sub/mod.rs", vec![strukt("Inner", 1)]),
            file("/w/bad/src/sub/deep/orphan.rs", vec![]),
            file("/w/bad/src/forgotten.rs", vec![]),
        ],
        walked: vec![
            "/w/bad/src/forgotten.rs".to_string(),
            "/w/bad/src/lib.rs".to_string(),
            "/w/bad/src/sub/deep/orphan.rs".to_string(),
            "/w/bad/src/sub/mod.rs".to_string(),
        ],
    }]
}

#[test]
fn nested_and_shallow_orphans_are_both_reported() {
    let map = build_map("/w", &orphan_members(), true);
    let orphans: Vec<_> = map.errors.iter().filter(|e| e.kind == DiagnosticKind::OrphanFile).collect();
    assert_eq!(orphans.len(), 2);
    assert!(orphans.iter().any(|e| e.file.contains("deep/orphan.rs")));
    assert!(orphans.iter().any(|e| e.file.contains("forgotten.rs")));
    assert!(orphans.iter().all(|e| e.severity == ErrorSeverity::Warning));
    assert_eq!(index_exit_status(true, &map.errors), 2);
}

#[test]
fn without_validation_no_orphans_and_status_zero() {
    let map = build_map("/w", &orphan_members(), false);
    assert!(!map.errors.iter().any(|e| e.kind == DiagnosticKind::OrphanFile));
    assert_eq!(index_exit_status(false, &map.errors), 0);
}

#[test]
fn failing_members_keep_their_diagnostics() {
    let members = vec![
        CrateSource {
            dir: "/w/bad".to_string(),
            manifest: Ok("[package]\nname".to_string()),
            sources: vec![],
            walked: vec![],
        },
        CrateSource {
            dir: "/w/empty".to_string(),
            manifest: pkg("empty"),
            sources: vec![],
            walked: vec![],
        },
        CrateSource {
            dir: "/w/ok".to_string(),
            manifest: pkg("ok"),
            sources: vec![file("/w/ok/src/lib.rs", vec![strukt("Ok", 1)])],
            walked: vec![],
        },
    ];
    let map = build_map("/w", &members, false);
    assert_eq!(map.crates.len(), 1);
    assert_eq!(map.crates[0].name, "ok");
    assert_eq!(map.errors.len(), 2);
    assert_eq!(map.errors[0].kind, DiagnosticKind::TomlParseError);
    assert_eq!(map.errors[0].severity, ErrorSeverity::Error);
    assert_eq!(map.errors[0].file, "/w/bad/Cargo.toml");
    assert_eq!(map.errors[1].kind, DiagnosticKind::MissingCrateRoots);
    assert_eq!(map.errors[1].severity, ErrorSeverity::Warning);
    assert_eq!(map.errors[1].file, "/w/empty");
    assert_eq!(index_exit_status(true, &map.errors), 0);
}
