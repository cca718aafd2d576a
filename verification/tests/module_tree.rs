use rust_workspace_map::file_parser::SynParseError;
use rust_workspace_map::module_tree::{build_module_tree, read_source, resolve_module_path, SourceEntry};
use rust_workspace_map::schema::{DiagnosticKind, ErrorSeverity};
use rust_workspace_map::syntax::{AttrMeta, Attr, FieldDefs, SourceFile, SynItem, Vis};

fn file(path: &str, items: Vec<SynItem>) -> SourceEntry {
    SourceEntry { path: path.to_string(), parsed: Ok(SourceFile { items }) }
}

fn decl(name: &str, vis: Vis) -> SynItem {
    SynItem::Mod { vis, ident: name.to_string(), line: 1, attrs: vec![], content: None }
}

fn strukt(name: &str) -> SynItem {
    SynItem::Struct {
        vis: Vis::Public,
        ident: name.to_string(),
        line: 2,
        generics: vec![],
        attrs: vec![],
        fields: FieldDefs::Unit,
    }
}

fn sample() -> Vec<SourceEntry> {
    vec![
        file(
            "/ws/c/src/lib.rs",
            vec![
                decl("a", Vis::Public),
                SynItem::Mod {
                    vis: Vis::Inherited,
                    ident: "b".to_string(),
                    line: 3,
                    attrs: vec![],
                    content: Some(vec![strukt("Inner"), decl("deep", Vis::Inherited)]),
                },
                decl("missing", Vis::Inherited),
                SynItem::Mod {
                    vis: Vis::Inherited,
                    ident: "tests".to_string(),
                    line: 9,
                    attrs: vec![Attr { ident: Some("cfg".to_string()), meta: AttrMeta::List("test".to_string()) }],
                    content: None,
                },
                strukt("Root"),
            ],
        ),
        file("/ws/c/src/a.rs", vec![decl("x", Vis::Public), decl("a", Vis::Inherited)]),
        SourceEntry {
            path: "/ws/c/src/deep.rs".to_string(),
            parsed: Err(SynParseError { message: "expected `;`".to_string(), line: 7 }),
        },
        file("/ws/c/src/x/mod.rs", vec![strukt("X")]),
        file("/ws/c/src/tests.rs", vec![]),
    ]
}

#[test]
fn resolve_module_path_prefers_rs_file() {
    let sources = vec![file("/d/m.rs", vec![]), file("/d/m/mod.rs", vec![]), file("/d/n/mod.rs", vec![])];
    assert_eq!(resolve_module_path(&sources, "/d", "m"), Some("/d/m.rs".to_string()));
    assert_eq!(resolve_module_path(&sources, "/d", "n"), Some("/d/n/mod.rs".to_string()));
    assert_eq!(resolve_module_path(&sources, "/d", "o"), None);
}

#[test]
fn build_module_tree_walks_files_and_inline_modules() {
    let sources = sample();
    let (modules, errors) = build_module_tree(&sources, "/ws/c/src/lib.rs", "c");
    let got: Vec<(&str, &str, &str)> =
        modules.iter().map(|m| (m.path.as_str(), m.file.as_str(), m.visibility.as_str())).collect();
    assert_eq!(got, vec![
        ("c", "/ws/c/src/lib.rs", "pub"),
        ("c::a", "/ws/c/src/a.rs", "pub"),
        ("c::a::x", "/ws/c/src/x/mod.rs", "pub"),
        ("c::b", "/ws/c/src/lib.rs", "private"),
        ("c::b::deep", "/ws/c/src/deep.rs", "private"),
        ("c::missing", "<unresolved>", "private"),
    ]);
    assert_eq!(modules[0].submodules, vec!["a", "b", "missing", "tests"]);
    assert_eq!(modules[0].public_items[0].name, "Root");
    assert_eq!(modules[3].public_items[0].name, "Inner");
    assert_eq!(errors.len(), 2);
    assert_eq!(errors[0].kind, DiagnosticKind::SynParseError);
    assert_eq!(errors[0].file, "/ws/c/src/deep.rs");
    assert_eq!(errors[0].line, 7);
    assert_eq!(errors[1].kind, DiagnosticKind::OrphanedModule);
    assert_eq!(errors[1].severity, ErrorSeverity::Warning);
    assert_eq!(errors[1].message, "orphaned module: c::missing");
    assert_eq!(errors[1].context.as_ref().unwrap().mod_path.as_deref(), Some("c::missing"));
}

#[test]
fn build_module_tree_missing_root() {
    let (modules, errors) = build_module_tree(&vec![], "/ws/c/src/lib.rs", "c");
    assert_eq!(modules.len(), 1);
    assert_eq!(modules[0].path, "c");
    assert!(modules[0].public_items.is_empty());
    assert_eq!(errors.len(), 1);
    assert_eq!(errors[0].kind, DiagnosticKind::SynParseError);
}

#[test]
fn test_modules_are_recorded_not_walked() {
    let sources = vec![
        file(
            "/ws/t/src/lib.rs",
            vec![SynItem::Mod {
                vis: Vis::Inherited,
                ident: "tests".to_string(),
                line: 4,
                attrs: vec![Attr { ident: Some("cfg".to_string()), meta: AttrMeta::List("test".to_string()) }],
                content: Some(vec![strukt("Helper")]),
            }],
        ),
    ];
    let (modules, errors) = build_module_tree(&sources, "/ws/t/src/lib.rs", "t");
    assert_eq!(modules.len(), 1);
    assert_eq!(modules[0].submodules, vec!["tests"]);
    assert!(errors.is_empty());
}

#[test]
fn module_tree_from_source_texts() {
    let sources = vec![
        read_source(
            "/c/src/lib.rs".to_string(),
            &Ok("pub mod net;\nmod broken;\n#[cfg(test)]\nmod tests;\npub struct Root;\n".to_string()),
        ),
        read_source("/c/src/net.rs".to_string(), &Ok("pub fn connect() {}\n".to_string())),
        read_source("/c/src/broken.rs".to_string(), &Ok("pub fn (\n".to_string())),
    ];
    let (modules, errors) = build_module_tree(&sources, "/c/src/lib.rs", "c");
    let paths: Vec<&str> = modules.iter().map(|m| m.path.as_str()).collect();
    assert_eq!(paths, vec!["c", "c::broken", "c::net"]);
    assert!(modules[0].submodules.iter().any(|d| d == "tests"));
    assert_eq!(modules[0].public_items[0].name, "Root");
    assert_eq!(modules[2].public_items[0].name, "connect");
    assert_eq!(modules[2].public_items[0].line, 1);
    assert_eq!(errors.len(), 1);
    assert_eq!(errors[0].kind, DiagnosticKind::SynParseError);
    assert_eq!(errors[0].file, "/c/src/broken.rs");
}
