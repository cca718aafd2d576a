use rust_workspace_map::ordered_map::OrderedMap;
use rust_workspace_map::schema::{
    CanonicalPath, CrateInfo, CrateType, DepInfo, DiagnosticKind, ItemKind, ModuleInfo, PackageInfo,
    ReExport, SymbolEntry,
};
use rust_workspace_map::validate::{check_dead_reexports, is_external_crate_re_export, resolve_import_path};

fn module(path: &str, file: &str) -> ModuleInfo {
    ModuleInfo {
        path: path.to_string(),
        file: file.to_string(),
        visibility: "pub".to_string(),
        public_items: vec![],
        imports: vec![],
        re_exports: vec![],
        submodules: vec![],
    }
}

fn make_crate(modules: Vec<ModuleInfo>) -> CrateInfo {
    CrateInfo {
        name: "mycrate".to_string(),
        root: "src/lib.rs".to_string(),
        package: PackageInfo {
            name: "mycrate".to_string(),
            version: "0.1.0".to_string(),
            edition: "2021".to_string(),
            crate_type: CrateType::Lib,
        },
        modules,
        deps: DepInfo::default(),
        cross_crate_imports: vec![],
    }
}

#[test]
fn test_is_external_crate_re_export() {
    let crate_info = make_crate(vec![
        module("mycrate", "src/lib.rs"),
        module("mycrate::utils", "src/utils.rs"),
    ]);

    let crate_names = vec!["mycrate".to_string()];

    // Bare path: "serde" is not a workspace member and not a top-level module → external
    assert!(
        is_external_crate_re_export("serde::Serialize", &crate_names, &crate_info),
        "serde::Serialize should be external"
    );

    // Bare path: "utils" IS a top-level module of mycrate → internal
    assert!(
        !is_external_crate_re_export("utils::Helper", &crate_names, &crate_info),
        "utils::Helper should be internal (utils is a top-level module)"
    );

    // crate:: prefix is always internal
    assert!(
        !is_external_crate_re_export("crate::sub::missing", &crate_names, &crate_info),
        "crate:: path should always be internal"
    );

    // self:: prefix is always internal
    assert!(
        !is_external_crate_re_export("self::inner::Type", &crate_names, &crate_info),
        "self:: path should always be internal"
    );
}

#[test]
fn test_is_external_crate_re_export_super_prefix() {
    let crate_info = make_crate(vec![]);
    let crate_names: Vec<String> = Vec::new();

    // super:: prefix is always internal regardless of workspace members.
    assert!(
        !is_external_crate_re_export("super::other::Thing", &crate_names, &crate_info),
        "super:: path should always be internal"
    );
}

#[test]
fn test_is_external_crate_re_export_single_segment() {
    let crate_info = make_crate(vec![]);
    let crate_names: Vec<String> = Vec::new();

    // Single-segment bare path (no ::) is treated as internal.
    assert!(
        !is_external_crate_re_export("Foo", &crate_names, &crate_info),
        "bare single-segment path should be internal"
    );
}

#[test]
fn test_is_external_crate_re_export_cross_workspace() {
    let crate_info = make_crate(vec![]);
    let crate_names = vec!["othercrate".to_string(), "mycrate".to_string()];

    // "othercrate" is a workspace member but NOT a top-level module → external
    assert!(
        is_external_crate_re_export("othercrate::Thing", &crate_names, &crate_info),
        "cross-workspace-member re-export should be external (passes G1)"
    );
}

#[test]
fn test_is_external_crate_re_export_empty_path() {
    let crate_info = make_crate(vec![]);
    let crate_names: Vec<String> = Vec::new();

    // Empty string is not a valid path; treat as internal (defensive).
    assert!(
        !is_external_crate_re_export("", &crate_names, &crate_info),
        "empty path should be treated as internal"
    );
}

#[test]
fn resolve_import_path_crate_prefix() {
    assert_eq!(
        resolve_import_path("crate::foo::bar", "mycrate", "mycrate::sub"),
        "mycrate::foo::bar"
    );
}

#[test]
fn resolve_import_path_self_prefix() {
    assert_eq!(
        resolve_import_path("self::inner", "mycrate", "mycrate::sub"),
        "mycrate::sub::inner"
    );
}

#[test]
fn resolve_import_path_super_prefix() {
    assert_eq!(
        resolve_import_path("super::other", "mycrate", "mycrate::sub::deep"),
        "mycrate::sub::other"
    );
}

#[test]
fn resolve_import_path_super_root() {
    // At crate root, super:: wraps to crate root.
    assert_eq!(
        resolve_import_path("super::helper", "mycrate", "mycrate"),
        "mycrate::helper"
    );
}

#[test]
fn resolve_import_path_bare() {
    assert_eq!(
        resolve_import_path("foo::Bar", "mycrate", "mycrate::sub"),
        "mycrate::foo::Bar"
    );
}

fn symbol(module: &str, derives: Vec<&str>) -> SymbolEntry {
    SymbolEntry {
        crate_name: "mycrate".to_string(),
        module: module.to_string(),
        file: "src/lib.rs".to_string(),
        line: 1,
        kind: ItemKind::Struct,
        derive_attrs: derives.into_iter().map(|d| d.to_string()).collect(),
    }
}

fn reexporting(import_path: &str) -> CrateInfo {
    let mut m = module("mycrate", "src/lib.rs");
    m.re_exports.push(ReExport {
        import_path: import_path.to_string(),
        export_path: "FooBuilder".to_string(),
        line: 3,
    });
    make_crate(vec![m])
}

#[test]
fn derive_companion_re_export_is_not_dead() {
    let mut symbols = OrderedMap::new();
    symbols.insert(CanonicalPath("mycrate::Foo".to_string()), symbol("mycrate", vec!["Builder"]));
    let names = vec!["mycrate".to_string()];
    let found = check_dead_reexports(&reexporting("crate::FooBuilder"), &symbols, &names);
    assert!(found.is_empty());
}

#[test]
fn re_export_without_derived_base_is_dead() {
    let mut symbols = OrderedMap::new();
    symbols.insert(CanonicalPath("mycrate::Foo".to_string()), symbol("mycrate", vec![]));
    let names = vec!["mycrate".to_string()];
    let found = check_dead_reexports(&reexporting("crate::FooBuilder"), &symbols, &names);
    assert_eq!(found.len(), 1);
    assert_eq!(found[0].kind, DiagnosticKind::DeadReExport);
    assert_eq!(found[0].line, 3);
    assert_eq!(found[0].file, "src/lib.rs");
    // A base in another module does not count.
    let mut symbols = OrderedMap::new();
    symbols.insert(CanonicalPath("mycrate::other::Foo".to_string()), symbol("mycrate::other", vec!["Builder"]));
    let found = check_dead_reexports(&reexporting("crate::FooBuilder"), &symbols, &names);
    assert_eq!(found.len(), 1);
}
