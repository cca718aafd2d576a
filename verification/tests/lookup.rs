use rust_workspace_map::indexes::derive_from_crates;
use rust_workspace_map::lookup::{lookup_file, lookup_symbol, SymbolLookupResult};
use rust_workspace_map::schema::{
    CrateInfo, CrateType, CrossReferences, DepInfo, ItemAttrs, ItemKind, ModuleInfo, PackageInfo,
    PublicItem, WorkspaceInfo, WorkspaceMap,
};

fn make_test_map() -> WorkspaceMap {
    let item = PublicItem {
        name: "Task".to_string(),
        kind: ItemKind::Struct,
        file: "core/src/lib.rs".to_string(),
        line: 1,
        visibility: "pub".to_string(),
        generics: String::new(),
        attrs: ItemAttrs::default(),
        fields: vec![],
        variants: vec![],
        impls: vec![],
    };
    let module = ModuleInfo {
        path: "core".to_string(),
        file: "core/src/lib.rs".to_string(),
        visibility: "pub".to_string(),
        public_items: vec![item],
        imports: vec![],
        re_exports: vec![],
        submodules: vec![],
    };
    let crate_info = CrateInfo {
        name: "core".to_string(),
        root: "core".to_string(),
        package: PackageInfo {
            name: "core".to_string(),
            version: "0.1.0".to_string(),
            edition: "2021".to_string(),
            crate_type: CrateType::Lib,
        },
        modules: vec![module],
        deps: DepInfo::default(),
        cross_crate_imports: vec![],
    };

    let (symbols, name_index, files) = derive_from_crates(&[crate_info.clone()]);

    WorkspaceMap {
        workspace: WorkspaceInfo {
            root: "/tmp/test".to_string(),
            workspace_name: "test".to_string(),
        },
        crates: vec![crate_info],
        cross_references: CrossReferences::default(),
        symbols,
        name_index,
        files,
        errors: vec![],
        workspace_root: "/tmp/test".to_string(),
    }
}

#[test]
fn lookup_symbol_found() {
    let map = make_test_map();
    let result = lookup_symbol(&map, "Task");
    match result {
        SymbolLookupResult::Found(entry) => {
            assert_eq!(entry.crate_name, "core");
            assert_eq!(entry.kind, ItemKind::Struct);
        }
        other => panic!("expected Found, got {other:?}"),
    }
}

#[test]
fn lookup_symbol_not_found() {
    let map = make_test_map();
    let result = lookup_symbol(&map, "DoesNotExist");
    assert!(matches!(result, SymbolLookupResult::NotFound));
}

#[test]
fn lookup_file_found() {
    let map = make_test_map();
    let result = lookup_file(&map, "core/src/lib.rs");
    assert!(result.is_some(), "expected file to be found");
}

#[test]
fn lookup_file_not_found() {
    let map = make_test_map();
    let result = lookup_file(&map, "nonexistent.rs");
    assert!(result.is_none());
}
