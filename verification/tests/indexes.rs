use rust_workspace_map::indexes::derive_from_crates;
use rust_workspace_map::schema::{
    CanonicalPath, CrateInfo, CrateType, DepInfo, ItemAttrs, ItemKind, ModuleInfo, PackageInfo,
    PublicItem, WorkspaceRelativePath,
};

fn make_crate(name: &str, modules: Vec<ModuleInfo>) -> CrateInfo {
    CrateInfo {
        name: name.to_string(),
        root: "src/lib.rs".to_string(),
        package: PackageInfo {
            name: name.to_string(),
            version: "0.1.0".to_string(),
            edition: "2021".to_string(),
            crate_type: CrateType::Lib,
        },
        modules,
        deps: DepInfo::default(),
        cross_crate_imports: vec![],
    }
}

fn make_module(path: &str, file: &str, items: Vec<PublicItem>) -> ModuleInfo {
    ModuleInfo {
        path: path.to_string(),
        file: file.to_string(),
        visibility: "pub".to_string(),
        public_items: items,
        imports: vec![],
        re_exports: vec![],
        submodules: vec![],
    }
}

fn make_item(name: &str, kind: ItemKind, line: usize) -> PublicItem {
    PublicItem {
        name: name.to_string(),
        kind,
        file: "src/lib.rs".to_string(),
        line,
        visibility: "pub".to_string(),
        generics: String::new(),
        attrs: ItemAttrs::default(),
        fields: vec![],
        variants: vec![],
        impls: vec![],
    }
}

#[test]
fn symbol_index_single_root_item() {
    let module = make_module(
        "mycrate",
        "src/lib.rs",
        vec![make_item("MyStruct", ItemKind::Struct, 1)],
    );
    let crates = vec![make_crate("mycrate", vec![module])];
    let (syms, _, _) = derive_from_crates(&crates);

    let key = CanonicalPath::from("mycrate::MyStruct".to_string());
    let entry = syms.get(&key).expect("expected mycrate::MyStruct");
    assert_eq!(entry.crate_name, "mycrate");
    assert_eq!(entry.module, "mycrate");
    assert_eq!(entry.kind, ItemKind::Struct);
}

#[test]
fn symbol_index_nested_module_item() {
    let root = make_module("mycrate", "src/lib.rs", vec![]);
    let sub = make_module(
        "mycrate::sub",
        "src/sub.rs",
        vec![make_item("Helper", ItemKind::Fn, 5)],
    );
    let crates = vec![make_crate("mycrate", vec![root, sub])];
    let (syms, _, _) = derive_from_crates(&crates);

    let key = CanonicalPath::from("mycrate::sub::Helper".to_string());
    let entry = syms.get(&key).expect("expected mycrate::sub::Helper");
    assert_eq!(entry.module, "mycrate::sub");
    assert_eq!(entry.file, "src/sub.rs");
}

#[test]
fn name_index_multi_crate_collision() {
    let root_a = make_module(
        "alpha",
        "src/lib.rs",
        vec![make_item("Foo", ItemKind::Struct, 1)],
    );
    let root_b = make_module(
        "beta",
        "src/lib.rs",
        vec![make_item("Foo", ItemKind::Fn, 10)],
    );
    let crates = vec![make_crate("alpha", vec![root_a]), make_crate("beta", vec![root_b])];
    let (_, nidx, _) = derive_from_crates(&crates);

    let candidates = nidx.get("Foo").expect("expected Foo in name_index");
    assert_eq!(candidates.len(), 2);
    assert!(candidates.iter().any(|p| p.as_ref() == "alpha::Foo"));
    assert!(candidates.iter().any(|p| p.as_ref() == "beta::Foo"));
}

#[test]
fn files_excludes_inline_module() {
    // Root module in lib.rs, inline sub in lib.rs (same file).
    let root = make_module(
        "mycrate",
        "src/lib.rs",
        vec![make_item("Item", ItemKind::Struct, 1)],
    );
    let inline = make_module(
        "mycrate::inner",
        "src/lib.rs", // same file as root
        vec![make_item("InnerItem", ItemKind::Struct, 5)],
    );
    let crates = vec![make_crate("mycrate", vec![root, inline])];
    let (_, _, files) = derive_from_crates(&crates);

    // Only one file entry should exist (the root).
    assert_eq!(files.len(), 1);
    let key = WorkspaceRelativePath::from("src/lib.rs".to_string());
    let entry = files.get(&key).expect("expected src/lib.rs in files");
    assert!(entry.is_crate_root);
}

#[test]
fn files_parent_module_file() {
    let root = make_module("mycrate", "src/lib.rs", vec![]);
    let sub = make_module(
        "mycrate::sub",
        "src/sub.rs",
        vec![make_item("X", ItemKind::Struct, 1)],
    );
    let crates = vec![make_crate("mycrate", vec![root, sub])];
    let (_, _, files) = derive_from_crates(&crates);

    let root_key = WorkspaceRelativePath::from("src/lib.rs".to_string());
    let root_entry = files.get(&root_key).expect("expected root");
    assert!(root_entry.parent_module_file.is_none(), "root should have no parent");

    let sub_key = WorkspaceRelativePath::from("src/sub.rs".to_string());
    let sub_entry = files.get(&sub_key).expect("expected sub");
    assert_eq!(
        sub_entry.parent_module_file,
        Some("src/lib.rs".to_string()),
        "sub should have lib.rs as parent"
    );
}
