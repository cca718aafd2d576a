use rust_workspace_map::cross_refs::compute;
use rust_workspace_map::schema::{
    CrateInfo, CrateType, DepInfo, Import, ItemAttrs, ItemKind, ModuleInfo, PackageInfo,
    PublicItem,
};

fn make_crate(name: &str, items: Vec<(String, ItemKind)>) -> CrateInfo {
    let public_items: Vec<PublicItem> = items
        .into_iter()
        .map(|(n, k)| PublicItem {
            kind: k,
            name: n,
            file: String::new(),
            line: 1,
            attrs: ItemAttrs::default(),
            generics: String::new(),
            visibility: "pub".to_string(),
            fields: vec![],
            variants: vec![],
            impls: vec![],
        })
        .collect();
    let module = ModuleInfo {
        path: "".to_string(),
        file: String::new(),
        visibility: "pub".to_string(),
        public_items,
        imports: vec![],
        re_exports: vec![],
        submodules: vec![],
    };
    CrateInfo {
        name: name.to_string(),
        root: String::new(),
        package: PackageInfo {
            name: name.to_string(),
            version: "0.1.0".to_string(),
            edition: "2021".to_string(),
            crate_type: CrateType::Lib,
        },
        modules: vec![module],
        deps: DepInfo::default(),
        cross_crate_imports: vec![],
    }
}

#[test]
fn compute_finds_cross_crate_import() {
    let mut crates = vec![
        make_crate("core", vec![("Task".to_string(), ItemKind::Struct)]),
        make_crate("engine", vec![]),
    ];
    // Manually add an import in engine that references core::Task
    let engine_module = &mut crates[1].modules[0];
    engine_module.imports.push(Import { path: "core::Task".to_string(), line: 1 });
    let refs = compute(&mut crates);
    // Task should be in cross-references
    assert!(refs.types.contains_key("Task"));
    let task_ref = refs.types.get("Task").unwrap();
    assert_eq!(task_ref.crate_name, "core");
    // engine should have a cross_crate_import
    assert_eq!(crates[1].cross_crate_imports.len(), 1);
    assert_eq!(crates[1].cross_crate_imports[0].target_crate, "core");
}

#[test]
fn compute_empty_for_no_cross_references() {
    let crates = vec![
        make_crate("a", vec![("Foo".to_string(), ItemKind::Struct)]),
        make_crate("b", vec![("Bar".to_string(), ItemKind::Struct)]),
    ];
    let mut crates_mut = crates;
    let refs = compute(&mut crates_mut);
    // No cross references since no crate imports from another
    assert!(refs.types.is_empty() || refs.types.values().iter().all(|t| t.imported_by.is_empty()));
}

#[test]
fn compute_records_importer_by_symbol_or_path() {
    let mut crates = vec![
        make_crate("core", vec![("Task".to_string(), ItemKind::Struct)]),
        make_crate("engine", vec![]),
    ];
    crates[1].modules[0].imports.push(Import { path: "core::Task".to_string(), line: 1 });
    let refs = compute(&mut crates);
    let task_ref = refs.types.get("Task").unwrap();
    assert_eq!(task_ref.imported_by, vec!["engine:".to_string()]);
    assert_eq!(task_ref.exported_by, vec!["core".to_string()]);
    assert_eq!(task_ref.kind, "struct");
    assert_eq!(crates[1].cross_crate_imports[0].symbol, "Task");
    assert!(crates[0].cross_crate_imports.is_empty());

    let mut crates = vec![
        make_crate("core", vec![("Task".to_string(), ItemKind::Struct)]),
        make_crate("engine", vec![]),
    ];
    crates[0].modules[0].path = "core".to_string();
    crates[1].modules[0].path = "engine".to_string();
    crates[1].modules[0].imports.push(Import { path: "core::Task".to_string(), line: 2 });
    let refs = compute(&mut crates);
    let task_ref = refs.types.get("core::Task").unwrap();
    assert_eq!(task_ref.imported_by, vec!["engine:engine".to_string()]);
}
