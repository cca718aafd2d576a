use rust_workspace_map::describe::{
    fields_to_strings, generics_to_string, quote_bound, type_to_string, variants_to_strings,
    vis_to_string,
};
use rust_workspace_map::file_parser::{
    build_parse_error_entry, extract_attrs, extract_imports, extract_impls, extract_public_items,
    extract_re_exports, extract_submodules, file_info_of, into_public_item, parse_file, parse_source,
    SynParseError,
};
use rust_workspace_map::schema::{DiagnosticKind, ErrorSeverity, ImplItemKind, ItemKind};
use rust_workspace_map::syntax::{
    AttrMeta, Attr, FieldDef, FieldDefs, GenericArg, ImplMember, Segment, SourceFile, SynItem,
    SynType, TypeBound, UseItemTree, VariantDef, Vis,
};

fn path_ty(segs: &[&str]) -> SynType {
    SynType::Path(segs.iter().map(|s| Segment { ident: s.to_string(), args: None }).collect())
}

fn generic_ty(name: &str, args: Vec<GenericArg>) -> SynType {
    SynType::Path(vec![Segment { ident: name.to_string(), args: Some(args) }])
}

fn derive(tokens: &str) -> Attr {
    Attr { ident: Some("derive".to_string()), meta: AttrMeta::List(tokens.to_string()) }
}

fn doc(text: &str) -> Attr {
    Attr { ident: Some("doc".to_string()), meta: AttrMeta::NameValue(Some(text.to_string())) }
}

fn cfg_test() -> Attr {
    Attr { ident: Some("cfg".to_string()), meta: AttrMeta::List("test".to_string()) }
}

fn unit_struct(name: &str, line: usize, vis: Vis) -> SynItem {
    SynItem::Struct {
        vis,
        ident: name.to_string(),
        line,
        generics: vec![],
        attrs: vec![],
        fields: FieldDefs::Unit,
    }
}

fn use_item(vis: Vis, tree: UseItemTree) -> SynItem {
    SynItem::Use { vis, tree }
}

fn upath(ident: &str, tree: UseItemTree) -> UseItemTree {
    UseItemTree::Path { ident: ident.to_string(), tree: Box::new(tree) }
}

fn name(n: &str) -> UseItemTree {
    UseItemTree::Name(n.to_string())
}

#[test]
fn type_to_string_writes_each_form() {
    let vec_of_str = generic_ty("Vec", vec![GenericArg::Type(path_ty(&["String"]))]);
    assert_eq!(type_to_string(&vec_of_str), "Vec<String>");
    let map = SynType::Path(vec![
        Segment { ident: "std".to_string(), args: None },
        Segment {
            ident: "HashMap".to_string(),
            args: Some(vec![
                GenericArg::Type(path_ty(&["K"])),
                GenericArg::Lifetime("a".to_string()),
                GenericArg::Other,
            ]),
        },
    ]);
    assert_eq!(type_to_string(&map), "std::HashMap<K, a>");
    let r = SynType::Reference { has_lifetime: true, elem: Box::new(path_ty(&["str"])) };
    assert_eq!(type_to_string(&r), "&'a str");
    let r2 = SynType::Reference { has_lifetime: false, elem: Box::new(path_ty(&["u8"])) };
    assert_eq!(type_to_string(&r2), "&u8");
    let t = SynType::Tuple(vec![path_ty(&["A"]), path_ty(&["B"])]);
    assert_eq!(type_to_string(&t), "(A, B)");
    assert_eq!(type_to_string(&SynType::Tuple(vec![])), "()");
    assert_eq!(type_to_string(&SynType::Slice(Box::new(path_ty(&["u8"])))), "[u8]");
    assert_eq!(type_to_string(&SynType::Array(Box::new(path_ty(&["u8"])))), "[u8; _]");
    let p = SynType::Ptr { is_const: true, elem: Box::new(path_ty(&["T"])) };
    assert_eq!(type_to_string(&p), "*const T");
    let pm = SynType::Ptr { is_const: false, elem: Box::new(path_ty(&["T"])) };
    assert_eq!(type_to_string(&pm), "*mut T");
    assert_eq!(type_to_string(&SynType::BareFn), "fn(...)");
    assert_eq!(type_to_string(&SynType::Never), "!");
    let obj = SynType::TraitObject(vec![
        TypeBound::Trait(vec!["std".to_string(), "fmt".to_string(), "Debug".to_string()]),
        TypeBound::Lifetime("static".to_string()),
    ]);
    assert_eq!(type_to_string(&obj), "Debug + static");
    let it = SynType::ImplTrait(vec![TypeBound::Trait(vec!["Iterator".to_string()]), TypeBound::Other]);
    assert_eq!(type_to_string(&it), "impl Iterator + ?");
    assert_eq!(type_to_string(&SynType::Paren(Box::new(path_ty(&["X"])))), "(X)");
    assert_eq!(type_to_string(&SynType::Group(Box::new(path_ty(&["X"])))), "X");
    assert_eq!(type_to_string(&SynType::Other), "?");
    assert_eq!(type_to_string(&generic_ty("Empty", vec![])), "Empty<>");
}

#[test]
fn quote_bound_takes_last_segment() {
    assert_eq!(quote_bound(&TypeBound::Trait(vec!["a".to_string(), "B".to_string()])), "B");
    assert_eq!(quote_bound(&TypeBound::Trait(vec![])), "");
}

#[test]
fn generics_and_visibility_texts() {
    assert_eq!(generics_to_string(&vec![]), "");
    assert_eq!(generics_to_string(&vec!["T".to_string(), "a".to_string()]), "T, a");
    assert_eq!(vis_to_string(&Vis::Public), "pub");
    assert_eq!(vis_to_string(&Vis::Inherited), "private");
    assert_eq!(vis_to_string(&Vis::Restricted(vec!["crate".to_string()])), "pub(crate)");
    assert_eq!(
        vis_to_string(&Vis::Restricted(vec!["crate".to_string(), "a".to_string()])),
        "pub(crate::a)"
    );
    assert_eq!(vis_to_string(&Vis::Restricted(vec![])), "pub(restricted)");
}

#[test]
fn fields_and_variants_texts() {
    let fields = FieldDefs::Named(vec![
        FieldDef { is_pub: true, ident: Some("id".to_string()), ty: path_ty(&["u32"]) },
        FieldDef { is_pub: false, ident: Some("name".to_string()), ty: path_ty(&["String"]) },
    ]);
    assert_eq!(fields_to_strings(&fields), vec!["pub id: u32", "name: String"]);
    let tuple = FieldDefs::Unnamed(vec![FieldDef { is_pub: true, ident: None, ty: path_ty(&["u8"]) }]);
    assert_eq!(fields_to_strings(&tuple), vec!["pub u8"]);
    assert!(fields_to_strings(&FieldDefs::Unit).is_empty());
    let variants = vec![
        VariantDef { ident: "A".to_string(), fields: FieldDefs::Unit },
        VariantDef {
            ident: "B".to_string(),
            fields: FieldDefs::Unnamed(vec![
                FieldDef { is_pub: false, ident: None, ty: path_ty(&["u8"]) },
                FieldDef { is_pub: false, ident: None, ty: path_ty(&["bool"]) },
            ]),
        },
        VariantDef {
            ident: "C".to_string(),
            fields: FieldDefs::Named(vec![FieldDef { is_pub: false, ident: Some("x".to_string()), ty: path_ty(&["i32"]) }]),
        },
    ];
    assert_eq!(variants_to_strings(&variants), vec!["A", "B(u8, bool)", "C { x: i32 }"]);
}

#[test]
fn extract_attrs_sorts_derives_and_keeps_docs() {
    let attrs = vec![
        doc(" First line."),
        derive("Debug , Clone"),
        Attr { ident: Some("serde".to_string()), meta: AttrMeta::List("rename = \"x\"".to_string()) },
        derive("serde :: Serialize ,"),
        doc(" Second line."),
        Attr { ident: None, meta: AttrMeta::List("A".to_string()) },
    ];
    let a = extract_attrs(&attrs);
    assert_eq!(a.derive, vec!["Clone", "Debug", "serde :: Serialize"]);
    assert_eq!(a.doc, vec![" First line.", " Second line."]);
}

#[test]
fn extract_public_items_filters_and_sorts() {
    let items = vec![
        unit_struct("Zed", 1, Vis::Public),
        unit_struct("Hidden", 2, Vis::Inherited),
        SynItem::Fn {
            vis: Vis::Restricted(vec!["crate".to_string()]),
            ident: "alpha".to_string(),
            line: 3,
            generics: vec!["T".to_string()],
            attrs: vec![],
        },
        unit_struct("Alpha", 9, Vis::Public),
        unit_struct("Alpha", 4, Vis::Public),
        SynItem::Macro { name: Some("mac".to_string()), line: 5, attrs: vec![] },
        SynItem::Other,
    ];
    let out = extract_public_items(&items);
    let names: Vec<(String, usize)> = out.iter().map(|p| (p.name.clone(), p.line)).collect();
    assert_eq!(names, vec![
        ("Alpha".to_string(), 4),
        ("Alpha".to_string(), 9),
        ("Zed".to_string(), 1),
        ("alpha".to_string(), 3),
    ]);
    assert_eq!(out[3].kind, ItemKind::Fn);
    assert_eq!(out[3].visibility, "pub(crate)");
    assert_eq!(out[3].generics, "T");
    assert_eq!(out[3].file, "");
}

#[test]
fn into_public_item_describes_an_enum() {
    let item = SynItem::Enum {
        vis: Vis::Public,
        ident: "Shape".to_string(),
        line: 12,
        generics: vec![],
        attrs: vec![derive("Debug")],
        variants: vec![VariantDef { ident: "Dot".to_string(), fields: FieldDefs::Unit }],
    };
    let p = into_public_item(&item).unwrap();
    assert_eq!(p.kind, ItemKind::Enum);
    assert_eq!(p.name, "Shape");
    assert_eq!(p.line, 12);
    assert_eq!(p.variants, vec!["Dot"]);
    assert_eq!(p.attrs.derive, vec!["Debug"]);
    assert!(into_public_item(&SynItem::Macro { name: None, line: 1, attrs: vec![] }).is_none());
}

#[test]
fn extract_imports_flattens_groups_and_sorts() {
    let items = vec![
        use_item(
            Vis::Inherited,
            upath(
                "std",
                UseItemTree::Group(vec![
                    upath("fmt", name("Display")),
                    upath("io", UseItemTree::Glob),
                    UseItemTree::Rename { ident: "collections".to_string(), rename: "c".to_string() },
                ]),
            ),
        ),
        use_item(Vis::Public, upath("crate", name("Task"))),
    ];
    let imports = extract_imports(&items);
    let paths: Vec<&str> = imports.iter().map(|i| i.path.as_str()).collect();
    assert_eq!(paths, vec!["crate::Task", "std::collections as c", "std::fmt::Display", "std::io::*"]);
    assert!(imports.iter().all(|i| i.line == 0));
}

#[test]
fn extract_re_exports_records_full_path_and_name() {
    let items = vec![
        use_item(Vis::Public, upath("inner", name("Secret"))),
        use_item(Vis::Inherited, upath("hidden", name("Nope"))),
        use_item(
            Vis::Public,
            upath(
                "a",
                UseItemTree::Group(vec![
                    UseItemTree::Rename { ident: "B".to_string(), rename: "Bee".to_string() },
                    UseItemTree::Glob,
                ]),
            ),
        ),
        use_item(Vis::Restricted(vec!["crate".to_string()]), upath("x", name("Y"))),
    ];
    let res = extract_re_exports(&items);
    let got: Vec<(&str, &str)> = res.iter().map(|r| (r.import_path.as_str(), r.export_path.as_str())).collect();
    assert_eq!(got, vec![("a::*", "*"), ("a::B", "Bee"), ("inner::Secret", "Secret")]);
}

#[test]
fn extract_submodules_marks_test_modules() {
    let items = vec![
        SynItem::Mod { vis: Vis::Public, ident: "zeta".to_string(), line: 1, attrs: vec![], content: None },
        SynItem::Mod {
            vis: Vis::Inherited,
            ident: "tests".to_string(),
            line: 2,
            attrs: vec![Attr { ident: Some("cfg".to_string()), meta: AttrMeta::List(" test ".to_string()) }],
            content: Some(vec![]),
        },
        SynItem::Mod {
            vis: Vis::Inherited,
            ident: "alpha".to_string(),
            line: 3,
            attrs: vec![Attr { ident: Some("cfg".to_string()), meta: AttrMeta::List("unix".to_string()) }],
            content: None,
        },
    ];
    let subs = extract_submodules(&items);
    let got: Vec<(&str, bool)> = subs.iter().map(|s| (s.name.as_str(), s.is_test)).collect();
    assert_eq!(got, vec![("alpha", false), ("tests", true), ("zeta", false)]);
}

#[test]
fn extract_impls_keeps_named_targets() {
    let items = vec![
        SynItem::Impl {
            self_ty: path_ty(&["crate", "Task"]),
            members: vec![
                ImplMember::Fn { name: "new".to_string(), generics: vec!["T".to_string()] },
                ImplMember::Type("Out".to_string()),
                ImplMember::Const("N".to_string()),
                ImplMember::Other,
            ],
        },
        SynItem::Impl { self_ty: SynType::Tuple(vec![]), members: vec![] },
    ];
    let impls = extract_impls(&items);
    assert_eq!(impls.len(), 1);
    assert_eq!(impls[0].type_, "Task");
    let kinds: Vec<(ImplItemKind, &str, &str)> =
        impls[0].items.iter().map(|i| (i.kind, i.name.as_str(), i.params.as_str())).collect();
    assert_eq!(kinds, vec![
        (ImplItemKind::Fn, "new", "T"),
        (ImplItemKind::Type, "Out", ""),
        (ImplItemKind::Const, "N", ""),
    ]);
}

#[test]
fn parse_file_reports_failures_as_data() {
    let ok = parse_file(Ok(SourceFile { items: vec![unit_struct("A", 1, Vis::Public)] }));
    assert!(ok.parse_error.is_none());
    assert_eq!(ok.file_info.public_items.len(), 1);
    let bad = parse_file(Err(SynParseError { message: "expected identifier".to_string(), line: 3 }));
    assert!(bad.ast.items.is_empty());
    assert!(bad.file_info.public_items.is_empty());
    let err = bad.parse_error.unwrap();
    let entry = build_parse_error_entry("bad/src/lib.rs", &err);
    assert_eq!(entry.file, "bad/src/lib.rs");
    assert_eq!(entry.line, 3);
    assert_eq!(entry.message, "expected identifier");
    assert_eq!(entry.severity, ErrorSeverity::Error);
    assert_eq!(entry.kind, DiagnosticKind::SynParseError);
}

#[test]
fn file_info_of_gathers_everything() {
    let items = vec![
        unit_struct("Task", 3, Vis::Public),
        SynItem::Mod { vis: Vis::Public, ident: "sub".to_string(), line: 1, attrs: vec![cfg_test()], content: None },
        use_item(Vis::Inherited, upath("core", name("Task"))),
    ];
    let info = file_info_of(&items);
    assert_eq!(info.public_items.len(), 1);
    assert_eq!(info.imports.len(), 1);
    assert!(info.re_exports.is_empty());
    assert_eq!(info.submodules.len(), 1);
    assert!(info.submodules[0].is_test);
    assert!(info.impls.is_empty());
}

#[test]
fn exported_macros_are_public_items() {
    let exported = SynItem::Macro {
        name: Some("m".to_string()),
        line: 2,
        attrs: vec![Attr { ident: Some("macro_export".to_string()), meta: AttrMeta::Path }],
    };
    let local = SynItem::Macro { name: Some("hidden".to_string()), line: 5, attrs: vec![] };
    let items = extract_public_items(&vec![exported, local]);
    assert_eq!(items.len(), 1);
    assert_eq!(items[0].kind, ItemKind::Macro);
    assert_eq!(items[0].name, "m");
    assert_eq!(items[0].line, 2);
    assert_eq!(items[0].visibility, "pub");
}

#[test]
fn parse_source_reads_rust_text() {
    let text = "//! doc\n\n/// A task.\n#[derive(Debug, Clone)]\npub struct Task<T> { pub id: u64, name: T }\n\npub(crate) fn helper() {}\nfn private() {}\n#[macro_export]\nmacro_rules! m { () => {} }\npub use crate::inner::Thing;\nuse std::collections::HashMap;\npub mod inner;\nimpl<T> Task<T> { pub fn new() {} }\n";
    let parsed = parse_source(&Ok(text.to_string()));
    assert!(parsed.parse_error.is_none());
    assert_eq!(parsed.ast.items.len(), 8);
    let info = &parsed.file_info;
    let names: Vec<&str> = info.public_items.iter().map(|p| p.name.as_str()).collect();
    assert_eq!(names, vec!["Task", "helper", "m"]);
    let task = &info.public_items[0];
    assert_eq!(task.kind, ItemKind::Struct);
    assert_eq!(task.line, 5);
    assert_eq!(task.generics, "T");
    assert_eq!(task.attrs.derive, vec!["Clone", "Debug"]);
    assert_eq!(task.attrs.doc, vec![" A task."]);
    assert_eq!(task.fields, vec!["pub id: u64", "name: T"]);
    assert_eq!(info.public_items[1].visibility, "pub(crate)");
    assert_eq!(info.public_items[2].kind, ItemKind::Macro);
    assert_eq!(info.public_items[2].line, 10);
    assert_eq!(info.re_exports.len(), 1);
    assert_eq!(info.re_exports[0].export_path, "Thing");
    let imports: Vec<&str> = info.imports.iter().map(|i| i.path.as_str()).collect();
    assert_eq!(imports, vec!["crate::inner::Thing", "std::collections::HashMap"]);
    assert_eq!(info.submodules.len(), 1);
    assert_eq!(info.submodules[0].name, "inner");
    assert_eq!(info.impls.len(), 1);
    assert_eq!(info.impls[0].items[0].name, "new");
}

#[test]
fn parse_source_reports_syntax_and_read_errors() {
    let parsed = parse_source(&Ok("pub struct {\n".to_string()));
    let err = parsed.parse_error.expect("a syntax error");
    assert!(!err.message.is_empty());
    assert_eq!(err.line, 1);
    assert!(parsed.ast.items.is_empty());
    assert!(parsed.file_info.public_items.is_empty());

    let parsed = parse_source(&Err("permission denied".to_string()));
    let err = parsed.parse_error.expect("a read error");
    assert_eq!(err.message, "permission denied");
    assert_eq!(err.line, 0);
    assert!(parsed.ast.items.is_empty());
}
