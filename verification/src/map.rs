//! The workspace map: each member crate read from its manifest and module
//! tree, the crates sorted by name, their cross references, the flat
//! indexes, and, on request, the validation findings.
use vstd::prelude::*;
use crate::cargo_info::{deps_spec, manifest_result, package_spec, parse_cargo_toml};
use crate::cross_refs::{compute, crate_with_imports, types_of};
use crate::indexes::{derive_from_crates, files_of, name_index_of, symbols_of};
use crate::module_tree::{SourceEntry, build_module_tree, law_tree_diagnostics, module_tree_spec};
use crate::paths::{file_name_of, join, path_file_name, path_join, relative_to, relativize_path};
use crate::schema::{CrateInfo, CrateType, CrateView, DiagnosticKind,
    Error, ErrorEntry, ErrorEntryView, ErrorSeverity, ModuleInfo, ModuleView, PackageInfo,
    PackageView, PublicItemView, SymbolView, WorkspaceInfo, WorkspaceInfoView, WorkspaceMap, error_text};
use crate::sort::{SortKey, key_lt_by, lemma_sort_sorted, lemma_sort_view_permutes, lemma_sort_views,
    sort_view_by, stable_sort, views_of};
use crate::text::{concat, owned, seq_lt, str_lt};
use crate::validate::{findings_upto, law_findings_are_warnings, validate};
use crate::workspace::{crate_roots_spec, resolve_crate_roots};

verus! {

/// A member crate as read from disk: its directory, the outcome of reading
/// its manifest (the text, or the message of the read error), its source
/// files, and the files found under its source directory (walked for the
/// orphan-file check).
#[derive(Debug)]
pub struct CrateSource {
    pub dir: String,
    pub manifest: Result<String, String>,
    pub sources: Vec<SourceEntry>,
    pub walked: Vec<String>,
}

// ── Specification ───────────────────────────────────────────────────────

/// The diagnostic for a member whose manifest gave no package.
pub open spec fn manifest_entry(file: Seq<char>, e: Seq<char>) -> ErrorEntryView {
    ErrorEntryView {
        file,
        line: 0,
        message: "failed to parse Cargo.toml: "@ + e,
        severity: ErrorSeverity::Error,
        kind: DiagnosticKind::TomlParseError,
        context: None,
        cause: Some(e),
    }
}

/// The diagnostic for a member without `src/lib.rs` or `src/main.rs`.
pub open spec fn missing_roots_entry(dir: Seq<char>) -> ErrorEntryView {
    ErrorEntryView {
        file: dir,
        line: 0,
        message: "no crate entry points found"@,
        severity: ErrorSeverity::Warning,
        kind: DiagnosticKind::MissingCrateRoots,
        context: None,
        cause: None,
    }
}

/// The module trees of the entry points `roots`, in order, and their
/// diagnostics.
pub open spec fn trees_of(
    sources: Seq<SourceEntry>,
    roots: Seq<(Seq<char>, CrateType)>,
    name: Seq<char>,
) -> (Seq<ModuleView>, Seq<ErrorEntryView>)
    decreases roots.len(),
{
    if roots.len() == 0 {
        (Seq::empty(), Seq::empty())
    } else {
        let (m, e) = trees_of(sources, roots.drop_last(), name);
        let t = module_tree_spec(sources, roots.last().0, name);
        (m + t.0, e + t.1)
    }
}

/// Module `m` with its file, and the files of its items, relative to the
/// workspace root.
pub open spec fn relativize_module(m: ModuleView, root: Seq<char>) -> ModuleView {
    ModuleView {
        file: relative_to(m.file, root),
        public_items: m.public_items.map_values(
            |it: PublicItemView| PublicItemView { file: relative_to(it.file, root), ..it },
        ),
        ..m
    }
}

/// The kind of a crate with entry points `roots`: both a library and a
/// binary, else the kind of its first entry point.
pub open spec fn crate_type_of(roots: Seq<(Seq<char>, CrateType)>) -> CrateType {
    if (exists|i: int| 0 <= i < roots.len() && #[trigger] roots[i].1 == CrateType::Lib) && (exists|
        i: int,
    | 0 <= i < roots.len() && #[trigger] roots[i].1 == CrateType::Bin) {
        CrateType::LibAndBin
    } else if roots.len() > 0 {
        roots[0].1
    } else {
        CrateType::Lib
    }
}

/// The crate read from member `m`, when its manifest gives a package and
/// it has an entry point, and the diagnostics met reading it.
pub open spec fn member_spec(ws_root: Seq<char>, m: CrateSource) -> (Option<CrateView>, Seq<
    ErrorEntryView,
>) {
    let cargo_toml = path_join(m.dir@, "Cargo.toml"@);
    match manifest_result(cargo_toml, m.manifest) {
        Err(e) => (None, seq![manifest_entry(cargo_toml, error_text(e))]),
        Ok(doc) => {
            let roots = crate_roots_spec(m.sources@, m.dir@);
            if roots.len() == 0 {
                (None, seq![missing_roots_entry(m.dir@)])
            } else {
                let pkg = package_spec(doc);
                let (modules, errors) = trees_of(m.sources@, roots, pkg.name);
                (
                    Some(
                        CrateView {
                            name: pkg.name,
                            root: relative_to(roots[0].0, ws_root),
                            package: PackageView { crate_type: crate_type_of(roots), ..pkg },
                            modules: modules.map_values(
                                |mv: ModuleView| relativize_module(mv, ws_root),
                            ),
                            deps: deps_spec(doc),
                            cross_crate_imports: Seq::empty(),
                        },
                    ),
                    errors,
                )
            }
        },
    }
}

/// A crate read from a member, with the files walked for it.
pub type Gathered = (CrateView, Seq<Seq<char>>);

/// The crates read from `members`, in order, with their walked files, and
/// the diagnostics of all members, in order: a member that gives no crate
/// still reports why (its manifest failed, or it has no entry point).
pub open spec fn gather_spec(ws_root: Seq<char>, members: Seq<CrateSource>) -> (
    Seq<Gathered>,
    Seq<ErrorEntryView>,
)
    decreases members.len(),
{
    if members.len() == 0 {
        (Seq::empty(), Seq::empty())
    } else {
        let (cs, es) = gather_spec(ws_root, members.drop_last());
        let m = members.last();
        match member_spec(ws_root, m).0 {
            Some(c) => (cs.push((c, m.walked.deep_view())), es + member_spec(ws_root, m).1),
            None => (cs, es + member_spec(ws_root, m).1),
        }
    }
}

/// The order of gathered crates by name.
pub open spec fn gathered_order() -> spec_fn(Gathered, Gathered) -> bool {
    |a: Gathered, b: Gathered| seq_lt(a.0.name, b.0.name)
}

/// The gathered crates of `members`, stably sorted by name.
pub open spec fn sorted_crates(ws_root: Seq<char>, members: Seq<CrateSource>) -> Seq<Gathered> {
    sort_view_by(gather_spec(ws_root, members).0, gathered_order())
}

// ── Implementation ──────────────────────────────────────────────────────

/// A crate read from a member, with the files walked for it.
struct CrateBuild {
    info: CrateInfo,
    walked: Vec<String>,
}

impl DeepView for CrateBuild {
    type V = Gathered;

    closed spec fn deep_view(&self) -> Gathered {
        (self.info.deep_view(), self.walked.deep_view())
    }
}

impl SortKey for CrateBuild {
    closed spec fn key_lt(&self, other: &Self) -> bool {
        seq_lt(self.info.name@, other.info.name@)
    }

    fn key_before(&self, other: &Self) -> (r: bool) {
        str_lt(self.info.name.as_str(), other.info.name.as_str())
    }
}

/// A copy of the texts `v`.
fn copy_texts(v: &Vec<String>) -> (r: Vec<String>)
    ensures
        r.deep_view() == v.deep_view(),
{
    let mut r: Vec<String> = Vec::new();
    let mut i: usize = 0;
    while i < v.len()
        invariant
            0 <= i <= v@.len(),
            r.deep_view() == v.deep_view().take(i as int),
        decreases v@.len() - i,
    {
        let ghost prev = r.deep_view();
        let c = v[i].clone();
        r.push(c);
        assert(r.deep_view() =~= prev.push(c@));
        assert(v.deep_view().take(i + 1) =~= v.deep_view().take(i as int).push(v@[i as int]@));
        i = i + 1;
    }
    assert(v.deep_view().take(v@.len() as int) =~= v.deep_view());
    r
}

/// Module `m` with its file, and the files of its items, relative to
/// `root`.
fn relativize_module_info(m: ModuleInfo, root: &str) -> (r: ModuleInfo)
    ensures
        r.deep_view() == relativize_module(m.deep_view(), root@),
{
    let mut m = m;
    let ghost items0 = m.public_items.deep_view();
    m.file = relativize_path(m.file.as_str(), root);
    let mut items = Vec::new();
    std::mem::swap(&mut items, &mut m.public_items);
    let mut out: Vec<crate::schema::PublicItem> = Vec::new();
    let mut i: usize = 0;
    let ghost target = items0.map_values(
        |it: PublicItemView| PublicItemView { file: relative_to(it.file, root@), ..it },
    );
    while i < items.len()
        invariant
            items.deep_view() == items0,
            target == items0.map_values(
                |it: PublicItemView| PublicItemView { file: relative_to(it.file, root@), ..it },
            ),
            0 <= i <= items@.len(),
            out.deep_view() == target.take(i as int),
        decreases items@.len() - i,
    {
        let mut it = items[i].clone();
        it.file = relativize_path(it.file.as_str(), root);
        let ghost prev = out.deep_view();
        out.push(it);
        assert(out.deep_view() =~= prev.push(it.deep_view()));
        assert(target.take(i + 1) =~= target.take(i as int).push(target[i as int]));
        i = i + 1;
    }
    assert(target.take(items@.len() as int) =~= target);
    m.public_items = out;
    m
}

/// The kind of a crate with entry points `roots`.
fn crate_type_from(roots: &Vec<(String, CrateType)>) -> (r: CrateType)
    requires
        roots@.len() > 0,
    ensures
        r == crate_type_of(roots@.map_values(|x: (String, CrateType)| (x.0@, x.1))),
{
    let ghost rv = roots@.map_values(|x: (String, CrateType)| (x.0@, x.1));
    let mut has_lib = false;
    let mut has_bin = false;
    let mut i: usize = 0;
    while i < roots.len()
        invariant
            rv == roots@.map_values(|x: (String, CrateType)| (x.0@, x.1)),
            0 <= i <= roots@.len(),
            has_lib == exists|k: int| 0 <= k < i && #[trigger] rv[k].1 == CrateType::Lib,
            has_bin == exists|k: int| 0 <= k < i && #[trigger] rv[k].1 == CrateType::Bin,
        decreases roots@.len() - i,
    {
        assert(rv[i as int].1 == roots@[i as int].1);
        match roots[i].1 {
            CrateType::Lib => {
                has_lib = true;
            },
            CrateType::Bin => {
                has_bin = true;
            },
            CrateType::LibAndBin => {},
        }
        i = i + 1;
    }
    if has_lib && has_bin {
        CrateType::LibAndBin
    } else {
        assert(rv[0].1 == roots@[0].1);
        roots[0].1
    }
}

/// The module trees of the entry points `roots`, in order, and their
/// diagnostics.
fn build_trees(sources: &Vec<SourceEntry>, roots: &Vec<(String, CrateType)>, name: &String) -> (r: (
    Vec<ModuleInfo>,
    Vec<ErrorEntry>,
))
    ensures
        (r.0.deep_view(), r.1.deep_view()) == trees_of(
            sources@,
            roots@.map_values(|x: (String, CrateType)| (x.0@, x.1)),
            name@,
        ),
{
    let ghost rv = roots@.map_values(|x: (String, CrateType)| (x.0@, x.1));
    let mut modules: Vec<ModuleInfo> = Vec::new();
    let mut errors: Vec<ErrorEntry> = Vec::new();
    let mut j: usize = 0;
    assert(rv.take(0) =~= Seq::<(Seq<char>, CrateType)>::empty());
    while j < roots.len()
        invariant
            rv == roots@.map_values(|x: (String, CrateType)| (x.0@, x.1)),
            0 <= j <= roots@.len(),
            (modules.deep_view(), errors.deep_view()) == trees_of(sources@, rv.take(j as int), name@),
        decreases roots@.len() - j,
    {
        assert(rv.take(j + 1).drop_last() =~= rv.take(j as int));
        assert(rv.take(j + 1).last().0 == roots@[j as int].0@);
        let (mut tm, mut te) = build_module_tree(sources, roots[j].0.as_str(), name.as_str());
        let ghost pm = modules.deep_view();
        let ghost pe = errors.deep_view();
        let ghost tmv = tm.deep_view();
        let ghost tev = te.deep_view();
        modules.append(&mut tm);
        errors.append(&mut te);
        assert(modules.deep_view() =~= pm + tmv);
        assert(errors.deep_view() =~= pe + tev);
        j = j + 1;
    }
    assert(rv.take(roots@.len() as int) =~= rv);
    (modules, errors)
}

/// The modules `modules`, each relative to `root`.
fn relativize_modules(modules: Vec<ModuleInfo>, root: &str) -> (r: Vec<ModuleInfo>)
    ensures
        r.deep_view() == modules.deep_view().map_values(|x: ModuleView| relativize_module(x, root@)),
{
    let ghost mv = modules.deep_view();
    let ghost target = mv.map_values(|x: ModuleView| relativize_module(x, root@));
    let mut modules = modules;
    let mut rel: Vec<ModuleInfo> = Vec::new();
    while modules.len() > 0
        invariant
            target == mv.map_values(|x: ModuleView| relativize_module(x, root@)),
            mv.len() == rel@.len() + modules@.len(),
            rel.deep_view() == target.take(rel@.len() as int),
            modules.deep_view() == mv.skip(rel@.len() as int),
        decreases modules@.len(),
    {
        let ghost k: int = rel@.len() as int;
        let ghost pre = modules.deep_view();
        let first = modules.remove(0);
        assert(pre[0] == first.deep_view());
        assert(first.deep_view() == mv[k]);
        let r1 = relativize_module_info(first, root);
        let ghost prev = rel.deep_view();
        rel.push(r1);
        assert(rel.deep_view() =~= prev.push(r1.deep_view()));
        assert(target.take(k + 1) =~= target.take(k).push(target[k]));
        assert(modules.deep_view() =~= pre.drop_first());
        assert(mv.skip(k).drop_first() =~= mv.skip(k + 1));
    }
    assert(target.take(mv.len() as int) =~= target);
    rel
}

/// Reads member `m`: its crate, when its manifest gives a package and it
/// has an entry point, and the diagnostics met on the way.
pub fn process_member(workspace_root: &str, m: &CrateSource) -> (r: (Option<CrateInfo>, Vec<
    ErrorEntry,
>))
    ensures
        match member_spec(workspace_root@, *m).0 {
            Some(c) => r.0 matches Some(ci) && ci.deep_view() == c,
            None => r.0 is None,
        },
        r.1.deep_view() == member_spec(workspace_root@, *m).1,
{
    let cargo_toml = join(m.dir.as_str(), "Cargo.toml");
    let (pkg, deps) = match parse_cargo_toml(cargo_toml.as_str(), &m.manifest) {
        Ok(v) => v,
        Err(e) => {
            let text = e.message();
            let entry = ErrorEntry {
                file: cargo_toml,
                line: 0,
                message: concat("failed to parse Cargo.toml: ", text.as_str()),
                severity: ErrorSeverity::Error,
                kind: DiagnosticKind::TomlParseError,
                context: None,
                cause: Some(text),
            };
            let errors = vec![entry];
            assert(errors.deep_view() =~= member_spec(workspace_root@, *m).1);
            return (None, errors);
        },
    };
    let roots = resolve_crate_roots(m.dir.as_str(), &m.sources);
    let ghost rv = roots@.map_values(|x: (String, CrateType)| (x.0@, x.1));
    if roots.len() == 0 {
        let entry = ErrorEntry {
            file: m.dir.clone(),
            line: 0,
            message: owned("no crate entry points found"),
            severity: ErrorSeverity::Warning,
            kind: DiagnosticKind::MissingCrateRoots,
            context: None,
            cause: None,
        };
        let errors = vec![entry];
        assert(errors.deep_view() =~= member_spec(workspace_root@, *m).1);
        return (None, errors);
    }
    let crate_type = crate_type_from(&roots);
    let pkg_name = pkg.name.clone();
    let (modules, errors) = build_trees(&m.sources, &roots, &pkg_name);
    let rel = relativize_modules(modules, workspace_root);
    let crate_root = relativize_path(roots[0].0.as_str(), workspace_root);
    let package = PackageInfo {
        name: pkg.name,
        version: pkg.version,
        edition: pkg.edition,
        crate_type,
    };
    let info = CrateInfo {
        name: pkg_name,
        root: crate_root,
        package,
        modules: rel,
        deps,
        cross_crate_imports: Vec::new(),
    };
    assert(info.cross_crate_imports.deep_view() =~= Seq::<crate::schema::CrossCrateImportView>::empty());
    (Some(info), errors)
}

/// The map of the workspace at `workspace_root` with member crates
/// `members`, as read from disk.
///
/// Each member is read from its manifest and the module trees of its entry
/// points; a member whose manifest cannot be read or parsed, or that has
/// no entry point, is left out of the crates and its diagnostic kept. The crates are sorted by name
/// and their cross references computed; the flat indexes are derived from
/// them. When `validate` is set, the orphan-file and dead-re-export
/// findings follow the diagnostics.
pub fn build_map(workspace_root: &str, members: &Vec<CrateSource>, validate_map: bool) -> (r:
    WorkspaceMap)
    ensures
        r.workspace.deep_view() == (WorkspaceInfoView {
            root: "."@,
            workspace_name: path_file_name(workspace_root@),
        }),
        r.workspace_root@ == workspace_root@,
        r.crates@.len() == sorted_crates(workspace_root@, members@).len(),
        forall|i: int|
            0 <= i < r.crates@.len() ==> #[trigger] r.crates@[i].deep_view() == crate_with_imports(
                sorted_crates(workspace_root@, members@).map_values(|g: Gathered| g.0),
                sorted_crates(workspace_root@, members@)[i].0,
            ),
        r.cross_references.types@ == types_of(
            sorted_crates(workspace_root@, members@).map_values(|g: Gathered| g.0),
        ),
        r.symbols@ == symbols_of(r.crates.deep_view()),
        r.name_index@ == name_index_of(r.crates.deep_view()),
        r.files@ == files_of(r.crates.deep_view()),
        r.errors.deep_view() == gather_spec(workspace_root@, members@).1 + if validate_map {
            findings_upto(
                r.crates.deep_view(),
                workspace_root@,
                sorted_crates(workspace_root@, members@).map_values(|g: Gathered| g.1),
                r.symbols@,
                r.crates@.len() as int,
            )
        } else {
            Seq::empty()
        },
{
    let ghost ms = members@;
    let mut builds: Vec<CrateBuild> = Vec::new();
    let mut errors: Vec<ErrorEntry> = Vec::new();
    let mut i: usize = 0;
    assert(ms.take(0) =~= Seq::<CrateSource>::empty());
    while i < members.len()
        invariant
            ms == members@,
            0 <= i <= ms.len(),
            (views_of(builds@), errors.deep_view()) == gather_spec(workspace_root@, ms.take(i as int)),
        decreases ms.len() - i,
    {
        let m = &members[i];
        assert(ms.take(i + 1).drop_last() =~= ms.take(i as int));
        assert(ms.take(i + 1).last() == *m);
        let (info, mut errs) = process_member(workspace_root, m);
        let ghost pe = errors.deep_view();
        let ghost ev = errs.deep_view();
        errors.append(&mut errs);
        assert(errors.deep_view() =~= pe + ev);
        if let Some(ci) = info {
            let b = CrateBuild { info: ci, walked: copy_texts(&m.walked) };
            let ghost pb = builds@;
            builds.push(b);
            assert(views_of(builds@) =~= views_of(pb).push(b.deep_view()));
        }
        i = i + 1;
    }
    assert(ms.take(ms.len() as int) =~= ms);
    proof {
        lemma_sort_views(builds@, gathered_order());
    }
    let sorted = stable_sort(builds);
    let ghost sv = views_of(sorted@);
    assert(sv == sorted_crates(workspace_root@, ms));
    let mut crates: Vec<CrateInfo> = Vec::new();
    let mut walked: Vec<Vec<String>> = Vec::new();
    let mut rest = sorted;
    while rest.len() > 0
        invariant
            sv == sorted_crates(workspace_root@, ms),
            sv.len() == crates@.len() + rest@.len(),
            crates@.len() == walked@.len(),
            views_of(rest@) == sv.skip(crates@.len() as int),
            crates.deep_view() == sv.map_values(|g: Gathered| g.0).take(crates@.len() as int),
            walked.deep_view() == sv.map_values(|g: Gathered| g.1).take(crates@.len() as int),
        decreases rest@.len(),
    {
        let ghost k: int = crates@.len() as int;
        let ghost pr = rest@;
        let b = rest.remove(0);
        assert(views_of(pr)[0] == b.deep_view());
        assert(b.deep_view() == sv[k as int]);
        let ghost pc = crates.deep_view();
        let ghost pw = walked.deep_view();
        crates.push(b.info);
        walked.push(b.walked);
        assert(crates.deep_view() =~= pc.push(sv[k as int].0));
        assert(walked.deep_view() =~= pw.push(sv[k as int].1));
        assert(sv.map_values(|g: Gathered| g.0).take(k + 1) =~= sv.map_values(|g: Gathered| g.0).take(
            k as int,
        ).push(sv[k as int].0));
        assert(sv.map_values(|g: Gathered| g.1).take(k + 1) =~= sv.map_values(|g: Gathered| g.1).take(
            k as int,
        ).push(sv[k as int].1));
        assert(views_of(rest@) =~= views_of(pr).drop_first());
        assert(sv.skip(k as int).drop_first() =~= sv.skip(k + 1));
    }
    assert(sv.map_values(|g: Gathered| g.0).take(sv.len() as int) =~= sv.map_values(|g: Gathered| g.0));
    assert(sv.map_values(|g: Gathered| g.1).take(sv.len() as int) =~= sv.map_values(|g: Gathered| g.1));
    let cross_references = compute(&mut crates);
    let (symbols, name_index, files) = derive_from_crates(crates.as_slice());
    if validate_map {
        let mut findings = validate(&crates, &symbols, workspace_root, &walked);
        let ghost pe = errors.deep_view();
        let ghost fv = findings.deep_view();
        errors.append(&mut findings);
        assert(errors.deep_view() =~= pe + fv);
    } else {
        assert(errors.deep_view() =~= errors.deep_view() + Seq::<ErrorEntryView>::empty());
    }
    let workspace = WorkspaceInfo {
        root: owned("."),
        workspace_name: file_name_of(workspace_root),
    };
    WorkspaceMap {
        workspace,
        crates,
        cross_references,
        symbols,
        name_index,
        files,
        errors,
        workspace_root: owned(workspace_root),
    }
}

/// `e` is a validation issue: an orphan file or dead re-export warning.
pub open spec fn is_validation_issue(e: ErrorEntryView) -> bool {
    e.severity == ErrorSeverity::Warning && (e.kind == DiagnosticKind::OrphanFile || e.kind
        == DiagnosticKind::DeadReExport)
}

/// Whether some diagnostic of `errors` is a validation issue.
pub fn has_validation_issues(errors: &Vec<ErrorEntry>) -> (r: bool)
    ensures
        r == exists|i: int|
            0 <= i < errors@.len() && is_validation_issue(#[trigger] errors@[i].deep_view()),
{
    let mut i: usize = 0;
    while i < errors.len()
        invariant
            0 <= i <= errors@.len(),
            forall|k: int| 0 <= k < i ==> !is_validation_issue(#[trigger] errors@[k].deep_view()),
        decreases errors@.len() - i,
    {
        let e = &errors[i];
        let kind_matches = match e.kind {
            DiagnosticKind::OrphanFile => true,
            DiagnosticKind::DeadReExport => true,
            _ => false,
        };
        let is_warning = match e.severity {
            ErrorSeverity::Warning => true,
            ErrorSeverity::Error => false,
        };
        if kind_matches && is_warning {
            assert(is_validation_issue(errors@[i as int].deep_view()));
            return true;
        }
        i = i + 1;
    }
    false
}

/// The exit status of indexing: 2 when validation was asked for and found
/// an issue, 0 otherwise.
pub fn index_exit_status(validate_map: bool, errors: &Vec<ErrorEntry>) -> (r: i32)
    ensures
        r == (if validate_map && exists|i: int|
            0 <= i < errors@.len() && is_validation_issue(#[trigger] errors@[i].deep_view()) {
            2i32
        } else {
            0i32
        }),
{
    if validate_map && has_validation_issues(errors) {
        2
    } else {
        0
    }
}

// ── Laws ────────────────────────────────────────────────────────────────

/// No diagnostic of `es` is of a validation kind (orphan file or dead
/// re-export).
pub open spec fn no_validation_issue(es: Seq<ErrorEntryView>) -> bool {
    forall|i: int|
        0 <= i < es.len() ==> (#[trigger] es[i]).kind != DiagnosticKind::OrphanFile && es[i].kind
            != DiagnosticKind::DeadReExport
}

proof fn lemma_trees_no_issue(
    sources: Seq<SourceEntry>,
    roots: Seq<(Seq<char>, CrateType)>,
    name: Seq<char>,
)
    ensures
        no_validation_issue(trees_of(sources, roots, name).1),
    decreases roots.len(),
{
    if roots.len() > 0 {
        lemma_trees_no_issue(sources, roots.drop_last(), name);
        let a = trees_of(sources, roots.drop_last(), name).1;
        let b = module_tree_spec(sources, roots.last().0, name).1;
        law_tree_diagnostics(sources, roots.last().0, name);
        assert forall|i: int| 0 <= i < (a + b).len() implies (#[trigger] (a + b)[i]).kind
            != DiagnosticKind::OrphanFile && (a + b)[i].kind != DiagnosticKind::DeadReExport by {
            if i >= a.len() {
                assert((a + b)[i] == b[i - a.len()]);
            }
        }
    }
}

/// With validation off the map reports no orphan file and no dead
/// re-export: every diagnostic met reading the members is of another kind.
pub proof fn law_no_findings_without_validation(ws_root: Seq<char>, members: Seq<CrateSource>)
    ensures
        no_validation_issue(gather_spec(ws_root, members).1),
    decreases members.len(),
{
    if members.len() > 0 {
        law_no_findings_without_validation(ws_root, members.drop_last());
        let m = members.last();
        let a = gather_spec(ws_root, members.drop_last()).1;
        let b = member_spec(ws_root, m).1;
        if let Ok(doc) = manifest_result(path_join(m.dir@, "Cargo.toml"@), m.manifest) {
            let roots = crate_roots_spec(m.sources@, m.dir@);
            if roots.len() > 0 {
                lemma_trees_no_issue(m.sources@, roots, package_spec(doc).name);
            }
        }
        assert(no_validation_issue(b));
        assert forall|i: int| 0 <= i < (a + b).len() implies (#[trigger] (a + b)[i]).kind
            != DiagnosticKind::OrphanFile && (a + b)[i].kind != DiagnosticKind::DeadReExport by {
            if i >= a.len() {
                assert((a + b)[i] == b[i - a.len()]);
            }
        }
    }
}

/// Indexing with validation exits with status 2 exactly when validation
/// found something: reading the members raises no orphan-file or
/// dead-re-export warning, and every validation finding is one.
pub proof fn law_exit_status_tracks_findings(
    ws_root: Seq<char>,
    members: Seq<CrateSource>,
    crates: Seq<CrateView>,
    walked: Seq<Seq<Seq<char>>>,
    symbols: Map<Seq<char>, SymbolView>,
    n: int,
)
    ensures
        ({
            let es = gather_spec(ws_root, members).1 + findings_upto(
                crates,
                ws_root,
                walked,
                symbols,
                n,
            );
            (exists|i: int| 0 <= i < es.len() && is_validation_issue(#[trigger] es[i]))
                <==> findings_upto(crates, ws_root, walked, symbols, n).len() > 0
        }),
{
    let a = gather_spec(ws_root, members).1;
    let f = findings_upto(crates, ws_root, walked, symbols, n);
    let es = a + f;
    law_no_findings_without_validation(ws_root, members);
    law_findings_are_warnings(crates, ws_root, walked, symbols, n);
    if f.len() > 0 {
        assert(es[a.len() as int] == f[0]);
        assert(is_validation_issue(es[a.len() as int]));
    }
    if exists|i: int| 0 <= i < es.len() && is_validation_issue(#[trigger] es[i]) {
        let i = choose|i: int| 0 <= i < es.len() && is_validation_issue(#[trigger] es[i]);
        if i < a.len() {
            assert(es[i] == a[i]);
            assert(a[i].kind != DiagnosticKind::OrphanFile);
        }
    }
}

/// The crates of the map come sorted by name, and they are exactly the
/// crates read from the members, each as often as it was read.
pub proof fn law_crates_sorted_by_name(ws_root: Seq<char>, members: Seq<CrateSource>)
    ensures
        forall|i: int, j: int|
            #![trigger sorted_crates(ws_root, members)[i], sorted_crates(ws_root, members)[j]]
            0 <= i < j < sorted_crates(ws_root, members).len() ==> !seq_lt(
                sorted_crates(ws_root, members)[j].0.name,
                sorted_crates(ws_root, members)[i].0.name,
            ),
        sorted_crates(ws_root, members).to_multiset() == gather_spec(ws_root, members).0.to_multiset(),
{
    let g = gather_spec(ws_root, members).0;
    let key = |x: Gathered| x.0.name;
    assert(key_lt_by(key) =~= gathered_order());
    lemma_sort_sorted(g, key);
    lemma_sort_view_permutes(g, gathered_order());
    let sc = sorted_crates(ws_root, members);
    assert forall|i: int, j: int| 0 <= i < j < sc.len() implies !seq_lt(
        #[trigger] sc[j].0.name,
        #[trigger] sc[i].0.name,
    ) by {
        assert(!seq_lt(key(sc[j]), key(sc[i])));
    }
}

} // verus!
