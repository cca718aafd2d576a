//! The module tree of a crate: from its entry point, each `mod`
//! declaration resolved to an inline body or to a file, recursively.
//!
//! The files of the crate are read and parsed beforehand; `sources` holds,
//! for each `.rs` file on disk, its path and the outcome of parsing it. A
//! path is taken to exist exactly when some entry of `sources` has it.
use vstd::prelude::*;
use crate::file_parser::{SynParseError, build_parse_error_entry, file_info_of, file_info_spec,
    parse_error_view};
use crate::paths::{join, parent_of, path_join, path_parent};
use crate::schema::{DiagnosticKind, ErrorContext, ErrorContextView, ErrorEntry, ErrorEntryView,
    ErrorSeverity, FileInfo, FileInfoView, ImportView, ModuleInfo, ModuleView, PublicItemView,
    ReExportView, SubmoduleView};
use crate::syntax::{SourceFile, SynItem, Vis};
use crate::text::{concat, join_path, owned, str_eq};

verus! {

/// A source file on disk, with the outcome of reading and parsing it.
#[derive(Debug)]
pub struct SourceEntry {
    pub path: String,
    pub parsed: Result<SourceFile, SynParseError>,
}

/// The entry of the source file at `path`, from the outcome of reading it
/// (its text, or the message of the read error).
pub fn read_source(path: String, content: &Result<String, String>) -> (r: SourceEntry)
    ensures
        r.path == path,
        r.parsed == crate::file_parser::source_outcome(*content),
{
    SourceEntry { path, parsed: crate::file_parser::parse_outcome(content) }
}

// ── Specification: files ────────────────────────────────────────────────

/// The paths of the source files.
pub open spec fn paths_of(sources: Seq<SourceEntry>) -> Seq<Seq<char>> {
    sources.map_values(|e: SourceEntry| e.path@)
}

/// Some source file has path `p`.
pub open spec fn has_source(sources: Seq<SourceEntry>, p: Seq<char>) -> bool {
    paths_of(sources).contains(p)
}

/// The first source file with path `p`.
pub open spec fn find_source(sources: Seq<SourceEntry>, p: Seq<char>) -> Option<SourceEntry>
    decreases sources.len(),
{
    if sources.len() == 0 {
        None
    } else if sources[0].path@ == p {
        Some(sources[0])
    } else {
        find_source(sources.drop_first(), p)
    }
}

/// The items of the file at `p` (none when it failed to parse, or is not
/// on disk).
pub open spec fn source_items(sources: Seq<SourceEntry>, p: Seq<char>) -> Seq<SynItem> {
    match find_source(sources, p) {
        Some(e) => match e.parsed {
            Ok(f) => f.items@,
            Err(_) => Seq::empty(),
        },
        None => Seq::empty(),
    }
}

/// The message of a file that is not on disk.
pub open spec fn missing_file_message() -> Seq<char> {
    "No such file or directory (os error 2)"@
}

/// The diagnostics of reading and parsing the file at `p`: one when it
/// failed.
pub open spec fn source_errors(sources: Seq<SourceEntry>, p: Seq<char>) -> Seq<ErrorEntryView> {
    match find_source(sources, p) {
        Some(e) => match e.parsed {
            Ok(_) => Seq::empty(),
            Err(err) => seq![parse_error_view(p, err.message@, err.line)],
        },
        None => seq![parse_error_view(p, missing_file_message(), 0)],
    }
}

/// The file of module `name` declared in a file of directory `dir`:
/// `{dir}/{name}.rs`, else `{dir}/{name}/mod.rs`, when it exists.
pub open spec fn resolve_spec(sources: Seq<SourceEntry>, dir: Seq<char>, name: Seq<char>) -> Option<
    Seq<char>,
> {
    let rs_file = path_join(dir, name + ".rs"@);
    let mod_file = path_join(path_join(dir, name), "mod.rs"@);
    if has_source(sources, rs_file) {
        Some(rs_file)
    } else if has_source(sources, mod_file) {
        Some(mod_file)
    } else {
        None
    }
}

/// The directory of file `p`: its parent, or `p` itself when it has none.
pub open spec fn dir_of(p: Seq<char>) -> Seq<char> {
    match path_parent(p) {
        Some(d) => d,
        None => p,
    }
}

/// The number of source files not yet visited.
pub open spec fn unvisited(paths: Seq<Seq<char>>, visited: Seq<Seq<char>>) -> nat
    decreases paths.len(),
{
    if paths.len() == 0 {
        0
    } else {
        unvisited(paths.drop_last(), visited) + if visited.contains(paths.last()) {
            0nat
        } else {
            1nat
        }
    }
}

// ── Specification: the tree ─────────────────────────────────────────────

/// The record of module `path`, in `file`, with what the map read of it.
pub open spec fn module_view(
    path: Seq<char>,
    file: Seq<char>,
    visibility: Seq<char>,
    info: FileInfoView,
) -> ModuleView {
    ModuleView {
        path,
        file,
        visibility,
        public_items: info.public_items,
        imports: info.imports,
        re_exports: info.re_exports,
        submodules: info.submodules.map_values(|s: SubmoduleView| s.name),
    }
}

/// The text that marks a module whose file could not be found.
pub open spec fn unresolved_file() -> Seq<char> {
    "<unresolved>"@
}

/// The record of module `path` whose file could not be found.
pub open spec fn unresolved_module(path: Seq<char>, visibility: Seq<char>) -> ModuleView {
    ModuleView {
        path,
        file: unresolved_file(),
        visibility,
        public_items: Seq::empty(),
        imports: Seq::empty(),
        re_exports: Seq::empty(),
        submodules: Seq::empty(),
    }
}

/// The warning for module `path`, declared but not found.
pub open spec fn orphan_error(path: Seq<char>) -> ErrorEntryView {
    ErrorEntryView {
        file: Seq::empty(),
        line: 0,
        message: "orphaned module: "@ + path,
        severity: ErrorSeverity::Warning,
        kind: DiagnosticKind::OrphanedModule,
        context: Some(
            ErrorContextView { crate_name: None, mod_path: Some(path), line: None, snippet: None },
        ),
        cause: None,
    }
}

/// `item` is the declaration of module `name`.
pub open spec fn is_mod_named(item: SynItem, name: Seq<char>) -> bool {
    item matches SynItem::Mod { ident, .. } && ident@ == name
}

/// The index of the first declaration of module `name` in `items`.
pub open spec fn first_mod(items: Seq<SynItem>, name: Seq<char>) -> Option<int>
    decreases items.len(),
{
    if items.len() == 0 {
        None
    } else {
        match first_mod(items.drop_last(), name) {
            Some(k) => Some(k),
            None => if is_mod_named(items.last(), name) {
                Some(items.len() - 1)
            } else {
                None
            },
        }
    }
}

/// What a walk of the tree gives: modules, diagnostics, and the files
/// visited so far.
pub type Walk = (Seq<ModuleView>, Seq<ErrorEntryView>, Seq<Seq<char>>);

/// The walk of submodule `mod_name` (at `mod_path`), declared among
/// `parent_items` of `parent_file` in directory `parent_dir`: an inline
/// body is walked in place; a file is walked unless already visited; a
/// declaration or a file that cannot be found gives an unresolved module
/// and a warning.
pub open spec fn submodule_spec(
    sources: Seq<SourceEntry>,
    mod_path: Seq<char>,
    mod_name: Seq<char>,
    parent_items: Seq<SynItem>,
    parent_dir: Seq<char>,
    parent_file: Seq<char>,
    visited: Seq<Seq<char>>,
) -> Walk
    decreases unvisited(paths_of(sources), visited), parent_items, 0nat, 0nat,
{
    match first_mod(parent_items, mod_name) {
        None => (seq![unresolved_module(mod_path, "private"@)], seq![orphan_error(mod_path)], visited),
        Some(k) => {
            proof {
                lemma_first_mod(parent_items, mod_name);
            }
            match parent_items[k] {
                SynItem::Mod { vis, content, .. } => {
                    let visibility = if vis is Public {
                        "pub"@
                    } else {
                        "private"@
                    };
                    match content {
                        Some(inline) => {
                            proof {
                                lemma_inline_decreases(parent_items, k);
                            }
                            module_info_spec(
                                sources,
                                mod_path,
                                parent_file,
                                visibility,
                                inline@,
                                Seq::empty(),
                                visited,
                            )
                        },
                        None => match resolve_spec(sources, parent_dir, mod_name) {
                            None => (
                                seq![unresolved_module(mod_path, visibility)],
                                seq![orphan_error(mod_path)],
                                visited,
                            ),
                            Some(fp) => if visited.contains(fp) {
                                (Seq::empty(), Seq::empty(), visited)
                            } else {
                                proof {
                                    lemma_unvisited_visit(paths_of(sources), visited, fp);
                                }
                                module_info_spec(
                                    sources,
                                    mod_path,
                                    fp,
                                    visibility,
                                    source_items(sources, fp),
                                    source_errors(sources, fp),
                                    visited.push(fp),
                                )
                            },
                        },
                    }
                },
                _ => (Seq::empty(), Seq::empty(), visited),
            }
        },
    }
}

/// The walk of module `mod_path` in `file_path` with items `items`:
/// its own record first, then its submodules in order, the diagnostics
/// `errors` first.
pub open spec fn module_info_spec(
    sources: Seq<SourceEntry>,
    mod_path: Seq<char>,
    file_path: Seq<char>,
    visibility: Seq<char>,
    items: Seq<SynItem>,
    errors: Seq<ErrorEntryView>,
    visited: Seq<Seq<char>>,
) -> Walk
    decreases unvisited(paths_of(sources), visited), items, 2nat, 0nat,
{
    let info = file_info_spec(items);
    children_spec(
        sources,
        mod_path,
        file_path,
        info.submodules,
        0,
        items,
        (seq![module_view(mod_path, file_path, visibility, info)], errors, visited),
    )
}

/// The walk of the submodules `subs` from index `k` on, after `acc`; the
/// ones marked `#[cfg(test)]` are skipped.
pub open spec fn children_spec(
    sources: Seq<SourceEntry>,
    mod_path: Seq<char>,
    file_path: Seq<char>,
    subs: Seq<SubmoduleView>,
    k: int,
    items: Seq<SynItem>,
    acc: Walk,
) -> Walk
    decreases unvisited(paths_of(sources), acc.2), items, 1nat, subs.len() - k,
{
    if k < 0 || k >= subs.len() {
        acc
    } else if subs[k].is_test {
        children_spec(sources, mod_path, file_path, subs, k + 1, items, acc)
    } else {
        let r = submodule_spec(
            sources,
            mod_path + "::"@ + subs[k].name,
            subs[k].name,
            items,
            dir_of(file_path),
            file_path,
            acc.2,
        );
        let next = (acc.0 + r.0, acc.1 + r.1, r.2);
        if unvisited(paths_of(sources), r.2) > unvisited(paths_of(sources), acc.2) {
            next
        } else {
            children_spec(sources, mod_path, file_path, subs, k + 1, items, next)
        }
    }
}

/// The module tree of the crate named `crate_name` whose entry point is
/// `crate_root`: the root module, public, with path `crate_name`, then the
/// walk of its submodules; the entry point counts as visited.
pub open spec fn module_tree_spec(
    sources: Seq<SourceEntry>,
    crate_root: Seq<char>,
    crate_name: Seq<char>,
) -> Walk {
    module_info_spec(
        sources,
        crate_name,
        crate_root,
        "pub"@,
        source_items(sources, crate_root),
        source_errors(sources, crate_root),
        seq![crate_root],
    )
}

// ── Lemmas ──────────────────────────────────────────────────────────────

pub proof fn lemma_first_mod(items: Seq<SynItem>, name: Seq<char>)
    ensures
        first_mod(items, name) matches Some(k) ==> 0 <= k < items.len() && is_mod_named(
            items[k],
            name,
        ),
        first_mod(items, name) is None ==> forall|k: int|
            0 <= k < items.len() ==> !is_mod_named(#[trigger] items[k], name),
        first_mod(items, name) matches Some(k) ==> forall|j: int|
            0 <= j < k ==> !is_mod_named(#[trigger] items[j], name),
    decreases items.len(),
{
    if items.len() > 0 {
        lemma_first_mod(items.drop_last(), name);
        assert forall|k: int| 0 <= k < items.len() - 1 implies items.drop_last()[k] == items[k] by {
        }
    }
}

pub proof fn lemma_inline_decreases(items: Seq<SynItem>, k: int)
    requires
        0 <= k < items.len(),
        items[k] matches SynItem::Mod { content, .. } && content is Some,
    ensures
        decreases_to!(items => items[k]->content->0@),
{
    vstd::seq::axiom_seq_index_decreases(items, k);
    let it = items[k];
    let c = it->content;
    assert(decreases_to!(it => it->content));
    assert(decreases_to!(c => c->0));
    vstd::std_specs::vec::axiom_vec_decreases_to_view(c->0);
}

/// Visiting more files leaves no more to visit.
pub proof fn lemma_unvisited_mono(paths: Seq<Seq<char>>, v1: Seq<Seq<char>>, v2: Seq<Seq<char>>)
    requires
        forall|x: Seq<char>| v1.contains(x) ==> v2.contains(x),
    ensures
        unvisited(paths, v2) <= unvisited(paths, v1),
    decreases paths.len(),
{
    if paths.len() > 0 {
        lemma_unvisited_mono(paths.drop_last(), v1, v2);
    }
}

/// Visiting a file not yet visited leaves fewer to visit.
pub proof fn lemma_unvisited_visit(paths: Seq<Seq<char>>, visited: Seq<Seq<char>>, p: Seq<char>)
    requires
        paths.contains(p),
        !visited.contains(p),
    ensures
        unvisited(paths, visited.push(p)) < unvisited(paths, visited),
    decreases paths.len(),
{
    let v2 = visited.push(p);
    assert(v2.contains(p)) by {
        assert(v2[visited.len() as int] == p);
    }
    assert forall|x: Seq<char>| visited.contains(x) implies v2.contains(x) by {
        let i = choose|i: int| 0 <= i < visited.len() && visited[i] == x;
        assert(v2[i] == x);
    }
    if paths.last() == p {
        lemma_unvisited_mono(paths.drop_last(), visited, v2);
    } else {
        let i = choose|i: int| 0 <= i < paths.len() && paths[i] == p;
        assert(paths.drop_last()[i] == p);
        lemma_unvisited_visit(paths.drop_last(), visited, p);
        if visited.contains(paths.last()) {
        }
    }
}

pub proof fn lemma_prefix_mono(paths: Seq<Seq<char>>, v1: Seq<Seq<char>>, v2: Seq<Seq<char>>)
    requires
        v1.len() <= v2.len(),
        v2.take(v1.len() as int) == v1,
    ensures
        unvisited(paths, v2) <= unvisited(paths, v1),
{
    assert forall|x: Seq<char>| v1.contains(x) implies v2.contains(x) by {
        let i = choose|i: int| 0 <= i < v1.len() && v1[i] == x;
        assert(v2.take(v1.len() as int)[i] == x);
    }
    lemma_unvisited_mono(paths, v1, v2);
}

/// `v1` is a prefix of `v2`.
pub open spec fn extends(v1: Seq<Seq<char>>, v2: Seq<Seq<char>>) -> bool {
    v1.len() <= v2.len() && v2.take(v1.len() as int) == v1
}

// ── Implementation ──────────────────────────────────────────────────────

/// The first source file with path `p`.
fn lookup_source<'a>(sources: &'a Vec<SourceEntry>, p: &str) -> (r: Option<&'a SourceEntry>)
    ensures
        r matches Some(e) ==> find_source(sources@, p@) == Some(*e),
        r is None ==> find_source(sources@, p@) is None,
        r is None <==> !has_source(sources@, p@),
{
    let mut i: usize = 0;
    assert(sources@.skip(0) =~= sources@);
    while i < sources.len()
        invariant
            0 <= i <= sources@.len(),
            find_source(sources@, p@) == find_source(sources@.skip(i as int), p@),
            forall|j: int| 0 <= j < i ==> sources@[j].path@ != p@,
        decreases sources@.len() - i,
    {
        assert(sources@.skip(i as int)[0] == sources@[i as int]);
        if str_eq(sources[i].path.as_str(), p) {
            proof {
                assert(paths_of(sources@)[i as int] == p@);
            }
            return Some(&sources[i]);
        }
        assert(sources@.skip(i as int).drop_first() =~= sources@.skip(i + 1));
        i = i + 1;
    }
    proof {
        assert(sources@.skip(i as int) =~= Seq::<SourceEntry>::empty());
        assert forall|x: Seq<char>| paths_of(sources@).contains(x) implies x != p@ by {
            let j = choose|j: int| 0 <= j < paths_of(sources@).len() && paths_of(sources@)[j] == x;
            assert(sources@[j].path@ == x);
        }
    }
    None
}

/// Whether a source file has path `p`.
pub fn source_exists(sources: &Vec<SourceEntry>, p: &str) -> (r: bool)
    ensures
        r == has_source(sources@, p@),
{
    lookup_source(sources, p).is_some()
}

/// The file of module `mod_name` declared in a file of `parent_dir`:
/// `{parent_dir}/{mod_name}.rs`, else `{parent_dir}/{mod_name}/mod.rs`;
/// `None` if neither exists.
pub fn resolve_module_path(sources: &Vec<SourceEntry>, parent_dir: &str, mod_name: &str) -> (r:
    Option<String>)
    ensures
        r.deep_view() == resolve_spec(sources@, parent_dir@, mod_name@),
{
    let file_name = concat(mod_name, ".rs");
    let rs_file = join(parent_dir, file_name.as_str());
    if lookup_source(sources, rs_file.as_str()).is_some() {
        return Some(rs_file);
    }
    let dir = join(parent_dir, mod_name);
    let mod_dir = join(dir.as_str(), "mod.rs");
    if lookup_source(sources, mod_dir.as_str()).is_some() {
        return Some(mod_dir);
    }
    None
}

/// The directory of file `p`.
fn dir_of_file(p: &str) -> (r: String)
    ensures
        r@ == dir_of(p@),
{
    match parent_of(p) {
        Some(d) => d,
        None => owned(p),
    }
}

/// The record of module `path` in `file`, with what the map read of it.
pub fn build_module_info(path: &str, file: &str, visibility: &str, info: &FileInfo) -> (r: ModuleInfo)
    ensures
        r.deep_view() == module_view(path@, file@, visibility@, info.deep_view()),
{
    let mut subs: Vec<String> = Vec::new();
    let mut i: usize = 0;
    while i < info.submodules.len()
        invariant
            0 <= i <= info.submodules@.len(),
            subs.deep_view() == info.deep_view().submodules.take(i as int).map_values(
                |s: SubmoduleView| s.name,
            ),
        decreases info.submodules@.len() - i,
    {
        let ghost prev = subs.deep_view();
        let c = info.submodules[i].name.clone();
        assert(c@ == info.deep_view().submodules[i as int].name);
        subs.push(c);
        assert(subs.deep_view() =~= prev.push(c@));
        assert(info.deep_view().submodules.take(i + 1).map_values(|s: SubmoduleView| s.name)
            =~= info.deep_view().submodules.take(i as int).map_values(|s: SubmoduleView| s.name).push(
            info.deep_view().submodules[i as int].name,
        ));
        i = i + 1;
    }
    assert(info.deep_view().submodules.take(info.submodules@.len() as int)
        =~= info.deep_view().submodules);
    let r = ModuleInfo {
        path: owned(path),
        file: owned(file),
        visibility: owned(visibility),
        public_items: clone_items(&info.public_items),
        imports: clone_imports(&info.imports),
        re_exports: clone_re_exports(&info.re_exports),
        submodules: subs,
    };
    r
}

fn clone_items(v: &Vec<crate::schema::PublicItem>) -> (r: Vec<crate::schema::PublicItem>)
    ensures
        r.deep_view() == v.deep_view(),
{
    let mut r: Vec<crate::schema::PublicItem> = Vec::new();
    let mut i: usize = 0;
    while i < v.len()
        invariant
            0 <= i <= v@.len(),
            r.deep_view() == v.deep_view().take(i as int),
        decreases v@.len() - i,
    {
        let ghost prev = r.deep_view();
        let c = v[i].clone();
        assert(c.deep_view() == v@[i as int].deep_view());
        r.push(c);
        assert(r.deep_view() =~= prev.push(c.deep_view()));
        assert(v.deep_view().take(i + 1) =~= v.deep_view().take(i as int).push(v@[i as int].deep_view()));
        i = i + 1;
    }
    assert(v.deep_view().take(v@.len() as int) =~= v.deep_view());
    r
}

fn clone_imports(v: &Vec<crate::schema::Import>) -> (r: Vec<crate::schema::Import>)
    ensures
        r.deep_view() == v.deep_view(),
{
    let mut r: Vec<crate::schema::Import> = Vec::new();
    let mut i: usize = 0;
    while i < v.len()
        invariant
            0 <= i <= v@.len(),
            r.deep_view() == v.deep_view().take(i as int),
        decreases v@.len() - i,
    {
        let ghost prev = r.deep_view();
        let c = v[i].clone();
        assert(c.deep_view() == v@[i as int].deep_view());
        r.push(c);
        assert(r.deep_view() =~= prev.push(c.deep_view()));
        assert(v.deep_view().take(i + 1) =~= v.deep_view().take(i as int).push(v@[i as int].deep_view()));
        i = i + 1;
    }
    assert(v.deep_view().take(v@.len() as int) =~= v.deep_view());
    r
}

fn clone_re_exports(v: &Vec<crate::schema::ReExport>) -> (r: Vec<crate::schema::ReExport>)
    ensures
        r.deep_view() == v.deep_view(),
{
    let mut r: Vec<crate::schema::ReExport> = Vec::new();
    let mut i: usize = 0;
    while i < v.len()
        invariant
            0 <= i <= v@.len(),
            r.deep_view() == v.deep_view().take(i as int),
        decreases v@.len() - i,
    {
        let ghost prev = r.deep_view();
        let c = v[i].clone();
        assert(c.deep_view() == v@[i as int].deep_view());
        r.push(c);
        assert(r.deep_view() =~= prev.push(c.deep_view()));
        assert(v.deep_view().take(i + 1) =~= v.deep_view().take(i as int).push(v@[i as int].deep_view()));
        i = i + 1;
    }
    assert(v.deep_view().take(v@.len() as int) =~= v.deep_view());
    r
}

/// The record of module `path` whose file could not be found.
fn unresolved(path: &str, visibility: &str) -> (r: ModuleInfo)
    ensures
        r.deep_view() == unresolved_module(path@, visibility@),
{
    let r = ModuleInfo {
        path: owned(path),
        file: owned("<unresolved>"),
        visibility: owned(visibility),
        public_items: Vec::new(),
        imports: Vec::new(),
        re_exports: Vec::new(),
        submodules: Vec::new(),
    };
    assert(r.public_items.deep_view() =~= Seq::<PublicItemView>::empty());
    assert(r.imports.deep_view() =~= Seq::<ImportView>::empty());
    assert(r.re_exports.deep_view() =~= Seq::<ReExportView>::empty());
    assert(r.submodules.deep_view() =~= Seq::<Seq<char>>::empty());
    r
}

/// The warning for module `path`, declared but not found.
fn orphan(path: &str) -> (r: ErrorEntry)
    ensures
        r.deep_view() == orphan_error(path@),
{
    ErrorEntry {
        file: String::new(),
        line: 0,
        message: concat("orphaned module: ", path),
        severity: ErrorSeverity::Warning,
        kind: DiagnosticKind::OrphanedModule,
        context: Some(
            ErrorContext { crate_name: None, mod_path: Some(owned(path)), line: None, snippet: None },
        ),
        cause: None,
    }
}

/// The index of the first declaration of module `name` in `items`.
fn find_mod(items: &Vec<SynItem>, name: &str) -> (r: Option<usize>)
    ensures
        r matches Some(k) ==> first_mod(items@, name@) == Some(k as int),
        r is None ==> first_mod(items@, name@) is None,
{
    let mut i: usize = 0;
    proof {
        lemma_first_mod(items@, name@);
    }
    while i < items.len()
        invariant
            0 <= i <= items@.len(),
            forall|j: int| 0 <= j < i ==> !is_mod_named(#[trigger] items@[j], name@),
        decreases items@.len() - i,
    {
        if let SynItem::Mod { ident, .. } = &items[i] {
            if str_eq(ident.as_str(), name) {
                proof {
                    lemma_first_mod(items@, name@);
                    if first_mod(items@, name@) is None {
                        assert(is_mod_named(items@[i as int], name@));
                    } else {
                        let k = first_mod(items@, name@)->0;
                        if k < i {
                            assert(!is_mod_named(items@[k], name@));
                        } else if k > i {
                            assert(!is_mod_named(items@[i as int], name@));
                        }
                    }
                }
                return Some(i);
            }
        }
        i = i + 1;
    }
    proof {
        lemma_first_mod(items@, name@);
        if first_mod(items@, name@) is Some {
            let k = first_mod(items@, name@)->0;
            assert(!is_mod_named(items@[k], name@));
        }
    }
    None
}

/// The diagnostics of reading and parsing the file at `p`.
fn source_errors_of(sources: &Vec<SourceEntry>, p: &str) -> (r: Vec<ErrorEntry>)
    ensures
        r.deep_view() == source_errors(sources@, p@),
{
    let mut r: Vec<ErrorEntry> = Vec::new();
    match lookup_source(sources, p) {
        Some(e) => match &e.parsed {
            Ok(_) => {
                assert(r.deep_view() =~= source_errors(sources@, p@));
            },
            Err(err) => {
                r.push(build_parse_error_entry(p, err));
                assert(r.deep_view() =~= source_errors(sources@, p@));
            },
        },
        None => {
            let err = SynParseError {
                message: owned("No such file or directory (os error 2)"),
                line: 0,
            };
            r.push(build_parse_error_entry(p, &err));
            assert(r.deep_view() =~= source_errors(sources@, p@));
        },
    }
    r
}

/// Walks submodule `mod_name` (at `mod_path`), declared among
/// `parent_items` of `parent_file` in `parent_dir`.
fn process_submodule(
    sources: &Vec<SourceEntry>,
    mod_path: &str,
    mod_name: &str,
    parent_items: &Vec<SynItem>,
    parent_dir: &str,
    parent_file: &str,
    visited: Vec<String>,
) -> (r: (Vec<ModuleInfo>, Vec<ErrorEntry>, Vec<String>))
    ensures
        (r.0.deep_view(), r.1.deep_view(), r.2.deep_view()) == submodule_spec(
            sources@,
            mod_path@,
            mod_name@,
            parent_items@,
            parent_dir@,
            parent_file@,
            visited.deep_view(),
        ),
        extends(visited.deep_view(), r.2.deep_view()),
    decreases unvisited(paths_of(sources@), visited.deep_view()), parent_items@, 0nat, 0nat,
{
    let ghost vv = visited.deep_view();
    assert(vv.take(vv.len() as int) =~= vv);
    let k = match find_mod(parent_items, mod_name) {
        Some(k) => k,
        None => {
            let ms = vec![unresolved(mod_path, "private")];
            let es = vec![orphan(mod_path)];
            assert(ms.deep_view() =~= seq![unresolved_module(mod_path@, "private"@)]);
            assert(es.deep_view() =~= seq![orphan_error(mod_path@)]);
            return (ms, es, visited);
        },
    };
    proof {
        lemma_first_mod(parent_items@, mod_name@);
    }
    match &parent_items[k] {
        SynItem::Mod { vis, content, .. } => {
            let visibility = match vis {
                Vis::Public => "pub",
                _ => "private",
            };
            match content {
                Some(inline) => {
                    proof {
                        lemma_inline_decreases(parent_items@, k as int);
                    }
                    process_module_items(
                        sources,
                        mod_path,
                        parent_file,
                        visibility,
                        inline,
                        visited,
                    )
                },
                None => {
                    match resolve_module_path(sources, parent_dir, mod_name) {
                        None => {
                            let ms = vec![unresolved(mod_path, visibility)];
                            let es = vec![orphan(mod_path)];
                            assert(ms.deep_view() =~= seq![unresolved_module(mod_path@, visibility@)]);
                            assert(es.deep_view() =~= seq![orphan_error(mod_path@)]);
                            (ms, es, visited)
                        },
                        Some(file_path) => {
                            if crate::text::vec_contains_text(&visited, file_path.as_str()) {
                                let ms: Vec<ModuleInfo> = Vec::new();
                                let es: Vec<ErrorEntry> = Vec::new();
                                assert(ms.deep_view() =~= Seq::<ModuleView>::empty());
                                assert(es.deep_view() =~= Seq::<ErrorEntryView>::empty());
                                return (ms, es, visited);
                            }
                            let mut visited = visited;
                            visited.push(file_path.clone());
                            assert(visited.deep_view() =~= vv.push(file_path@));
                            proof {
                                lemma_unvisited_visit(paths_of(sources@), vv, file_path@);
                            }
                            let errors = source_errors_of(sources, file_path.as_str());
                            let empty: Vec<SynItem> = Vec::new();
                            let items = match lookup_source(sources, file_path.as_str()) {
                                Some(e) => match &e.parsed {
                                    Ok(f) => &f.items,
                                    Err(_) => &empty,
                                },
                                None => &empty,
                            };
                            assert(items@ =~= source_items(sources@, file_path@));
                            let r = process_module_info(
                                sources,
                                mod_path,
                                file_path.as_str(),
                                visibility,
                                items,
                                errors,
                                &visited,
                            );
                            proof {
                                let v2 = vv.push(file_path@);
                                assert(v2.take(vv.len() as int) =~= vv);
                                assert(r.2.deep_view().take(vv.len() as int) =~= v2.take(
                                    vv.len() as int,
                                ));
                            }
                            r
                        },
                    }
                },
            }
        },
        _ => {
            let ms: Vec<ModuleInfo> = Vec::new();
            let es: Vec<ErrorEntry> = Vec::new();
            assert(ms.deep_view() =~= Seq::<ModuleView>::empty());
            assert(es.deep_view() =~= Seq::<ErrorEntryView>::empty());
            (ms, es, visited)
        },
    }
}

/// Walks the inline module `mod_path` of `file_path` with body `items`.
fn process_module_items(
    sources: &Vec<SourceEntry>,
    mod_path: &str,
    file_path: &str,
    visibility: &str,
    items: &Vec<SynItem>,
    visited: Vec<String>,
) -> (r: (Vec<ModuleInfo>, Vec<ErrorEntry>, Vec<String>))
    ensures
        (r.0.deep_view(), r.1.deep_view(), r.2.deep_view()) == module_info_spec(
            sources@,
            mod_path@,
            file_path@,
            visibility@,
            items@,
            Seq::empty(),
            visited.deep_view(),
        ),
        extends(visited.deep_view(), r.2.deep_view()),
    decreases unvisited(paths_of(sources@), visited.deep_view()), items@, 3nat, 0nat,
{
    let errors: Vec<ErrorEntry> = Vec::new();
    assert(errors.deep_view() =~= Seq::<ErrorEntryView>::empty());
    process_module_info(sources, mod_path, file_path, visibility, items, errors, &visited)
}

/// A copy of the texts `v`.
fn clone_texts(v: &Vec<String>) -> (r: Vec<String>)
    ensures
        r.deep_view() == v.deep_view(),
{
    let mut r: Vec<String> = Vec::new();
    let mut i: usize = 0;
    while i < v.len()
        invariant
            0 <= i <= v@.len(),
            r.deep_view() == v.deep_view().take(i as int),
        decreases v@.len() - i,
    {
        let ghost prev = r.deep_view();
        let c = v[i].clone();
        r.push(c);
        assert(r.deep_view() =~= prev.push(c@));
        assert(v.deep_view().take(i + 1) =~= v.deep_view().take(i as int).push(v@[i as int]@));
        i = i + 1;
    }
    assert(v.deep_view().take(v@.len() as int) =~= v.deep_view());
    r
}

/// Walks module `mod_path` in `file_path` with items `items`: its own
/// record, then its submodules.
fn process_module_info(
    sources: &Vec<SourceEntry>,
    mod_path: &str,
    file_path: &str,
    visibility: &str,
    items: &Vec<SynItem>,
    errors: Vec<ErrorEntry>,
    visited: &Vec<String>,
) -> (r: (Vec<ModuleInfo>, Vec<ErrorEntry>, Vec<String>))
    ensures
        (r.0.deep_view(), r.1.deep_view(), r.2.deep_view()) == module_info_spec(
            sources@,
            mod_path@,
            file_path@,
            visibility@,
            items@,
            errors.deep_view(),
            visited.deep_view(),
        ),
        extends(visited.deep_view(), r.2.deep_view()),
    decreases unvisited(paths_of(sources@), visited.deep_view()), items@, 2nat, 0nat,
{
    let ghost paths = paths_of(sources@);
    let ghost v0 = visited.deep_view();
    let info = file_info_of(items);
    let ghost iv = info.deep_view();
    let ghost subs = iv.submodules;
    let mut modules = vec![build_module_info(mod_path, file_path, visibility, &info)];
    let ghost e0 = errors.deep_view();
    let mut errors = errors;
    let mut seen = clone_texts(visited);
    assert(modules.deep_view() =~= seq![module_view(mod_path@, file_path@, visibility@, iv)]);
    let child_dir = dir_of_file(file_path);
    let mut i: usize = 0;
    assert(v0.take(v0.len() as int) =~= v0);
    while i < info.submodules.len()
        invariant
            iv == info.deep_view(),
            subs == iv.submodules,
            iv == file_info_spec(items@),
            child_dir@ == dir_of(file_path@),
            paths == paths_of(sources@),
            v0 == visited.deep_view(),
            0 <= i <= subs.len(),
            extends(v0, seen.deep_view()),
            children_spec(
                sources@,
                mod_path@,
                file_path@,
                subs,
                0,
                items@,
                (seq![module_view(mod_path@, file_path@, visibility@, iv)], e0, v0),
            ) == children_spec(
                sources@,
                mod_path@,
                file_path@,
                subs,
                i as int,
                items@,
                (modules.deep_view(), errors.deep_view(), seen.deep_view()),
            ),
        decreases subs.len() - i,
    {
        let sub = &info.submodules[i];
        assert(subs[i as int] == sub.deep_view());
        let ghost vb = seen.deep_view();
        let ghost mb = modules.deep_view();
        let ghost eb = errors.deep_view();
        if !sub.is_test {
            let child_path = join_path(mod_path, sub.name.as_str());
            proof {
                reveal_strlit("::");
                assert("::"@ =~= crate::text::sep());
                lemma_prefix_mono(paths, v0, vb);
            }
            let (mut cm, mut ce, cv) = process_submodule(
                sources,
                child_path.as_str(),
                sub.name.as_str(),
                items,
                child_dir.as_str(),
                file_path,
                seen,
            );
            proof {
                lemma_prefix_mono(paths, vb, cv.deep_view());
                assert(cv.deep_view().take(v0.len() as int) =~= cv.deep_view().take(
                    vb.len() as int,
                ).take(v0.len() as int));
            }
            let ghost cmv = cm.deep_view();
            let ghost cev = ce.deep_view();
            modules.append(&mut cm);
            errors.append(&mut ce);
            seen = cv;
            assert(modules.deep_view() =~= mb + cmv);
            assert(errors.deep_view() =~= eb + cev);
            assert(children_spec(sources@, mod_path@, file_path@, subs, i as int, items@, (mb, eb, vb))
                == children_spec(sources@, mod_path@, file_path@, subs, i + 1, items@, (mb + cmv, eb + cev, cv.deep_view())));
        } else {
            assert(children_spec(sources@, mod_path@, file_path@, subs, i as int, items@, (mb, eb, vb))
                == children_spec(sources@, mod_path@, file_path@, subs, i + 1, items@, (mb, eb, vb)));
        }
        i = i + 1;
    }
    assert(children_spec(sources@, mod_path@, file_path@, subs, i as int, items@, (modules.deep_view(), errors.deep_view(), seen.deep_view()))
        == (modules.deep_view(), errors.deep_view(), seen.deep_view()));
    (modules, errors, seen)
}

/// The module tree of the crate `crate_name` whose entry point is
/// `crate_root`, and the diagnostics met on the way (files that failed to
/// parse, modules declared but not found).
pub fn build_module_tree(sources: &Vec<SourceEntry>, crate_root: &str, crate_name: &str) -> (r: (
    Vec<ModuleInfo>,
    Vec<ErrorEntry>,
))
    ensures
        r.0.deep_view() == module_tree_spec(sources@, crate_root@, crate_name@).0,
        r.1.deep_view() == module_tree_spec(sources@, crate_root@, crate_name@).1,
{
    let mut visited: Vec<String> = Vec::new();
    visited.push(owned(crate_root));
    assert(visited.deep_view() =~= seq![crate_root@]);
    let errors = source_errors_of(sources, crate_root);
    let empty: Vec<SynItem> = Vec::new();
    let items = match lookup_source(sources, crate_root) {
        Some(e) => match &e.parsed {
            Ok(f) => &f.items,
            Err(_) => &empty,
        },
        None => &empty,
    };
    assert(items@ =~= source_items(sources@, crate_root@));
    let (modules, errors, _visited) = process_module_info(
        sources,
        crate_name,
        crate_root,
        "pub",
        items,
        errors,
        &visited,
    );
    (modules, errors)
}

// ── Laws ────────────────────────────────────────────────────────────────

proof fn lemma_children_prefix(
    sources: Seq<SourceEntry>,
    mod_path: Seq<char>,
    file_path: Seq<char>,
    subs: Seq<SubmoduleView>,
    k: int,
    items: Seq<SynItem>,
    acc: Walk,
)
    ensures
        ({
            let r = children_spec(sources, mod_path, file_path, subs, k, items, acc);
            &&& acc.0.len() <= r.0.len() && r.0.take(acc.0.len() as int) == acc.0
            &&& acc.1.len() <= r.1.len() && r.1.take(acc.1.len() as int) == acc.1
        }),
    decreases subs.len() - k,
{
    if k < 0 || k >= subs.len() {
        assert(acc.0.take(acc.0.len() as int) =~= acc.0);
        assert(acc.1.take(acc.1.len() as int) =~= acc.1);
    } else if subs[k].is_test {
        lemma_children_prefix(sources, mod_path, file_path, subs, k + 1, items, acc);
    } else {
        let r = submodule_spec(
            sources,
            mod_path + "::"@ + subs[k].name,
            subs[k].name,
            items,
            dir_of(file_path),
            file_path,
            acc.2,
        );
        let next = (acc.0 + r.0, acc.1 + r.1, r.2);
        assert(next.0.take(acc.0.len() as int) =~= acc.0);
        assert(next.1.take(acc.1.len() as int) =~= acc.1);
        if unvisited(paths_of(sources), r.2) > unvisited(paths_of(sources), acc.2) {
        } else {
            lemma_children_prefix(sources, mod_path, file_path, subs, k + 1, items, next);
            let res = children_spec(sources, mod_path, file_path, subs, k + 1, items, next);
            assert(res.0.take(acc.0.len() as int) =~= res.0.take(next.0.len() as int).take(
                acc.0.len() as int,
            ));
            assert(res.1.take(acc.1.len() as int) =~= res.1.take(next.1.len() as int).take(
                acc.1.len() as int,
            ));
        }
    }
}

/// The module tree of a crate starts with its root module: public, with
/// the crate's name as path, in the entry point's file, with what the map
/// reads of that file; and its diagnostics start with those of reading
/// the entry point.
pub proof fn law_tree_starts_at_root(
    sources: Seq<SourceEntry>,
    crate_root: Seq<char>,
    crate_name: Seq<char>,
)
    ensures
        module_tree_spec(sources, crate_root, crate_name).0.len() >= 1,
        module_tree_spec(sources, crate_root, crate_name).0[0] == module_view(
            crate_name,
            crate_root,
            "pub"@,
            file_info_spec(source_items(sources, crate_root)),
        ),
        module_tree_spec(sources, crate_root, crate_name).1.take(
            source_errors(sources, crate_root).len() as int,
        ) == source_errors(sources, crate_root),
{
    let items = source_items(sources, crate_root);
    let info = file_info_spec(items);
    let root = module_view(crate_name, crate_root, "pub"@, info);
    let acc = (seq![root], source_errors(sources, crate_root), seq![crate_root]);
    lemma_children_prefix(sources, crate_name, crate_root, info.submodules, 0, items, acc);
    let r = module_tree_spec(sources, crate_root, crate_name);
    assert(r.0.take(1)[0] == r.0[0]);
}

proof fn lemma_children_all_tests(
    sources: Seq<SourceEntry>,
    mod_path: Seq<char>,
    file_path: Seq<char>,
    subs: Seq<SubmoduleView>,
    k: int,
    items: Seq<SynItem>,
    acc: Walk,
)
    requires
        forall|i: int| 0 <= i < subs.len() ==> (#[trigger] subs[i]).is_test,
    ensures
        children_spec(sources, mod_path, file_path, subs, k, items, acc) == acc,
    decreases subs.len() - k,
{
    if 0 <= k < subs.len() {
        lemma_children_all_tests(sources, mod_path, file_path, subs, k + 1, items, acc);
    }
}

/// `#[cfg(test)]` modules are recorded but not walked: a module whose
/// `mod` declarations all carry `#[cfg(test)]` gives its own record alone,
/// which lists them among its submodules.
pub proof fn law_test_modules_not_walked(
    sources: Seq<SourceEntry>,
    mod_path: Seq<char>,
    file_path: Seq<char>,
    visibility: Seq<char>,
    items: Seq<SynItem>,
    errors: Seq<ErrorEntryView>,
    visited: Seq<Seq<char>>,
)
    requires
        forall|i: int|
            0 <= i < file_info_spec(items).submodules.len() ==> (#[trigger] file_info_spec(
                items,
            ).submodules[i]).is_test,
    ensures
        module_info_spec(sources, mod_path, file_path, visibility, items, errors, visited).0 == seq![
            module_view(mod_path, file_path, visibility, file_info_spec(items)),
        ],
        module_info_spec(sources, mod_path, file_path, visibility, items, errors, visited).1
            == errors,
        module_view(mod_path, file_path, visibility, file_info_spec(items)).submodules
            == file_info_spec(items).submodules.map_values(|s: SubmoduleView| s.name),
{
    let info = file_info_spec(items);
    lemma_children_all_tests(
        sources,
        mod_path,
        file_path,
        info.submodules,
        0,
        items,
        (seq![module_view(mod_path, file_path, visibility, info)], errors, visited),
    );
}

/// Every diagnostic of `es` reports a failure to parse or an orphaned
/// module.
pub open spec fn tree_diagnostics(es: Seq<ErrorEntryView>) -> bool {
    forall|i: int|
        0 <= i < es.len() ==> (#[trigger] es[i]).kind == DiagnosticKind::SynParseError || es[i].kind
            == DiagnosticKind::OrphanedModule
}

proof fn lemma_concat_tree_diagnostics(a: Seq<ErrorEntryView>, b: Seq<ErrorEntryView>)
    requires
        tree_diagnostics(a),
        tree_diagnostics(b),
    ensures
        tree_diagnostics(a + b),
{
    assert forall|i: int| 0 <= i < (a + b).len() implies (#[trigger] (a + b)[i]).kind
        == DiagnosticKind::SynParseError || (a + b)[i].kind == DiagnosticKind::OrphanedModule by {
        if i < a.len() {
            assert((a + b)[i] == a[i]);
        } else {
            assert((a + b)[i] == b[i - a.len()]);
        }
    }
}

proof fn lemma_sub_diagnostics(
    sources: Seq<SourceEntry>,
    mod_path: Seq<char>,
    mod_name: Seq<char>,
    parent_items: Seq<SynItem>,
    parent_dir: Seq<char>,
    parent_file: Seq<char>,
    visited: Seq<Seq<char>>,
)
    ensures
        tree_diagnostics(
            submodule_spec(sources, mod_path, mod_name, parent_items, parent_dir, parent_file, visited).1,
        ),
    decreases unvisited(paths_of(sources), visited), parent_items, 0nat, 0nat,
{
    match first_mod(parent_items, mod_name) {
        None => {},
        Some(k) => {
            lemma_first_mod(parent_items, mod_name);
            match parent_items[k] {
                SynItem::Mod { vis, content, .. } => {
                    let visibility = if vis is Public {
                        "pub"@
                    } else {
                        "private"@
                    };
                    match content {
                        Some(inline) => {
                            lemma_inline_decreases(parent_items, k);
                            lemma_info_diagnostics(
                                sources,
                                mod_path,
                                parent_file,
                                visibility,
                                inline@,
                                Seq::empty(),
                                visited,
                            );
                        },
                        None => match resolve_spec(sources, parent_dir, mod_name) {
                            None => {},
                            Some(fp) => if !visited.contains(fp) {
                                lemma_unvisited_visit(paths_of(sources), visited, fp);
                                lemma_info_diagnostics(
                                    sources,
                                    mod_path,
                                    fp,
                                    visibility,
                                    source_items(sources, fp),
                                    source_errors(sources, fp),
                                    visited.push(fp),
                                );
                            },
                        },
                    }
                },
                _ => {},
            }
        },
    }
}

proof fn lemma_info_diagnostics(
    sources: Seq<SourceEntry>,
    mod_path: Seq<char>,
    file_path: Seq<char>,
    visibility: Seq<char>,
    items: Seq<SynItem>,
    errors: Seq<ErrorEntryView>,
    visited: Seq<Seq<char>>,
)
    requires
        tree_diagnostics(errors),
    ensures
        tree_diagnostics(
            module_info_spec(sources, mod_path, file_path, visibility, items, errors, visited).1,
        ),
    decreases unvisited(paths_of(sources), visited), items, 2nat, 0nat,
{
    let info = file_info_spec(items);
    lemma_children_diagnostics(
        sources,
        mod_path,
        file_path,
        info.submodules,
        0,
        items,
        (seq![module_view(mod_path, file_path, visibility, info)], errors, visited),
    );
}

proof fn lemma_children_diagnostics(
    sources: Seq<SourceEntry>,
    mod_path: Seq<char>,
    file_path: Seq<char>,
    subs: Seq<SubmoduleView>,
    k: int,
    items: Seq<SynItem>,
    acc: Walk,
)
    requires
        tree_diagnostics(acc.1),
    ensures
        tree_diagnostics(children_spec(sources, mod_path, file_path, subs, k, items, acc).1),
    decreases unvisited(paths_of(sources), acc.2), items, 1nat, subs.len() - k,
{
    if k < 0 || k >= subs.len() {
    } else if subs[k].is_test {
        lemma_children_diagnostics(sources, mod_path, file_path, subs, k + 1, items, acc);
    } else {
        let r = submodule_spec(
            sources,
            mod_path + "::"@ + subs[k].name,
            subs[k].name,
            items,
            dir_of(file_path),
            file_path,
            acc.2,
        );
        lemma_sub_diagnostics(
            sources,
            mod_path + "::"@ + subs[k].name,
            subs[k].name,
            items,
            dir_of(file_path),
            file_path,
            acc.2,
        );
        lemma_concat_tree_diagnostics(acc.1, r.1);
        let next = (acc.0 + r.0, acc.1 + r.1, r.2);
        if unvisited(paths_of(sources), r.2) <= unvisited(paths_of(sources), acc.2) {
            lemma_children_diagnostics(sources, mod_path, file_path, subs, k + 1, items, next);
        }
    }
}

/// The diagnostics of a module tree report only files that failed to
/// parse and modules declared but not found.
pub proof fn law_tree_diagnostics(sources: Seq<SourceEntry>, crate_root: Seq<char>, crate_name: Seq<char>)
    ensures
        tree_diagnostics(module_tree_spec(sources, crate_root, crate_name).1),
{
    let se = source_errors(sources, crate_root);
    assert(tree_diagnostics(se));
    lemma_info_diagnostics(
        sources,
        crate_name,
        crate_root,
        "pub"@,
        source_items(sources, crate_root),
        se,
        seq![crate_root],
    );
}

} // verus!
