//! Validation of a workspace map: source files that no module declares
//! (orphan files) and `pub use` items whose target is not a known symbol
//! (dead re-exports).
use vstd::prelude::*;
use crate::indexes::unresolved_text;
use crate::ordered_map::{OrderedMap, TextKey};
use crate::paths::{file_name_of, find_last_slash, join, last_slash, parent_of, path_file_name, path_join,
    path_parent, relative_to, relativize_path};
use crate::schema::{CanonicalPath, CrateInfo, CrateView, DiagnosticKind, ErrorEntry,
    ErrorEntryView, ErrorSeverity, ModuleView, ReExportView, SymbolEntry, SymbolView};
use crate::text::{before_last_sep, before_last_sep_of, chars_of, last_segment, last_segment_of, concat, concat3, ends_with, first_segment,
    first_segment_of, has_sep, contains_sep, join_path, join_sep, owned, starts_with, str_eq,
    strip_prefix, substring, vec_contains_text};

verus! {

// ── Re-export resolution ────────────────────────────────────────────────

/// Whether the re-export of `p` in crate `c` targets an external crate: its
/// path is bare (no `self::`, `super::` or `crate::` prefix), has at least
/// two segments, and its first segment is not a top-level module of `c`.
pub open spec fn external_re_export(p: Seq<char>, c: CrateView) -> bool {
    &&& !"self::"@.is_prefix_of(p)
    &&& !"super::"@.is_prefix_of(p)
    &&& !"crate::"@.is_prefix_of(p)
    &&& has_sep(p)
    &&& !(exists|i: int|
        0 <= i < c.modules.len() && #[trigger] c.modules[i].path == join_sep(
            c.name,
            first_segment(p),
        ))
}

/// The path that `p`, written in module `mp` of crate `cn`, resolves to:
/// `crate::` names the crate, `self::` the module, `super::` the module's
/// parent (the crate, for a module with no parent); a bare path is taken
/// from the crate root.
pub open spec fn resolved_import(p: Seq<char>, cn: Seq<char>, mp: Seq<char>) -> Seq<char> {
    if "crate::"@.is_prefix_of(p) {
        join_sep(cn, p.skip("crate::"@.len() as int))
    } else if "self::"@.is_prefix_of(p) {
        join_sep(mp, p.skip("self::"@.len() as int))
    } else if "super::"@.is_prefix_of(p) {
        let parent = match before_last_sep(mp) {
            Some(q) => q,
            None => Seq::empty(),
        };
        if parent.len() == 0 {
            join_sep(cn, p.skip("super::"@.len() as int))
        } else {
            join_sep(parent, p.skip("super::"@.len() as int))
        }
    } else {
        join_sep(cn, p)
    }
}

/// Check whether an import path targets an external crate.
///
/// Returns `true` if the path points to a crate that is not a top-level
/// module of the current crate. Such re-exports are skipped during
/// dead-re-export checking because the symbol lives in an external crate's
/// public API (or in another workspace member).
pub fn is_external_crate_re_export(
    import_path: &str,
    crate_names: &Vec<String>,
    crate_info: &CrateInfo,
) -> (r: bool)
    ensures
        r == external_re_export(import_path@, crate_info.deep_view()),
{
    // `self::` and `super::` are always internal to the current crate.
    if starts_with(import_path, "self::") || starts_with(import_path, "super::") {
        return false;
    }
    // `crate::` is always internal to the current crate.
    if starts_with(import_path, "crate::") {
        return false;
    }
    // Bare path — check the first `::`-delimited segment.
    let first_seg = first_segment_of(import_path);
    // Single-segment bare path (no `::`) is treated as internal.
    if !contains_sep(import_path) {
        return false;
    }
    // Check if the first segment is a top-level module of the current crate.
    let top = join_path(crate_info.name.as_str(), first_seg.as_str());
    let ghost cv = crate_info.deep_view();
    let mut i: usize = 0;
    while i < crate_info.modules.len()
        invariant
            cv == crate_info.deep_view(),
            top@ == join_sep(cv.name, first_segment(import_path@)),
            0 <= i <= cv.modules.len(),
            forall|j: int| 0 <= j < i ==> cv.modules[j].path != top@,
        decreases cv.modules.len() - i,
    {
        assert(cv.modules[i as int] == crate_info.modules@[i as int].deep_view());
        if crate_info.modules[i].path == top {
            assert(cv.modules[i as int].path == join_sep(cv.name, first_segment(import_path@)));
            return false;
        }
        i = i + 1;
    }
    // Whether or not it names a workspace member, the path leaves the crate.
    true
}

/// Resolve an import path by expanding `crate::`, `self::` and `super::`
/// prefixes; a bare path is taken from the crate root.
pub fn resolve_import_path(path: &str, crate_name: &str, mod_path: &str) -> (r: String)
    ensures
        r@ == resolved_import(path@, crate_name@, mod_path@),
{
    if let Some(rest) = strip_prefix(path, "crate::") {
        join_path(crate_name, rest.as_str())
    } else if let Some(rest) = strip_prefix(path, "self::") {
        join_path(mod_path, rest.as_str())
    } else if let Some(rest) = strip_prefix(path, "super::") {
        let parent = match before_last_sep_of(mod_path) {
            Some(p) => p,
            None => String::new(),
        };
        if parent.as_str().is_empty() {
            join_path(crate_name, rest.as_str())
        } else {
            join_path(parent.as_str(), rest.as_str())
        }
    } else {
        join_path(crate_name, path)
    }
}

// ── Dead re-exports ─────────────────────────────────────────────────────

/// The path, in the module of `resolved`, of the name made of the first
/// `k` characters of the last segment of `resolved`.
pub open spec fn companion_base(resolved: Seq<char>, k: int) -> Seq<char> {
    let b = last_segment(resolved).take(k);
    match before_last_sep(resolved) {
        Some(q) => join_sep(q, b),
        None => b,
    }
}

/// `p` is a symbol with derived traits.
pub open spec fn has_derives(symbols: Map<Seq<char>, SymbolView>, p: Seq<char>) -> bool {
    symbols.contains_key(p) && symbols[p].derive_attrs.len() > 0
}

/// `resolved` may name a type that a derive generates: some shorter,
/// non-empty prefix of its last segment names a symbol of the same module
/// with derived traits (`FooBuilder` next to a `Foo` with derives).
#[verifier::opaque]
pub open spec fn derive_companion(resolved: Seq<char>, symbols: Map<Seq<char>, SymbolView>) -> bool {
    exists|k: int|
        0 < k < last_segment(resolved).len() && #[trigger] has_derives(
            symbols,
            companion_base(resolved, k),
        )
}

/// Whether re-export `re` of module `m` of crate `c` is dead: it is not a
/// glob, does not target an external crate or another workspace member
/// (`names` are the crates' names), resolves to a path that the symbols
/// index lacks, and is not a derive companion.
pub open spec fn dead_re_export(
    re: ReExportView,
    c: CrateView,
    m: ModuleView,
    names: Seq<Seq<char>>,
    symbols: Map<Seq<char>, SymbolView>,
) -> bool {
    let resolved = resolved_import(re.import_path, c.name, m.path);
    let f = first_segment(resolved);
    &&& !"::*"@.is_suffix_of(re.import_path)
    &&& !external_re_export(re.import_path, c)
    &&& !(names.contains(f) && f != c.name)
    &&& !symbols.contains_key(resolved)
    &&& !derive_companion(resolved, symbols)
}

/// The diagnostic for the dead re-export `re` of module `m`.
pub open spec fn dead_entry(m: ModuleView, re: ReExportView) -> ErrorEntryView {
    ErrorEntryView {
        file: m.file,
        line: re.line,
        message: "dead re-export: '"@ + re.export_path + "' resolves to '"@ + re.import_path
            + "' which is not found in the symbol index. Remove or fix the 'pub use' statement."@,
        severity: ErrorSeverity::Warning,
        kind: DiagnosticKind::DeadReExport,
        context: None,
        cause: None,
    }
}

/// Checking one re-export of module `m` of crate `c`.
pub open spec fn dead_step(
    c: CrateView,
    m: ModuleView,
    names: Seq<Seq<char>>,
    symbols: Map<Seq<char>, SymbolView>,
) -> spec_fn(Seq<ErrorEntryView>, ReExportView) -> Seq<ErrorEntryView> {
    |acc: Seq<ErrorEntryView>, re: ReExportView|
        if dead_re_export(re, c, m, names, symbols) {
            acc.push(dead_entry(m, re))
        } else {
            acc
        }
}

/// Checking the re-exports of one module of crate `c`.
pub open spec fn dead_module_step(
    c: CrateView,
    names: Seq<Seq<char>>,
    symbols: Map<Seq<char>, SymbolView>,
) -> spec_fn(Seq<ErrorEntryView>, ModuleView) -> Seq<ErrorEntryView> {
    |acc: Seq<ErrorEntryView>, m: ModuleView|
        m.re_exports.fold_left(acc, dead_step(c, m, names, symbols))
}

/// The dead re-exports of crate `c`, module by module, in order.
pub open spec fn dead_re_exports_of(
    c: CrateView,
    names: Seq<Seq<char>>,
    symbols: Map<Seq<char>, SymbolView>,
) -> Seq<ErrorEntryView> {
    c.modules.fold_left(Seq::empty(), dead_module_step(c, names, symbols))
}

// ── Orphan files ────────────────────────────────────────────────────────

/// The directory of a crate root file `root`, as text (empty when `root`
/// has no parent).
pub open spec fn root_dir_text(root: Seq<char>) -> Seq<char> {
    match path_parent(root) {
        Some(d) => d,
        None => Seq::empty(),
    }
}

/// The module file to which the fix hint for `orphan` (a workspace-relative
/// path) in crate `cn` with root file `root` points: the crate root for a
/// file directly in the source directory, else the `mod.rs` of the file's
/// directory.
pub open spec fn orphan_parent_file(orphan: Seq<char>, cn: Seq<char>, root: Seq<char>) -> Seq<char> {
    let src_prefix = root_dir_text(root) + "/"@;
    let stripped = if src_prefix.is_prefix_of(orphan) {
        orphan.skip(src_prefix.len() as int)
    } else {
        orphan
    };
    match last_slash(stripped) {
        Some(i) => if i == 0 {
            cn + "/"@ + src_prefix + "lib.rs"@
        } else {
            cn + "/"@ + src_prefix + stripped.take(i) + "/mod.rs"@
        },
        None => cn + "/"@ + src_prefix + "lib.rs"@,
    }
}

/// Determine the parent file for an orphan file's fix hint.
pub fn determine_parent_file(orphan_file: &str, crate_name: &str, crate_info: &CrateInfo) -> (r:
    String)
    ensures
        r@ == orphan_parent_file(orphan_file@, crate_name@, crate_info.root@),
{
    let src_dir = match parent_of(crate_info.root.as_str()) {
        Some(d) => d,
        None => String::new(),
    };
    let src_prefix = concat(src_dir.as_str(), "/");
    let stripped = match strip_prefix(orphan_file, src_prefix.as_str()) {
        Some(s) => s,
        None => owned(orphan_file),
    };
    let cs = chars_of(stripped.as_str());
    let prefix = concat3(crate_name, "/", src_prefix.as_str());
    match find_last_slash(&cs) {
        Some(i) => {
            if i == 0 {
                concat(prefix.as_str(), "lib.rs")
            } else {
                let dir = substring(&cs, 0, i);
                assert(dir@ =~= stripped@.take(i as int));
                concat3(prefix.as_str(), dir.as_str(), "/mod.rs")
            }
        },
        None => concat(prefix.as_str(), "lib.rs"),
    }
}

/// A directory name that the source walk does not enter: hidden, `bin` or
/// `tests`.
pub open spec fn skipped_dir_name(n: Seq<char>) -> bool {
    (n.len() > 0 && n[0] == '.') || n == "bin"@ || n == "tests"@
}

/// The `/`-separated components of `p`.
pub open spec fn components(p: Seq<char>) -> Seq<Seq<char>>
    decreases p.len(),
{
    match last_slash(p) {
        None => seq![p],
        Some(i) => if 0 <= i < p.len() {
            components(p.take(i)).push(p.skip(i + 1))
        } else {
            seq![p]
        },
    }
}

/// Whether a file at `rel`, relative to the walked directory, lies in a
/// directory that the walk does not enter.
pub open spec fn in_skipped_dir(rel: Seq<char>) -> bool {
    let cs = components(rel);
    exists|i: int| 0 <= i < cs.len() - 1 && skipped_dir_name(#[trigger] cs[i])
}

/// Whether a file name names a Rust source file (extension `rs`).
pub open spec fn is_rs_file_name(n: Seq<char>) -> bool {
    ".rs"@.is_suffix_of(n) && n.len() > 3
}

/// Whether a file name is one that is declared implicitly.
pub open spec fn implicit_file_name(n: Seq<char>) -> bool {
    n == "lib.rs"@ || n == "main.rs"@ || n == "mod.rs"@
}

/// The source directory that is walked for crate `c`.
pub open spec fn source_dir_of(c: CrateView, ws_root: Seq<char>) -> Seq<char> {
    match path_parent(path_join(ws_root, c.root)) {
        Some(d) => d,
        None => ws_root,
    }
}

/// Whether some resolved module of `c` lives in file `f`.
pub open spec fn declared_file(c: CrateView, f: Seq<char>) -> bool {
    exists|i: int|
        0 <= i < c.modules.len() && #[trigger] c.modules[i].file == f && f != unresolved_text()
}

/// The diagnostic for the walked file at `path` of crate `c`, if it is an
/// orphan file.
pub open spec fn orphan_entry(c: CrateView, ws_root: Seq<char>, path: Seq<char>) -> Option<
    ErrorEntryView,
> {
    let name = path_file_name(path);
    let rel = relative_to(path, source_dir_of(c, ws_root));
    let ws_rel = relative_to(path, ws_root);
    if in_skipped_dir(rel) || !is_rs_file_name(name) || implicit_file_name(name) || declared_file(
        c,
        ws_rel,
    ) {
        None
    } else {
        let stem = name.take(name.len() - 3);
        Some(
            ErrorEntryView {
                file: ws_rel,
                line: 0,
                message: "orphan file: '"@ + name
                    + "' is not declared in the module tree. Add 'pub mod "@ + stem + ";' to "@
                    + orphan_parent_file(ws_rel, c.name, c.root) + "."@,
                severity: ErrorSeverity::Warning,
                kind: DiagnosticKind::OrphanFile,
                context: None,
                cause: None,
            },
        )
    }
}

/// Checking one walked file of crate `c`.
pub open spec fn orphan_step(c: CrateView, ws_root: Seq<char>) -> spec_fn(
    Seq<ErrorEntryView>,
    Seq<char>,
) -> Seq<ErrorEntryView> {
    |acc: Seq<ErrorEntryView>, p: Seq<char>|
        match orphan_entry(c, ws_root, p) {
            Some(e) => acc.push(e),
            None => acc,
        }
}

/// The orphan files among the files walked for crate `c`, in walk order.
pub open spec fn orphans_of(c: CrateView, ws_root: Seq<char>, walked: Seq<Seq<char>>) -> Seq<
    ErrorEntryView,
> {
    walked.fold_left(Seq::empty(), orphan_step(c, ws_root))
}

// ── Implementation ──────────────────────────────────────────────────────

proof fn lemma_fold_step<A, B>(s: Seq<A>, i: int, b: B, f: spec_fn(B, A) -> B)
    requires
        0 <= i < s.len(),
    ensures
        s.take(i + 1).fold_left(b, f) == f(s.take(i).fold_left(b, f), s[i]),
{
    assert(s.take(i + 1).drop_last() =~= s.take(i));
}

/// The `/`-separated components of `p`.
fn components_of(p: &str) -> (r: Vec<String>)
    ensures
        r.deep_view() == components(p@),
    decreases p@.len(),
{
    let cs = chars_of(p);
    match find_last_slash(&cs) {
        None => {
            let mut r: Vec<String> = Vec::new();
            r.push(owned(p));
            assert(r.deep_view() =~= seq![p@]);
            r
        },
        Some(i) => {
            let head = substring(&cs, 0, i);
            let tail = substring(&cs, i + 1, cs.len());
            assert(head@ =~= p@.take(i as int));
            assert(tail@ =~= p@.skip(i + 1));
            let mut r = components_of(head.as_str());
            let ghost prev = r.deep_view();
            r.push(tail);
            assert(r.deep_view() =~= prev.push(tail@));
            r
        },
    }
}

/// Whether a walked file at `rel` lies in a directory that is not walked.
fn in_skipped_dir_exec(rel: &str) -> (r: bool)
    ensures
        r == in_skipped_dir(rel@),
{
    let cs = components_of(rel);
    let ghost cv = cs.deep_view();
    let mut i: usize = 0;
    while cs.len() > 0 && i < cs.len() - 1
        invariant
            cv == cs.deep_view(),
            cv == components(rel@),
            0 <= i,
            i <= cv.len(),
            forall|j: int| 0 <= j < i ==> !skipped_dir_name(#[trigger] cv[j]),
        decreases cv.len() - i,
    {
        let n = &cs[i];
        assert(cv[i as int] == n@);
        let hidden = match chars_of(n.as_str()).first() {
            Some(c) => *c == '.',
            None => false,
        };
        if hidden || str_eq(n.as_str(), "bin") || str_eq(n.as_str(), "tests") {
            return true;
        }
        i = i + 1;
    }
    proof {
        assert forall|j: int| 0 <= j < cv.len() - 1 implies !skipped_dir_name(#[trigger] cv[j]) by {
        }
    }
    false
}

/// Whether some resolved module of `c` lives in file `f`.
fn is_declared_file(c: &CrateInfo, f: &String) -> (r: bool)
    ensures
        r == declared_file(c.deep_view(), f@),
{
    let ghost cv = c.deep_view();
    if str_eq(f.as_str(), "<unresolved>") {
        proof {
            reveal_strlit("<unresolved>");
            assert("<unresolved>"@ =~= unresolved_text());
        }
        return false;
    }
    proof {
        reveal_strlit("<unresolved>");
        assert("<unresolved>"@ =~= unresolved_text());
    }
    let mut i: usize = 0;
    while i < c.modules.len()
        invariant
            cv == c.deep_view(),
            f@ != unresolved_text(),
            0 <= i <= cv.modules.len(),
            forall|j: int| 0 <= j < i ==> cv.modules[j].file != f@,
        decreases cv.modules.len() - i,
    {
        assert(cv.modules[i as int] == c.modules@[i as int].deep_view());
        if c.modules[i].file == *f {
            assert(cv.modules[i as int].file == f@);
            return true;
        }
        i = i + 1;
    }
    false
}

/// The source directory that is walked for crate `crate_info`: the
/// directory of its root file.
pub fn source_dir(crate_info: &CrateInfo, workspace_root: &str) -> (r: String)
    ensures
        r@ == source_dir_of(crate_info.deep_view(), workspace_root@),
{
    let root_path = join(workspace_root, crate_info.root.as_str());
    match parent_of(root_path.as_str()) {
        Some(d) => d,
        None => owned(workspace_root),
    }
}

/// The diagnostic for the walked file at `path` of `crate_info`, if it is
/// an orphan file.
fn orphan_file_entry(crate_info: &CrateInfo, workspace_root: &str, src_dir: &String, path: &str) -> (r:
    Option<ErrorEntry>)
    requires
        src_dir@ == source_dir_of(crate_info.deep_view(), workspace_root@),
    ensures
        r.deep_view() == orphan_entry(crate_info.deep_view(), workspace_root@, path@),
{
    let name = file_name_of(path);
    let rel = relativize_path(path, src_dir.as_str());
    if in_skipped_dir_exec(rel.as_str()) {
        return None;
    }
    if !(ends_with(name.as_str(), ".rs") && chars_of(name.as_str()).len() > 3) {
        return None;
    }
    if str_eq(name.as_str(), "lib.rs") || str_eq(name.as_str(), "main.rs") || str_eq(
        name.as_str(),
        "mod.rs",
    ) {
        return None;
    }
    let ws_rel = relativize_path(path, workspace_root);
    if is_declared_file(crate_info, &ws_rel) {
        return None;
    }
    let nc = chars_of(name.as_str());
    let stem = substring(&nc, 0, nc.len() - 3);
    let parent_file = determine_parent_file(ws_rel.as_str(), crate_info.name.as_str(), crate_info);
    let mut message = owned("orphan file: '");
    message.append(name.as_str());
    message.append("' is not declared in the module tree. Add 'pub mod ");
    message.append(stem.as_str());
    message.append(";' to ");
    message.append(parent_file.as_str());
    message.append(".");
    Some(
        ErrorEntry {
            file: ws_rel,
            line: 0,
            message,
            severity: ErrorSeverity::Warning,
            kind: DiagnosticKind::OrphanFile,
            context: None,
            cause: None,
        },
    )
}

/// Find `.rs` files that the walk of the crate's source directory found
/// (`walked`, in walk order) but that no module of the crate declares.
pub fn check_orphan_files(crate_info: &CrateInfo, workspace_root: &str, walked: &Vec<String>) -> (r:
    Vec<ErrorEntry>)
    ensures
        r.deep_view() == orphans_of(crate_info.deep_view(), workspace_root@, walked.deep_view()),
{
    let ghost cv = crate_info.deep_view();
    let ghost ws = walked.deep_view();
    let src_dir = source_dir(crate_info, workspace_root);
    let mut findings: Vec<ErrorEntry> = Vec::new();
    let mut i: usize = 0;
    assert(ws.take(0) =~= Seq::<Seq<char>>::empty());
    while i < walked.len()
        invariant
            cv == crate_info.deep_view(),
            ws == walked.deep_view(),
            src_dir@ == source_dir_of(cv, workspace_root@),
            0 <= i <= ws.len(),
            findings.deep_view() == ws.take(i as int).fold_left(
                Seq::empty(),
                orphan_step(cv, workspace_root@),
            ),
        decreases ws.len() - i,
    {
        proof {
            lemma_fold_step(ws, i as int, Seq::empty(), orphan_step(cv, workspace_root@));
        }
        assert(ws[i as int] == walked@[i as int]@);
        let ghost prev = findings.deep_view();
        match orphan_file_entry(crate_info, workspace_root, &src_dir, walked[i].as_str()) {
            Some(e) => {
                findings.push(e);
                assert(findings.deep_view() =~= prev.push(e.deep_view()));
            },
            None => {},
        }
        i = i + 1;
    }
    assert(ws.take(ws.len() as int) =~= ws);
    findings
}

/// Whether `resolved` is a derive companion: tries the prefixes of its
/// last segment, longest first, for a symbol of the same module with
/// derived traits.
fn is_derive_companion(resolved: &str, symbols: &OrderedMap<CanonicalPath, SymbolEntry>) -> (r: bool)
    ensures
        r == derive_companion(resolved@, symbols@),
{
    proof {
        reveal(derive_companion);
    }
    let name = last_segment_of(resolved);
    let cs = chars_of(name.as_str());
    let module = before_last_sep_of(resolved);
    let mut k: usize = cs.len();
    while k > 1
        invariant
            cs@ == last_segment(resolved@),
            module is Some <==> before_last_sep(resolved@) is Some,
            module matches Some(q) ==> q@ == before_last_sep(resolved@)->0,
            k <= cs@.len(),
            forall|j: int|
                k <= j < cs@.len() && 0 < j ==> !#[trigger] has_derives(
                    symbols@,
                    companion_base(resolved@, j),
                ),
        decreases k,
    {
        k = k - 1;
        let base = substring(&cs, 0, k);
        let path = match &module {
            Some(q) => join_path(q.as_str(), base.as_str()),
            None => base,
        };
        assert(cs@.subrange(0, k as int) =~= cs@.take(k as int));
        assert(path@ == companion_base(resolved@, k as int));
        match symbols.get(&path) {
            Some(e) => {
                if e.derive_attrs.len() > 0 {
                    assert(has_derives(symbols@, companion_base(resolved@, k as int)));
                    assert(0 < k < last_segment(resolved@).len());
                    assert(derive_companion(resolved@, symbols@)) by {
                        reveal(derive_companion);
                    }
                    return true;
                }
            },
            None => {},
        }
    }
    false
}

/// Find `pub use` re-exports of `crate_info` whose targets the symbols
/// index lacks; `crate_names` are the names of the workspace's crates.
pub fn check_dead_reexports(
    crate_info: &CrateInfo,
    symbols: &OrderedMap<CanonicalPath, SymbolEntry>,
    crate_names: &Vec<String>,
) -> (r: Vec<ErrorEntry>)
    ensures
        r.deep_view() == dead_re_exports_of(
            crate_info.deep_view(),
            crate_names.deep_view(),
            symbols@,
        ),
{
    let ghost cv = crate_info.deep_view();
    let ghost names = crate_names.deep_view();
    let ghost ms = cv.modules;
    let mut findings: Vec<ErrorEntry> = Vec::new();
    let mut mi: usize = 0;
    assert(ms.take(0) =~= Seq::<ModuleView>::empty());
    while mi < crate_info.modules.len()
        invariant
            cv == crate_info.deep_view(),
            names == crate_names.deep_view(),
            ms == cv.modules,
            0 <= mi <= ms.len(),
            findings.deep_view() == ms.take(mi as int).fold_left(
                Seq::empty(),
                dead_module_step(cv, names, symbols@),
            ),
        decreases ms.len() - mi,
    {
        proof {
            lemma_fold_step(ms, mi as int, Seq::empty(), dead_module_step(cv, names, symbols@));
        }
        let module = &crate_info.modules[mi];
        let ghost mv = module.deep_view();
        assert(ms[mi as int] == mv);
        let ghost res = mv.re_exports;
        let ghost f0 = findings.deep_view();
        let mut k: usize = 0;
        assert(res.take(0) =~= Seq::<ReExportView>::empty());
        while k < module.re_exports.len()
            invariant
                cv == crate_info.deep_view(),
                names == crate_names.deep_view(),
                mv == module.deep_view(),
                res == mv.re_exports,
                0 <= k <= res.len(),
                findings.deep_view() == res.take(k as int).fold_left(
                    f0,
                    dead_step(cv, mv, names, symbols@),
                ),
            decreases res.len() - k,
        {
            proof {
                lemma_fold_step(res, k as int, f0, dead_step(cv, mv, names, symbols@));
            }
            let re_export = &module.re_exports[k];
            assert(res[k as int] == re_export.deep_view());
            let path = re_export.import_path.as_str();
            let skip = if ends_with(path, "::*") {
                true
            } else if is_external_crate_re_export(path, crate_names, crate_info) {
                true
            } else {
                let resolved = resolve_import_path(
                    path,
                    crate_info.name.as_str(),
                    module.path.as_str(),
                );
                let first_seg = first_segment_of(resolved.as_str());
                if vec_contains_text(crate_names, first_seg.as_str()) && first_seg
                    != crate_info.name {
                    true
                } else if symbols.contains_key(&resolved) {
                    true
                } else if is_derive_companion(resolved.as_str(), symbols) {
                    true
                } else {
                    let ghost prev = findings.deep_view();
                    let mut message = owned("dead re-export: '");
                    message.append(re_export.export_path.as_str());
                    message.append("' resolves to '");
                    message.append(path);
                    message.append(
                        "' which is not found in the symbol index. Remove or fix the 'pub use' statement.",
                    );
                    let entry = ErrorEntry {
                        file: module.file.clone(),
                        line: re_export.line,
                        message,
                        severity: ErrorSeverity::Warning,
                        kind: DiagnosticKind::DeadReExport,
                        context: None,
                        cause: None,
                    };
                    findings.push(entry);
                    assert(findings.deep_view() =~= prev.push(dead_entry(mv, res[k as int])));
                    false
                }
            };
            k = k + 1;
        }
        assert(res.take(res.len() as int) =~= res);
        mi = mi + 1;
    }
    assert(ms.take(ms.len() as int) =~= ms);
    findings
}

/// The validation findings of crate `c`: its orphan files, then its dead
/// re-exports.
pub open spec fn crate_findings(
    c: CrateView,
    ws_root: Seq<char>,
    walked: Seq<Seq<char>>,
    names: Seq<Seq<char>>,
    symbols: Map<Seq<char>, SymbolView>,
) -> Seq<ErrorEntryView> {
    orphans_of(c, ws_root, walked) + dead_re_exports_of(c, names, symbols)
}

/// The files walked for the crate at index `i`: none when `walked` has no
/// list for it.
pub open spec fn walked_for(walked: Seq<Seq<Seq<char>>>, i: int) -> Seq<Seq<char>> {
    if 0 <= i < walked.len() {
        walked[i]
    } else {
        Seq::empty()
    }
}

/// The findings of the crates at indexes below `n`, in order.
pub open spec fn findings_upto(
    crates: Seq<CrateView>,
    ws_root: Seq<char>,
    walked: Seq<Seq<Seq<char>>>,
    symbols: Map<Seq<char>, SymbolView>,
    n: int,
) -> Seq<ErrorEntryView>
    decreases n,
{
    if n <= 0 {
        Seq::empty()
    } else {
        findings_upto(crates, ws_root, walked, symbols, n - 1) + crate_findings(
            crates[n - 1],
            ws_root,
            walked_for(walked, n - 1),
            crates.map_values(|c: CrateView| c.name),
            symbols,
        )
    }
}

/// Run validation checks on the crate set.
///
/// Checks performed, crate by crate:
/// - **Orphan files**: `.rs` files that the walk of the crate's source
///   directory found (`walked[i]` for crate `i`) but that no module declares
/// - **Dead re-exports**: `pub use` to symbols not found in the symbol index
///
/// Returns the findings (severity: Warning).
pub fn validate(
    crates: &Vec<CrateInfo>,
    symbols: &OrderedMap<CanonicalPath, SymbolEntry>,
    workspace_root: &str,
    walked: &Vec<Vec<String>>,
) -> (r: Vec<ErrorEntry>)
    ensures
        r.deep_view() == findings_upto(
            crates.deep_view(),
            workspace_root@,
            walked.deep_view(),
            symbols@,
            crates@.len() as int,
        ),
{
    let ghost cs = crates.deep_view();
    let mut crate_names: Vec<String> = Vec::new();
    let mut i: usize = 0;
    while i < crates.len()
        invariant
            cs == crates.deep_view(),
            0 <= i <= cs.len(),
            crate_names.deep_view() == cs.take(i as int).map_values(|c: CrateView| c.name),
        decreases cs.len() - i,
    {
        let ghost prev = crate_names.deep_view();
        let name = crates[i].name.clone();
        assert(name@ == cs[i as int].name);
        crate_names.push(name);
        assert(crate_names.deep_view() =~= prev.push(name@));
        assert(crate_names.deep_view() =~= cs.take(i + 1).map_values(|c: CrateView| c.name));
        i = i + 1;
    }
    assert(cs.take(cs.len() as int) =~= cs);
    let mut findings: Vec<ErrorEntry> = Vec::new();
    let empty: Vec<String> = Vec::new();
    let mut i: usize = 0;
    while i < crates.len()
        invariant
            cs == crates.deep_view(),
            crate_names.deep_view() == cs.map_values(|c: CrateView| c.name),
            empty@.len() == 0,
            0 <= i <= cs.len(),
            findings.deep_view() == findings_upto(
                cs,
                workspace_root@,
                walked.deep_view(),
                symbols@,
                i as int,
            ),
        decreases cs.len() - i,
    {
        let files = if i < walked.len() {
            &walked[i]
        } else {
            &empty
        };
        assert(files.deep_view() == walked_for(walked.deep_view(), i as int)) by {
            if i >= walked.len() {
                assert(files.deep_view() =~= Seq::<Seq<char>>::empty());
            }
        }
        assert(cs[i as int] == crates@[i as int].deep_view());
        let orphans = check_orphan_files(&crates[i], workspace_root, files);
        let dead = check_dead_reexports(&crates[i], symbols, &crate_names);
        let ghost prev = findings.deep_view();
        let mut k: usize = 0;
        while k < orphans.len()
            invariant
                0 <= k <= orphans@.len(),
                findings.deep_view() == prev + orphans.deep_view().take(k as int),
            decreases orphans@.len() - k,
        {
            let ghost before = findings.deep_view();
            let e = orphans[k].clone();
            findings.push(e);
            assert(findings.deep_view() =~= before.push(e.deep_view()));
            assert(orphans.deep_view().take(k + 1) =~= orphans.deep_view().take(k as int).push(
                orphans@[k as int].deep_view(),
            ));
            assert(findings.deep_view() =~= prev + orphans.deep_view().take(k + 1));
            k = k + 1;
        }
        assert(orphans.deep_view().take(orphans@.len() as int) =~= orphans.deep_view());
        let ghost mid = findings.deep_view();
        let mut k: usize = 0;
        while k < dead.len()
            invariant
                0 <= k <= dead@.len(),
                findings.deep_view() == mid + dead.deep_view().take(k as int),
            decreases dead@.len() - k,
        {
            let ghost before = findings.deep_view();
            let e = dead[k].clone();
            findings.push(e);
            assert(findings.deep_view() =~= before.push(e.deep_view()));
            assert(dead.deep_view().take(k + 1) =~= dead.deep_view().take(k as int).push(
                dead@[k as int].deep_view(),
            ));
            assert(findings.deep_view() =~= mid + dead.deep_view().take(k + 1));
            k = k + 1;
        }
        assert(dead.deep_view().take(dead@.len() as int) =~= dead.deep_view());
        assert(findings.deep_view() =~= prev + (orphans.deep_view() + dead.deep_view()));
        i = i + 1;
    }
    findings
}

// ── Laws ────────────────────────────────────────────────────────────────

/// Every entry of `es` is a warning of an orphan file or a dead re-export.
pub open spec fn all_validation_warnings(es: Seq<ErrorEntryView>) -> bool {
    forall|i: int|
        0 <= i < es.len() ==> (#[trigger] es[i]).severity == ErrorSeverity::Warning && (es[i].kind
            == DiagnosticKind::OrphanFile || es[i].kind == DiagnosticKind::DeadReExport)
}

proof fn lemma_push_warning(es: Seq<ErrorEntryView>, e: ErrorEntryView)
    requires
        all_validation_warnings(es),
        e.severity == ErrorSeverity::Warning,
        e.kind == DiagnosticKind::OrphanFile || e.kind == DiagnosticKind::DeadReExport,
    ensures
        all_validation_warnings(es.push(e)),
{
    assert forall|i: int| 0 <= i < es.push(e).len() implies (#[trigger] es.push(e)[i]).severity
        == ErrorSeverity::Warning && (es.push(e)[i].kind == DiagnosticKind::OrphanFile || es.push(
        e,
    )[i].kind == DiagnosticKind::DeadReExport) by {
        if i < es.len() {
            assert(es.push(e)[i] == es[i]);
        }
    }
}

proof fn lemma_orphans_warn(c: CrateView, ws_root: Seq<char>, walked: Seq<Seq<char>>)
    ensures
        all_validation_warnings(walked.fold_left(Seq::empty(), orphan_step(c, ws_root))),
    decreases walked.len(),
{
    if walked.len() > 0 {
        lemma_orphans_warn(c, ws_root, walked.drop_last());
        let acc = walked.drop_last().fold_left(Seq::empty(), orphan_step(c, ws_root));
        match orphan_entry(c, ws_root, walked.last()) {
            Some(e) => lemma_push_warning(acc, e),
            None => {},
        }
    }
}

proof fn lemma_dead_module_warn(
    res: Seq<ReExportView>,
    acc: Seq<ErrorEntryView>,
    c: CrateView,
    m: ModuleView,
    names: Seq<Seq<char>>,
    symbols: Map<Seq<char>, SymbolView>,
)
    requires
        all_validation_warnings(acc),
    ensures
        all_validation_warnings(res.fold_left(acc, dead_step(c, m, names, symbols))),
    decreases res.len(),
{
    if res.len() > 0 {
        lemma_dead_module_warn(res.drop_last(), acc, c, m, names, symbols);
        let a = res.drop_last().fold_left(acc, dead_step(c, m, names, symbols));
        if dead_re_export(res.last(), c, m, names, symbols) {
            lemma_push_warning(a, dead_entry(m, res.last()));
        }
    }
}

proof fn lemma_dead_warn(
    ms: Seq<ModuleView>,
    c: CrateView,
    names: Seq<Seq<char>>,
    symbols: Map<Seq<char>, SymbolView>,
)
    ensures
        all_validation_warnings(ms.fold_left(Seq::empty(), dead_module_step(c, names, symbols))),
    decreases ms.len(),
{
    if ms.len() > 0 {
        lemma_dead_warn(ms.drop_last(), c, names, symbols);
        let m = ms.last();
        lemma_dead_module_warn(
            m.re_exports,
            ms.drop_last().fold_left(Seq::empty(), dead_module_step(c, names, symbols)),
            c,
            m,
            names,
            symbols,
        );
    }
}

/// Validation only ever warns: every finding is a warning, of an orphan
/// file or of a dead re-export.
pub proof fn law_findings_are_warnings(
    crates: Seq<CrateView>,
    ws_root: Seq<char>,
    walked: Seq<Seq<Seq<char>>>,
    symbols: Map<Seq<char>, SymbolView>,
    n: int,
)
    ensures
        all_validation_warnings(findings_upto(crates, ws_root, walked, symbols, n)),
    decreases n,
{
    if n > 0 {
        law_findings_are_warnings(crates, ws_root, walked, symbols, n - 1);
        let c = crates[n - 1];
        let names = crates.map_values(|c: CrateView| c.name);
        lemma_orphans_warn(c, ws_root, walked_for(walked, n - 1));
        lemma_dead_warn(c.modules, c, names, symbols);
        let a = findings_upto(crates, ws_root, walked, symbols, n - 1);
        let b = crate_findings(c, ws_root, walked_for(walked, n - 1), names, symbols);
        assert forall|i: int| 0 <= i < (a + b).len() implies (#[trigger] (a + b)[i]).severity
            == ErrorSeverity::Warning && ((a + b)[i].kind == DiagnosticKind::OrphanFile || (a
            + b)[i].kind == DiagnosticKind::DeadReExport) by {
            if i < a.len() {
                assert((a + b)[i] == a[i]);
            } else {
                let o = orphans_of(c, ws_root, walked_for(walked, n - 1));
                let d = dead_re_exports_of(c, names, symbols);
                assert(b == o + d);
                assert((a + b)[i] == b[i - a.len()]);
                if i - a.len() < o.len() {
                    assert(b[i - a.len()] == o[i - a.len()]);
                } else {
                    assert(b[i - a.len()] == d[i - a.len() - o.len()]);
                }
            }
        }
    }
}

/// The dead re-exports of module `m` of crate `c`, in order, each as its
/// diagnostic.
pub open spec fn module_dead_entries(
    c: CrateView,
    m: ModuleView,
    names: Seq<Seq<char>>,
    symbols: Map<Seq<char>, SymbolView>,
) -> Seq<ErrorEntryView> {
    m.re_exports.filter(|re: ReExportView| dead_re_export(re, c, m, names, symbols)).map_values(
        |re: ReExportView| dead_entry(m, re),
    )
}

/// The dead re-exports of the modules `ms` of crate `c`, module by module.
pub open spec fn dead_by_module(
    c: CrateView,
    ms: Seq<ModuleView>,
    names: Seq<Seq<char>>,
    symbols: Map<Seq<char>, SymbolView>,
) -> Seq<ErrorEntryView>
    decreases ms.len(),
{
    if ms.len() == 0 {
        Seq::empty()
    } else {
        dead_by_module(c, ms.drop_last(), names, symbols) + module_dead_entries(
            c,
            ms.last(),
            names,
            symbols,
        )
    }
}

proof fn lemma_dead_res(
    res: Seq<ReExportView>,
    acc: Seq<ErrorEntryView>,
    c: CrateView,
    m: ModuleView,
    names: Seq<Seq<char>>,
    symbols: Map<Seq<char>, SymbolView>,
)
    ensures
        res.fold_left(acc, dead_step(c, m, names, symbols)) == acc + res.filter(
            |re: ReExportView| dead_re_export(re, c, m, names, symbols),
        ).map_values(|re: ReExportView| dead_entry(m, re)),
    decreases res.len(),
{
    let pred = |re: ReExportView| dead_re_export(re, c, m, names, symbols);
    let ent = |re: ReExportView| dead_entry(m, re);
    if res.len() == 0 {
        reveal(Seq::filter);
        assert(res.filter(pred) =~= Seq::<ReExportView>::empty());
        assert(acc + res.filter(pred).map_values(ent) =~= acc);
    } else {
        lemma_dead_res(res.drop_last(), acc, c, m, names, symbols);
        let prev = res.drop_last().filter(pred);
        reveal(Seq::filter);
        assert(res.filter(pred) == if pred(res.last()) {
            prev.push(res.last())
        } else {
            prev
        });
        if pred(res.last()) {
            assert(prev.push(res.last()).map_values(ent) =~= prev.map_values(ent).push(
                ent(res.last()),
            ));
            assert(acc + prev.map_values(ent).push(ent(res.last())) =~= (acc + prev.map_values(
                ent,
            )).push(ent(res.last())));
        }
    }
}

proof fn lemma_dead_mods(
    ms: Seq<ModuleView>,
    c: CrateView,
    names: Seq<Seq<char>>,
    symbols: Map<Seq<char>, SymbolView>,
)
    ensures
        ms.fold_left(Seq::empty(), dead_module_step(c, names, symbols)) == dead_by_module(
            c,
            ms,
            names,
            symbols,
        ),
    decreases ms.len(),
{
    if ms.len() > 0 {
        lemma_dead_mods(ms.drop_last(), c, names, symbols);
        let prev = ms.drop_last().fold_left(Seq::empty(), dead_module_step(c, names, symbols));
        lemma_dead_res(ms.last().re_exports, prev, c, ms.last(), names, symbols);
    }
}

/// The dead re-exports of a crate are, module by module and in order
/// within each module, exactly its re-exports that are dead (not a glob,
/// not into an external crate or another member, resolving to a path the
/// symbols index lacks, not a derive companion), one warning each at the
/// module's file and the re-export's line.
pub proof fn law_dead_re_exports(
    c: CrateView,
    names: Seq<Seq<char>>,
    symbols: Map<Seq<char>, SymbolView>,
)
    ensures
        dead_re_exports_of(c, names, symbols) == dead_by_module(c, c.modules, names, symbols),
{
    lemma_dead_mods(c.modules, c, names, symbols);
}

/// A text with a `/` has a last one.
proof fn lemma_last_slash_exists(x: Seq<char>, k: int)
    requires
        0 <= k < x.len(),
        x[k] == '/',
    ensures
        exists|i: int| 0 <= i < x.len() && x[i] == '/' && forall|j: int| i < j < x.len() ==> x[j] != '/',
    decreases x.len(),
{
    if x.last() == '/' {
        let i = x.len() - 1;
        assert(0 <= i < x.len() && x[i] == '/' && forall|j: int| i < j < x.len() ==> x[j] != '/');
    } else {
        let y = x.drop_last();
        assert(y[k] == '/');
        lemma_last_slash_exists(y, k);
        let i = choose|i: int| 0 <= i < y.len() && y[i] == '/' && forall|j: int| i < j < y.len() ==> y[j] != '/';
        assert(x[i] == '/');
        assert forall|j: int| i < j < x.len() implies x[j] != '/' by {
            if j < y.len() {
                assert(x[j] == y[j]);
            }
        }
    }
}

proof fn lemma_components_first(d: Seq<char>, rest: Seq<char>)
    requires
        forall|k: int| 0 <= k < d.len() ==> d[k] != '/',
    ensures
        components(d + seq!['/'] + rest).len() >= 2,
        components(d + seq!['/'] + rest)[0] == d,
    decreases rest.len(),
{
    let x = d + seq!['/'] + rest;
    assert(last_slash(d) is None);
    assert(components(d) == seq![d]);
    assert(x[d.len() as int] == '/');
    lemma_last_slash_exists(x, d.len() as int);
    let i = choose|i: int| 0 <= i < x.len() && x[i] == '/' && forall|j: int| i < j < x.len() ==> x[j] != '/';
    assert(last_slash(x) == Some(i));
    assert(i >= d.len()) by {
        if i < d.len() {
            assert(x[i] == d[i]);
        }
    }
    if i == d.len() {
        assert(x.take(i) =~= d);
    } else {
        let r2 = rest.take(i - d.len() - 1);
        assert(x.take(i) =~= d + seq!['/'] + r2);
        lemma_components_first(d, r2);
    }
}

/// Files in the directories that the source walk does not enter, `bin`,
/// `tests` and hidden ones, directly below the crate's source directory,
/// are never orphans: such a file gives no finding, and walking it as well
/// leaves the findings as they were.
pub proof fn law_skipped_dirs_never_orphans(
    c: CrateView,
    ws_root: Seq<char>,
    walked: Seq<Seq<char>>,
    p: Seq<char>,
    d: Seq<char>,
    rest: Seq<char>,
)
    requires
        d == "bin"@ || d == "tests"@ || (d.len() > 0 && d[0] == '.'),
        !d.contains('/'),
        relative_to(p, source_dir_of(c, ws_root)) == d + "/"@ + rest,
    ensures
        orphan_entry(c, ws_root, p) is None,
        orphans_of(c, ws_root, walked.push(p)) == orphans_of(c, ws_root, walked),
{
    reveal_strlit("/");
    assert("/"@ =~= seq!['/']);
    assert forall|k: int| 0 <= k < d.len() implies d[k] != '/' by {
        if d[k] == '/' {
            assert(d.contains(d[k]));
        }
    }
    lemma_components_first(d, rest);
    let cs = components(d + "/"@ + rest);
    assert(skipped_dir_name(cs[0]));
    assert(in_skipped_dir(relative_to(p, source_dir_of(c, ws_root))));
    assert(walked.push(p).drop_last() =~= walked);
}

} // verus!
