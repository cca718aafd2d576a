//! Lookups in a workspace map: a symbol by short name, a file by
//! workspace-relative path.
use vstd::prelude::*;
use crate::schema::{CrateView, FileEntry, FileEntryView, ItemKind, ModuleInfo, ModuleView,
    SymbolEntry, SymbolView, WorkspaceMap};
use crate::text::owned;
use crate::indexes::{law_name_index_matches_symbols, name_index_of, names_of, symbols_of};

verus! {

/// Result of a symbol lookup.
#[derive(Debug)]
pub enum SymbolLookupResult {
    /// Exactly one item bears the name.
    Found(SymbolEntry),
    /// Several items bear the name; one hint for each.
    Ambiguous { name: String, candidates: Vec<DisambiguationHint> },
    /// No item bears the name.
    NotFound,
}

/// Hint for disambiguating a symbol name collision.
#[derive(Debug)]
pub struct DisambiguationHint {
    pub canonical_path: String,
    pub crate_name: String,
    pub kind: ItemKind,
    pub file: String,
    pub line: usize,
}

/// Result of a file lookup.
#[derive(Debug)]
pub struct FileLookupResult {
    pub file_entry: FileEntry,
    pub primary_module: ModuleInfo,
    pub inline_modules: Vec<ModuleInfo>,
}

/// What a [`DisambiguationHint`] holds.
pub struct HintView {
    pub canonical_path: Seq<char>,
    pub crate_name: Seq<char>,
    pub kind: ItemKind,
    pub file: Seq<char>,
    pub line: usize,
}

/// What a [`SymbolLookupResult`] holds.
pub enum SymbolLookupView {
    Found(SymbolView),
    Ambiguous { name: Seq<char>, candidates: Seq<HintView> },
    NotFound,
}

/// What a [`FileLookupResult`] holds.
pub struct FileLookupView {
    pub file_entry: FileEntryView,
    pub primary_module: ModuleView,
    pub inline_modules: Seq<ModuleView>,
}

impl DeepView for DisambiguationHint {
    type V = HintView;

    open spec fn deep_view(&self) -> HintView {
        HintView {
            canonical_path: self.canonical_path@,
            crate_name: self.crate_name@,
            kind: self.kind,
            file: self.file@,
            line: self.line,
        }
    }
}

impl DeepView for SymbolLookupResult {
    type V = SymbolLookupView;

    open spec fn deep_view(&self) -> SymbolLookupView {
        match self {
            SymbolLookupResult::Found(e) => SymbolLookupView::Found(e.deep_view()),
            SymbolLookupResult::Ambiguous { name, candidates } => SymbolLookupView::Ambiguous {
                name: name@,
                candidates: candidates.deep_view(),
            },
            SymbolLookupResult::NotFound => SymbolLookupView::NotFound,
        }
    }
}

impl DeepView for FileLookupResult {
    type V = FileLookupView;

    open spec fn deep_view(&self) -> FileLookupView {
        FileLookupView {
            file_entry: self.file_entry.deep_view(),
            primary_module: self.primary_module.deep_view(),
            inline_modules: self.inline_modules.deep_view(),
        }
    }
}

// ── Specification ───────────────────────────────────────────────────────

/// The hint for canonical path `p`, whose symbol is `e`.
pub open spec fn hint_of(p: Seq<char>, e: SymbolView) -> HintView {
    HintView { canonical_path: p, crate_name: e.crate_name, kind: e.kind, file: e.file, line: e.line }
}

/// The hints for the candidates `cands` that the symbols index holds, in
/// order.
pub open spec fn hints_of(cands: Seq<Seq<char>>, symbols: Map<Seq<char>, SymbolView>) -> Seq<
    HintView,
>
    decreases cands.len(),
{
    if cands.len() == 0 {
        Seq::empty()
    } else {
        let rest = hints_of(cands.drop_last(), symbols);
        if symbols.contains_key(cands.last()) {
            rest.push(hint_of(cands.last(), symbols[cands.last()]))
        } else {
            rest
        }
    }
}

/// The result of looking up `name` in the name index `names` and the
/// symbols index `symbols`: `Found` when exactly one canonical path bears
/// the name and the symbols index holds it; `Ambiguous`, with a hint for
/// each candidate that the symbols index holds, when several do;
/// `NotFound` otherwise.
pub open spec fn symbol_lookup(
    names: Map<Seq<char>, Seq<Seq<char>>>,
    symbols: Map<Seq<char>, SymbolView>,
    name: Seq<char>,
) -> SymbolLookupView {
    if !names.contains_key(name) {
        SymbolLookupView::NotFound
    } else {
        let cands = names[name];
        if cands.len() == 1 && symbols.contains_key(cands[0]) {
            SymbolLookupView::Found(symbols[cands[0]])
        } else if cands.len() > 1 {
            SymbolLookupView::Ambiguous { name: name, candidates: hints_of(cands, symbols) }
        } else {
            SymbolLookupView::NotFound
        }
    }
}

/// One module seen while gathering the modules of `file` whose primary
/// module has path `primary`: a later module with that path replaces an
/// earlier one; the other modules of the file are inline modules.
pub open spec fn gather_step(file: Seq<char>, primary: Seq<char>) -> spec_fn(
    (Option<ModuleView>, Seq<ModuleView>),
    ModuleView,
) -> (Option<ModuleView>, Seq<ModuleView>) {
    |acc: (Option<ModuleView>, Seq<ModuleView>), m: ModuleView|
        if m.file != file {
            acc
        } else if m.path == primary {
            (Some(m), acc.1)
        } else {
            (acc.0, acc.1.push(m))
        }
}

/// The modules of one crate seen while gathering.
pub open spec fn gather_crate_step(file: Seq<char>, primary: Seq<char>) -> spec_fn(
    (Option<ModuleView>, Seq<ModuleView>),
    CrateView,
) -> (Option<ModuleView>, Seq<ModuleView>) {
    |acc: (Option<ModuleView>, Seq<ModuleView>), c: CrateView|
        c.modules.fold_left(acc, gather_step(file, primary))
}

/// The primary module and the inline modules of `file` in `crates`.
pub open spec fn gather_modules(crates: Seq<CrateView>, file: Seq<char>, primary: Seq<char>) -> (
    Option<ModuleView>,
    Seq<ModuleView>,
) {
    crates.fold_left((None, Seq::empty()), gather_crate_step(file, primary))
}

/// The result of looking up `file`: none when the files index lacks it or
/// no module with the indexed path lives in it; else its entry, the last
/// module with the indexed path, and the other modules of the file.
pub open spec fn file_lookup(
    files: Map<Seq<char>, FileEntryView>,
    crates: Seq<CrateView>,
    file: Seq<char>,
) -> Option<FileLookupView> {
    if !files.contains_key(file) {
        None
    } else {
        let g = gather_modules(crates, file, files[file].mod_path);
        match g.0 {
            Some(pm) => Some(
                FileLookupView { file_entry: files[file], primary_module: pm, inline_modules: g.1 },
            ),
            None => None,
        }
    }
}

// ── Implementation ──────────────────────────────────────────────────────

proof fn lemma_fold_step<A, B>(s: Seq<A>, i: int, b: B, f: spec_fn(B, A) -> B)
    requires
        0 <= i < s.len(),
    ensures
        s.take(i + 1).fold_left(b, f) == f(s.take(i).fold_left(b, f), s[i]),
{
    assert(s.take(i + 1).drop_last() =~= s.take(i));
}

/// Look up a symbol by short name in the workspace map's name index.
///
/// Returns `Found` if exactly one canonical path bears the name,
/// `Ambiguous` if several do, and `NotFound` otherwise.
pub fn lookup_symbol(map: &WorkspaceMap, name: &str) -> (r: SymbolLookupResult)
    ensures
        r.deep_view() == symbol_lookup(map.name_index@, map.symbols@, name@),
{
    let candidates = match map.name_index.get(name) {
        Some(candidates) => candidates,
        None => return SymbolLookupResult::NotFound,
    };
    let ghost cands = candidates.deep_view();
    if candidates.len() == 1 {
        let canonical = &candidates[0];
        assert(cands[0] == canonical.deep_view());
        if let Some(entry) = map.symbols.get(canonical) {
            return SymbolLookupResult::Found(entry.clone());
        }
    }
    if candidates.len() > 1 {
        let mut hints: Vec<DisambiguationHint> = Vec::new();
        let mut i: usize = 0;
        assert(cands.take(0) =~= Seq::<Seq<char>>::empty());
        while i < candidates.len()
            invariant
                cands == candidates.deep_view(),
                0 <= i <= cands.len(),
                hints.deep_view() == hints_of(cands.take(i as int), map.symbols@),
            decreases cands.len() - i,
        {
            let canonical = &candidates[i];
            assert(cands[i as int] == canonical.deep_view());
            assert(cands.take(i + 1).drop_last() =~= cands.take(i as int));
            let ghost prev = hints.deep_view();
            if let Some(entry) = map.symbols.get(canonical) {
                let hint = DisambiguationHint {
                    canonical_path: canonical.0.clone(),
                    crate_name: entry.crate_name.clone(),
                    kind: entry.kind,
                    file: entry.file.clone(),
                    line: entry.line,
                };
                hints.push(hint);
                assert(hints.deep_view() =~= prev.push(hint.deep_view()));
            }
            i = i + 1;
        }
        assert(cands.take(cands.len() as int) =~= cands);
        return SymbolLookupResult::Ambiguous { name: owned(name), candidates: hints };
    }
    SymbolLookupResult::NotFound
}

/// Look up a file by workspace-relative path.
///
/// Returns `Some` with the file entry, its primary module and the inline
/// modules that share the file, or `None` if the file is not in the files
/// index.
pub fn lookup_file(map: &WorkspaceMap, file: &str) -> (r: Option<FileLookupResult>)
    ensures
        r.deep_view() == file_lookup(map.files@, map.crates.deep_view(), file@),
{
    let file_entry = match map.files.get(file) {
        Some(e) => e,
        None => return None,
    };
    let ghost cs = map.crates.deep_view();
    let ghost fv = file@;
    let ghost pv = file_entry.mod_path@;
    let ghost b0: (Option<ModuleView>, Seq<ModuleView>) = (None, Seq::empty());
    let mut primary_module: Option<ModuleInfo> = None;
    let mut inline_modules: Vec<ModuleInfo> = Vec::new();
    let mut ci: usize = 0;
    assert(cs.take(0) =~= Seq::<CrateView>::empty());
    while ci < map.crates.len()
        invariant
            cs == map.crates.deep_view(),
            fv == file@,
            pv == file_entry.mod_path@,
            0 <= ci <= cs.len(),
            (primary_module.deep_view(), inline_modules.deep_view()) == cs.take(
                ci as int,
            ).fold_left(b0, gather_crate_step(fv, pv)),
        decreases cs.len() - ci,
    {
        let c = &map.crates[ci];
        let ghost cv = c.deep_view();
        assert(cs[ci as int] == cv);
        proof {
            lemma_fold_step(cs, ci as int, b0, gather_crate_step(fv, pv));
        }
        let ghost ms = cv.modules;
        let ghost a0 = (primary_module.deep_view(), inline_modules.deep_view());
        let mut mi: usize = 0;
        assert(ms.take(0) =~= Seq::<ModuleView>::empty());
        while mi < c.modules.len()
            invariant
                cv == c.deep_view(),
                ms == cv.modules,
                fv == file@,
                pv == file_entry.mod_path@,
                0 <= mi <= ms.len(),
                (primary_module.deep_view(), inline_modules.deep_view()) == ms.take(
                    mi as int,
                ).fold_left(a0, gather_step(fv, pv)),
            decreases ms.len() - mi,
        {
            let module = &c.modules[mi];
            assert(ms[mi as int] == module.deep_view());
            proof {
                lemma_fold_step(ms, mi as int, a0, gather_step(fv, pv));
            }
            if crate::text::str_eq(module.file.as_str(), file) {
                if module.path == file_entry.mod_path {
                    primary_module = Some(module.clone());
                } else {
                    let ghost prev = inline_modules.deep_view();
                    let cm = module.clone();
                    inline_modules.push(cm);
                    assert(inline_modules.deep_view() =~= prev.push(cm.deep_view()));
                }
            }
            mi = mi + 1;
        }
        assert(ms.take(ms.len() as int) =~= ms);
        ci = ci + 1;
    }
    assert(cs.take(cs.len() as int) =~= cs);
    let primary_module = match primary_module {
        Some(m) => m,
        None => return None,
    };
    Some(
        FileLookupResult {
            file_entry: file_entry.clone(),
            primary_module,
            inline_modules,
        },
    )
}

// ── Laws ────────────────────────────────────────────────────────────────

proof fn lemma_hints_len(cands: Seq<Seq<char>>, symbols: Map<Seq<char>, SymbolView>)
    requires
        forall|i: int| 0 <= i < cands.len() ==> symbols.contains_key(#[trigger] cands[i]),
    ensures
        hints_of(cands, symbols).len() == cands.len(),
        forall|i: int|
            0 <= i < cands.len() ==> #[trigger] hints_of(cands, symbols)[i] == hint_of(
                cands[i],
                symbols[cands[i]],
            ),
    decreases cands.len(),
{
    if cands.len() > 0 {
        let rest = cands.drop_last();
        assert forall|i: int| 0 <= i < rest.len() implies symbols.contains_key(#[trigger] rest[i]) by {
            assert(rest[i] == cands[i]);
        }
        lemma_hints_len(rest, symbols);
        assert(symbols.contains_key(cands[cands.len() - 1]));
    }
}

/// Looking a name up in the indexes of `crates` answers by the number of
/// public items that bear it: `NotFound` when none does, `Found` with the
/// symbol of its canonical path when exactly one does, and `Ambiguous`
/// with one hint per item, in the order of their canonical paths, when
/// several do; each hint carries the crate, kind, file and line of the
/// symbol at its canonical path.
pub proof fn law_lookup_by_name(crates: Seq<CrateView>, name: Seq<char>)
    ensures
        (symbol_lookup(name_index_of(crates), symbols_of(crates), name) is NotFound) <==> !names_of(
            crates,
        ).contains_key(name),
        (symbol_lookup(name_index_of(crates), symbols_of(crates), name) is Found) <==> (names_of(
            crates,
        ).contains_key(name) && names_of(crates)[name].len() == 1),
        symbol_lookup(name_index_of(crates), symbols_of(crates), name) matches SymbolLookupView::Found(
            e,
        ) ==> e == symbols_of(crates)[names_of(crates)[name][0]],
        symbol_lookup(name_index_of(crates), symbols_of(crates), name) matches SymbolLookupView::Ambiguous {
            candidates,
            ..
        } ==> candidates.len() == names_of(crates)[name].len() && candidates.len() > 1 && forall|
            i: int,
        |
            0 <= i < candidates.len() ==> {
                let p = #[trigger] candidates[i].canonical_path;
                let e = symbols_of(crates)[p];
                &&& p == name_index_of(crates)[name][i]
                &&& symbols_of(crates).contains_key(p)
                &&& candidates[i].crate_name == e.crate_name
                &&& candidates[i].kind == e.kind
                &&& candidates[i].file == e.file
                &&& candidates[i].line == e.line
            },
{
    law_name_index_matches_symbols(crates);
    let idx = name_index_of(crates);
    let syms = symbols_of(crates);
    let names = names_of(crates);
    if names.contains_key(name) {
        assert(idx.contains_key(name));
        let cands = idx[name];
        assert forall|i: int| 0 <= i < cands.len() implies syms.contains_key(#[trigger] cands[i]) by {
            assert(syms.contains_key(idx[name][i]));
        }
        lemma_hints_len(cands, syms);
        if cands.len() == 1 {
            assert(names[name].len() == 1);
            crate::sort::lemma_sort_view_permutes(names[name], crate::sort::text_lt());
            assert(cands.contains(cands[0]));
            assert(names[name].contains(cands[0]));
            assert(cands[0] == names[name][0]);
        }
    }
}

/// In a gathering for `file` with primary path `primary`, the primary
/// module lives in `file` with that path, and the inline modules live in
/// `file` under other paths.
pub open spec fn gathered_well(g: (Option<ModuleView>, Seq<ModuleView>), file: Seq<char>, primary: Seq<char>) -> bool {
    &&& (g.0 matches Some(pm) ==> pm.file == file && pm.path == primary)
    &&& forall|i: int|
        0 <= i < g.1.len() ==> (#[trigger] g.1[i]).file == file && g.1[i].path != primary
}

proof fn lemma_gather_modules(
    ms: Seq<ModuleView>,
    acc: (Option<ModuleView>, Seq<ModuleView>),
    file: Seq<char>,
    primary: Seq<char>,
)
    requires
        gathered_well(acc, file, primary),
    ensures
        gathered_well(ms.fold_left(acc, gather_step(file, primary)), file, primary),
    decreases ms.len(),
{
    if ms.len() > 0 {
        lemma_gather_modules(ms.drop_last(), acc, file, primary);
        let a = ms.drop_last().fold_left(acc, gather_step(file, primary));
        let m = ms.last();
        if m.file == file && m.path != primary {
            let r = a.1.push(m);
            assert forall|i: int| 0 <= i < r.len() implies (#[trigger] r[i]).file == file && r[i].path
                != primary by {
                if i < a.1.len() {
                    assert(r[i] == a.1[i]);
                }
            }
        }
    }
}

proof fn lemma_gather_crates(cs: Seq<CrateView>, file: Seq<char>, primary: Seq<char>)
    ensures
        gathered_well(gather_modules(cs, file, primary), file, primary),
    decreases cs.len(),
{
    if cs.len() > 0 {
        lemma_gather_crates(cs.drop_last(), file, primary);
        lemma_gather_modules(
            cs.last().modules,
            cs.drop_last().fold_left((None, Seq::empty()), gather_crate_step(file, primary)),
            file,
            primary,
        );
    }
}

/// A file lookup answers with modules of that file: the primary module
/// has the path that the files index gives the file, and every inline
/// module lives in the same file under another path.
pub proof fn law_file_lookup_modules(
    files: Map<Seq<char>, FileEntryView>,
    crates: Seq<CrateView>,
    file: Seq<char>,
)
    ensures
        file_lookup(files, crates, file) matches Some(r) ==> {
            &&& r.file_entry == files[file]
            &&& r.primary_module.file == file
            &&& r.primary_module.path == r.file_entry.mod_path
            &&& forall|i: int|
                0 <= i < r.inline_modules.len() ==> (#[trigger] r.inline_modules[i]).file == file
                    && r.inline_modules[i].path != r.primary_module.path
        },
{
    if files.contains_key(file) {
        lemma_gather_crates(crates, file, files[file].mod_path);
    }
}

} // verus!
