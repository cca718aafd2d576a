//! The flat indexes of a workspace map: symbols by canonical path, canonical
//! paths by short name, and files by workspace-relative path.
use vstd::prelude::*;
use crate::ordered_map::{OrderedMap, TextKey};
use crate::schema::{CanonicalPath, CrateInfo, CrateView, FileEntry, FileEntryView, ModuleInfo,
    ModuleView, PublicItemView, SymbolEntry, SymbolView, WorkspaceRelativePath};
use crate::sort::{sort_texts, stable_sort, key_texts, lemma_sort_texts};
use crate::text::{join_path, join_sep, before_last_sep, before_last_sep_of};

verus! {

// ── Specification ───────────────────────────────────────────────────────

/// The canonical path of an item named `name` in the module at `path`.
pub open spec fn canonical_text(path: Seq<char>, name: Seq<char>) -> Seq<char> {
    join_sep(path, name)
}

/// The symbol entry of item `it` of module `m` of crate `crate_name`.
pub open spec fn symbol_of(crate_name: Seq<char>, m: ModuleView, it: PublicItemView) -> SymbolView {
    SymbolView {
        crate_name: crate_name,
        module: m.path,
        file: m.file,
        line: it.line,
        kind: it.kind,
        derive_attrs: it.attrs.derive,
    }
}

/// Entering one item of module `m` of crate `crate_name` into the symbols.
pub open spec fn symbol_step(crate_name: Seq<char>, m: ModuleView) -> spec_fn(
    Map<Seq<char>, SymbolView>,
    PublicItemView,
) -> Map<Seq<char>, SymbolView> {
    |a: Map<Seq<char>, SymbolView>, it: PublicItemView|
        a.insert(canonical_text(m.path, it.name), symbol_of(crate_name, m, it))
}

/// Entering the items of one module of crate `crate_name` into the symbols.
pub open spec fn symbol_module_step(crate_name: Seq<char>) -> spec_fn(
    Map<Seq<char>, SymbolView>,
    ModuleView,
) -> Map<Seq<char>, SymbolView> {
    |a: Map<Seq<char>, SymbolView>, m: ModuleView|
        m.public_items.fold_left(a, symbol_step(crate_name, m))
}

/// Entering the modules of one crate into the symbols.
pub open spec fn symbol_crate_step() -> spec_fn(Map<Seq<char>, SymbolView>, CrateView) -> Map<
    Seq<char>,
    SymbolView,
> {
    |a: Map<Seq<char>, SymbolView>, c: CrateView|
        c.modules.fold_left(a, symbol_module_step(c.name))
}

/// The symbols index of `crates`: each public item of each module of each
/// crate, in order, keyed by its canonical path; a later item replaces an
/// earlier one with the same canonical path.
pub open spec fn symbols_of(crates: Seq<CrateView>) -> Map<Seq<char>, SymbolView> {
    crates.fold_left(Map::empty(), symbol_crate_step())
}

/// `acc` with `path` appended to the list of `name`.
pub open spec fn add_name(
    acc: Map<Seq<char>, Seq<Seq<char>>>,
    name: Seq<char>,
    path: Seq<char>,
) -> Map<Seq<char>, Seq<Seq<char>>> {
    if acc.contains_key(name) {
        acc.insert(name, acc[name].push(path))
    } else {
        acc.insert(name, seq![path])
    }
}

/// Entering one item of module `m` into the name lists.
pub open spec fn name_step(m: ModuleView) -> spec_fn(
    Map<Seq<char>, Seq<Seq<char>>>,
    PublicItemView,
) -> Map<Seq<char>, Seq<Seq<char>>> {
    |a: Map<Seq<char>, Seq<Seq<char>>>, it: PublicItemView|
        add_name(a, it.name, canonical_text(m.path, it.name))
}

/// Entering the items of one module into the name lists.
pub open spec fn name_module_step() -> spec_fn(
    Map<Seq<char>, Seq<Seq<char>>>,
    ModuleView,
) -> Map<Seq<char>, Seq<Seq<char>>> {
    |a: Map<Seq<char>, Seq<Seq<char>>>, m: ModuleView| m.public_items.fold_left(a, name_step(m))
}

/// Entering the modules of one crate into the name lists.
pub open spec fn name_crate_step() -> spec_fn(
    Map<Seq<char>, Seq<Seq<char>>>,
    CrateView,
) -> Map<Seq<char>, Seq<Seq<char>>> {
    |a: Map<Seq<char>, Seq<Seq<char>>>, c: CrateView| c.modules.fold_left(a, name_module_step())
}

/// For each short name, the canonical paths of the items that bear it, in
/// the order of the crates, modules and items.
pub open spec fn names_of(crates: Seq<CrateView>) -> Map<Seq<char>, Seq<Seq<char>>> {
    crates.fold_left(Map::empty(), name_crate_step())
}

/// The name index of `crates`: for each short name, the canonical paths
/// of the items that bear it, sorted.
pub open spec fn name_index_of(crates: Seq<CrateView>) -> Map<Seq<char>, Seq<Seq<char>>> {
    names_of(crates).map_values(|v: Seq<Seq<char>>| sort_texts(v))
}

/// The file of the first module of `ms` whose path is `path`.
pub open spec fn file_of_module(ms: Seq<ModuleView>, path: Seq<char>) -> Option<Seq<char>>
    decreases ms.len(),
{
    if ms.len() == 0 {
        None
    } else if ms[0].path == path {
        Some(ms[0].file)
    } else {
        file_of_module(ms.drop_first(), path)
    }
}

/// The file of the parent of module `m` in crate `c`: the first module of
/// the crate whose path is `m`'s path without its last segment.
pub open spec fn parent_file_of(c: CrateView, m: ModuleView) -> Option<Seq<char>> {
    if m.path.len() == 0 {
        None
    } else {
        match before_last_sep(m.path) {
            Some(parent) => file_of_module(c.modules, parent),
            None => None,
        }
    }
}

/// The text that marks a module whose file could not be found.
pub open spec fn unresolved_text() -> Seq<char> {
    seq!['<', 'u', 'n', 'r', 'e', 's', 'o', 'l', 'v', 'e', 'd', '>']
}

/// The file entry of module `m` of crate `c`.
pub open spec fn file_entry_of(c: CrateView, m: ModuleView) -> FileEntryView {
    FileEntryView {
        mod_path: m.path,
        parent_module_file: parent_file_of(c, m),
        is_crate_root: m.path == c.name,
    }
}

/// The files index after module `m` of crate `c` is seen: a resolved file
/// not yet indexed gets the entry of `m`.
pub open spec fn add_file(
    acc: Map<Seq<char>, FileEntryView>,
    c: CrateView,
    m: ModuleView,
) -> Map<Seq<char>, FileEntryView> {
    if m.file == unresolved_text() || acc.contains_key(m.file) {
        acc
    } else {
        acc.insert(m.file, file_entry_of(c, m))
    }
}

/// Seeing one module of crate `c` for the files index.
pub open spec fn file_step(c: CrateView) -> spec_fn(
    Map<Seq<char>, FileEntryView>,
    ModuleView,
) -> Map<Seq<char>, FileEntryView> {
    |a: Map<Seq<char>, FileEntryView>, m: ModuleView| add_file(a, c, m)
}

/// Seeing the modules of one crate for the files index.
pub open spec fn file_crate_step() -> spec_fn(
    Map<Seq<char>, FileEntryView>,
    CrateView,
) -> Map<Seq<char>, FileEntryView> {
    |a: Map<Seq<char>, FileEntryView>, c: CrateView| c.modules.fold_left(a, file_step(c))
}

/// The files index of `crates`: each resolved file, with the entry of the
/// first module (in the order of crates and modules) that lives in it.
pub open spec fn files_of(crates: Seq<CrateView>) -> Map<Seq<char>, FileEntryView> {
    crates.fold_left(Map::empty(), file_crate_step())
}

// ── Implementation ──────────────────────────────────────────────────────

/// One step of a fold over a prefix.
proof fn lemma_fold_step<A, B>(s: Seq<A>, i: int, b: B, f: spec_fn(B, A) -> B)
    requires
        0 <= i < s.len(),
    ensures
        s.take(i + 1).fold_left(b, f) == f(s.take(i).fold_left(b, f), s[i]),
{
    assert(s.take(i + 1).drop_last() =~= s.take(i));
}

/// The file of the first module of `ms` whose path is `path`.
fn find_module_file(ms: &Vec<ModuleInfo>, path: &String) -> (r: Option<String>)
    ensures
        r.deep_view() == file_of_module(ms.deep_view(), path@),
{
    let mut i: usize = 0;
    let ghost dv = ms.deep_view();
    assert(dv.skip(0) =~= dv);
    while i < ms.len()
        invariant
            dv == ms.deep_view(),
            0 <= i <= ms@.len(),
            file_of_module(dv, path@) == file_of_module(dv.skip(i as int), path@),
        decreases ms@.len() - i,
    {
        assert(dv.skip(i as int)[0] == ms@[i as int].deep_view());
        if ms[i].path == *path {
            return Some(ms[i].file.clone());
        }
        assert(dv.skip(i as int).drop_first() =~= dv.skip(i + 1));
        i = i + 1;
    }
    None
}

/// Adds the items of module `m` of crate `crate_name` to the symbols and
/// name lists.
fn index_module_items(
    syms: &mut OrderedMap<CanonicalPath, SymbolEntry>,
    nidx: &mut OrderedMap<String, Vec<CanonicalPath>>,
    crate_name: &String,
    m: &ModuleInfo,
)
    requires
    ensures
        final(syms)@ == m.deep_view().public_items.fold_left(
            old(syms)@,
            symbol_step(crate_name@, m.deep_view()),
        ),
        final(nidx)@ == m.deep_view().public_items.fold_left(
            old(nidx)@,
            name_step(m.deep_view()),
        ),
{
    let ghost mv = m.deep_view();
    let ghost its = mv.public_items;
    let ghost s0 = syms@;
    let ghost n0 = nidx@;
    let mut i: usize = 0;
    assert(its.take(0) =~= Seq::<PublicItemView>::empty());
    while i < m.public_items.len()
        invariant
            mv == m.deep_view(),
            its == mv.public_items,
            0 <= i <= its.len(),
            syms@ == its.take(i as int).fold_left(s0, symbol_step(crate_name@, mv)),
            nidx@ == its.take(i as int).fold_left(n0, name_step(mv)),
        decreases its.len() - i,
    {
        let item = &m.public_items[i];
        assert(its[i as int] == item.deep_view());
        proof {
            lemma_fold_step(its, i as int, s0, symbol_step(crate_name@, mv));
            lemma_fold_step(its, i as int, n0, name_step(mv));
        }
        let path = join_path(m.path.as_str(), item.name.as_str());
        let canonical = CanonicalPath(path);
        let entry = SymbolEntry {
            crate_name: crate_name.clone(),
            module: m.path.clone(),
            file: m.file.clone(),
            line: item.line,
            kind: item.kind,
            derive_attrs: item.attrs.derive.clone(),
        };
        assert(entry.derive_attrs.deep_view() =~= item.attrs.derive.deep_view());
        let ghost pre_s = syms@;
        let ghost pre_n = nidx@;
        assert(entry.deep_view() == symbol_of(crate_name@, mv, its[i as int]));
        assert(canonical.0@ == canonical_text(mv.path, its[i as int].name));
        let ghost ev = entry.deep_view();
        let ck = canonical.clone();
        assert(ck.text() == canonical_text(mv.path, its[i as int].name));
        syms.insert(ck, entry);
        assert(syms@ == pre_s.insert(canonical_text(mv.path, its[i as int].name), ev));
        assert(syms@ == symbol_step(crate_name@, mv)(pre_s, its[i as int]));
        match nidx.position(&item.name) {
            Some(p) => {
                let mut v = nidx.value_at(p).clone();
                let ghost before = v.deep_view();
                assert(before =~= nidx@[item.name@]);
                v.push(canonical);
                assert(v.deep_view() =~= before.push(canonical.deep_view()));
                nidx.set_value_at(p, v);
            },
            None => {
                let mut v: Vec<CanonicalPath> = Vec::new();
                v.push(canonical);
                assert(v.deep_view() =~= seq![canonical.deep_view()]);
                nidx.insert(item.name.clone(), v);
            },
        }
        assert(nidx@ == name_step(mv)(pre_n, its[i as int]));
        i = i + 1;
    }
    assert(its.take(its.len() as int) =~= its);
}

/// Sorts each list of canonical paths of the name lists.
fn sort_name_lists(nidx: &mut OrderedMap<String, Vec<CanonicalPath>>)
    requires
    ensures
        final(nidx)@ == old(nidx)@.map_values(|v: Seq<Seq<char>>| sort_texts(v)),
{
    let ghost n0 = nidx@;
    let n = nidx.len();
    let mut i: usize = 0;
    while i < n
        invariant
            n == nidx.texts().len(),
            0 <= i <= n,
            nidx.texts() == old(nidx).texts(),
            nidx@.dom() == n0.dom(),
            forall|j: int|
                #![trigger nidx.texts()[j]]
                0 <= j < i ==> nidx@[nidx.texts()[j]] == sort_texts(n0[nidx.texts()[j]]),
            forall|j: int|
                #![trigger nidx.texts()[j]]
                i <= j < n ==> nidx@[nidx.texts()[j]] == n0[nidx.texts()[j]],
        decreases n - i,
    {
        let v = nidx.value_at(i).clone();
        let ghost t = nidx.texts()[i as int];
        let ghost pre = nidx@;
        proof {
            use_type_invariant(&*nidx);
            nidx.lemma_at(i as int);
            lemma_sort_texts(v@);
            assert(key_texts(v@) =~= v.deep_view());
        }
        let sorted = stable_sort(v);
        assert(sorted.deep_view() =~= key_texts(sorted@));
        nidx.set_value_at(i, sorted);
        proof {
            use_type_invariant(&*nidx);
            assert(nidx@.dom() =~= pre.dom());
            assert forall|j: int| #![trigger nidx.texts()[j]] 0 <= j < n && j != i implies nidx@[
                nidx.texts()[j]] == pre[nidx.texts()[j]] by {
                nidx.lemma_distinct(i as int, j);
            }
        }
        i = i + 1;
    }
    proof {
        use_type_invariant(&*nidx);
        let target = n0.map_values(|v: Seq<Seq<char>>| sort_texts(v));
        assert forall|k: Seq<char>| #[trigger] nidx@.contains_key(k) implies nidx@[k] == target[k] by {
            nidx.lemma_contains(k);
            let j = choose|j: int| 0 <= j < nidx.texts().len() && nidx.texts()[j] == k;
            assert(nidx.texts()[j] == k);
        }
        assert(nidx@ =~= target);
    }
}

/// Builds the flat indexes of `crates`.
///
/// Returns, first, the symbols index: every public item of every module,
/// keyed by `module_path::name`; second, the name index: for each short
/// name, the sorted canonical paths of the items that bear it; third, the
/// files index: each resolved module file with the module wiring of the
/// first module that lives in it (a later module in the same file is an
/// inline module and is left out).
pub fn derive_from_crates(crates: &[CrateInfo]) -> (r: (
    OrderedMap<CanonicalPath, SymbolEntry>,
    OrderedMap<String, Vec<CanonicalPath>>,
    OrderedMap<WorkspaceRelativePath, FileEntry>,
))
    ensures
        r.0@ == symbols_of(crates.deep_view()),
        r.1@ == name_index_of(crates.deep_view()),
        r.2@ == files_of(crates.deep_view()),
{
    let ghost cs = crates.deep_view();
    let mut syms: OrderedMap<CanonicalPath, SymbolEntry> = OrderedMap::new();
    let mut nidx: OrderedMap<String, Vec<CanonicalPath>> = OrderedMap::new();
    let mut ci: usize = 0;
    assert(cs.take(0) =~= Seq::<CrateView>::empty());
    while ci < crates.len()
        invariant
            cs == crates.deep_view(),
            0 <= ci <= cs.len(),
            syms@ == cs.take(ci as int).fold_left(Map::empty(), symbol_crate_step()),
            nidx@ == cs.take(ci as int).fold_left(Map::empty(), name_crate_step()),
        decreases cs.len() - ci,
    {
        let c = &crates[ci];
        let ghost cv = c.deep_view();
        assert(cs[ci as int] == cv);
        proof {
            lemma_fold_step(cs, ci as int, Map::empty(), symbol_crate_step());
            lemma_fold_step(cs, ci as int, Map::empty(), name_crate_step());
        }
        let ghost ms = cv.modules;
        let ghost s0 = syms@;
        let ghost n0 = nidx@;
        let mut mi: usize = 0;
        assert(ms.take(0) =~= Seq::<ModuleView>::empty());
        while mi < c.modules.len()
            invariant
                cv == c.deep_view(),
                ms == cv.modules,
                0 <= mi <= ms.len(),
                syms@ == ms.take(mi as int).fold_left(s0, symbol_module_step(cv.name)),
                nidx@ == ms.take(mi as int).fold_left(n0, name_module_step()),
            decreases ms.len() - mi,
        {
            assert(ms[mi as int] == c.modules@[mi as int].deep_view());
            proof {
                lemma_fold_step(ms, mi as int, s0, symbol_module_step(cv.name));
                lemma_fold_step(ms, mi as int, n0, name_module_step());
            }
            index_module_items(&mut syms, &mut nidx, &c.name, &c.modules[mi]);
            mi = mi + 1;
        }
        assert(ms.take(ms.len() as int) =~= ms);
        ci = ci + 1;
    }
    assert(cs.take(cs.len() as int) =~= cs);
    sort_name_lists(&mut nidx);
    let files = index_files(crates);
    (syms, nidx, files)
}

/// Builds the files index of `crates`.
fn index_files(crates: &[CrateInfo]) -> (r: OrderedMap<WorkspaceRelativePath, FileEntry>)
    ensures
        r@ == files_of(crates.deep_view()),
{
    let ghost cs = crates.deep_view();
    let mut files: OrderedMap<WorkspaceRelativePath, FileEntry> = OrderedMap::new();
    let unresolved = "<unresolved>";
    proof {
        reveal_strlit("<unresolved>");
    }
    let unresolved = crate::text::owned(unresolved);
    assert(unresolved@ =~= unresolved_text());
    let mut ci: usize = 0;
    assert(cs.take(0) =~= Seq::<CrateView>::empty());
    while ci < crates.len()
        invariant
            cs == crates.deep_view(),
            unresolved@ == unresolved_text(),
            0 <= ci <= cs.len(),
            files@ == cs.take(ci as int).fold_left(Map::empty(), file_crate_step()),
        decreases cs.len() - ci,
    {
        let c = &crates[ci];
        let ghost cv = c.deep_view();
        assert(cs[ci as int] == cv);
        proof {
            lemma_fold_step(cs, ci as int, Map::empty(), file_crate_step());
        }
        let ghost ms = cv.modules;
        let ghost f0 = files@;
        let mut mi: usize = 0;
        assert(ms.take(0) =~= Seq::<ModuleView>::empty());
        while mi < c.modules.len()
            invariant
                cv == c.deep_view(),
                ms == cv.modules,
                unresolved@ == unresolved_text(),
                0 <= mi <= ms.len(),
                files@ == ms.take(mi as int).fold_left(f0, file_step(cv)),
            decreases ms.len() - mi,
        {
            let m = &c.modules[mi];
            assert(ms[mi as int] == m.deep_view());
            proof {
                lemma_fold_step(ms, mi as int, f0, file_step(cv));
            }
            if m.file != unresolved && !files.contains_key(&m.file) {
                let parent = if m.path.as_str().is_empty() {
                    None
                } else {
                    match before_last_sep_of(m.path.as_str()) {
                        Some(pp) => find_module_file(&c.modules, &pp),
                        None => None,
                    }
                };
                let entry = FileEntry {
                    mod_path: m.path.clone(),
                    parent_module_file: parent,
                    is_crate_root: m.path == c.name,
                };
                files.insert(WorkspaceRelativePath(m.file.clone()), entry);
            }
            mi = mi + 1;
        }
        assert(ms.take(ms.len() as int) =~= ms);
        ci = ci + 1;
    }
    assert(cs.take(cs.len() as int) =~= cs);
    files
}

// ── Laws ────────────────────────────────────────────────────────────────

/// Every canonical path listed under a name is a key of the symbols.
pub open spec fn listed_are_symbols(
    names: Map<Seq<char>, Seq<Seq<char>>>,
    syms: Map<Seq<char>, SymbolView>,
) -> bool {
    forall|n: Seq<char>, i: int|
        #![trigger names[n][i]]
        names.contains_key(n) && 0 <= i < names[n].len() ==> syms.contains_key(names[n][i])
}

/// Every key of the symbols is listed under some name.
pub open spec fn symbols_are_listed(
    names: Map<Seq<char>, Seq<Seq<char>>>,
    syms: Map<Seq<char>, SymbolView>,
) -> bool {
    forall|p: Seq<char>|
        #![trigger syms.contains_key(p)]
        syms.contains_key(p) ==> exists|n: Seq<char>, i: int|
            #![trigger names[n][i]]
            names.contains_key(n) && 0 <= i < names[n].len() && names[n][i] == p
}

/// Each name is listed with at least one canonical path.
pub open spec fn lists_nonempty(names: Map<Seq<char>, Seq<Seq<char>>>) -> bool {
    forall|n: Seq<char>| #[trigger] names.contains_key(n) ==> names[n].len() > 0
}

/// The name lists and the symbols describe the same items.
pub open spec fn index_agree(
    names: Map<Seq<char>, Seq<Seq<char>>>,
    syms: Map<Seq<char>, SymbolView>,
) -> bool {
    listed_are_symbols(names, syms) && symbols_are_listed(names, syms) && lists_nonempty(names)
}

proof fn lemma_item_agree(
    names: Map<Seq<char>, Seq<Seq<char>>>,
    syms: Map<Seq<char>, SymbolView>,
    c: Seq<char>,
    m: ModuleView,
    it: PublicItemView,
)
    requires
        index_agree(names, syms),
    ensures
        index_agree(name_step(m)(names, it), symbol_step(c, m)(syms, it)),
{
    let cp = canonical_text(m.path, it.name);
    let n2 = name_step(m)(names, it);
    let s2 = symbol_step(c, m)(syms, it);
    assert(n2 == add_name(names, it.name, cp));
    assert(s2 == syms.insert(cp, symbol_of(c, m, it)));
    assert forall|n: Seq<char>, i: int|
        #![trigger n2[n][i]]
        n2.contains_key(n) && 0 <= i < n2[n].len() implies s2.contains_key(n2[n][i]) by {
        if n == it.name {
            if names.contains_key(n) {
                assert(n2[n] == names[n].push(cp));
                if i < names[n].len() {
                    assert(n2[n][i] == names[n][i]);
                    assert(syms.contains_key(names[n][i]));
                }
            } else {
                assert(n2[n] == seq![cp]);
            }
        } else {
            assert(n2[n] == names[n]);
            assert(syms.contains_key(names[n][i]));
        }
    }
    assert forall|p: Seq<char>|
        #![trigger s2.contains_key(p)]
        s2.contains_key(p) implies exists|n: Seq<char>, i: int|
            #![trigger n2[n][i]]
            n2.contains_key(n) && 0 <= i < n2[n].len() && n2[n][i] == p by {
        if p == cp {
            assert(n2.contains_key(it.name));
            let k = n2[it.name].len() - 1;
            if names.contains_key(it.name) {
                assert(n2[it.name] == names[it.name].push(cp));
            } else {
                assert(n2[it.name] == seq![cp]);
            }
            assert(n2[it.name][k] == p);
        } else {
            assert(syms.contains_key(p));
            let (n, i) = choose|n: Seq<char>, i: int|
                #![trigger names[n][i]]
                names.contains_key(n) && 0 <= i < names[n].len() && names[n][i] == p;
            if n == it.name {
                assert(n2[n] == names[n].push(cp));
                assert(n2[n][i] == p);
            } else {
                assert(n2[n] == names[n]);
                assert(n2[n][i] == p);
            }
        }
    }
    assert forall|n: Seq<char>| #[trigger] n2.contains_key(n) implies n2[n].len() > 0 by {
        if n == it.name {
            if names.contains_key(n) {
                assert(n2[n] == names[n].push(cp));
            } else {
                assert(n2[n] == seq![cp]);
            }
        } else {
            assert(n2[n] == names[n]);
        }
    }
}

proof fn lemma_items_agree(
    items: Seq<PublicItemView>,
    names: Map<Seq<char>, Seq<Seq<char>>>,
    syms: Map<Seq<char>, SymbolView>,
    c: Seq<char>,
    m: ModuleView,
)
    requires
        index_agree(names, syms),
    ensures
        index_agree(items.fold_left(names, name_step(m)), items.fold_left(syms, symbol_step(c, m))),
    decreases items.len(),
{
    if items.len() > 0 {
        lemma_items_agree(items.drop_last(), names, syms, c, m);
        lemma_item_agree(
            items.drop_last().fold_left(names, name_step(m)),
            items.drop_last().fold_left(syms, symbol_step(c, m)),
            c,
            m,
            items.last(),
        );
    }
}

proof fn lemma_modules_agree(
    ms: Seq<ModuleView>,
    names: Map<Seq<char>, Seq<Seq<char>>>,
    syms: Map<Seq<char>, SymbolView>,
    c: Seq<char>,
)
    requires
        index_agree(names, syms),
    ensures
        index_agree(ms.fold_left(names, name_module_step()), ms.fold_left(syms, symbol_module_step(c))),
    decreases ms.len(),
{
    if ms.len() > 0 {
        lemma_modules_agree(ms.drop_last(), names, syms, c);
        let m = ms.last();
        lemma_items_agree(
            m.public_items,
            ms.drop_last().fold_left(names, name_module_step()),
            ms.drop_last().fold_left(syms, symbol_module_step(c)),
            c,
            m,
        );
    }
}

proof fn lemma_crates_agree(cs: Seq<CrateView>)
    ensures
        index_agree(names_of(cs), symbols_of(cs)),
    decreases cs.len(),
{
    if cs.len() == 0 {
        assert(index_agree(Map::empty(), Map::empty()));
    } else {
        lemma_crates_agree(cs.drop_last());
        let c = cs.last();
        lemma_modules_agree(c.modules, names_of(cs.drop_last()), symbols_of(cs.drop_last()), c.name);
    }
}

/// The name index and the symbols index describe the same items: every
/// canonical path that the name index lists under a name is a key of the
/// symbols index, every key of the symbols index is listed under some
/// name, and each name's list is non-empty and sorted.
pub proof fn law_name_index_matches_symbols(crates: Seq<CrateView>)
    ensures
        forall|n: Seq<char>, i: int|
            #![trigger name_index_of(crates)[n][i]]
            name_index_of(crates).contains_key(n) && 0 <= i < name_index_of(crates)[n].len()
                ==> symbols_of(crates).contains_key(name_index_of(crates)[n][i]),
        forall|p: Seq<char>|
            #![trigger symbols_of(crates).contains_key(p)]
            symbols_of(crates).contains_key(p) ==> exists|n: Seq<char>, i: int|
                #![trigger name_index_of(crates)[n][i]]
                name_index_of(crates).contains_key(n) && 0 <= i < name_index_of(crates)[n].len()
                    && name_index_of(crates)[n][i] == p,
        forall|n: Seq<char>|
            #[trigger] name_index_of(crates).contains_key(n) ==> name_index_of(crates)[n].len()
                == names_of(crates)[n].len() && names_of(crates)[n].len() > 0,
        forall|n: Seq<char>|
            #[trigger] name_index_of(crates).contains_key(n) ==> crate::sort::sorted_by(
                name_index_of(crates)[n],
                |t: Seq<char>| t,
            ),
{
    lemma_crates_agree(crates);
    let names = names_of(crates);
    let syms = symbols_of(crates);
    let idx = name_index_of(crates);
    assert forall|n: Seq<char>| #[trigger] idx.contains_key(n) implies idx[n] == sort_texts(names[n])
        && (forall|x: Seq<char>| idx[n].contains(x) <==> names[n].contains(x)) && idx[n].len()
        == names[n].len() && crate::sort::sorted_by(idx[n], |t: Seq<char>| t) by {
        crate::sort::lemma_sort_view_permutes(names[n], crate::sort::text_lt());
        crate::sort::lemma_sort_sorted(names[n], |t: Seq<char>| t);
        assert(crate::sort::key_lt_by(|t: Seq<char>| t) =~= crate::sort::text_lt());
    }
    assert forall|n: Seq<char>, i: int|
        #![trigger idx[n][i]]
        idx.contains_key(n) && 0 <= i < idx[n].len() implies syms.contains_key(idx[n][i]) by {
        assert(idx[n].contains(idx[n][i]));
        assert(names[n].contains(idx[n][i]));
        let j = choose|j: int| 0 <= j < names[n].len() && names[n][j] == idx[n][i];
        assert(syms.contains_key(names[n][j]));
    }
    assert forall|p: Seq<char>| #![trigger syms.contains_key(p)] syms.contains_key(p) implies exists|
        n: Seq<char>,
        i: int,
    | #![trigger idx[n][i]] idx.contains_key(n) && 0 <= i < idx[n].len() && idx[n][i] == p by {
        let (n, i) = choose|n: Seq<char>, i: int|
            #![trigger names[n][i]]
            names.contains_key(n) && 0 <= i < names[n].len() && names[n][i] == p;
        assert(idx.contains_key(n));
        assert(names[n].contains(p));
        assert(idx[n].contains(p));
        let j = choose|j: int| 0 <= j < idx[n].len() && idx[n][j] == p;
        assert(idx[n][j] == p);
    }
}

/// Every key of `files` is the resolved file of some module of `crates`,
/// and its entry names the path of such a module and marks the file a
/// crate root exactly when that path is the name of the module's crate.
pub open spec fn files_agree(files: Map<Seq<char>, FileEntryView>, crates: Seq<CrateView>) -> bool {
    forall|f: Seq<char>|
        #[trigger] files.contains_key(f) ==> f != unresolved_text() && exists|i: int, j: int|
            0 <= i < crates.len() && 0 <= j < crates[i].modules.len() && #[trigger] crates[i].modules[j].file
                == f && crates[i].modules[j].path == files[f].mod_path && (files[f].is_crate_root
                <==> files[f].mod_path == crates[i].name)
}

proof fn lemma_files_modules(
    ms: Seq<ModuleView>,
    acc: Map<Seq<char>, FileEntryView>,
    crates: Seq<CrateView>,
    ci: int,
)
    requires
        0 <= ci < crates.len(),
        ms.len() <= crates[ci].modules.len(),
        ms == crates[ci].modules.take(ms.len() as int),
        files_agree(acc, crates),
    ensures
        files_agree(ms.fold_left(acc, file_step(crates[ci])), crates),
    decreases ms.len(),
{
    if ms.len() > 0 {
        let k = ms.len() - 1;
        assert(ms.drop_last() =~= crates[ci].modules.take(k));
        lemma_files_modules(ms.drop_last(), acc, crates, ci);
        let a = ms.drop_last().fold_left(acc, file_step(crates[ci]));
        let m = ms.last();
        assert(m == crates[ci].modules[k]);
        let r = add_file(a, crates[ci], m);
        assert forall|f: Seq<char>| #[trigger] r.contains_key(f) implies f != unresolved_text()
            && exists|i: int, j: int|
            0 <= i < crates.len() && 0 <= j < crates[i].modules.len()
                && #[trigger] crates[i].modules[j].file == f && crates[i].modules[j].path
                == r[f].mod_path && (r[f].is_crate_root <==> r[f].mod_path == crates[i].name) by {
            if !(m.file == unresolved_text() || a.contains_key(m.file)) && f == m.file {
                assert(crates[ci].modules[k].file == f);
            } else {
                assert(a.contains_key(f));
                assert(r[f] == a[f]);
            }
        }
    }
}

proof fn lemma_files_crates(cs: Seq<CrateView>, crates: Seq<CrateView>)
    requires
        cs.len() <= crates.len(),
        cs == crates.take(cs.len() as int),
    ensures
        files_agree(cs.fold_left(Map::empty(), file_crate_step()), crates),
    decreases cs.len(),
{
    if cs.len() > 0 {
        let k = cs.len() - 1;
        assert(cs.drop_last() =~= crates.take(k));
        lemma_files_crates(cs.drop_last(), crates);
        assert(cs.last() == crates[k]);
        assert(crates[k].modules.take(crates[k].modules.len() as int) =~= crates[k].modules);
        lemma_files_modules(
            crates[k].modules,
            cs.drop_last().fold_left(Map::empty(), file_crate_step()),
            crates,
            k,
        );
    }
}

/// The files index holds only resolved module files: each key is the file
/// of some module of the crates, never the unresolved marker; its entry
/// names the path of such a module, and marks the file a crate root
/// exactly when that path is the name of the module's crate.
pub proof fn law_files_are_module_files(crates: Seq<CrateView>)
    ensures
        files_agree(files_of(crates), crates),
{
    assert(crates.take(crates.len() as int) =~= crates);
    lemma_files_crates(crates, crates);
}

/// Every key of `syms` is `module::name` for a public item of a module of
/// `crates`, and its entry gives that item's crate, module path, file,
/// line, kind and derived names.
pub open spec fn symbols_agree(syms: Map<Seq<char>, SymbolView>, crates: Seq<CrateView>) -> bool {
    forall|p: Seq<char>|
        #[trigger] syms.contains_key(p) ==> exists|i: int, j: int, t: int|
            #![trigger crates[i].modules[j].public_items[t]]
            0 <= i < crates.len() && 0 <= j < crates[i].modules.len() && 0 <= t
                < crates[i].modules[j].public_items.len() && {
                let m = crates[i].modules[j];
                let it = m.public_items[t];
                &&& p == m.path + "::"@ + it.name
                &&& syms[p].crate_name == crates[i].name
                &&& syms[p].module == m.path
                &&& syms[p].file == m.file
                &&& syms[p].line == it.line
                &&& syms[p].kind == it.kind
                &&& syms[p].derive_attrs == it.attrs.derive
            }
}

proof fn lemma_syms_items(
    its: Seq<PublicItemView>,
    acc: Map<Seq<char>, SymbolView>,
    crates: Seq<CrateView>,
    ci: int,
    mj: int,
)
    requires
        0 <= ci < crates.len(),
        0 <= mj < crates[ci].modules.len(),
        its.len() <= crates[ci].modules[mj].public_items.len(),
        its == crates[ci].modules[mj].public_items.take(its.len() as int),
        symbols_agree(acc, crates),
    ensures
        symbols_agree(its.fold_left(acc, symbol_step(crates[ci].name, crates[ci].modules[mj])), crates),
    decreases its.len(),
{
    if its.len() > 0 {
        let k = its.len() - 1;
        let m = crates[ci].modules[mj];
        assert(its.drop_last() =~= m.public_items.take(k));
        lemma_syms_items(its.drop_last(), acc, crates, ci, mj);
        let a = its.drop_last().fold_left(acc, symbol_step(crates[ci].name, m));
        let it = its.last();
        assert(it == m.public_items[k]);
        let cp = canonical_text(m.path, it.name);
        let r = a.insert(cp, symbol_of(crates[ci].name, m, it));
        assert(its.fold_left(acc, symbol_step(crates[ci].name, m)) == r);
        reveal_strlit("::");
        assert(cp == m.path + "::"@ + it.name);
        assert forall|p: Seq<char>| #[trigger] r.contains_key(p) implies exists|i: int, j: int, t: int|
            #![trigger crates[i].modules[j].public_items[t]]
            0 <= i < crates.len() && 0 <= j < crates[i].modules.len() && 0 <= t
                < crates[i].modules[j].public_items.len() && {
                let m2 = crates[i].modules[j];
                let it2 = m2.public_items[t];
                &&& p == m2.path + "::"@ + it2.name
                &&& r[p].crate_name == crates[i].name
                &&& r[p].module == m2.path
                &&& r[p].file == m2.file
                &&& r[p].line == it2.line
                &&& r[p].kind == it2.kind
                &&& r[p].derive_attrs == it2.attrs.derive
            } by {
            if p == cp {
                assert(crates[ci].modules[mj].public_items[k] == it);
            } else {
                assert(a.contains_key(p));
                assert(r[p] == a[p]);
            }
        }
    }
}

proof fn lemma_syms_modules(
    ms: Seq<ModuleView>,
    acc: Map<Seq<char>, SymbolView>,
    crates: Seq<CrateView>,
    ci: int,
)
    requires
        0 <= ci < crates.len(),
        ms.len() <= crates[ci].modules.len(),
        ms == crates[ci].modules.take(ms.len() as int),
        symbols_agree(acc, crates),
    ensures
        symbols_agree(ms.fold_left(acc, symbol_module_step(crates[ci].name)), crates),
    decreases ms.len(),
{
    if ms.len() > 0 {
        let k = ms.len() - 1;
        assert(ms.drop_last() =~= crates[ci].modules.take(k));
        lemma_syms_modules(ms.drop_last(), acc, crates, ci);
        let a = ms.drop_last().fold_left(acc, symbol_module_step(crates[ci].name));
        assert(ms.last() == crates[ci].modules[k]);
        let its = crates[ci].modules[k].public_items;
        assert(its.take(its.len() as int) =~= its);
        lemma_syms_items(its, a, crates, ci, k);
    }
}

proof fn lemma_syms_crates(cs: Seq<CrateView>, crates: Seq<CrateView>)
    requires
        cs.len() <= crates.len(),
        cs == crates.take(cs.len() as int),
    ensures
        symbols_agree(cs.fold_left(Map::empty(), symbol_crate_step()), crates),
    decreases cs.len(),
{
    if cs.len() > 0 {
        let k = cs.len() - 1;
        assert(cs.drop_last() =~= crates.take(k));
        lemma_syms_crates(cs.drop_last(), crates);
        assert(cs.last() == crates[k]);
        assert(crates[k].modules.take(crates[k].modules.len() as int) =~= crates[k].modules);
        lemma_syms_modules(
            crates[k].modules,
            cs.drop_last().fold_left(Map::empty(), symbol_crate_step()),
            crates,
            k,
        );
    }
}

/// The symbols index describes public items as they are: each key is
/// `module::name` of a public item of some module of the crates, and its
/// entry gives that item's crate name, module path, file, line, kind and
/// derived names.
pub proof fn law_symbols_describe_items(crates: Seq<CrateView>)
    ensures
        symbols_agree(symbols_of(crates), crates),
{
    assert(crates.take(crates.len() as int) =~= crates);
    lemma_syms_crates(crates, crates);
}

} // verus!
