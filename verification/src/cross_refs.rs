//! Cross-crate references: which crate exports each public item, which
//! modules of other crates import it, and each crate's imports from the
//! other crates of the workspace.
use vstd::prelude::*;
use crate::indexes::canonical_text;
use crate::ordered_map::{OrderedMap, TextKey, sorted_seq_of};
use crate::schema::{CrateInfo, CrateView, CrossCrateImport, CrossCrateImportView, CrossReferences,
    ImportView, ItemKind, ModuleView, PublicItem, PublicItemView, TypeRef, TypeRefView};
use crate::sort::{SortKey, sort_by_key, sort_view_by, stable_sort, views_of, lemma_sort_views};
use crate::text::{concat3, first_segment, first_segment_of, join_path, last_segment,
    last_segment_of, owned, seq_lt, str_eq, str_lt, vec_contains_text};

verus! {

// ── Specification ───────────────────────────────────────────────────────

/// The short text of an item kind.
pub open spec fn kind_text(k: ItemKind) -> Seq<char> {
    match k {
        ItemKind::Struct => "struct"@,
        ItemKind::Enum => "enum"@,
        ItemKind::Trait => "trait"@,
        ItemKind::Fn => "fn"@,
        ItemKind::Type => "type"@,
        ItemKind::Macro => "macro"@,
    }
}

/// The key of item `it` of module `m` in the cross references: its
/// canonical path, or its bare name in a module with an empty path.
pub open spec fn export_key(m: ModuleView, it: PublicItemView) -> Seq<char> {
    if m.path.len() == 0 {
        it.name
    } else {
        canonical_text(m.path, it.name)
    }
}

/// The exports of one module appended to `acc`.
pub open spec fn export_module_step() -> spec_fn(Seq<(Seq<char>, Seq<char>)>, ModuleView) -> Seq<
    (Seq<char>, Seq<char>),
> {
    |acc: Seq<(Seq<char>, Seq<char>)>, m: ModuleView|
        acc + m.public_items.map_values(
            |it: PublicItemView| (export_key(m, it), kind_text(it.kind)),
        )
}

/// The key and kind text of each public item of crate `c`, in order.
pub open spec fn export_items(c: CrateView) -> Seq<(Seq<char>, Seq<char>)> {
    c.modules.fold_left(Seq::empty(), export_module_step())
}

/// Entering one crate's exports, by crate name.
pub open spec fn exports_step() -> spec_fn(
    Map<Seq<char>, Seq<(Seq<char>, Seq<char>)>>,
    CrateView,
) -> Map<Seq<char>, Seq<(Seq<char>, Seq<char>)>> {
    |a: Map<Seq<char>, Seq<(Seq<char>, Seq<char>)>>, c: CrateView| a.insert(c.name, export_items(c))
}

/// The exports of each crate, by crate name (of two crates with one name,
/// the later one counts).
pub open spec fn exports_of(crates: Seq<CrateView>) -> Map<
    Seq<char>,
    Seq<(Seq<char>, Seq<char>)>,
> {
    crates.fold_left(Map::empty(), exports_step())
}

/// A cross reference of crate `crate_name` for an item of kind `kind`,
/// imported and exported by nobody yet.
pub open spec fn new_type_ref(crate_name: Seq<char>, kind: Seq<char>) -> TypeRefView {
    TypeRefView {
        crate_name: crate_name,
        kind: kind,
        imported_by: Seq::empty(),
        exported_by: Seq::empty(),
    }
}

/// Recording that crate `crate_name` exports the item `e` (its key and
/// kind): the first crate to export a key defines its entry, and each
/// exporting crate is listed once.
pub open spec fn export_step(crate_name: Seq<char>) -> spec_fn(
    Map<Seq<char>, TypeRefView>,
    (Seq<char>, Seq<char>),
) -> Map<Seq<char>, TypeRefView> {
    |a: Map<Seq<char>, TypeRefView>, e: (Seq<char>, Seq<char>)|
        {
            let r = if a.contains_key(e.0) {
                a[e.0]
            } else {
                new_type_ref(crate_name, e.1)
            };
            if r.exported_by.contains(crate_name) {
                a.insert(e.0, r)
            } else {
                a.insert(e.0, TypeRefView { exported_by: r.exported_by.push(crate_name), ..r })
            }
        }
}

/// Recording the exports of the crate named `cn`.
pub open spec fn export_crate_step(ex: Map<Seq<char>, Seq<(Seq<char>, Seq<char>)>>) -> spec_fn(
    Map<Seq<char>, TypeRefView>,
    Seq<char>,
) -> Map<Seq<char>, TypeRefView> {
    |a: Map<Seq<char>, TypeRefView>, cn: Seq<char>| ex[cn].fold_left(a, export_step(cn))
}

/// The cross references before imports are recorded: the crates' exports,
/// taken crate by crate in the order of their names.
pub open spec fn exported_types(crates: Seq<CrateView>) -> Map<Seq<char>, TypeRefView> {
    let ex = exports_of(crates);
    sorted_seq_of(ex.dom()).fold_left(Map::empty(), export_crate_step(ex))
}

/// The crate that an import at `path` in crate `my_name` targets: the
/// first segment of the path, when it names another exporting crate.
pub open spec fn import_target(
    path: Seq<char>,
    ex: Map<Seq<char>, Seq<(Seq<char>, Seq<char>)>>,
    my_name: Seq<char>,
) -> Option<Seq<char>> {
    let f = first_segment(path);
    if f.len() == 0 || f == "*"@ {
        None
    } else if ex.contains_key(f) && f != my_name {
        Some(f)
    } else {
        None
    }
}

/// The cross-crate import of `path`, targeting `target`, at `line`.
pub open spec fn cross_import_of(path: Seq<char>, target: Seq<char>, line: usize) -> CrossCrateImportView {
    CrossCrateImportView {
        import_path: path,
        target_crate: target,
        symbol: last_segment(path),
        line: line,
    }
}

/// Appending the cross-crate import that `imp` makes, if it makes one.
pub open spec fn import_list_step(
    ex: Map<Seq<char>, Seq<(Seq<char>, Seq<char>)>>,
    my_name: Seq<char>,
) -> spec_fn(Seq<CrossCrateImportView>, ImportView) -> Seq<CrossCrateImportView> {
    |acc: Seq<CrossCrateImportView>, imp: ImportView|
        match import_target(imp.path, ex, my_name) {
            Some(t) => acc.push(cross_import_of(imp.path, t, imp.line)),
            None => acc,
        }
}

/// The imports of one module of crate `my_name`, appended.
pub open spec fn import_list_module_step(
    ex: Map<Seq<char>, Seq<(Seq<char>, Seq<char>)>>,
    my_name: Seq<char>,
) -> spec_fn(Seq<CrossCrateImportView>, ModuleView) -> Seq<CrossCrateImportView> {
    |acc: Seq<CrossCrateImportView>, m: ModuleView|
        m.imports.fold_left(acc, import_list_step(ex, my_name))
}

/// The cross-crate imports that crate `c` makes, in order.
pub open spec fn crate_import_list(
    ex: Map<Seq<char>, Seq<(Seq<char>, Seq<char>)>>,
    c: CrateView,
) -> Seq<CrossCrateImportView> {
    c.modules.fold_left(Seq::empty(), import_list_module_step(ex, c.name))
}

/// Cross-crate imports ordered by import path.
pub open spec fn cross_import_lt() -> spec_fn(CrossCrateImportView, CrossCrateImportView) -> bool {
    |a: CrossCrateImportView, b: CrossCrateImportView| seq_lt(a.import_path, b.import_path)
}

/// The label of module `mp` of crate `my_name` in an `imported_by` list.
pub open spec fn importer_label(my_name: Seq<char>, mp: Seq<char>) -> Seq<char> {
    my_name + ":"@ + mp
}

/// The key of the cross references that an import at `path` names: the
/// path itself when it is a key (an item of a module with a path), else
/// the imported symbol, the path's last segment, when that is a key (an
/// item of a module with an empty path).
pub open spec fn import_key(a: Map<Seq<char>, TypeRefView>, path: Seq<char>) -> Option<Seq<char>> {
    if a.contains_key(path) {
        Some(path)
    } else if a.contains_key(last_segment(path)) {
        Some(last_segment(path))
    } else {
        None
    }
}

/// Recording that module `mp` of crate `my_name` imports `imp`: when the
/// import targets another crate and names a key of the cross references,
/// the module is listed once among the key's importers.
pub open spec fn import_type_step(
    ex: Map<Seq<char>, Seq<(Seq<char>, Seq<char>)>>,
    my_name: Seq<char>,
    mp: Seq<char>,
) -> spec_fn(Map<Seq<char>, TypeRefView>, ImportView) -> Map<Seq<char>, TypeRefView> {
    |a: Map<Seq<char>, TypeRefView>, imp: ImportView|
        match import_key(a, imp.path) {
            Some(k) => if import_target(imp.path, ex, my_name) is Some {
                let r = a[k];
                let l = importer_label(my_name, mp);
                if r.imported_by.contains(l) {
                    a
                } else {
                    a.insert(k, TypeRefView { imported_by: r.imported_by.push(l), ..r })
                }
            } else {
                a
            },
            None => a,
        }
}

/// Recording the imports of one module of crate `my_name`.
pub open spec fn import_type_module_step(
    ex: Map<Seq<char>, Seq<(Seq<char>, Seq<char>)>>,
    my_name: Seq<char>,
) -> spec_fn(Map<Seq<char>, TypeRefView>, ModuleView) -> Map<Seq<char>, TypeRefView> {
    |a: Map<Seq<char>, TypeRefView>, m: ModuleView|
        m.imports.fold_left(a, import_type_step(ex, my_name, m.path))
}

/// Recording the imports of one crate.
pub open spec fn import_type_crate_step(ex: Map<Seq<char>, Seq<(Seq<char>, Seq<char>)>>) -> spec_fn(
    Map<Seq<char>, TypeRefView>,
    CrateView,
) -> Map<Seq<char>, TypeRefView> {
    |a: Map<Seq<char>, TypeRefView>, c: CrateView|
        c.modules.fold_left(a, import_type_module_step(ex, c.name))
}

/// The cross references of `crates`: the exports, then the imports of each
/// crate in order.
pub open spec fn types_of(crates: Seq<CrateView>) -> Map<Seq<char>, TypeRefView> {
    crates.fold_left(exported_types(crates), import_type_crate_step(exports_of(crates)))
}

/// Crate `c` of `crates` with its cross-crate imports filled in, sorted by
/// import path.
pub open spec fn crate_with_imports(crates: Seq<CrateView>, c: CrateView) -> CrateView {
    CrateView {
        cross_crate_imports: sort_view_by(
            crate_import_list(exports_of(crates), c),
            cross_import_lt(),
        ),
        ..c
    }
}

// ── Implementation ──────────────────────────────────────────────────────

proof fn lemma_fold_step<A, B>(s: Seq<A>, i: int, b: B, f: spec_fn(B, A) -> B)
    requires
        0 <= i < s.len(),
    ensures
        s.take(i + 1).fold_left(b, f) == f(s.take(i).fold_left(b, f), s[i]),
{
    assert(s.take(i + 1).drop_last() =~= s.take(i));
}

impl SortKey for CrossCrateImport {
    open spec fn key_lt(&self, other: &Self) -> bool {
        seq_lt(self.import_path@, other.import_path@)
    }

    fn key_before(&self, other: &Self) -> (r: bool) {
        str_lt(self.import_path.as_str(), other.import_path.as_str())
    }
}

impl PublicItem {
    /// The short text of the item's kind, as the cross references give it.
    pub fn kind_to_string(&self) -> (r: String)
        ensures
            r@ == kind_text(self.kind),
    {
        match self.kind {
            ItemKind::Struct => owned("struct"),
            ItemKind::Enum => owned("enum"),
            ItemKind::Trait => owned("trait"),
            ItemKind::Fn => owned("fn"),
            ItemKind::Type => owned("type"),
            ItemKind::Macro => owned("macro"),
        }
    }
}

/// The key and kind text of each public item of `c`, in order.
fn crate_exports(c: &CrateInfo) -> (r: Vec<(String, String)>)
    ensures
        r.deep_view() == export_items(c.deep_view()),
{
    let ghost cv = c.deep_view();
    let ghost ms = cv.modules;
    let mut r: Vec<(String, String)> = Vec::new();
    let mut mi: usize = 0;
    assert(ms.take(0) =~= Seq::<ModuleView>::empty());
    while mi < c.modules.len()
        invariant
            cv == c.deep_view(),
            ms == cv.modules,
            0 <= mi <= ms.len(),
            r.deep_view() == ms.take(mi as int).fold_left(Seq::empty(), export_module_step()),
        decreases ms.len() - mi,
    {
        let m = &c.modules[mi];
        let ghost mv = m.deep_view();
        assert(ms[mi as int] == mv);
        proof {
            lemma_fold_step(ms, mi as int, Seq::empty(), export_module_step());
        }
        let ghost r0 = r.deep_view();
        let ghost f = |it: PublicItemView| (export_key(mv, it), kind_text(it.kind));
        let mut ii: usize = 0;
        while ii < m.public_items.len()
            invariant
                mv == m.deep_view(),
                0 <= ii <= mv.public_items.len(),
                f == (|it: PublicItemView| (export_key(mv, it), kind_text(it.kind))),
                r.deep_view() == r0 + mv.public_items.take(ii as int).map_values(f),
            decreases mv.public_items.len() - ii,
        {
            let it = &m.public_items[ii];
            assert(mv.public_items[ii as int] == it.deep_view());
            let key = if m.path.as_str().is_empty() {
                it.name.clone()
            } else {
                join_path(m.path.as_str(), it.name.as_str())
            };
            let kind = it.kind_to_string();
            let ghost prev = r.deep_view();
            r.push((key, kind));
            assert(r.deep_view() =~= prev.push((key@, kind@)));
            assert(mv.public_items.take(ii + 1).map_values(f) =~= mv.public_items.take(
                ii as int,
            ).map_values(f).push(f(mv.public_items[ii as int])));
            ii = ii + 1;
        }
        assert(mv.public_items.take(mv.public_items.len() as int) =~= mv.public_items);
        mi = mi + 1;
    }
    assert(ms.take(ms.len() as int) =~= ms);
    r
}

/// Records that crate `cn` exports the item with key `key` and kind `kind`.
fn record_export(types: &mut OrderedMap<String, TypeRef>, cn: &String, key: &String, kind: &String)
    ensures
        final(types)@ == export_step(cn@)(old(types)@, (key@, kind@)),
{
    let mut r = match types.get(key) {
        Some(r) => r.clone(),
        None => TypeRef {
            crate_name: cn.clone(),
            kind: kind.clone(),
            imported_by: Vec::new(),
            exported_by: Vec::new(),
        },
    };
    let ghost rv = r.deep_view();
    assert(rv == (if old(types)@.contains_key(key@) {
        old(types)@[key@]
    } else {
        new_type_ref(cn@, kind@)
    })) by {
        if !old(types)@.contains_key(key@) {
            assert(r.imported_by.deep_view() =~= Seq::<Seq<char>>::empty());
            assert(r.exported_by.deep_view() =~= Seq::<Seq<char>>::empty());
        }
    }
    if !vec_contains_text(&r.exported_by, cn.as_str()) {
        let ghost prev = r.exported_by.deep_view();
        r.exported_by.push(cn.clone());
        assert(r.exported_by.deep_view() =~= prev.push(cn@));
    }
    types.insert(key.clone(), r);
}

/// Records the imports of module `m` of crate `my_name`: appends its
/// cross-crate imports to `list` and lists it among the importers of their
/// targets.
fn record_module_imports(
    types: &mut OrderedMap<String, TypeRef>,
    list: &mut Vec<CrossCrateImport>,
    exports: &OrderedMap<String, Vec<(String, String)>>,
    my_name: &String,
    m: &crate::schema::ModuleInfo,
)
    ensures
        final(types)@ == m.deep_view().imports.fold_left(
            old(types)@,
            import_type_step(exports@, my_name@, m.path@),
        ),
        final(list).deep_view() == m.deep_view().imports.fold_left(
            old(list).deep_view(),
            import_list_step(exports@, my_name@),
        ),
{
    let ghost mv = m.deep_view();
    let ghost ims = mv.imports;
    let ghost t0 = types@;
    let ghost l0 = list.deep_view();
    let mut i: usize = 0;
    assert(ims.take(0) =~= Seq::<ImportView>::empty());
    while i < m.imports.len()
        invariant
            mv == m.deep_view(),
            ims == mv.imports,
            0 <= i <= ims.len(),
            types@ == ims.take(i as int).fold_left(t0, import_type_step(exports@, my_name@, mv.path)),
            list.deep_view() == ims.take(i as int).fold_left(l0, import_list_step(exports@, my_name@)),
        decreases ims.len() - i,
    {
        let imp = &m.imports[i];
        assert(ims[i as int] == imp.deep_view());
        proof {
            lemma_fold_step(ims, i as int, t0, import_type_step(exports@, my_name@, mv.path));
            lemma_fold_step(ims, i as int, l0, import_list_step(exports@, my_name@));
        }
        let first_seg = first_segment_of(imp.path.as_str());
        let ghost target = import_target(imp.path@, exports@, my_name@);
        if first_seg.as_str().is_empty() || str_eq(first_seg.as_str(), "*") {
            assert(target is None);
        } else if exports.contains_key(&first_seg) && first_seg != *my_name {
            assert(target == Some(first_seg@));
            let symbol = last_segment_of(imp.path.as_str());
            let symbol_key = symbol.clone();
            let ghost prev = list.deep_view();
            let cci = CrossCrateImport {
                import_path: imp.path.clone(),
                target_crate: first_seg,
                symbol,
                line: imp.line,
            };
            list.push(cci);
            assert(list.deep_view() =~= prev.push(cci.deep_view()));
            let found = match types.position(&imp.path) {
                Some(p) => Some(p),
                None => types.position(&symbol_key),
            };
            match found {
                Some(p) => {
                    proof {
                        use_type_invariant(&*types);
                        types.lemma_at(p as int);
                    }
                    let label = concat3(my_name.as_str(), ":", m.path.as_str());
                    let mut r = types.value_at(p).clone();
                    if !vec_contains_text(&r.imported_by, label.as_str()) {
                        let ghost prevb = r.imported_by.deep_view();
                        r.imported_by.push(label);
                        assert(r.imported_by.deep_view() =~= prevb.push(label@));
                        types.set_value_at(p, r);
                    }
                },
                None => {},
            }
        } else {
            assert(target is None);
        }
        i = i + 1;
    }
    assert(ims.take(ims.len() as int) =~= ims);
}

/// Compute cross-crate type references.
///
/// Every public item of every crate is entered in the returned cross
/// references under its canonical path (its bare name in a module whose
/// path is empty), with the crate that first exports it (crates taken in
/// the order of their names), its kind and the crates that export it.
/// Every import whose first segment names another crate of the workspace
/// becomes a cross-crate import of the importing crate, sorted by import
/// path, and lists the importing module among the importers of the key
/// it names: the key equal to the import's path, else the key equal to
/// the imported symbol.
pub fn compute(crates: &mut Vec<CrateInfo>) -> (r: CrossReferences)
    ensures
        final(crates)@.len() == old(crates)@.len(),
        forall|i: int|
            0 <= i < old(crates)@.len() ==> #[trigger] final(crates)@[i].deep_view()
                == crate_with_imports(old(crates).deep_view(), old(crates).deep_view()[i]),
        r.types@ == types_of(old(crates).deep_view()),
{
    let ghost cs = crates.deep_view();
    // Each crate's exports, by crate name.
    let mut exports: OrderedMap<String, Vec<(String, String)>> = OrderedMap::new();
    let mut ci: usize = 0;
    assert(cs.take(0) =~= Seq::<CrateView>::empty());
    while ci < crates.len()
        invariant
            cs == crates.deep_view(),
            0 <= ci <= cs.len(),
            exports@ == cs.take(ci as int).fold_left(Map::empty(), exports_step()),
        decreases cs.len() - ci,
    {
        let c = &crates[ci];
        assert(cs[ci as int] == c.deep_view());
        proof {
            lemma_fold_step(cs, ci as int, Map::empty(), exports_step());
        }
        let items = crate_exports(c);
        exports.insert(c.name.clone(), items);
        ci = ci + 1;
    }
    assert(cs.take(cs.len() as int) =~= cs);
    let ghost ex = exports@;
    // The exports, crate by crate in the order of crate names.
    let mut types: OrderedMap<String, TypeRef> = OrderedMap::new();
    let ghost order = exports.texts();
    proof {
        use_type_invariant(&exports);
        exports.lemma_texts_sorted();
    }
    let n = exports.len();
    let mut k: usize = 0;
    assert(order.take(0) =~= Seq::<Seq<char>>::empty());
    while k < n
        invariant
            ex == exports@,
            order == exports.texts(),
            n == order.len(),
            0 <= k <= n,
            types@ == order.take(k as int).fold_left(Map::empty(), export_crate_step(ex)),
        decreases n - k,
    {
        proof {
            use_type_invariant(&exports);
            exports.lemma_at(k as int);
            lemma_fold_step(order, k as int, Map::empty(), export_crate_step(ex));
        }
        let cn = exports.key_at(k);
        let items = exports.value_at(k);
        let ghost its = items.deep_view();
        let ghost t0 = types@;
        let mut j: usize = 0;
        assert(its.take(0) =~= Seq::<(Seq<char>, Seq<char>)>::empty());
        while j < items.len()
            invariant
                its == items.deep_view(),
                0 <= j <= its.len(),
                types@ == its.take(j as int).fold_left(t0, export_step(cn@)),
            decreases its.len() - j,
        {
            proof {
                lemma_fold_step(its, j as int, t0, export_step(cn@));
            }
            let e = &items[j];
            assert(its[j as int] == (e.0@, e.1@));
            record_export(&mut types, cn, &e.0, &e.1);
            j = j + 1;
        }
        assert(its.take(its.len() as int) =~= its);
        k = k + 1;
    }
    assert(order.take(order.len() as int) =~= order);
    // The imports of each crate.
    let ghost tf = |a: Map<Seq<char>, TypeRefView>, c: CrateView| c.modules.fold_left(
        a,
        import_type_module_step(ex, c.name),
    );
    let ghost t_start = types@;
    let mut ci: usize = 0;
    assert(cs.take(0) =~= Seq::<CrateView>::empty());
    while ci < crates.len()
        invariant
            ex == exports@,
            ex == exports_of(cs),
            crates@.len() == cs.len(),
            0 <= ci <= cs.len(),
            forall|i: int| ci <= i < cs.len() ==> #[trigger] crates@[i].deep_view() == cs[i],
            forall|i: int|
                0 <= i < ci ==> #[trigger] crates@[i].deep_view() == crate_with_imports(cs, cs[i]),
            types@ == cs.take(ci as int).fold_left(t_start, import_type_crate_step(ex)),
        decreases cs.len() - ci,
    {
        proof {
            lemma_fold_step(cs, ci as int, t_start, import_type_crate_step(ex));
        }
        let mut list: Vec<CrossCrateImport> = Vec::new();
        {
            let c = &crates[ci];
            let ghost cv = c.deep_view();
            assert(cv == cs[ci as int]);
            let ghost ms = cv.modules;
            let ghost ta = types@;
            let mut mi: usize = 0;
            assert(ms.take(0) =~= Seq::<ModuleView>::empty());
            assert(list.deep_view() =~= Seq::<CrossCrateImportView>::empty());
            while mi < c.modules.len()
                invariant
                    cv == c.deep_view(),
                    ms == cv.modules,
                    ex == exports@,
                    0 <= mi <= ms.len(),
                    types@ == ms.take(mi as int).fold_left(ta, import_type_module_step(ex, cv.name)),
                    list.deep_view() == ms.take(mi as int).fold_left(
                        Seq::empty(),
                        import_list_module_step(ex, cv.name),
                    ),
                decreases ms.len() - mi,
            {
                assert(ms[mi as int] == c.modules@[mi as int].deep_view());
                proof {
                    lemma_fold_step(ms, mi as int, ta, import_type_module_step(ex, cv.name));
                    lemma_fold_step(ms, mi as int, Seq::empty(), import_list_module_step(ex, cv.name));
                }
                record_module_imports(&mut types, &mut list, &exports, &c.name, &c.modules[mi]);
                mi = mi + 1;
            }
            assert(ms.take(ms.len() as int) =~= ms);
        }
        let ghost raw = list@;
        let ghost cv = cs[ci as int];
        assert(list.deep_view() == crate_import_list(ex, cv));
        let sorted = stable_sort(list);
        proof {
            lemma_sort_views(raw, cross_import_lt());
            assert(views_of(raw) =~= list.deep_view());
            assert(views_of(sort_by_key(raw)) =~= sorted.deep_view());
        }
        crates[ci].cross_crate_imports = sorted;
        proof {
            assert(crates@[ci as int].cross_crate_imports.deep_view() == sort_view_by(
                crate_import_list(ex, cv),
                cross_import_lt(),
            ));
            assert(crates@[ci as int].deep_view() =~= crate_with_imports(cs, cs[ci as int]));
        }
        ci = ci + 1;
    }
    assert(cs.take(cs.len() as int) =~= cs);
    CrossReferences { types }
}

// ── Laws ────────────────────────────────────────────────────────────────

/// Every import in `acc` targets a workspace crate other than `my_name`.
pub open spec fn targets_others(
    acc: Seq<CrossCrateImportView>,
    ex: Map<Seq<char>, Seq<(Seq<char>, Seq<char>)>>,
    my_name: Seq<char>,
) -> bool {
    forall|i: int|
        0 <= i < acc.len() ==> (#[trigger] acc[i]).target_crate != my_name && ex.contains_key(
            acc[i].target_crate,
        )
}

proof fn lemma_import_list_targets(
    imps: Seq<ImportView>,
    acc: Seq<CrossCrateImportView>,
    ex: Map<Seq<char>, Seq<(Seq<char>, Seq<char>)>>,
    my_name: Seq<char>,
)
    requires
        targets_others(acc, ex, my_name),
    ensures
        targets_others(imps.fold_left(acc, import_list_step(ex, my_name)), ex, my_name),
    decreases imps.len(),
{
    if imps.len() > 0 {
        lemma_import_list_targets(imps.drop_last(), acc, ex, my_name);
        let a = imps.drop_last().fold_left(acc, import_list_step(ex, my_name));
        let imp = imps.last();
        match import_target(imp.path, ex, my_name) {
            Some(t) => {
                let r = a.push(cross_import_of(imp.path, t, imp.line));
                assert forall|i: int| 0 <= i < r.len() implies (#[trigger] r[i]).target_crate
                    != my_name && ex.contains_key(r[i].target_crate) by {
                    if i < a.len() {
                        assert(r[i] == a[i]);
                    }
                }
            },
            None => {},
        }
    }
}

proof fn lemma_crate_import_targets(
    ms: Seq<ModuleView>,
    ex: Map<Seq<char>, Seq<(Seq<char>, Seq<char>)>>,
    my_name: Seq<char>,
)
    ensures
        targets_others(ms.fold_left(Seq::empty(), import_list_module_step(ex, my_name)), ex, my_name),
    decreases ms.len(),
{
    if ms.len() > 0 {
        lemma_crate_import_targets(ms.drop_last(), ex, my_name);
        lemma_import_list_targets(
            ms.last().imports,
            ms.drop_last().fold_left(Seq::empty(), import_list_module_step(ex, my_name)),
            ex,
            my_name,
        );
    }
}

/// The cross-crate imports recorded for crate `c` are sorted by import
/// path, and each targets another crate of the workspace.
pub proof fn law_cross_imports(crates: Seq<CrateView>, c: CrateView)
    ensures
        crate::sort::sorted_by(
            crate_with_imports(crates, c).cross_crate_imports,
            |x: CrossCrateImportView| x.import_path,
        ),
        forall|i: int|
            0 <= i < crate_with_imports(crates, c).cross_crate_imports.len() ==> (
            #[trigger] crate_with_imports(crates, c).cross_crate_imports[i]).target_crate != c.name
                && exports_of(crates).contains_key(
                crate_with_imports(crates, c).cross_crate_imports[i].target_crate,
            ),
{
    let key = |x: CrossCrateImportView| x.import_path;
    let ex = exports_of(crates);
    let list = crate_import_list(ex, c);
    assert(crate::sort::key_lt_by(key) =~= cross_import_lt());
    crate::sort::lemma_sort_sorted(list, key);
    lemma_crate_import_targets(c.modules, ex, c.name);
    crate::sort::lemma_sort_view_permutes(list, cross_import_lt());
    let sorted = sort_view_by(list, cross_import_lt());
    assert forall|i: int| 0 <= i < sorted.len() implies (#[trigger] sorted[i]).target_crate != c.name
        && ex.contains_key(sorted[i].target_crate) by {
        assert(sorted.contains(sorted[i]));
        assert(list.contains(sorted[i]));
        let k = choose|k: int| 0 <= k < list.len() && list[k] == sorted[i];
        assert(list[k].target_crate != c.name);
    }
}

/// `b` has the keys of `a`, and each key of `b` lists every importer that
/// the same key of `a` lists, and the same exporters.
pub open spec fn keeps_importers(a: Map<Seq<char>, TypeRefView>, b: Map<Seq<char>, TypeRefView>) -> bool {
    &&& b.dom() == a.dom()
    &&& forall|k: Seq<char>, l: Seq<char>|
        a.contains_key(k) && #[trigger] a[k].imported_by.contains(l) ==> b[k].imported_by.contains(l)
    &&& forall|k: Seq<char>| #[trigger] a.contains_key(k) ==> b[k].exported_by == a[k].exported_by
}

proof fn lemma_keeps_trans(
    a: Map<Seq<char>, TypeRefView>,
    b: Map<Seq<char>, TypeRefView>,
    c: Map<Seq<char>, TypeRefView>,
)
    requires
        keeps_importers(a, b),
        keeps_importers(b, c),
    ensures
        keeps_importers(a, c),
{
    assert forall|k: Seq<char>, l: Seq<char>|
        a.contains_key(k) && #[trigger] a[k].imported_by.contains(l) implies c[k].imported_by.contains(
        l,
    ) by {
        assert(b.contains_key(k));
        assert(b[k].imported_by.contains(l));
    }
    assert forall|k: Seq<char>| #[trigger] a.contains_key(k) implies c[k].exported_by
        == a[k].exported_by by {
        assert(b.contains_key(k));
    }
}

proof fn lemma_import_step_keeps(
    ex: Map<Seq<char>, Seq<(Seq<char>, Seq<char>)>>,
    my_name: Seq<char>,
    mp: Seq<char>,
    a: Map<Seq<char>, TypeRefView>,
    imp: ImportView,
)
    ensures
        keeps_importers(a, import_type_step(ex, my_name, mp)(a, imp)),
{
    let b = import_type_step(ex, my_name, mp)(a, imp);
    match import_key(a, imp.path) {
        Some(k) => {
            if import_target(imp.path, ex, my_name) is Some {
                let r = a[k];
                let l = importer_label(my_name, mp);
                if !r.imported_by.contains(l) {
                    assert(b.dom() =~= a.dom());
                    assert forall|k2: Seq<char>, l2: Seq<char>|
                        a.contains_key(k2) && #[trigger] a[k2].imported_by.contains(l2) implies b[k2].imported_by.contains(
                        l2,
                    ) by {
                        if k2 == k {
                            let i = choose|i: int| 0 <= i < r.imported_by.len() && r.imported_by[i] == l2;
                            assert(b[k2].imported_by[i] == l2);
                        }
                    }
                }
            }
        },
        None => {},
    }
}

proof fn lemma_imports_keep(
    ex: Map<Seq<char>, Seq<(Seq<char>, Seq<char>)>>,
    my_name: Seq<char>,
    mp: Seq<char>,
    imps: Seq<ImportView>,
    a: Map<Seq<char>, TypeRefView>,
)
    ensures
        keeps_importers(a, imps.fold_left(a, import_type_step(ex, my_name, mp))),
    decreases imps.len(),
{
    if imps.len() > 0 {
        lemma_imports_keep(ex, my_name, mp, imps.drop_last(), a);
        let b = imps.drop_last().fold_left(a, import_type_step(ex, my_name, mp));
        lemma_import_step_keeps(ex, my_name, mp, b, imps.last());
        lemma_keeps_trans(a, b, imps.fold_left(a, import_type_step(ex, my_name, mp)));
    }
}

proof fn lemma_modules_keep(
    ex: Map<Seq<char>, Seq<(Seq<char>, Seq<char>)>>,
    my_name: Seq<char>,
    ms: Seq<ModuleView>,
    a: Map<Seq<char>, TypeRefView>,
)
    ensures
        keeps_importers(a, ms.fold_left(a, import_type_module_step(ex, my_name))),
    decreases ms.len(),
{
    if ms.len() > 0 {
        lemma_modules_keep(ex, my_name, ms.drop_last(), a);
        let b = ms.drop_last().fold_left(a, import_type_module_step(ex, my_name));
        lemma_imports_keep(ex, my_name, ms.last().path, ms.last().imports, b);
        lemma_keeps_trans(a, b, ms.fold_left(a, import_type_module_step(ex, my_name)));
    }
}

proof fn lemma_crates_keep(
    ex: Map<Seq<char>, Seq<(Seq<char>, Seq<char>)>>,
    cs: Seq<CrateView>,
    a: Map<Seq<char>, TypeRefView>,
)
    ensures
        keeps_importers(a, cs.fold_left(a, import_type_crate_step(ex))),
    decreases cs.len(),
{
    if cs.len() > 0 {
        lemma_crates_keep(ex, cs.drop_last(), a);
        let b = cs.drop_last().fold_left(a, import_type_crate_step(ex));
        lemma_modules_keep(ex, cs.last().name, cs.last().modules, b);
        lemma_keeps_trans(a, b, cs.fold_left(a, import_type_crate_step(ex)));
    }
}

/// Splitting a fold after element `i`: the fold of the first `i + 1`
/// elements, continued over the rest.
proof fn lemma_fold_at<A, B>(s: Seq<A>, i: int, b: B, f: spec_fn(B, A) -> B)
    requires
        0 <= i < s.len(),
    ensures
        s.fold_left(b, f) == s.skip(i + 1).fold_left(f(s.take(i).fold_left(b, f), s[i]), f),
{
    s.lemma_fold_left_split(b, f, i + 1);
    assert(s.subrange(0, i + 1) =~= s.take(i + 1));
    assert(s.subrange(i + 1, s.len() as int) =~= s.skip(i + 1));
    lemma_fold_step(s, i, b, f);
}

proof fn lemma_exports_names(cs: Seq<CrateView>, f: Seq<char>)
    ensures
        exports_of(cs).contains_key(f) <==> exists|i: int| 0 <= i < cs.len() && #[trigger] cs[i].name == f,
    decreases cs.len(),
{
    if cs.len() > 0 {
        lemma_exports_names(cs.drop_last(), f);
        if exists|i: int| 0 <= i < cs.drop_last().len() && #[trigger] cs.drop_last()[i].name == f {
            let i = choose|i: int| 0 <= i < cs.drop_last().len() && #[trigger] cs.drop_last()[i].name == f;
            assert(cs[i].name == f);
        }
        if exists|i: int| 0 <= i < cs.len() && #[trigger] cs[i].name == f {
            let i = choose|i: int| 0 <= i < cs.len() && #[trigger] cs[i].name == f;
            if i < cs.len() - 1 {
                assert(cs.drop_last()[i].name == f);
            }
        }
    }
}

/// Every importer is recorded: when import `t` of module `j` of crate `i`
/// starts with the name of another crate of the workspace and names key
/// `k` of the cross references (`k` is the import's path, or, when that is
/// no key, the imported symbol), then `k`'s importers list that module as
/// `crate:module`, whatever the other crates import.
pub proof fn law_importers_recorded(
    crates: Seq<CrateView>,
    i: int,
    j: int,
    t: int,
    other: int,
    k: Seq<char>,
)
    requires
        0 <= i < crates.len(),
        0 <= j < crates[i].modules.len(),
        0 <= t < crates[i].modules[j].imports.len(),
        0 <= other < crates.len(),
        first_segment(crates[i].modules[j].imports[t].path) == crates[other].name,
        crates[other].name != crates[i].name,
        crates[other].name.len() > 0,
        crates[other].name != "*"@,
        types_of(crates).contains_key(k),
        k == crates[i].modules[j].imports[t].path || (!types_of(crates).contains_key(
            crates[i].modules[j].imports[t].path,
        ) && k == last_segment(crates[i].modules[j].imports[t].path)),
    ensures
        types_of(crates)[k].imported_by.contains(
            crates[i].name + ":"@ + crates[i].modules[j].path,
        ),
{
    let ex = exports_of(crates);
    let cf = import_type_crate_step(ex);
    let t0 = exported_types(crates);
    let c = crates[i];
    let m = c.modules[j];
    let imp = m.imports[t];
    let mf = import_type_module_step(ex, c.name);
    let jf = import_type_step(ex, c.name, m.path);
    lemma_exports_names(crates, crates[other].name);
    assert(import_target(imp.path, ex, c.name) == Some(crates[other].name));
    // Before crate `i`, before module `j`, before import `t`.
    let a_i = crates.take(i).fold_left(t0, cf);
    let m_j = c.modules.take(j).fold_left(a_i, mf);
    let e = m.imports.take(t).fold_left(m_j, jf);
    let d = jf(e, imp);
    let c_m = mf(m_j, m);
    let b = cf(a_i, c);
    let fin = types_of(crates);
    lemma_fold_at(crates, i, t0, cf);
    lemma_fold_at(c.modules, j, a_i, mf);
    lemma_fold_at(m.imports, t, m_j, jf);
    lemma_crates_keep(ex, crates.take(i), t0);
    lemma_modules_keep(ex, c.name, c.modules.take(j), a_i);
    lemma_imports_keep(ex, c.name, m.path, m.imports.take(t), m_j);
    lemma_import_step_keeps(ex, c.name, m.path, e, imp);
    lemma_imports_keep(ex, c.name, m.path, m.imports.skip(t + 1), d);
    lemma_modules_keep(ex, c.name, c.modules.skip(j + 1), c_m);
    lemma_crates_keep(ex, crates.skip(i + 1), b);
    lemma_keeps_trans(d, c_m, b);
    lemma_keeps_trans(d, b, fin);
    lemma_keeps_trans(t0, a_i, m_j);
    lemma_keeps_trans(t0, m_j, e);
    lemma_keeps_trans(e, d, fin);
    assert(e.dom() == fin.dom());
    assert(import_key(e, imp.path) == Some(k));
    let l = importer_label(c.name, m.path);
    assert(d[k].imported_by.contains(l)) by {
        let r = e[k];
        if !r.imported_by.contains(l) {
            assert(d[k].imported_by[r.imported_by.len() as int] == l);
        }
    }
    assert(l == crates[i].name + ":"@ + crates[i].modules[j].path);
}

/// `b` has every key of `a`, and each key of `b` lists every exporter that
/// the same key of `a` lists.
pub open spec fn keeps_exporters(a: Map<Seq<char>, TypeRefView>, b: Map<Seq<char>, TypeRefView>) -> bool {
    &&& forall|k: Seq<char>| #[trigger] a.contains_key(k) ==> b.contains_key(k)
    &&& forall|k: Seq<char>, l: Seq<char>|
        a.contains_key(k) && #[trigger] a[k].exported_by.contains(l) ==> b[k].exported_by.contains(l)
}

proof fn lemma_exporters_trans(
    a: Map<Seq<char>, TypeRefView>,
    b: Map<Seq<char>, TypeRefView>,
    c: Map<Seq<char>, TypeRefView>,
)
    requires
        keeps_exporters(a, b),
        keeps_exporters(b, c),
    ensures
        keeps_exporters(a, c),
{
    assert forall|k: Seq<char>, l: Seq<char>|
        a.contains_key(k) && #[trigger] a[k].exported_by.contains(l) implies c[k].exported_by.contains(
        l,
    ) by {
        assert(b.contains_key(k));
        assert(b[k].exported_by.contains(l));
    }
}

proof fn lemma_export_step(cn: Seq<char>, a: Map<Seq<char>, TypeRefView>, e: (Seq<char>, Seq<char>))
    ensures
        keeps_exporters(a, export_step(cn)(a, e)),
        export_step(cn)(a, e).contains_key(e.0),
        export_step(cn)(a, e)[e.0].exported_by.contains(cn),
{
    let b = export_step(cn)(a, e);
    let r = if a.contains_key(e.0) {
        a[e.0]
    } else {
        new_type_ref(cn, e.1)
    };
    if !r.exported_by.contains(cn) {
        assert(b[e.0].exported_by[r.exported_by.len() as int] == cn);
        assert forall|k: Seq<char>, l: Seq<char>|
            a.contains_key(k) && #[trigger] a[k].exported_by.contains(l) implies b[k].exported_by.contains(
            l,
        ) by {
            if k == e.0 {
                let i = choose|i: int| 0 <= i < r.exported_by.len() && r.exported_by[i] == l;
                assert(b[k].exported_by[i] == l);
            }
        }
    }
}

proof fn lemma_export_items_keep(cn: Seq<char>, es: Seq<(Seq<char>, Seq<char>)>, a: Map<Seq<char>, TypeRefView>)
    ensures
        keeps_exporters(a, es.fold_left(a, export_step(cn))),
    decreases es.len(),
{
    if es.len() > 0 {
        lemma_export_items_keep(cn, es.drop_last(), a);
        let b = es.drop_last().fold_left(a, export_step(cn));
        lemma_export_step(cn, b, es.last());
        lemma_exporters_trans(a, b, es.fold_left(a, export_step(cn)));
    }
}

proof fn lemma_export_crates_keep(
    ex: Map<Seq<char>, Seq<(Seq<char>, Seq<char>)>>,
    ns: Seq<Seq<char>>,
    a: Map<Seq<char>, TypeRefView>,
)
    ensures
        keeps_exporters(a, ns.fold_left(a, export_crate_step(ex))),
    decreases ns.len(),
{
    if ns.len() > 0 {
        lemma_export_crates_keep(ex, ns.drop_last(), a);
        let b = ns.drop_last().fold_left(a, export_crate_step(ex));
        lemma_export_items_keep(ns.last(), ex[ns.last()], b);
        lemma_exporters_trans(a, b, ns.fold_left(a, export_crate_step(ex)));
    }
}

/// The exports of modules `ms` extend `acc`, keeping it as a prefix.
proof fn lemma_export_modules_prefix(ms: Seq<ModuleView>, acc: Seq<(Seq<char>, Seq<char>)>)
    ensures
        ms.fold_left(acc, export_module_step()).len() >= acc.len(),
        ms.fold_left(acc, export_module_step()).take(acc.len() as int) == acc,
    decreases ms.len(),
{
    if ms.len() > 0 {
        lemma_export_modules_prefix(ms.drop_last(), acc);
        let b = ms.drop_last().fold_left(acc, export_module_step());
        let m = ms.last();
        let r = b + m.public_items.map_values(
            |it: PublicItemView| (export_key(m, it), kind_text(it.kind)),
        );
        assert(r.take(acc.len() as int) =~= b.take(acc.len() as int));
    }
}

/// Item `t` of module `j` of crate `c` is among the crate's exports.
proof fn lemma_export_item_listed(c: CrateView, j: int, t: int)
    requires
        0 <= j < c.modules.len(),
        0 <= t < c.modules[j].public_items.len(),
    ensures
        exists|q: int|
            0 <= q < export_items(c).len() && #[trigger] export_items(c)[q].0 == export_key(
                c.modules[j],
                c.modules[j].public_items[t],
            ),
{
    let f = export_module_step();
    let m = c.modules[j];
    let a = c.modules.take(j).fold_left(Seq::empty(), f);
    let b = f(a, m);
    lemma_fold_at(c.modules, j, Seq::empty(), f);
    lemma_export_modules_prefix(c.modules.skip(j + 1), b);
    let q = a.len() + t;
    assert(b[q].0 == export_key(m, m.public_items[t]));
    assert(export_items(c).take(b.len() as int)[q] == b[q]);
    assert(export_items(c)[q].0 == export_key(m, m.public_items[t]));
}

/// With `crates[i]`'s name borne by no other crate, the exports recorded
/// under that name are those of `crates[i]`.
proof fn lemma_exports_of_unique(cs: Seq<CrateView>, i: int)
    requires
        0 <= i < cs.len(),
        forall|k: int| 0 <= k < cs.len() && k != i ==> #[trigger] cs[k].name != cs[i].name,
    ensures
        exports_of(cs).contains_key(cs[i].name),
        exports_of(cs)[cs[i].name] == export_items(cs[i]),
    decreases cs.len(),
{
    if i < cs.len() - 1 {
        let d = cs.drop_last();
        assert forall|k: int| 0 <= k < d.len() && k != i implies #[trigger] d[k].name != d[i].name by {
            assert(d[k] == cs[k]);
        }
        lemma_exports_of_unique(d, i);
        assert(cs[cs.len() - 1].name != cs[i].name);
    }
}

/// The names of the crates that export something, in increasing order,
/// include the name of every crate.
proof fn lemma_sorted_names_contain(cs: Seq<CrateView>, i: int)
    requires
        0 <= i < cs.len(),
    ensures
        sorted_seq_of(exports_of(cs).dom()).contains(cs[i].name),
{
    let ex = exports_of(cs);
    let names = cs.map_values(|c: CrateView| c.name);
    let tk = |t: Seq<char>| t;
    assert(crate::sort::key_lt_by(tk) =~= crate::sort::text_lt());
    crate::sort::lemma_sort_sorted(names, tk);
    let st = crate::sort::sort_texts(names);
    assert forall|a: int, b: int| 0 <= a < b < st.len() implies !seq_lt(#[trigger] st[b], #[trigger] st[a]) by {
        assert(!seq_lt(tk(st[b]), tk(st[a])));
    }
    crate::sort::lemma_dedup_sorted(st);
    crate::sort::lemma_sort_view_permutes(names, crate::sort::text_lt());
    crate::sort::lemma_dedup_keeps(st);
    let q0 = crate::sort::dedup_seq(st);
    assert forall|x: Seq<char>| q0.to_set().contains(x) <==> ex.dom().contains(x) by {
        lemma_exports_names(cs, x);
        if names.contains(x) {
            let k = choose|k: int| 0 <= k < names.len() && names[k] == x;
            assert(cs[k].name == x);
        }
        if exists|k: int| 0 <= k < cs.len() && #[trigger] cs[k].name == x {
            let k = choose|k: int| 0 <= k < cs.len() && #[trigger] cs[k].name == x;
            assert(names[k] == x);
        }
        if q0.to_set().contains(x) {
            assert(q0.contains(x));
        }
    }
    assert(q0.to_set() =~= ex.dom());
    assert(crate::ordered_map::strictly_sorted(q0) && q0.to_set() == ex.dom());
    let q = sorted_seq_of(ex.dom());
    lemma_exports_names(cs, cs[i].name);
    assert(q.to_set().contains(cs[i].name));
}

/// Every exporter is recorded: when no other crate bears the name of
/// crate `i`, each public item of each of its modules is a key of the
/// cross references (its `module::name`, or its bare name in a module with
/// an empty path), and that key lists crate `i` among its exporters.
pub proof fn law_exporters_recorded(crates: Seq<CrateView>, i: int, j: int, t: int)
    requires
        0 <= i < crates.len(),
        0 <= j < crates[i].modules.len(),
        0 <= t < crates[i].modules[j].public_items.len(),
        forall|k: int| 0 <= k < crates.len() && k != i ==> #[trigger] crates[k].name != crates[i].name,
    ensures
        ({
            let m = crates[i].modules[j];
            let it = m.public_items[t];
            let key = if m.path.len() == 0 {
                it.name
            } else {
                m.path + "::"@ + it.name
            };
            types_of(crates).contains_key(key) && types_of(crates)[key].exported_by.contains(
                crates[i].name,
            )
        }),
{
    let c = crates[i];
    let m = c.modules[j];
    let it = m.public_items[t];
    let key = export_key(m, it);
    reveal_strlit("::");
    assert(key == (if m.path.len() == 0 {
        it.name
    } else {
        m.path + "::"@ + it.name
    }));
    let ex = exports_of(crates);
    let ns = sorted_seq_of(ex.dom());
    let ecs = export_crate_step(ex);
    lemma_exports_of_unique(crates, i);
    lemma_sorted_names_contain(crates, i);
    let qn = choose|q: int| 0 <= q < ns.len() && ns[q] == c.name;
    let a = ns.take(qn).fold_left(Map::empty(), ecs);
    lemma_fold_at(ns, qn, Map::empty(), ecs);
    let es = ex[c.name];
    assert(es == export_items(c));
    lemma_export_item_listed(c, j, t);
    let q2 = choose|q: int| 0 <= q < es.len() && #[trigger] es[q].0 == key;
    let st = export_step(c.name);
    let a2 = es.take(q2).fold_left(a, st);
    lemma_fold_at(es, q2, a, st);
    let b = st(a2, es[q2]);
    lemma_export_step(c.name, a2, es[q2]);
    lemma_export_items_keep(c.name, es.skip(q2 + 1), b);
    let after = ecs(a, ns[qn]);
    lemma_export_crates_keep(ex, ns.skip(qn + 1), after);
    lemma_exporters_trans(b, after, exported_types(crates));
    lemma_crates_keep(ex, crates, exported_types(crates));
    let fin = types_of(crates);
    assert(exported_types(crates).contains_key(key));
    assert(exported_types(crates)[key].exported_by.contains(c.name));
    assert(fin.contains_key(key));
    assert(fin[key].exported_by == exported_types(crates)[key].exported_by);
}

} // verus!
