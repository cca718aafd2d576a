//! What the map reads of a parsed source file: its public items, its
//! imports and re-exports, its `mod` declarations and its `impl` blocks.
use vstd::prelude::*;
use crate::describe::{field_texts, fields_to_strings, generics_text, generics_to_string,
    variant_texts, variants_to_strings, vis_text, vis_to_string};
use crate::schema::{ErrorEntry, ErrorEntryView, ErrorSeverity, DiagnosticKind, FileInfo,
    FileInfoView, ImplInfo, ImplInfoView, ImplItem, ImplItemKind, ImplItemView, Import,
    ImportView, ItemAttrs, ItemAttrsView, ItemKind, PublicItem, PublicItemView, ReExport,
    ReExportView, SubmoduleDecl, SubmoduleView};
use crate::sort::{SortKey, sort_texts, sort_view_by, stable_sort, views_of, lemma_sort_views,
    lemma_sort_texts, key_texts};
use crate::split_join::{nonempty_trimmed, push_nonempty_trimmed, split_on, split_text, trim,
    trim_text};
use crate::syntax::{AttrMeta, Attr, ImplMember, SourceFile, SynItem, SynType, UseItemTree,
    Vis};
use crate::rust_source::{parse_rust, rust_syntax};
use crate::text::{owned, seq_lt, str_eq, str_lt, join_path};

verus! {

// ── Parse results ───────────────────────────────────────────────────────

/// Structured information about a parse failure.
#[derive(Debug)]
pub struct SynParseError {
    pub message: String,
    pub line: usize,
}

/// Result of parsing a Rust source file: the syntax tree, what the map
/// reads of it, and the failure when the file could not be read or parsed
/// (then the tree and the information are empty).
#[derive(Debug)]
pub struct ParsedFile {
    pub ast: SourceFile,
    pub file_info: FileInfo,
    pub parse_error: Option<SynParseError>,
}

// ── Specification: attributes ──────────────────────────────────────────

/// The path of attribute `a` is the single identifier `name`.
pub open spec fn is_ident(a: Attr, name: Seq<char>) -> bool {
    a.ident matches Some(i) && i@ == name
}

/// The names listed by attribute `a` when it is a `derive`: the pieces of
/// its tokens between commas, trimmed, the empty ones left out.
pub open spec fn derive_part(a: Attr) -> Seq<Seq<char>> {
    if is_ident(a, "derive"@) {
        match a.meta {
            AttrMeta::List(tokens) => nonempty_trimmed(split_on(tokens@, ',')),
            _ => Seq::empty(),
        }
    } else {
        Seq::empty()
    }
}

/// The doc line of attribute `a` when it is a `doc` attribute with a
/// string value.
pub open spec fn doc_part(a: Attr) -> Seq<Seq<char>> {
    if !is_ident(a, "derive"@) && is_ident(a, "doc"@) {
        match a.meta {
            AttrMeta::NameValue(Some(s)) => seq![s@],
            _ => Seq::empty(),
        }
    } else {
        Seq::empty()
    }
}

/// The derived names of `attrs`, in order.
pub open spec fn derives_of(attrs: Seq<Attr>) -> Seq<Seq<char>>
    decreases attrs.len(),
{
    if attrs.len() == 0 {
        Seq::empty()
    } else {
        derives_of(attrs.drop_last()) + derive_part(attrs.last())
    }
}

/// The doc lines of `attrs`, in order.
pub open spec fn docs_of(attrs: Seq<Attr>) -> Seq<Seq<char>>
    decreases attrs.len(),
{
    if attrs.len() == 0 {
        Seq::empty()
    } else {
        docs_of(attrs.drop_last()) + doc_part(attrs.last())
    }
}

/// The attributes of an item as the map records them: the derived names
/// sorted, the doc lines in order.
pub open spec fn attrs_view(attrs: Seq<Attr>) -> ItemAttrsView {
    ItemAttrsView { derive: sort_texts(derives_of(attrs)), doc: docs_of(attrs) }
}

/// Attr `a` is `#[cfg(test)]`: a `cfg` list whose tokens, trimmed,
/// are `test`.
pub open spec fn is_test_attr(a: Attr) -> bool {
    is_ident(a, "cfg"@) && (a.meta matches AttrMeta::List(tokens) && trim(tokens@) == "test"@)
}

/// Some attribute of `attrs` is `#[cfg(test)]`.
pub open spec fn has_test_attr(attrs: Seq<Attr>) -> bool {
    exists|i: int| 0 <= i < attrs.len() && is_test_attr(#[trigger] attrs[i])
}

// ── Specification: public items ────────────────────────────────────────

/// The item has no visibility written (macros, `impl` blocks and the items
/// the map does not describe count as such).
pub open spec fn is_inherited(item: SynItem) -> bool {
    match item {
        SynItem::Struct { vis, .. } => vis is Inherited,
        SynItem::Enum { vis, .. } => vis is Inherited,
        SynItem::Trait { vis, .. } => vis is Inherited,
        SynItem::Fn { vis, .. } => vis is Inherited,
        SynItem::TypeAlias { vis, .. } => vis is Inherited,
        SynItem::Mod { vis, .. } => vis is Inherited,
        SynItem::Use { vis, .. } => vis is Inherited,
        _ => true,
    }
}

/// Some attribute of `attrs` is `#[macro_export]`.
pub open spec fn has_macro_export(attrs: Seq<Attr>) -> bool {
    exists|k: int| 0 <= k < attrs.len() && is_ident(#[trigger] attrs[k], "macro_export"@)
}

/// `item` is a `macro_rules!` macro marked `#[macro_export]`, public
/// though it has no visibility written.
pub open spec fn is_exported_macro(item: SynItem) -> bool {
    match item {
        SynItem::Macro { attrs, .. } => has_macro_export(attrs@),
        _ => false,
    }
}

/// The record of an item of kind `kind` with the given parts; its file is
/// filled in later.
pub open spec fn item_record(
    kind: ItemKind,
    name: Seq<char>,
    line: usize,
    attrs: Seq<Attr>,
    generics: Seq<char>,
    visibility: Seq<char>,
    fields: Seq<Seq<char>>,
    variants: Seq<Seq<char>>,
) -> PublicItemView {
    PublicItemView {
        kind,
        name,
        file: Seq::empty(),
        line,
        attrs: attrs_view(attrs),
        generics,
        visibility,
        fields,
        variants,
        impls: Seq::empty(),
    }
}

/// The record of a struct, enum, trait, function, type alias or named
/// macro; none for other items.
pub open spec fn public_item_of(item: SynItem) -> Option<PublicItemView> {
    match item {
        SynItem::Struct { vis, ident, line, generics, attrs, fields } => Some(
            item_record(
                ItemKind::Struct,
                ident@,
                line,
                attrs@,
                generics_text(generics.deep_view()),
                vis_text(vis),
                field_texts(fields),
                Seq::empty(),
            ),
        ),
        SynItem::Enum { vis, ident, line, generics, attrs, variants } => Some(
            item_record(
                ItemKind::Enum,
                ident@,
                line,
                attrs@,
                generics_text(generics.deep_view()),
                vis_text(vis),
                Seq::empty(),
                variant_texts(variants@),
            ),
        ),
        SynItem::Trait { vis, ident, line, generics, attrs } => Some(
            item_record(
                ItemKind::Trait,
                ident@,
                line,
                attrs@,
                generics_text(generics.deep_view()),
                vis_text(vis),
                Seq::empty(),
                Seq::empty(),
            ),
        ),
        SynItem::Fn { vis, ident, line, generics, attrs } => Some(
            item_record(
                ItemKind::Fn,
                ident@,
                line,
                attrs@,
                generics_text(generics.deep_view()),
                vis_text(vis),
                Seq::empty(),
                Seq::empty(),
            ),
        ),
        SynItem::TypeAlias { vis, ident, line, generics, attrs } => Some(
            item_record(
                ItemKind::Type,
                ident@,
                line,
                attrs@,
                generics_text(generics.deep_view()),
                vis_text(vis),
                Seq::empty(),
                Seq::empty(),
            ),
        ),
        SynItem::Macro { name, line, attrs } => match name {
            Some(n) => if n@.len() > 0 {
                Some(
                    item_record(
                        ItemKind::Macro,
                        n@,
                        line,
                        attrs@,
                        Seq::empty(),
                        if has_macro_export(attrs@) {
                            "pub"@
                        } else {
                            "private"@
                        },
                        Seq::empty(),
                        Seq::empty(),
                    ),
                )
            } else {
                None
            },
            None => None,
        },
        _ => None,
    }
}

/// The records of the items of `items` with a visibility written, in order.
pub open spec fn collect_public(items: Seq<SynItem>) -> Seq<PublicItemView>
    decreases items.len(),
{
    if items.len() == 0 {
        Seq::empty()
    } else {
        let rest = collect_public(items.drop_last());
        let it = items.last();
        if (!is_inherited(it) || is_exported_macro(it)) && public_item_of(it) is Some {
            rest.push(public_item_of(it)->0)
        } else {
            rest
        }
    }
}

/// The order of public items: by name, then by line.
pub open spec fn item_order() -> spec_fn(PublicItemView, PublicItemView) -> bool {
    |a: PublicItemView, b: PublicItemView| seq_lt(a.name, b.name) || (a.name == b.name && a.line
        < b.line)
}

/// The public items of `items`, stably sorted by name, then line.
pub open spec fn public_items_spec(items: Seq<SynItem>) -> Seq<PublicItemView> {
    sort_view_by(collect_public(items), item_order())
}

// ── Specification: `use` trees ─────────────────────────────────────────

/// `prefix::x`, or `x` when the prefix is empty.
pub open spec fn extend_path(prefix: Seq<char>, x: Seq<char>) -> Seq<char> {
    if prefix.len() == 0 {
        x
    } else {
        prefix + "::"@ + x
    }
}

/// The imports a `use` tree brings in below `prefix`: one per name, rename
/// (`path as name`) and glob, groups expanded in order.
pub open spec fn use_imports(t: UseItemTree, prefix: Seq<char>, line: usize) -> Seq<ImportView>
    decreases t, 0nat,
{
    match t {
        UseItemTree::Path { ident, tree } => use_imports(*tree, extend_path(prefix, ident@), line),
        UseItemTree::Name(n) => seq![ImportView { path: extend_path(prefix, n@), line }],
        UseItemTree::Rename { ident, rename } => seq![
            ImportView { path: extend_path(prefix, ident@) + " as "@ + rename@, line },
        ],
        UseItemTree::Glob => seq![ImportView { path: extend_path(prefix, "*"@), line }],
        UseItemTree::Group(v) => group_imports(v, v.len() as nat, prefix, line),
    }
}

/// The imports of the first `n` trees of a group.
pub open spec fn group_imports(v: Vec<UseItemTree>, n: nat, prefix: Seq<char>, line: usize) -> Seq<
    ImportView,
>
    decreases v, n,
{
    if n == 0 || n > v.len() {
        Seq::empty()
    } else {
        proof {
            vstd::std_specs::vec::axiom_vec_index_decreases(v, n - 1);
        }
        group_imports(v, (n - 1) as nat, prefix, line) + use_imports(v[n - 1], prefix, line)
    }
}

/// The re-exports of a `pub use` tree below `prefix`: each name, rename
/// and glob, exported under its own name, its new name, or `*`, with the
/// full path it is imported from (`prefix::name`, `prefix::*`).
pub open spec fn use_reexports(t: UseItemTree, prefix: Seq<char>, line: usize) -> Seq<ReExportView>
    decreases t, 0nat,
{
    match t {
        UseItemTree::Path { ident, tree } => use_reexports(*tree, extend_path(prefix, ident@), line),
        UseItemTree::Name(n) => seq![
            ReExportView { import_path: extend_path(prefix, n@), export_path: n@, line },
        ],
        UseItemTree::Rename { ident, rename } => seq![
            ReExportView { import_path: extend_path(prefix, ident@), export_path: rename@, line },
        ],
        UseItemTree::Glob => seq![
            ReExportView { import_path: extend_path(prefix, "*"@), export_path: "*"@, line },
        ],
        UseItemTree::Group(v) => group_reexports(v, v.len() as nat, prefix, line),
    }
}

/// The re-exports of the first `n` trees of a group.
pub open spec fn group_reexports(v: Vec<UseItemTree>, n: nat, prefix: Seq<char>, line: usize) -> Seq<
    ReExportView,
>
    decreases v, n,
{
    if n == 0 || n > v.len() {
        Seq::empty()
    } else {
        proof {
            vstd::std_specs::vec::axiom_vec_index_decreases(v, n - 1);
        }
        group_reexports(v, (n - 1) as nat, prefix, line) + use_reexports(v[n - 1], prefix, line)
    }
}

/// The imports of the `use` items of `items`, in order; a `use` item has
/// no line of its own, so each import records line 0.
pub open spec fn collect_imports(items: Seq<SynItem>) -> Seq<ImportView>
    decreases items.len(),
{
    if items.len() == 0 {
        Seq::empty()
    } else {
        let rest = collect_imports(items.drop_last());
        match items.last() {
            SynItem::Use { tree, .. } => rest + use_imports(tree, Seq::empty(), 0),
            _ => rest,
        }
    }
}

/// The order of imports by path.
pub open spec fn import_order() -> spec_fn(ImportView, ImportView) -> bool {
    |a: ImportView, b: ImportView| seq_lt(a.path, b.path)
}

/// The imports of `items`, stably sorted by path.
pub open spec fn imports_spec(items: Seq<SynItem>) -> Seq<ImportView> {
    sort_view_by(collect_imports(items), import_order())
}

/// The re-exports of the `pub use` items of `items`, in order.
pub open spec fn collect_reexports(items: Seq<SynItem>) -> Seq<ReExportView>
    decreases items.len(),
{
    if items.len() == 0 {
        Seq::empty()
    } else {
        let rest = collect_reexports(items.drop_last());
        match items.last() {
            SynItem::Use { vis, tree } => if vis is Public {
                rest + use_reexports(tree, Seq::empty(), 0)
            } else {
                rest
            },
            _ => rest,
        }
    }
}

/// The order of re-exports by exported name.
pub open spec fn reexport_order() -> spec_fn(ReExportView, ReExportView) -> bool {
    |a: ReExportView, b: ReExportView| seq_lt(a.export_path, b.export_path)
}

/// The re-exports of `items`, stably sorted by exported name.
pub open spec fn reexports_spec(items: Seq<SynItem>) -> Seq<ReExportView> {
    sort_view_by(collect_reexports(items), reexport_order())
}

// ── Specification: modules and impl blocks ─────────────────────────────

/// The `mod` declarations of `items`, in order, each marked when it
/// carries `#[cfg(test)]`.
pub open spec fn collect_submodules(items: Seq<SynItem>) -> Seq<SubmoduleView>
    decreases items.len(),
{
    if items.len() == 0 {
        Seq::empty()
    } else {
        let rest = collect_submodules(items.drop_last());
        match items.last() {
            SynItem::Mod { ident, attrs, .. } => rest.push(
                SubmoduleView { name: ident@, is_test: has_test_attr(attrs@) },
            ),
            _ => rest,
        }
    }
}

/// The order of `mod` declarations by name.
pub open spec fn submodule_order() -> spec_fn(SubmoduleView, SubmoduleView) -> bool {
    |a: SubmoduleView, b: SubmoduleView| seq_lt(a.name, b.name)
}

/// The `mod` declarations of `items`, stably sorted by name.
pub open spec fn submodules_spec(items: Seq<SynItem>) -> Seq<SubmoduleView> {
    sort_view_by(collect_submodules(items), submodule_order())
}

/// The name of the target type of an `impl` block: the last segment of a
/// path type, else empty.
pub open spec fn impl_type_name(t: SynType) -> Seq<char> {
    match t {
        SynType::Path(segs) => if segs.len() > 0 {
            segs@.last().ident@
        } else {
            Seq::empty()
        },
        _ => Seq::empty(),
    }
}

/// The record of a member of an `impl` block: functions with their generic
/// parameters, associated types and constants.
pub open spec fn impl_member_view(m: ImplMember) -> Option<ImplItemView> {
    match m {
        ImplMember::Fn { name, generics } => Some(
            ImplItemView {
                kind: ImplItemKind::Fn,
                name: name@,
                params: generics_text(generics.deep_view()),
            },
        ),
        ImplMember::Type(n) => Some(
            ImplItemView { kind: ImplItemKind::Type, name: n@, params: Seq::empty() },
        ),
        ImplMember::Const(n) => Some(
            ImplItemView { kind: ImplItemKind::Const, name: n@, params: Seq::empty() },
        ),
        ImplMember::Other => None,
    }
}

/// The records of the members of an `impl` block, in order.
pub open spec fn impl_members_view(ms: Seq<ImplMember>) -> Seq<ImplItemView>
    decreases ms.len(),
{
    if ms.len() == 0 {
        Seq::empty()
    } else {
        let rest = impl_members_view(ms.drop_last());
        match impl_member_view(ms.last()) {
            Some(v) => rest.push(v),
            None => rest,
        }
    }
}

/// The `impl` blocks of `items` whose target type has a name, in order.
pub open spec fn collect_impls(items: Seq<SynItem>) -> Seq<ImplInfoView>
    decreases items.len(),
{
    if items.len() == 0 {
        Seq::empty()
    } else {
        let rest = collect_impls(items.drop_last());
        match items.last() {
            SynItem::Impl { self_ty, members } => {
                let n = impl_type_name(self_ty);
                if n.len() == 0 {
                    rest
                } else {
                    rest.push(ImplInfoView { type_: n, items: impl_members_view(members@) })
                }
            },
            _ => rest,
        }
    }
}

/// What the map reads of the items `items`.
pub open spec fn file_info_spec(items: Seq<SynItem>) -> FileInfoView {
    FileInfoView {
        public_items: public_items_spec(items),
        imports: imports_spec(items),
        re_exports: reexports_spec(items),
        submodules: submodules_spec(items),
        impls: collect_impls(items),
    }
}

/// The information of a file that could not be read or parsed.
pub open spec fn empty_file_info() -> FileInfoView {
    FileInfoView {
        public_items: Seq::empty(),
        imports: Seq::empty(),
        re_exports: Seq::empty(),
        submodules: Seq::empty(),
        impls: Seq::empty(),
    }
}

/// The diagnostic for a file at `path` that failed to parse with `message`
/// at `line`.
pub open spec fn parse_error_view(path: Seq<char>, message: Seq<char>, line: usize) -> ErrorEntryView {
    ErrorEntryView {
        file: path,
        line,
        message,
        severity: ErrorSeverity::Error,
        kind: DiagnosticKind::SynParseError,
        context: None,
        cause: None,
    }
}

// ── Sort keys ───────────────────────────────────────────────────────────

impl SortKey for PublicItem {
    open spec fn key_lt(&self, other: &Self) -> bool {
        seq_lt(self.name@, other.name@) || (self.name@ == other.name@ && self.line < other.line)
    }

    fn key_before(&self, other: &Self) -> (r: bool) {
        str_lt(self.name.as_str(), other.name.as_str()) || (str_eq(
            self.name.as_str(),
            other.name.as_str(),
        ) && self.line < other.line)
    }
}

impl SortKey for Import {
    open spec fn key_lt(&self, other: &Self) -> bool {
        seq_lt(self.path@, other.path@)
    }

    fn key_before(&self, other: &Self) -> (r: bool) {
        str_lt(self.path.as_str(), other.path.as_str())
    }
}

impl SortKey for ReExport {
    open spec fn key_lt(&self, other: &Self) -> bool {
        seq_lt(self.export_path@, other.export_path@)
    }

    fn key_before(&self, other: &Self) -> (r: bool) {
        str_lt(self.export_path.as_str(), other.export_path.as_str())
    }
}

impl SortKey for SubmoduleDecl {
    open spec fn key_lt(&self, other: &Self) -> bool {
        seq_lt(self.name@, other.name@)
    }

    fn key_before(&self, other: &Self) -> (r: bool) {
        str_lt(self.name.as_str(), other.name.as_str())
    }
}

// ── Implementation: attributes ─────────────────────────────────────────

/// Whether the path of attribute `a` is the single identifier `name`.
fn attr_is(a: &Attr, name: &str) -> (r: bool)
    ensures
        r == is_ident(*a, name@),
{
    match &a.ident {
        Some(i) => str_eq(i.as_str(), name),
        None => false,
    }
}

/// The derived names (sorted) and doc lines of `attrs`.
pub fn extract_attrs(attrs: &Vec<Attr>) -> (r: ItemAttrs)
    ensures
        r.deep_view() == attrs_view(attrs@),
{
    let mut derive: Vec<String> = Vec::new();
    let mut doc: Vec<String> = Vec::new();
    let mut i: usize = 0;
    assert(attrs@.take(0) =~= Seq::<Attr>::empty());
    while i < attrs.len()
        invariant
            0 <= i <= attrs@.len(),
            derive.deep_view() == derives_of(attrs@.take(i as int)),
            doc.deep_view() == docs_of(attrs@.take(i as int)),
        decreases attrs@.len() - i,
    {
        let a = &attrs[i];
        assert(attrs@.take(i + 1).drop_last() =~= attrs@.take(i as int));
        assert(attrs@.take(i + 1).last() == *a);
        let ghost d0 = derive.deep_view();
        let ghost o0 = doc.deep_view();
        if attr_is(a, "derive") {
            match &a.meta {
                AttrMeta::List(tokens) => {
                    let parts = split_text(tokens.as_str(), ',');
                    push_nonempty_trimmed(&mut derive, &parts);
                },
                _ => {
                    assert(derive.deep_view() =~= d0 + Seq::<Seq<char>>::empty());
                },
            }
            assert(doc.deep_view() =~= o0 + Seq::<Seq<char>>::empty());
        } else if attr_is(a, "doc") {
            match &a.meta {
                AttrMeta::NameValue(Some(s)) => {
                    doc.push(s.clone());
                    assert(doc.deep_view() =~= o0 + seq![s@]);
                },
                _ => {
                    assert(doc.deep_view() =~= o0 + Seq::<Seq<char>>::empty());
                },
            }
            assert(derive.deep_view() =~= d0 + Seq::<Seq<char>>::empty());
        } else {
            assert(derive.deep_view() =~= d0 + Seq::<Seq<char>>::empty());
            assert(doc.deep_view() =~= o0 + Seq::<Seq<char>>::empty());
        }
        i = i + 1;
    }
    assert(attrs@.take(attrs@.len() as int) =~= attrs@);
    proof {
        lemma_sort_texts(derive@);
        assert(key_texts(derive@) =~= derive.deep_view());
    }
    let sorted = stable_sort(derive);
    assert(sorted.deep_view() =~= key_texts(sorted@));
    ItemAttrs { derive: sorted, doc }
}

/// Whether some attribute of `attrs` is `#[macro_export]`.
fn has_macro_export_attr(attrs: &Vec<Attr>) -> (r: bool)
    ensures
        r == has_macro_export(attrs@),
{
    let mut i: usize = 0;
    while i < attrs.len()
        invariant
            0 <= i <= attrs@.len(),
            forall|k: int| 0 <= k < i ==> !is_ident(#[trigger] attrs@[k], "macro_export"@),
        decreases attrs@.len() - i,
    {
        if attr_is(&attrs[i], "macro_export") {
            return true;
        }
        i = i + 1;
    }
    false
}

/// Whether `item` is a `macro_rules!` macro marked `#[macro_export]`.
fn is_exported_macro_item(item: &SynItem) -> (r: bool)
    ensures
        r == is_exported_macro(*item),
{
    match item {
        SynItem::Macro { attrs, .. } => has_macro_export_attr(attrs),
        _ => false,
    }
}

/// Whether some attribute of `attrs` is `#[cfg(test)]`.
fn has_cfg_test(attrs: &Vec<Attr>) -> (r: bool)
    ensures
        r == has_test_attr(attrs@),
{
    let mut i: usize = 0;
    while i < attrs.len()
        invariant
            0 <= i <= attrs@.len(),
            forall|k: int| 0 <= k < i ==> !is_test_attr(#[trigger] attrs@[k]),
        decreases attrs@.len() - i,
    {
        let a = &attrs[i];
        if attr_is(a, "cfg") {
            if let AttrMeta::List(tokens) = &a.meta {
                let t = trim_text(tokens.as_str());
                if str_eq(t.as_str(), "test") {
                    assert(is_test_attr(attrs@[i as int]));
                    return true;
                }
            }
        }
        i = i + 1;
    }
    false
}

// ── Implementation: public items ───────────────────────────────────────

/// Whether `item` has no visibility written.
pub fn is_visibility_inherited(item: &SynItem) -> (r: bool)
    ensures
        r == is_inherited(*item),
{
    let vis = match item {
        SynItem::Struct { vis, .. } => vis,
        SynItem::Enum { vis, .. } => vis,
        SynItem::Trait { vis, .. } => vis,
        SynItem::Fn { vis, .. } => vis,
        SynItem::TypeAlias { vis, .. } => vis,
        SynItem::Mod { vis, .. } => vis,
        SynItem::Use { vis, .. } => vis,
        _ => {
            return true;
        },
    };
    match vis {
        Vis::Inherited => true,
        _ => false,
    }
}

/// The record of an item of kind `kind`.
fn make_item(
    kind: ItemKind,
    name: &String,
    line: usize,
    attrs: &Vec<Attr>,
    generics: String,
    visibility: String,
    fields: Vec<String>,
    variants: Vec<String>,
) -> (r: PublicItem)
    ensures
        r.deep_view() == item_record(
            kind,
            name@,
            line,
            attrs@,
            generics@,
            visibility@,
            fields.deep_view(),
            variants.deep_view(),
        ),
{
    let r = PublicItem {
        kind,
        name: name.clone(),
        file: String::new(),
        line,
        attrs: extract_attrs(attrs),
        generics,
        visibility,
        fields,
        variants,
        impls: Vec::new(),
    };
    assert(r.impls.deep_view() =~= Seq::<ImplInfoView>::empty());
    r
}

/// The record of a struct, enum, trait, function, type alias or named
/// macro; `None` for other items.
pub fn into_public_item(item: &SynItem) -> (r: Option<PublicItem>)
    ensures
        r.deep_view() == public_item_of(*item),
{
    match item {
        SynItem::Struct { vis, ident, line, generics, attrs, fields } => {
            let f = fields_to_strings(fields);
            let v: Vec<String> = Vec::new();
            assert(v.deep_view() =~= Seq::<Seq<char>>::empty());
            Some(
                make_item(
                    ItemKind::Struct,
                    ident,
                    *line,
                    attrs,
                    generics_to_string(generics),
                    vis_to_string(vis),
                    f,
                    v,
                ),
            )
        },
        SynItem::Enum { vis, ident, line, generics, attrs, variants } => {
            let f: Vec<String> = Vec::new();
            assert(f.deep_view() =~= Seq::<Seq<char>>::empty());
            let v = variants_to_strings(variants);
            Some(
                make_item(
                    ItemKind::Enum,
                    ident,
                    *line,
                    attrs,
                    generics_to_string(generics),
                    vis_to_string(vis),
                    f,
                    v,
                ),
            )
        },
        SynItem::Trait { vis, ident, line, generics, attrs } => {
            let f: Vec<String> = Vec::new();
            let v: Vec<String> = Vec::new();
            assert(f.deep_view() =~= Seq::<Seq<char>>::empty());
            assert(v.deep_view() =~= Seq::<Seq<char>>::empty());
            Some(
                make_item(
                    ItemKind::Trait,
                    ident,
                    *line,
                    attrs,
                    generics_to_string(generics),
                    vis_to_string(vis),
                    f,
                    v,
                ),
            )
        },
        SynItem::Fn { vis, ident, line, generics, attrs } => {
            let f: Vec<String> = Vec::new();
            let v: Vec<String> = Vec::new();
            assert(f.deep_view() =~= Seq::<Seq<char>>::empty());
            assert(v.deep_view() =~= Seq::<Seq<char>>::empty());
            Some(
                make_item(
                    ItemKind::Fn,
                    ident,
                    *line,
                    attrs,
                    generics_to_string(generics),
                    vis_to_string(vis),
                    f,
                    v,
                ),
            )
        },
        SynItem::TypeAlias { vis, ident, line, generics, attrs } => {
            let f: Vec<String> = Vec::new();
            let v: Vec<String> = Vec::new();
            assert(f.deep_view() =~= Seq::<Seq<char>>::empty());
            assert(v.deep_view() =~= Seq::<Seq<char>>::empty());
            Some(
                make_item(
                    ItemKind::Type,
                    ident,
                    *line,
                    attrs,
                    generics_to_string(generics),
                    vis_to_string(vis),
                    f,
                    v,
                ),
            )
        },
        SynItem::Macro { name, line, attrs } => match name {
            Some(n) => {
                if n.as_str().is_empty() {
                    None
                } else {
                    let f: Vec<String> = Vec::new();
                    let v: Vec<String> = Vec::new();
                    assert(f.deep_view() =~= Seq::<Seq<char>>::empty());
                    assert(v.deep_view() =~= Seq::<Seq<char>>::empty());
                    let has_export = has_macro_export_attr(attrs);
                    proof {
                        reveal_strlit("pub");
                        reveal_strlit("private");
                    }
                    Some(
                        make_item(
                            ItemKind::Macro,
                            n,
                            *line,
                            attrs,
                            String::new(),
                            if has_export { owned("pub") } else { owned("private") },
                            f,
                            v,
                        ),
                    )
                }
            },
            None => None,
        },
        _ => None,
    }
}

/// Every item with some form of `pub` visibility, and every
/// `#[macro_export]` macro, as a public item; sorted by name, then line.
pub fn extract_public_items(items: &Vec<SynItem>) -> (r: Vec<PublicItem>)
    ensures
        r.deep_view() == public_items_spec(items@),
{
    let mut v: Vec<PublicItem> = Vec::new();
    let mut i: usize = 0;
    assert(items@.take(0) =~= Seq::<SynItem>::empty());
    while i < items.len()
        invariant
            0 <= i <= items@.len(),
            views_of(v@) == collect_public(items@.take(i as int)),
        decreases items@.len() - i,
    {
        let it = &items[i];
        assert(items@.take(i + 1).drop_last() =~= items@.take(i as int));
        assert(items@.take(i + 1).last() == *it);
        if !is_visibility_inherited(it) || is_exported_macro_item(it) {
            match into_public_item(it) {
                Some(p) => {
                    let ghost prev = v@;
                    v.push(p);
                    assert(views_of(v@) =~= views_of(prev).push(p.deep_view()));
                },
                None => {},
            }
        }
        i = i + 1;
    }
    assert(items@.take(items@.len() as int) =~= items@);
    proof {
        lemma_sort_views(v@, item_order());
    }
    let r = stable_sort(v);
    assert(r.deep_view() =~= views_of(r@));
    r
}

// ── Implementation: `use` trees ────────────────────────────────────────

/// `prefix::x`, or `x` when the prefix is empty.
fn extend(prefix: &str, x: &str) -> (r: String)
    ensures
        r@ == extend_path(prefix@, x@),
{
    proof {
        reveal_strlit("::");
        assert("::"@ =~= crate::text::sep());
    }
    if prefix.is_empty() {
        owned(x)
    } else {
        join_path(prefix, x)
    }
}

/// The imports that a `use` tree brings in below `prefix`, each at `line`.
pub fn flatten_use_tree(tree: &UseItemTree, prefix: &str, line: usize) -> (r: Vec<Import>)
    ensures
        r.deep_view() == use_imports(*tree, prefix@, line),
    decreases tree,
{
    match tree {
        UseItemTree::Path { ident, tree: sub } => {
            let p = extend(prefix, ident.as_str());
            flatten_use_tree(sub, p.as_str(), line)
        },
        UseItemTree::Name(n) => {
            let r = vec![Import { path: extend(prefix, n.as_str()), line }];
            assert(r.deep_view() =~= use_imports(*tree, prefix@, line));
            r
        },
        UseItemTree::Rename { ident, rename } => {
            let mut p = extend(prefix, ident.as_str());
            p.append(" as ");
            p.append(rename.as_str());
            let r = vec![Import { path: p, line }];
            assert(r.deep_view() =~= use_imports(*tree, prefix@, line));
            r
        },
        UseItemTree::Glob => {
            let r = vec![Import { path: extend(prefix, "*"), line }];
            assert(r.deep_view() =~= use_imports(*tree, prefix@, line));
            r
        },
        UseItemTree::Group(v) => {
            let mut r: Vec<Import> = Vec::new();
            let mut i: usize = 0;
            assert(r.deep_view() =~= group_imports(*v, 0, prefix@, line));
            while i < v.len()
                invariant
                    *tree == UseItemTree::Group(*v),
                    0 <= i <= v.len(),
                    r.deep_view() == group_imports(*v, i as nat, prefix@, line),
                decreases v.len() - i,
            {
                proof {
                    vstd::std_specs::vec::axiom_vec_index_decreases(*v, i as int);
                    assert(decreases_to!(*tree => (*tree)->Group_0));
                }
                let mut sub = flatten_use_tree(&v[i], prefix, line);
                let ghost prev = r.deep_view();
                let ghost add = sub.deep_view();
                r.append(&mut sub);
                assert(r.deep_view() =~= prev + add);
                i = i + 1;
            }
            r
        },
    }
}

/// The re-exports of a `pub use` tree below `import_path`, each at `line`,
/// each with the full path it is imported from.
pub fn extract_re_exports_from_tree(tree: &UseItemTree, import_path: &str, line: usize) -> (r: Vec<
    ReExport,
>)
    ensures
        r.deep_view() == use_reexports(*tree, import_path@, line),
    decreases tree,
{
    match tree {
        UseItemTree::Path { ident, tree: sub } => {
            let p = extend(import_path, ident.as_str());
            extract_re_exports_from_tree(sub, p.as_str(), line)
        },
        UseItemTree::Name(n) => {
            let r = vec![
                ReExport { import_path: extend(import_path, n.as_str()), export_path: n.clone(), line },
            ];
            assert(r.deep_view() =~= use_reexports(*tree, import_path@, line));
            r
        },
        UseItemTree::Rename { ident, rename } => {
            let r = vec![
                ReExport {
                    import_path: extend(import_path, ident.as_str()),
                    export_path: rename.clone(),
                    line,
                },
            ];
            assert(r.deep_view() =~= use_reexports(*tree, import_path@, line));
            r
        },
        UseItemTree::Glob => {
            let r = vec![
                ReExport { import_path: extend(import_path, "*"), export_path: owned("*"), line },
            ];
            assert(r.deep_view() =~= use_reexports(*tree, import_path@, line));
            r
        },
        UseItemTree::Group(v) => {
            let mut r: Vec<ReExport> = Vec::new();
            let mut i: usize = 0;
            assert(r.deep_view() =~= group_reexports(*v, 0, import_path@, line));
            while i < v.len()
                invariant
                    *tree == UseItemTree::Group(*v),
                    0 <= i <= v.len(),
                    r.deep_view() == group_reexports(*v, i as nat, import_path@, line),
                decreases v.len() - i,
            {
                proof {
                    vstd::std_specs::vec::axiom_vec_index_decreases(*v, i as int);
                    assert(decreases_to!(*tree => (*tree)->Group_0));
                }
                let mut sub = extract_re_exports_from_tree(&v[i], import_path, line);
                let ghost prev = r.deep_view();
                let ghost add = sub.deep_view();
                r.append(&mut sub);
                assert(r.deep_view() =~= prev + add);
                i = i + 1;
            }
            r
        },
    }
}

/// Every path that the `use` items of `items` bring in, groups expanded;
/// sorted by path.
pub fn extract_imports(items: &Vec<SynItem>) -> (r: Vec<Import>)
    ensures
        r.deep_view() == imports_spec(items@),
{
    let mut v: Vec<Import> = Vec::new();
    let mut i: usize = 0;
    assert(items@.take(0) =~= Seq::<SynItem>::empty());
    while i < items.len()
        invariant
            0 <= i <= items@.len(),
            views_of(v@) == collect_imports(items@.take(i as int)),
        decreases items@.len() - i,
    {
        let it = &items[i];
        assert(items@.take(i + 1).drop_last() =~= items@.take(i as int));
        assert(items@.take(i + 1).last() == *it);
        if let SynItem::Use { tree, .. } = it {
            let mut sub = flatten_use_tree(tree, "", 0);
            proof {
                reveal_strlit("");
                assert(""@ =~= Seq::<char>::empty());
            }
            let ghost prev = v@;
            let ghost add = sub.deep_view();
            assert(add =~= views_of(sub@));
            v.append(&mut sub);
            assert(views_of(v@) =~= views_of(prev) + add);
        }
        i = i + 1;
    }
    assert(items@.take(items@.len() as int) =~= items@);
    proof {
        lemma_sort_views(v@, import_order());
    }
    let r = stable_sort(v);
    assert(r.deep_view() =~= views_of(r@));
    r
}

/// Every name that the `pub use` items of `items` re-export, groups
/// expanded; sorted by exported name.
pub fn extract_re_exports(items: &Vec<SynItem>) -> (r: Vec<ReExport>)
    ensures
        r.deep_view() == reexports_spec(items@),
{
    let mut v: Vec<ReExport> = Vec::new();
    let mut i: usize = 0;
    assert(items@.take(0) =~= Seq::<SynItem>::empty());
    while i < items.len()
        invariant
            0 <= i <= items@.len(),
            views_of(v@) == collect_reexports(items@.take(i as int)),
        decreases items@.len() - i,
    {
        let it = &items[i];
        assert(items@.take(i + 1).drop_last() =~= items@.take(i as int));
        assert(items@.take(i + 1).last() == *it);
        if let SynItem::Use { vis, tree } = it {
            if let Vis::Public = vis {
                let mut sub = extract_re_exports_from_tree(tree, "", 0);
                proof {
                    reveal_strlit("");
                    assert(""@ =~= Seq::<char>::empty());
                }
                let ghost prev = v@;
                let ghost add = sub.deep_view();
                assert(add =~= views_of(sub@));
                v.append(&mut sub);
                assert(views_of(v@) =~= views_of(prev) + add);
            }
        }
        i = i + 1;
    }
    assert(items@.take(items@.len() as int) =~= items@);
    proof {
        lemma_sort_views(v@, reexport_order());
    }
    let r = stable_sort(v);
    assert(r.deep_view() =~= views_of(r@));
    r
}

/// The `mod` declarations of `items`, each marked when it carries
/// `#[cfg(test)]`; sorted by name.
pub fn extract_submodules(items: &Vec<SynItem>) -> (r: Vec<SubmoduleDecl>)
    ensures
        r.deep_view() == submodules_spec(items@),
{
    let mut v: Vec<SubmoduleDecl> = Vec::new();
    let mut i: usize = 0;
    assert(items@.take(0) =~= Seq::<SynItem>::empty());
    while i < items.len()
        invariant
            0 <= i <= items@.len(),
            views_of(v@) == collect_submodules(items@.take(i as int)),
        decreases items@.len() - i,
    {
        let it = &items[i];
        assert(items@.take(i + 1).drop_last() =~= items@.take(i as int));
        assert(items@.take(i + 1).last() == *it);
        if let SynItem::Mod { ident, attrs, .. } = it {
            let d = SubmoduleDecl { name: ident.clone(), is_test: has_cfg_test(attrs) };
            let ghost prev = v@;
            v.push(d);
            assert(views_of(v@) =~= views_of(prev).push(d.deep_view()));
        }
        i = i + 1;
    }
    assert(items@.take(items@.len() as int) =~= items@);
    proof {
        lemma_sort_views(v@, submodule_order());
    }
    let r = stable_sort(v);
    assert(r.deep_view() =~= views_of(r@));
    r
}

/// The name of the target type of an `impl` block.
fn impl_target_name(t: &SynType) -> (r: String)
    ensures
        r@ == impl_type_name(*t),
{
    match t {
        SynType::Path(segs) => {
            if segs.len() > 0 {
                segs[segs.len() - 1].ident.clone()
            } else {
                String::new()
            }
        },
        _ => String::new(),
    }
}

/// The `impl` blocks of `items` whose target type has a name, each with
/// its functions, associated types and constants; in order.
pub fn extract_impls(items: &Vec<SynItem>) -> (r: Vec<ImplInfo>)
    ensures
        r.deep_view() == collect_impls(items@),
{
    let mut v: Vec<ImplInfo> = Vec::new();
    let mut i: usize = 0;
    assert(items@.take(0) =~= Seq::<SynItem>::empty());
    while i < items.len()
        invariant
            0 <= i <= items@.len(),
            v.deep_view() == collect_impls(items@.take(i as int)),
        decreases items@.len() - i,
    {
        let it = &items[i];
        assert(items@.take(i + 1).drop_last() =~= items@.take(i as int));
        assert(items@.take(i + 1).last() == *it);
        if let SynItem::Impl { self_ty, members } = it {
            let target_name = impl_target_name(self_ty);
            if !target_name.as_str().is_empty() {
                let mut impl_items: Vec<ImplItem> = Vec::new();
                let mut k: usize = 0;
                assert(members@.take(0) =~= Seq::<ImplMember>::empty());
                while k < members.len()
                    invariant
                        0 <= k <= members@.len(),
                        impl_items.deep_view() == impl_members_view(members@.take(k as int)),
                    decreases members@.len() - k,
                {
                    assert(members@.take(k + 1).drop_last() =~= members@.take(k as int));
                    assert(members@.take(k + 1).last() == members@[k as int]);
                    let ghost prev = impl_items.deep_view();
                    let item = match &members[k] {
                        ImplMember::Fn { name, generics } => Some(
                            ImplItem {
                                kind: ImplItemKind::Fn,
                                name: name.clone(),
                                params: generics_to_string(generics),
                            },
                        ),
                        ImplMember::Type(n) => Some(
                            ImplItem { kind: ImplItemKind::Type, name: n.clone(), params: String::new() },
                        ),
                        ImplMember::Const(n) => Some(
                            ImplItem { kind: ImplItemKind::Const, name: n.clone(), params: String::new() },
                        ),
                        ImplMember::Other => None,
                    };
                    match item {
                        Some(ii) => {
                            impl_items.push(ii);
                            assert(impl_items.deep_view() =~= prev.push(ii.deep_view()));
                        },
                        None => {},
                    }
                    k = k + 1;
                }
                assert(members@.take(members@.len() as int) =~= members@);
                let info = ImplInfo { type_: target_name, items: impl_items };
                let ghost pv = v.deep_view();
                v.push(info);
                assert(v.deep_view() =~= pv.push(info.deep_view()));
            }
        }
        i = i + 1;
    }
    assert(items@.take(items@.len() as int) =~= items@);
    v
}

// ── Implementation: files ───────────────────────────────────────────────

/// What the map reads of the items of a file or inline module.
pub fn file_info_of(items: &Vec<SynItem>) -> (r: FileInfo)
    ensures
        r.deep_view() == file_info_spec(items@),
{
    FileInfo {
        public_items: extract_public_items(items),
        imports: extract_imports(items),
        re_exports: extract_re_exports(items),
        submodules: extract_submodules(items),
        impls: extract_impls(items),
    }
}

/// The information of a file that could not be read or parsed.
pub fn empty_info() -> (r: FileInfo)
    ensures
        r.deep_view() == empty_file_info(),
{
    let r = FileInfo {
        public_items: Vec::new(),
        imports: Vec::new(),
        re_exports: Vec::new(),
        submodules: Vec::new(),
        impls: Vec::new(),
    };
    assert(r.public_items.deep_view() =~= Seq::<PublicItemView>::empty());
    assert(r.imports.deep_view() =~= Seq::<ImportView>::empty());
    assert(r.re_exports.deep_view() =~= Seq::<ReExportView>::empty());
    assert(r.submodules.deep_view() =~= Seq::<SubmoduleView>::empty());
    assert(r.impls.deep_view() =~= Seq::<ImplInfoView>::empty());
    r
}

/// The outcome of parsing a file from the outcome of reading it (its text,
/// or the message of the read error): syn's parse of the text, or the read
/// error at line 0.
pub open spec fn source_outcome(content: Result<String, String>) -> Result<SourceFile, SynParseError> {
    match content {
        Ok(t) => rust_syntax(t@),
        Err(e) => Err(SynParseError { message: e, line: 0 }),
    }
}

/// Parses a file from the outcome of reading it: syn's parse of the text,
/// or the read error at line 0.
pub fn parse_outcome(content: &Result<String, String>) -> (r: Result<SourceFile, SynParseError>)
    ensures
        r == source_outcome(*content),
{
    match content {
        Ok(t) => parse_rust(t.as_str()),
        Err(e) => Err(SynParseError { message: e.clone(), line: 0 }),
    }
}

/// Read and parse a Rust source file, from the outcome of reading it (its
/// text, or the message of the read error): on success the syntax tree and
/// what the map reads of it; when the file could not be read or parsed, an
/// empty tree and file information and the failure (a read error at line
/// 0, a parse error with syn's message and line).
pub fn parse_source(content: &Result<String, String>) -> (r: ParsedFile)
    ensures
        match source_outcome(*content) {
            Ok(f) => r.ast == f && r.file_info.deep_view() == file_info_spec(f.items@)
                && r.parse_error is None,
            Err(e) => r.ast.items@.len() == 0 && r.file_info.deep_view() == empty_file_info()
                && r.parse_error == Some(e),
        },
{
    parse_file(parse_outcome(content))
}

/// A parsed file from the outcome of reading and parsing it.
///
/// On success, the tree and what the map reads of it; on failure, an
/// empty tree and empty information alongside the failure, so that the
/// caller can go on with other files.
pub fn parse_file(source: Result<SourceFile, SynParseError>) -> (r: ParsedFile)
    ensures
        match source {
            Ok(f) => r.ast == f && r.file_info.deep_view() == file_info_spec(f.items@)
                && r.parse_error is None,
            Err(e) => r.ast.items@.len() == 0 && r.file_info.deep_view() == empty_file_info()
                && r.parse_error == Some(e),
        },
{
    match source {
        Ok(f) => {
            let info = file_info_of(&f.items);
            ParsedFile { ast: f, file_info: info, parse_error: None }
        },
        Err(e) => ParsedFile {
            ast: SourceFile { items: Vec::new() },
            file_info: empty_info(),
            parse_error: Some(e),
        },
    }
}

/// The diagnostic for the file at `path` that failed to parse.
pub fn build_parse_error_entry(path: &str, err: &SynParseError) -> (r: ErrorEntry)
    ensures
        r.deep_view() == parse_error_view(path@, err.message@, err.line),
{
    ErrorEntry {
        file: owned(path),
        line: err.line,
        message: err.message.clone(),
        severity: ErrorSeverity::Error,
        kind: DiagnosticKind::SynParseError,
        context: None,
        cause: None,
    }
}

// ── Laws ────────────────────────────────────────────────────────────────

/// What the map reads of a file comes in a fixed order, whatever the order
/// of the items: imports sorted by path, re-exports by exported name,
/// `mod` declarations by name, derived names alphabetically; and each list
/// holds exactly what the items declare.
pub proof fn law_file_info_order(items: Seq<SynItem>, attrs: Seq<Attr>)
    ensures
        crate::sort::sorted_by(imports_spec(items), |v: ImportView| v.path),
        imports_spec(items).to_multiset() == collect_imports(items).to_multiset(),
        crate::sort::sorted_by(reexports_spec(items), |v: ReExportView| v.export_path),
        reexports_spec(items).to_multiset() == collect_reexports(items).to_multiset(),
        crate::sort::sorted_by(submodules_spec(items), |v: SubmoduleView| v.name),
        submodules_spec(items).to_multiset() == collect_submodules(items).to_multiset(),
        public_items_spec(items).to_multiset() == collect_public(items).to_multiset(),
        crate::sort::sorted_by(attrs_view(attrs).derive, |t: Seq<char>| t),
        attrs_view(attrs).derive.to_multiset() == derives_of(attrs).to_multiset(),
{
    let ik = |v: ImportView| v.path;
    let rk = |v: ReExportView| v.export_path;
    let sk = |v: SubmoduleView| v.name;
    let tk = |t: Seq<char>| t;
    assert(crate::sort::key_lt_by(ik) =~= import_order());
    assert(crate::sort::key_lt_by(rk) =~= reexport_order());
    assert(crate::sort::key_lt_by(sk) =~= submodule_order());
    assert(crate::sort::key_lt_by(tk) =~= crate::sort::text_lt());
    crate::sort::lemma_sort_sorted(collect_imports(items), ik);
    crate::sort::lemma_sort_sorted(collect_reexports(items), rk);
    crate::sort::lemma_sort_sorted(collect_submodules(items), sk);
    crate::sort::lemma_sort_sorted(derives_of(attrs), tk);
    crate::sort::lemma_sort_view_permutes(collect_imports(items), import_order());
    crate::sort::lemma_sort_view_permutes(collect_reexports(items), reexport_order());
    crate::sort::lemma_sort_view_permutes(collect_submodules(items), submodule_order());
    crate::sort::lemma_sort_view_permutes(collect_public(items), item_order());
    crate::sort::lemma_sort_view_permutes(derives_of(attrs), crate::sort::text_lt());
}

/// The public items of a file come sorted by name, then by line: no item
/// precedes an earlier one in that order.
pub proof fn law_public_items_order(items: Seq<SynItem>)
    ensures
        crate::sort::ordered_by(public_items_spec(items), item_order()),
{
    let lt = item_order();
    assert forall|a: PublicItemView, b: PublicItemView| #[trigger] lt(a, b) implies !lt(b, a) by {
        crate::text::lemma_seq_lt_total(a.name, b.name);
        crate::text::lemma_seq_lt_irreflexive(a.name);
    }
    assert forall|a: PublicItemView, b: PublicItemView, c: PublicItemView|
        #[trigger] lt(a, b) && #[trigger] lt(b, c) implies lt(a, c) by {
        if seq_lt(a.name, b.name) && seq_lt(b.name, c.name) {
            crate::text::lemma_seq_lt_trans(a.name, b.name, c.name);
        }
    }
    crate::sort::lemma_sort_ordered(collect_public(items), lt);
}

} // verus!
