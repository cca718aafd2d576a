//! The data of a workspace map: crates, modules, public items, the flat
//! indexes and the diagnostics.
use vstd::prelude::*;
use crate::ordered_map::{OrderedMap, TextKey};
use crate::sort::SortKey;
use crate::text::{concat, concat3, owned, seq_lt, str_lt};

verus! {

// ── Path newtypes for flat indexes ──────────────────────────────────────

/// A canonical path: a module path and an item name joined by `::`.
#[derive(Debug)]
pub struct CanonicalPath(pub String);

impl CanonicalPath {
    /// The text of the path.
    pub fn as_ref(&self) -> (r: &str)
        ensures
            r@ == self.0@,
    {
        self.0.as_str()
    }
}

impl Clone for CanonicalPath {
    fn clone(&self) -> (r: Self)
        ensures
            r == *self,
    {
        CanonicalPath(self.0.clone())
    }
}

impl From<String> for CanonicalPath {
    fn from(s: String) -> (r: Self) {
        CanonicalPath(s)
    }
}

impl vstd::std_specs::convert::FromSpecImpl<String> for CanonicalPath {
    open spec fn obeys_from_spec() -> bool {
        true
    }

    open spec fn from_spec(v: String) -> Self {
        CanonicalPath(v)
    }
}

impl TextKey for CanonicalPath {
    open spec fn text(&self) -> Seq<char> {
        self.0@
    }

    fn as_text(&self) -> (r: &str) {
        self.0.as_str()
    }
}

impl SortKey for CanonicalPath {
    open spec fn key_lt(&self, other: &Self) -> bool {
        seq_lt(self.0@, other.0@)
    }

    fn key_before(&self, other: &Self) -> (r: bool) {
        str_lt(self.0.as_str(), other.0.as_str())
    }
}

/// A path relative to the workspace root.
#[derive(Debug)]
pub struct WorkspaceRelativePath(pub String);

impl WorkspaceRelativePath {
    /// The text of the path.
    pub fn as_ref(&self) -> (r: &str)
        ensures
            r@ == self.0@,
    {
        self.0.as_str()
    }
}

impl Clone for WorkspaceRelativePath {
    fn clone(&self) -> (r: Self)
        ensures
            r == *self,
    {
        WorkspaceRelativePath(self.0.clone())
    }
}

impl From<String> for WorkspaceRelativePath {
    fn from(s: String) -> (r: Self) {
        WorkspaceRelativePath(s)
    }
}

impl vstd::std_specs::convert::FromSpecImpl<String> for WorkspaceRelativePath {
    open spec fn obeys_from_spec() -> bool {
        true
    }

    open spec fn from_spec(v: String) -> Self {
        WorkspaceRelativePath(v)
    }
}

impl TextKey for WorkspaceRelativePath {
    open spec fn text(&self) -> Seq<char> {
        self.0@
    }

    fn as_text(&self) -> (r: &str) {
        self.0.as_str()
    }
}

// ── Error type ──────────────────────────────────────────────────────────

/// What stops the mapping of a workspace.
#[derive(Debug)]
pub enum Error {
    /// No ancestor of the start directory holds a workspace `Cargo.toml`.
    WorkspaceRootNotFound(String),
    /// No `Cargo.toml` with a `[package]` section was found.
    CrateRootNotFound(String),
    /// A file could not be read.
    FileRead { path: String, message: String },
    /// A TOML file could not be parsed.
    TomlParse { path: String, message: String },
    /// A Rust source file could not be parsed.
    SynParse { path: String, message: String },
    /// A declared workspace member does not exist.
    MemberNotFound(String),
    /// A member glob pattern is invalid.
    GlobPattern(String),
    /// The workspace `Cargo.toml` has no `[workspace]` section.
    MissingWorkspaceSection,
}

/// What an [`Error`] holds.
pub enum ErrorView {
    WorkspaceRootNotFound(Seq<char>),
    CrateRootNotFound(Seq<char>),
    FileRead { path: Seq<char>, message: Seq<char> },
    TomlParse { path: Seq<char>, message: Seq<char> },
    SynParse { path: Seq<char>, message: Seq<char> },
    MemberNotFound(Seq<char>),
    GlobPattern(Seq<char>),
    MissingWorkspaceSection,
}

impl DeepView for Error {
    type V = ErrorView;

    open spec fn deep_view(&self) -> ErrorView {
        match self {
            Error::WorkspaceRootNotFound(p) => ErrorView::WorkspaceRootNotFound(p@),
            Error::CrateRootNotFound(p) => ErrorView::CrateRootNotFound(p@),
            Error::FileRead { path, message } => ErrorView::FileRead {
                path: path@,
                message: message@,
            },
            Error::TomlParse { path, message } => ErrorView::TomlParse {
                path: path@,
                message: message@,
            },
            Error::SynParse { path, message } => ErrorView::SynParse {
                path: path@,
                message: message@,
            },
            Error::MemberNotFound(p) => ErrorView::MemberNotFound(p@),
            Error::GlobPattern(m) => ErrorView::GlobPattern(m@),
            Error::MissingWorkspaceSection => ErrorView::MissingWorkspaceSection,
        }
    }
}

/// The text of an error, as its `Display` writes it.
pub open spec fn error_text(e: ErrorView) -> Seq<char> {
    match e {
        ErrorView::WorkspaceRootNotFound(p) => "no workspace root found starting from "@ + p,
        ErrorView::CrateRootNotFound(p) => "no Cargo.toml with [package] section found starting from "@
            + p,
        ErrorView::FileRead { path, message } => "failed to read file "@ + path + ": "@ + message,
        ErrorView::TomlParse { path, message } => "failed to parse "@ + path + ": "@ + message,
        ErrorView::SynParse { path, message } => "failed to parse Rust source "@ + path + ": "@
            + message,
        ErrorView::MemberNotFound(p) => "workspace member "@ + p + " does not exist"@,
        ErrorView::GlobPattern(m) => "glob pattern error: "@ + m,
        ErrorView::MissingWorkspaceSection => "workspace Cargo.toml is missing the [workspace] section"@,
    }
}

impl Error {
    /// The text of the error, as its `Display` writes it.
    pub fn message(&self) -> (r: String)
        ensures
            r@ == error_text(self.deep_view()),
    {
        match self {
            Error::WorkspaceRootNotFound(p) => concat("no workspace root found starting from ", p.as_str()),
            Error::CrateRootNotFound(p) => concat(
                "no Cargo.toml with [package] section found starting from ",
                p.as_str(),
            ),
            Error::FileRead { path, message } => {
                let mut s = concat("failed to read file ", path.as_str());
                s.append(": ");
                s.append(message.as_str());
                s
            },
            Error::TomlParse { path, message } => {
                let mut s = concat("failed to parse ", path.as_str());
                s.append(": ");
                s.append(message.as_str());
                s
            },
            Error::SynParse { path, message } => {
                let mut s = concat("failed to parse Rust source ", path.as_str());
                s.append(": ");
                s.append(message.as_str());
                s
            },
            Error::MemberNotFound(p) => concat3("workspace member ", p.as_str(), " does not exist"),
            Error::GlobPattern(m) => concat("glob pattern error: ", m.as_str()),
            Error::MissingWorkspaceSection => owned(
                "workspace Cargo.toml is missing the [workspace] section",
            ),
        }
    }
}

// ── Config ──────────────────────────────────────────────────────────────

/// How a workspace is to be mapped.
#[derive(Debug)]
pub struct Config {
    /// Absolute path to the workspace root (or a directory within it).
    pub workspace_path: String,
    /// If Some, write JSON to this file instead of stdout.
    pub output_path: Option<String>,
    /// When true, run validation checks (orphan files, dead re-exports).
    pub validate: bool,
}

// ── Crate type ──────────────────────────────────────────────────────────

/// Whether a crate has a library root, a binary root, or both.
#[derive(Debug, Clone, Copy, PartialEq, Eq, Structural)]
pub enum CrateType {
    Lib,
    Bin,
    LibAndBin,
}

// ── Top-level output ────────────────────────────────────────────────────

/// The map of a workspace.
#[derive(Debug)]
pub struct WorkspaceMap {
    pub workspace: WorkspaceInfo,
    pub crates: Vec<CrateInfo>,
    pub cross_references: CrossReferences,
    pub symbols: OrderedMap<CanonicalPath, SymbolEntry>,
    pub name_index: OrderedMap<String, Vec<CanonicalPath>>,
    pub files: OrderedMap<WorkspaceRelativePath, FileEntry>,
    pub errors: Vec<ErrorEntry>,
    /// Used for path relativization during construction; not serialized.
    pub workspace_root: String,
}

/// The workspace's root and name.
#[derive(Debug)]
pub struct WorkspaceInfo {
    pub root: String,
    pub workspace_name: String,
}

// ── Crate ───────────────────────────────────────────────────────────────

/// A member crate of the workspace.
#[derive(Debug)]
pub struct CrateInfo {
    pub name: String,
    pub root: String,
    pub package: PackageInfo,
    pub modules: Vec<ModuleInfo>,
    pub deps: DepInfo,
    pub cross_crate_imports: Vec<CrossCrateImport>,
}

/// The `[package]` metadata of a crate.
#[derive(Debug)]
pub struct PackageInfo {
    pub name: String,
    pub version: String,
    pub edition: String,
    pub crate_type: CrateType,
}

// ── Dependencies ────────────────────────────────────────────────────────

/// The dependencies a crate declares.
#[derive(Debug)]
pub struct DepInfo {
    pub normal: Vec<String>,
    pub dev: Vec<String>,
    pub workspace_members: Vec<String>,
}

// ── Module ──────────────────────────────────────────────────────────────

/// A module of a crate.
#[derive(Debug)]
pub struct ModuleInfo {
    pub path: String,
    pub file: String,
    pub visibility: String,
    pub public_items: Vec<PublicItem>,
    pub imports: Vec<Import>,
    pub re_exports: Vec<ReExport>,
    pub submodules: Vec<String>,
}

// ── Public items ────────────────────────────────────────────────────────

/// An item with some form of `pub` visibility.
#[derive(Debug)]
pub struct PublicItem {
    pub kind: ItemKind,
    pub name: String,
    pub file: String,
    pub line: usize,
    pub attrs: ItemAttrs,
    pub generics: String,
    pub visibility: String,
    pub fields: Vec<String>,
    pub variants: Vec<String>,
    pub impls: Vec<ImplInfo>,
}

/// The kind of a public item.
#[derive(Debug, Clone, Copy, PartialEq, Eq, Structural)]
pub enum ItemKind {
    Struct,
    Enum,
    Trait,
    Fn,
    Type,
    Macro,
}

/// The derives and doc lines of an item.
#[derive(Debug)]
pub struct ItemAttrs {
    pub derive: Vec<String>,
    pub doc: Vec<String>,
}

// ── Impl blocks ─────────────────────────────────────────────────────────

/// An `impl` block: the name of its target type and its items.
#[derive(Debug)]
pub struct ImplInfo {
    pub type_: String,
    pub items: Vec<ImplItem>,
}

/// An item of an `impl` block.
#[derive(Debug)]
pub struct ImplItem {
    pub kind: ImplItemKind,
    pub name: String,
    pub params: String,
}

/// The kind of an item of an `impl` block.
#[derive(Debug, Clone, Copy, PartialEq, Eq, Structural)]
pub enum ImplItemKind {
    Fn,
    Type,
    Const,
}

// ── Imports / Re-exports ────────────────────────────────────────────────

/// One path brought in by a `use` item.
#[derive(Debug)]
pub struct Import {
    pub path: String,
    pub line: usize,
}

/// One name re-exported by a `pub use` item.
#[derive(Debug)]
pub struct ReExport {
    pub import_path: String,
    pub export_path: String,
    pub line: usize,
}

// ── Cross-crate ─────────────────────────────────────────────────────────

/// An import of one workspace crate from another.
#[derive(Debug)]
pub struct CrossCrateImport {
    pub import_path: String,
    pub target_crate: String,
    pub symbol: String,
    pub line: usize,
}

/// The type-level cross references of the workspace, by canonical path.
#[derive(Debug)]
pub struct CrossReferences {
    pub types: OrderedMap<String, TypeRef>,
}

/// Which crate defines a public item, and which import or export it.
#[derive(Debug)]
pub struct TypeRef {
    pub crate_name: String,
    pub kind: String,
    pub imported_by: Vec<String>,
    pub exported_by: Vec<String>,
}

// ── Diagnostic kind ─────────────────────────────────────────────────────

/// The kind of a diagnostic.
#[derive(Debug, Clone, Copy, PartialEq, Eq, Structural)]
pub enum DiagnosticKind {
    OrphanedModule,
    TomlParseError,
    MissingCrateRoots,
    ModuleTreeError,
    SynParseError,
    MissingWorkspaceSection,
    GlobPatternError,
    MemberNotFound,
    OrphanFile,
    DeadReExport,
}

// ── Error severity ─────────────────────────────────────────────────────

/// How serious a diagnostic is.
#[derive(Debug, Clone, Copy, PartialEq, Eq, Structural)]
pub enum ErrorSeverity {
    Error,
    Warning,
}

// ── Error context ───────────────────────────────────────────────────────

/// Optional context attached to a diagnostic.
#[derive(Debug)]
pub struct ErrorContext {
    pub crate_name: Option<String>,
    pub mod_path: Option<String>,
    /// Line number in the source file where the error occurred.
    pub line: Option<usize>,
    /// A short source snippet near the error location (if available).
    pub snippet: Option<String>,
}

// ── Internal types ──────────────────────────────────────────────────────

/// What the module tree reads of a parsed source file.
#[derive(Debug)]
pub struct FileInfo {
    pub public_items: Vec<PublicItem>,
    pub imports: Vec<Import>,
    pub re_exports: Vec<ReExport>,
    pub submodules: Vec<SubmoduleDecl>,
    pub impls: Vec<ImplInfo>,
}

/// A `mod` declaration.
#[derive(Debug)]
pub struct SubmoduleDecl {
    pub name: String,
    pub is_test: bool,
}

// ── Flat index entry types ──────────────────────────────────────────────

/// Where a public item is defined.
#[derive(Debug)]
pub struct SymbolEntry {
    pub crate_name: String,
    pub module: String,
    pub file: String,
    pub line: usize,
    pub kind: ItemKind,
    pub derive_attrs: Vec<String>,
}

/// The module wiring of a source file.
#[derive(Debug)]
pub struct FileEntry {
    pub mod_path: String,
    pub parent_module_file: Option<String>,
    pub is_crate_root: bool,
}

// ── Error reporting ─────────────────────────────────────────────────────

/// A diagnostic of the mapping.
#[derive(Debug)]
pub struct ErrorEntry {
    pub file: String,
    pub line: usize,
    pub message: String,
    pub severity: ErrorSeverity,
    pub kind: DiagnosticKind,
    pub context: Option<ErrorContext>,
    pub cause: Option<String>,
}

// ── Deep views ──────────────────────────────────────────────────────────

/// What a [`PackageInfo`] holds, its texts as character sequences.
pub struct PackageView {
    pub name: Seq<char>,
    pub version: Seq<char>,
    pub edition: Seq<char>,
    pub crate_type: CrateType,
}

/// What a [`DepInfo`] holds.
pub struct DepView {
    pub normal: Seq<Seq<char>>,
    pub dev: Seq<Seq<char>>,
    pub workspace_members: Seq<Seq<char>>,
}

/// What an [`ItemAttrs`] holds.
pub struct ItemAttrsView {
    pub derive: Seq<Seq<char>>,
    pub doc: Seq<Seq<char>>,
}

/// What an [`ImplItem`] holds.
pub struct ImplItemView {
    pub kind: ImplItemKind,
    pub name: Seq<char>,
    pub params: Seq<char>,
}

/// What an [`ImplInfo`] holds.
pub struct ImplInfoView {
    pub type_: Seq<char>,
    pub items: Seq<ImplItemView>,
}

/// What a [`PublicItem`] holds.
pub struct PublicItemView {
    pub kind: ItemKind,
    pub name: Seq<char>,
    pub file: Seq<char>,
    pub line: usize,
    pub attrs: ItemAttrsView,
    pub generics: Seq<char>,
    pub visibility: Seq<char>,
    pub fields: Seq<Seq<char>>,
    pub variants: Seq<Seq<char>>,
    pub impls: Seq<ImplInfoView>,
}

/// What an [`Import`] holds.
pub struct ImportView {
    pub path: Seq<char>,
    pub line: usize,
}

/// What a [`ReExport`] holds.
pub struct ReExportView {
    pub import_path: Seq<char>,
    pub export_path: Seq<char>,
    pub line: usize,
}

/// What a [`ModuleInfo`] holds.
pub struct ModuleView {
    pub path: Seq<char>,
    pub file: Seq<char>,
    pub visibility: Seq<char>,
    pub public_items: Seq<PublicItemView>,
    pub imports: Seq<ImportView>,
    pub re_exports: Seq<ReExportView>,
    pub submodules: Seq<Seq<char>>,
}

/// What a [`CrossCrateImport`] holds.
pub struct CrossCrateImportView {
    pub import_path: Seq<char>,
    pub target_crate: Seq<char>,
    pub symbol: Seq<char>,
    pub line: usize,
}

/// What a [`CrateInfo`] holds.
pub struct CrateView {
    pub name: Seq<char>,
    pub root: Seq<char>,
    pub package: PackageView,
    pub modules: Seq<ModuleView>,
    pub deps: DepView,
    pub cross_crate_imports: Seq<CrossCrateImportView>,
}

/// What a [`TypeRef`] holds.
pub struct TypeRefView {
    pub crate_name: Seq<char>,
    pub kind: Seq<char>,
    pub imported_by: Seq<Seq<char>>,
    pub exported_by: Seq<Seq<char>>,
}

/// What a [`SubmoduleDecl`] holds.
pub struct SubmoduleView {
    pub name: Seq<char>,
    pub is_test: bool,
}

/// What a [`FileInfo`] holds.
pub struct FileInfoView {
    pub public_items: Seq<PublicItemView>,
    pub imports: Seq<ImportView>,
    pub re_exports: Seq<ReExportView>,
    pub submodules: Seq<SubmoduleView>,
    pub impls: Seq<ImplInfoView>,
}

/// What a [`SymbolEntry`] holds.
pub struct SymbolView {
    pub crate_name: Seq<char>,
    pub module: Seq<char>,
    pub file: Seq<char>,
    pub line: usize,
    pub kind: ItemKind,
    pub derive_attrs: Seq<Seq<char>>,
}

/// What a [`FileEntry`] holds.
pub struct FileEntryView {
    pub mod_path: Seq<char>,
    pub parent_module_file: Option<Seq<char>>,
    pub is_crate_root: bool,
}

/// What an [`ErrorContext`] holds.
pub struct ErrorContextView {
    pub crate_name: Option<Seq<char>>,
    pub mod_path: Option<Seq<char>>,
    pub line: Option<usize>,
    pub snippet: Option<Seq<char>>,
}

/// What an [`ErrorEntry`] holds.
pub struct ErrorEntryView {
    pub file: Seq<char>,
    pub line: usize,
    pub message: Seq<char>,
    pub severity: ErrorSeverity,
    pub kind: DiagnosticKind,
    pub context: Option<ErrorContextView>,
    pub cause: Option<Seq<char>>,
}

/// What a [`WorkspaceInfo`] holds.
pub struct WorkspaceInfoView {
    pub root: Seq<char>,
    pub workspace_name: Seq<char>,
}

impl DeepView for CanonicalPath {
    type V = Seq<char>;

    open spec fn deep_view(&self) -> Seq<char> {
        self.0@
    }
}

impl DeepView for WorkspaceRelativePath {
    type V = Seq<char>;

    open spec fn deep_view(&self) -> Seq<char> {
        self.0@
    }
}

impl DeepView for CrateType {
    type V = CrateType;

    open spec fn deep_view(&self) -> CrateType {
        *self
    }
}

impl DeepView for ItemKind {
    type V = ItemKind;

    open spec fn deep_view(&self) -> ItemKind {
        *self
    }
}

impl DeepView for ImplItemKind {
    type V = ImplItemKind;

    open spec fn deep_view(&self) -> ImplItemKind {
        *self
    }
}

impl DeepView for PackageInfo {
    type V = PackageView;

    open spec fn deep_view(&self) -> PackageView {
        PackageView {
            name: self.name@,
            version: self.version@,
            edition: self.edition@,
            crate_type: self.crate_type,
        }
    }
}

impl DeepView for DepInfo {
    type V = DepView;

    open spec fn deep_view(&self) -> DepView {
        DepView {
            normal: self.normal.deep_view(),
            dev: self.dev.deep_view(),
            workspace_members: self.workspace_members.deep_view(),
        }
    }
}

impl DeepView for ItemAttrs {
    type V = ItemAttrsView;

    open spec fn deep_view(&self) -> ItemAttrsView {
        ItemAttrsView { derive: self.derive.deep_view(), doc: self.doc.deep_view() }
    }
}

impl DeepView for ImplItem {
    type V = ImplItemView;

    open spec fn deep_view(&self) -> ImplItemView {
        ImplItemView { kind: self.kind, name: self.name@, params: self.params@ }
    }
}

impl DeepView for ImplInfo {
    type V = ImplInfoView;

    open spec fn deep_view(&self) -> ImplInfoView {
        ImplInfoView { type_: self.type_@, items: self.items.deep_view() }
    }
}

impl DeepView for PublicItem {
    type V = PublicItemView;

    open spec fn deep_view(&self) -> PublicItemView {
        PublicItemView {
            kind: self.kind,
            name: self.name@,
            file: self.file@,
            line: self.line,
            attrs: self.attrs.deep_view(),
            generics: self.generics@,
            visibility: self.visibility@,
            fields: self.fields.deep_view(),
            variants: self.variants.deep_view(),
            impls: self.impls.deep_view(),
        }
    }
}

impl DeepView for Import {
    type V = ImportView;

    open spec fn deep_view(&self) -> ImportView {
        ImportView { path: self.path@, line: self.line }
    }
}

impl DeepView for ReExport {
    type V = ReExportView;

    open spec fn deep_view(&self) -> ReExportView {
        ReExportView {
            import_path: self.import_path@,
            export_path: self.export_path@,
            line: self.line,
        }
    }
}

impl DeepView for ModuleInfo {
    type V = ModuleView;

    open spec fn deep_view(&self) -> ModuleView {
        ModuleView {
            path: self.path@,
            file: self.file@,
            visibility: self.visibility@,
            public_items: self.public_items.deep_view(),
            imports: self.imports.deep_view(),
            re_exports: self.re_exports.deep_view(),
            submodules: self.submodules.deep_view(),
        }
    }
}

impl DeepView for CrossCrateImport {
    type V = CrossCrateImportView;

    open spec fn deep_view(&self) -> CrossCrateImportView {
        CrossCrateImportView {
            import_path: self.import_path@,
            target_crate: self.target_crate@,
            symbol: self.symbol@,
            line: self.line,
        }
    }
}

impl DeepView for CrateInfo {
    type V = CrateView;

    open spec fn deep_view(&self) -> CrateView {
        CrateView {
            name: self.name@,
            root: self.root@,
            package: self.package.deep_view(),
            modules: self.modules.deep_view(),
            deps: self.deps.deep_view(),
            cross_crate_imports: self.cross_crate_imports.deep_view(),
        }
    }
}

impl DeepView for TypeRef {
    type V = TypeRefView;

    open spec fn deep_view(&self) -> TypeRefView {
        TypeRefView {
            crate_name: self.crate_name@,
            kind: self.kind@,
            imported_by: self.imported_by.deep_view(),
            exported_by: self.exported_by.deep_view(),
        }
    }
}

impl DeepView for SubmoduleDecl {
    type V = SubmoduleView;

    open spec fn deep_view(&self) -> SubmoduleView {
        SubmoduleView { name: self.name@, is_test: self.is_test }
    }
}

impl DeepView for FileInfo {
    type V = FileInfoView;

    open spec fn deep_view(&self) -> FileInfoView {
        FileInfoView {
            public_items: self.public_items.deep_view(),
            imports: self.imports.deep_view(),
            re_exports: self.re_exports.deep_view(),
            submodules: self.submodules.deep_view(),
            impls: self.impls.deep_view(),
        }
    }
}

impl DeepView for SymbolEntry {
    type V = SymbolView;

    open spec fn deep_view(&self) -> SymbolView {
        SymbolView {
            crate_name: self.crate_name@,
            module: self.module@,
            file: self.file@,
            line: self.line,
            kind: self.kind,
            derive_attrs: self.derive_attrs.deep_view(),
        }
    }
}

impl DeepView for FileEntry {
    type V = FileEntryView;

    open spec fn deep_view(&self) -> FileEntryView {
        FileEntryView {
            mod_path: self.mod_path@,
            parent_module_file: self.parent_module_file.deep_view(),
            is_crate_root: self.is_crate_root,
        }
    }
}

impl DeepView for ErrorContext {
    type V = ErrorContextView;

    open spec fn deep_view(&self) -> ErrorContextView {
        ErrorContextView {
            crate_name: self.crate_name.deep_view(),
            mod_path: self.mod_path.deep_view(),
            line: self.line,
            snippet: self.snippet.deep_view(),
        }
    }
}

impl DeepView for ErrorEntry {
    type V = ErrorEntryView;

    open spec fn deep_view(&self) -> ErrorEntryView {
        ErrorEntryView {
            file: self.file@,
            line: self.line,
            message: self.message@,
            severity: self.severity,
            kind: self.kind,
            context: self.context.deep_view(),
            cause: self.cause.deep_view(),
        }
    }
}

impl DeepView for WorkspaceInfo {
    type V = WorkspaceInfoView;

    open spec fn deep_view(&self) -> WorkspaceInfoView {
        WorkspaceInfoView { root: self.root@, workspace_name: self.workspace_name@ }
    }
}

// ── Clone and Default ───────────────────────────────────────────────────

impl Clone for PackageInfo {
    fn clone(&self) -> (r: Self)
        ensures
            r.deep_view() == self.deep_view(),
    {
        PackageInfo {
            name: self.name.clone(),
            version: self.version.clone(),
            edition: self.edition.clone(),
            crate_type: self.crate_type,
        }
    }
}

impl Clone for DepInfo {
    fn clone(&self) -> (r: Self)
        ensures
            r.deep_view() == self.deep_view(),
    {
        let r = DepInfo {
            normal: self.normal.clone(),
            dev: self.dev.clone(),
            workspace_members: self.workspace_members.clone(),
        };
        assert(r.normal.deep_view() =~= self.normal.deep_view());
        assert(r.dev.deep_view() =~= self.dev.deep_view());
        assert(r.workspace_members.deep_view() =~= self.workspace_members.deep_view());
        r
    }
}

impl Default for DepInfo {
    fn default() -> (r: Self)
        ensures
            r.normal@.len() == 0,
            r.dev@.len() == 0,
            r.workspace_members@.len() == 0,
    {
        DepInfo { normal: Vec::new(), dev: Vec::new(), workspace_members: Vec::new() }
    }
}

impl Clone for ItemAttrs {
    fn clone(&self) -> (r: Self)
        ensures
            r.deep_view() == self.deep_view(),
    {
        let r = ItemAttrs { derive: self.derive.clone(), doc: self.doc.clone() };
        assert(r.derive.deep_view() =~= self.derive.deep_view());
        assert(r.doc.deep_view() =~= self.doc.deep_view());
        r
    }
}

impl Default for ItemAttrs {
    fn default() -> (r: Self)
        ensures
            r.derive@.len() == 0,
            r.doc@.len() == 0,
    {
        ItemAttrs { derive: Vec::new(), doc: Vec::new() }
    }
}

impl Clone for ImplItem {
    fn clone(&self) -> (r: Self)
        ensures
            r.deep_view() == self.deep_view(),
    {
        ImplItem { kind: self.kind, name: self.name.clone(), params: self.params.clone() }
    }
}

impl Clone for ImplInfo {
    fn clone(&self) -> (r: Self)
        ensures
            r.deep_view() == self.deep_view(),
    {
        let r = ImplInfo { type_: self.type_.clone(), items: self.items.clone() };
        assert(r.items.deep_view() =~= self.items.deep_view());
        r
    }
}

impl Clone for PublicItem {
    fn clone(&self) -> (r: Self)
        ensures
            r.deep_view() == self.deep_view(),
    {
        let r = PublicItem {
            kind: self.kind,
            name: self.name.clone(),
            file: self.file.clone(),
            line: self.line,
            attrs: self.attrs.clone(),
            generics: self.generics.clone(),
            visibility: self.visibility.clone(),
            fields: self.fields.clone(),
            variants: self.variants.clone(),
            impls: self.impls.clone(),
        };
        assert(r.fields.deep_view() =~= self.fields.deep_view());
        assert(r.variants.deep_view() =~= self.variants.deep_view());
        assert(r.impls.deep_view() =~= self.impls.deep_view());
        r
    }
}

impl Clone for Import {
    fn clone(&self) -> (r: Self)
        ensures
            r.deep_view() == self.deep_view(),
    {
        Import { path: self.path.clone(), line: self.line }
    }
}

impl Clone for ReExport {
    fn clone(&self) -> (r: Self)
        ensures
            r.deep_view() == self.deep_view(),
    {
        ReExport {
            import_path: self.import_path.clone(),
            export_path: self.export_path.clone(),
            line: self.line,
        }
    }
}

impl Clone for ModuleInfo {
    fn clone(&self) -> (r: Self)
        ensures
            r.deep_view() == self.deep_view(),
    {
        let r = ModuleInfo {
            path: self.path.clone(),
            file: self.file.clone(),
            visibility: self.visibility.clone(),
            public_items: self.public_items.clone(),
            imports: self.imports.clone(),
            re_exports: self.re_exports.clone(),
            submodules: self.submodules.clone(),
        };
        assert(r.public_items.deep_view() =~= self.public_items.deep_view());
        assert(r.imports.deep_view() =~= self.imports.deep_view());
        assert(r.re_exports.deep_view() =~= self.re_exports.deep_view());
        assert(r.submodules.deep_view() =~= self.submodules.deep_view());
        r
    }
}

impl Clone for CrossCrateImport {
    fn clone(&self) -> (r: Self)
        ensures
            r.deep_view() == self.deep_view(),
    {
        CrossCrateImport {
            import_path: self.import_path.clone(),
            target_crate: self.target_crate.clone(),
            symbol: self.symbol.clone(),
            line: self.line,
        }
    }
}

impl Clone for CrateInfo {
    fn clone(&self) -> (r: Self)
        ensures
            r.deep_view() == self.deep_view(),
    {
        let r = CrateInfo {
            name: self.name.clone(),
            root: self.root.clone(),
            package: self.package.clone(),
            modules: self.modules.clone(),
            deps: self.deps.clone(),
            cross_crate_imports: self.cross_crate_imports.clone(),
        };
        assert(r.modules.deep_view() =~= self.modules.deep_view());
        assert(r.cross_crate_imports.deep_view() =~= self.cross_crate_imports.deep_view());
        r
    }
}

impl Clone for TypeRef {
    fn clone(&self) -> (r: Self)
        ensures
            r.deep_view() == self.deep_view(),
    {
        let r = TypeRef {
            crate_name: self.crate_name.clone(),
            kind: self.kind.clone(),
            imported_by: self.imported_by.clone(),
            exported_by: self.exported_by.clone(),
        };
        assert(r.imported_by.deep_view() =~= self.imported_by.deep_view());
        assert(r.exported_by.deep_view() =~= self.exported_by.deep_view());
        r
    }
}

impl Clone for SubmoduleDecl {
    fn clone(&self) -> (r: Self)
        ensures
            r.deep_view() == self.deep_view(),
    {
        SubmoduleDecl { name: self.name.clone(), is_test: self.is_test }
    }
}

impl Clone for SymbolEntry {
    fn clone(&self) -> (r: Self)
        ensures
            r.deep_view() == self.deep_view(),
    {
        let r = SymbolEntry {
            crate_name: self.crate_name.clone(),
            module: self.module.clone(),
            file: self.file.clone(),
            line: self.line,
            kind: self.kind,
            derive_attrs: self.derive_attrs.clone(),
        };
        assert(r.derive_attrs.deep_view() =~= self.derive_attrs.deep_view());
        r
    }
}

impl Clone for FileEntry {
    fn clone(&self) -> (r: Self)
        ensures
            r.deep_view() == self.deep_view(),
    {
        FileEntry {
            mod_path: self.mod_path.clone(),
            parent_module_file: self.parent_module_file.clone(),
            is_crate_root: self.is_crate_root,
        }
    }
}

impl Clone for ErrorContext {
    fn clone(&self) -> (r: Self)
        ensures
            r.deep_view() == self.deep_view(),
    {
        ErrorContext {
            crate_name: self.crate_name.clone(),
            mod_path: self.mod_path.clone(),
            line: self.line,
            snippet: self.snippet.clone(),
        }
    }
}

impl Default for ErrorContext {
    fn default() -> (r: Self)
        ensures
            r.crate_name is None,
            r.mod_path is None,
            r.line is None,
            r.snippet is None,
    {
        ErrorContext { crate_name: None, mod_path: None, line: None, snippet: None }
    }
}

impl Clone for ErrorEntry {
    fn clone(&self) -> (r: Self)
        ensures
            r.deep_view() == self.deep_view(),
    {
        ErrorEntry {
            file: self.file.clone(),
            line: self.line,
            message: self.message.clone(),
            severity: self.severity,
            kind: self.kind,
            context: self.context.clone(),
            cause: self.cause.clone(),
        }
    }
}

impl Clone for WorkspaceInfo {
    fn clone(&self) -> (r: Self)
        ensures
            r.deep_view() == self.deep_view(),
    {
        WorkspaceInfo { root: self.root.clone(), workspace_name: self.workspace_name.clone() }
    }
}

impl Default for CrossReferences {
    fn default() -> (r: Self)
        ensures
            r.types@ == Map::<Seq<char>, TypeRefView>::empty(),
    {
        CrossReferences { types: OrderedMap::new() }
    }
}

} // verus!
