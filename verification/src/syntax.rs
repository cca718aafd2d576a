//! A plain model of what the map reads of a parsed Rust source file: its
//! items with their visibility, name, line, generic parameters,
//! attributes, fields, variants and types, its `use` trees and the members
//! of its `impl` blocks.
use vstd::prelude::*;

verus! {

/// The visibility written on an item.
#[derive(Debug)]
pub enum Vis {
    /// `pub`.
    Public,
    /// `pub(crate)`, `pub(super)`, `pub(in path)`: the segments of the path.
    Restricted(Vec<String>),
    /// No visibility written.
    Inherited,
}

/// What follows the path of an attribute.
#[derive(Debug)]
pub enum AttrMeta {
    /// A bare path, as in `#[test]`.
    Path,
    /// A list, as in `#[derive(A, B)]`: the tokens inside the brackets as
    /// the token printer writes them.
    List(String),
    /// A name-value pair, as in `#[doc = "text"]`: the value when it is a
    /// string literal.
    NameValue(Option<String>),
}

/// An outer attribute of an item.
#[derive(Debug)]
pub struct Attr {
    /// The path of the attribute when it is a single identifier.
    pub ident: Option<String>,
    pub meta: AttrMeta,
}

/// A generic argument of a path segment.
#[derive(Debug)]
pub enum GenericArg {
    Type(SynType),
    /// A lifetime, by its name without the apostrophe.
    Lifetime(String),
    /// A constant, a binding or a constraint.
    Other,
}

/// A segment of a type path.
#[derive(Debug)]
pub struct Segment {
    pub ident: String,
    /// The arguments in angle brackets, when the segment has them.
    pub args: Option<Vec<GenericArg>>,
}

/// A bound of a trait object or `impl Trait` type.
#[derive(Debug)]
pub enum TypeBound {
    /// A trait bound: the identifiers of the segments of its path.
    Trait(Vec<String>),
    /// A lifetime bound, by its name without the apostrophe.
    Lifetime(String),
    Other,
}

/// A type.
#[derive(Debug)]
pub enum SynType {
    Path(Vec<Segment>),
    Reference { has_lifetime: bool, elem: Box<SynType> },
    Tuple(Vec<SynType>),
    Slice(Box<SynType>),
    Array(Box<SynType>),
    Ptr { is_const: bool, elem: Box<SynType> },
    BareFn,
    Never,
    TraitObject(Vec<TypeBound>),
    ImplTrait(Vec<TypeBound>),
    Paren(Box<SynType>),
    Group(Box<SynType>),
    /// A macro in type position, an inferred type, or another form.
    Other,
}

/// A field of a struct or of an enum variant.
#[derive(Debug)]
pub struct FieldDef {
    /// The field is declared `pub`.
    pub is_pub: bool,
    pub ident: Option<String>,
    pub ty: SynType,
}

/// The fields of a struct or of an enum variant.
#[derive(Debug)]
pub enum FieldDefs {
    Named(Vec<FieldDef>),
    Unnamed(Vec<FieldDef>),
    Unit,
}

/// A variant of an enum.
#[derive(Debug)]
pub struct VariantDef {
    pub ident: String,
    pub fields: FieldDefs,
}

/// A `use` tree.
#[derive(Debug)]
pub enum UseItemTree {
    /// `ident::tree`.
    Path { ident: String, tree: Box<UseItemTree> },
    /// A name.
    Name(String),
    /// `ident as rename`.
    Rename { ident: String, rename: String },
    /// `*`.
    Glob,
    /// `{a, b, ...}`.
    Group(Vec<UseItemTree>),
}

/// A member of an `impl` block.
#[derive(Debug)]
pub enum ImplMember {
    /// A method or associated function, with the names of its generic
    /// parameters.
    Fn { name: String, generics: Vec<String> },
    /// An associated type.
    Type(String),
    /// An associated constant.
    Const(String),
    /// A macro invocation or another member.
    Other,
}

/// An item of a source file or of an inline module. The line of an item is
/// the line of its name; generic parameters are given by their names.
#[derive(Debug)]
pub enum SynItem {
    Struct {
        vis: Vis,
        ident: String,
        line: usize,
        generics: Vec<String>,
        attrs: Vec<Attr>,
        fields: FieldDefs,
    },
    Enum {
        vis: Vis,
        ident: String,
        line: usize,
        generics: Vec<String>,
        attrs: Vec<Attr>,
        variants: Vec<VariantDef>,
    },
    Trait { vis: Vis, ident: String, line: usize, generics: Vec<String>, attrs: Vec<Attr> },
    Fn { vis: Vis, ident: String, line: usize, generics: Vec<String>, attrs: Vec<Attr> },
    /// A type alias.
    TypeAlias {
        vis: Vis,
        ident: String,
        line: usize,
        generics: Vec<String>,
        attrs: Vec<Attr>,
    },
    /// A macro invocation or `macro_rules!` definition; the name is that of
    /// a definition.
    Macro { name: Option<String>, line: usize, attrs: Vec<Attr> },
    /// A module; `content` holds the items of an inline module.
    Mod {
        vis: Vis,
        ident: String,
        line: usize,
        attrs: Vec<Attr>,
        content: Option<Vec<SynItem>>,
    },
    Use { vis: Vis, tree: UseItemTree },
    Impl { self_ty: SynType, members: Vec<ImplMember> },
    /// A constant, static, union, extern crate, trait alias, foreign block
    /// or another item that the map does not describe.
    Other,
}

/// A parsed source file.
#[derive(Debug)]
pub struct SourceFile {
    pub items: Vec<SynItem>,
}

} // verus!
