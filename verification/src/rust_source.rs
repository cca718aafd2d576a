//! Rust source text parsed with `syn` into the plain syntax model: the
//! parse is trusted and named, the conversion moves syn's values one for
//! one into the model, with lines taken from the spans of item names.
use vstd::prelude::*;
use crate::file_parser::SynParseError;
use crate::syntax::{AttrMeta, Attr, FieldDef, FieldDefs, GenericArg, ImplMember, Segment,
    SourceFile, SynItem, SynType, TypeBound, UseItemTree, VariantDef, Vis};

verus! {

// ── syn's types, carried opaquely through the conversion ───────────────

#[verifier::external_type_specification]
#[verifier::external_body]
pub struct ExSynItem(syn::Item);

#[verifier::external_type_specification]
#[verifier::external_body]
pub struct ExSynItemStruct(syn::ItemStruct);

#[verifier::external_type_specification]
#[verifier::external_body]
pub struct ExSynItemEnum(syn::ItemEnum);

#[verifier::external_type_specification]
#[verifier::external_body]
pub struct ExSynItemTrait(syn::ItemTrait);

#[verifier::external_type_specification]
#[verifier::external_body]
pub struct ExSynItemFn(syn::ItemFn);

#[verifier::external_type_specification]
#[verifier::external_body]
pub struct ExSynItemType(syn::ItemType);

#[verifier::external_type_specification]
#[verifier::external_body]
pub struct ExSynItemMacro(syn::ItemMacro);

#[verifier::external_type_specification]
#[verifier::external_body]
pub struct ExSynItemMod(syn::ItemMod);

#[verifier::external_type_specification]
#[verifier::external_body]
pub struct ExSynItemImpl(syn::ItemImpl);

#[verifier::external_type_specification]
#[verifier::external_body]
pub struct ExSynVisibility(syn::Visibility);

#[verifier::external_type_specification]
#[verifier::external_body]
pub struct ExSynGenerics(syn::Generics);

#[verifier::external_type_specification]
#[verifier::external_body]
pub struct ExSynAttribute(syn::Attribute);

#[verifier::external_type_specification]
#[verifier::external_body]
pub struct ExSynTypeParamBound(syn::TypeParamBound);

#[verifier::external_type_specification]
#[verifier::external_body]
pub struct ExSynGenericArgument(syn::GenericArgument);

#[verifier::external_type_specification]
#[verifier::external_body]
pub struct ExSynPathSegment(syn::PathSegment);

#[verifier::external_type_specification]
#[verifier::external_body]
pub struct ExSynType(syn::Type);

#[verifier::external_type_specification]
#[verifier::external_body]
pub struct ExSynField(syn::Field);

#[verifier::external_type_specification]
#[verifier::external_body]
pub struct ExSynFields(syn::Fields);

#[verifier::external_type_specification]
#[verifier::external_body]
pub struct ExSynVariant(syn::Variant);

#[verifier::external_type_specification]
#[verifier::external_body]
pub struct ExSynUseTree(syn::UseTree);

// ── The parse ───────────────────────────────────────────────────────────

/// The syntax model of the file that `syn::parse_file` reads from `text`,
/// or its error (message, and line of the error's span).
pub uninterp spec fn rust_syntax(text: Seq<char>) -> Result<SourceFile, SynParseError>;

/// Parses Rust source text with `syn::parse_file` and converts the file,
/// one for one, into the syntax model. Trusted, not proved: the outcome is
/// `rust_syntax` of the text, a function of the text alone; nothing more is
/// claimed of what syn accepts or of the lines its spans give.
#[verifier::external_body]
pub(crate) fn parse_rust(text: &str) -> (r: Result<SourceFile, SynParseError>)
    ensures
        r == rust_syntax(text@),
{
    match syn::parse_file(text) {
        Ok(file) => Ok(SourceFile { items: file.items.iter().map(conv_item).collect() }),
        Err(e) => Err(SynParseError { message: e.to_string(), line: e.span().start().line }),
    }
}

// ── The conversion (parts of `parse_rust`) ─────────────────────────────

/// A visibility, as the model writes it.
#[verifier::external_body]
fn conv_vis(v: &syn::Visibility) -> Vis {
    match v {
        syn::Visibility::Public(_) => Vis::Public,
        syn::Visibility::Restricted(r) => Vis::Restricted(
            r.path.segments.iter().map(|s| s.ident.to_string()).collect(),
        ),
        syn::Visibility::Inherited => Vis::Inherited,
    }
}

/// The names of the generic parameters, in order.
#[verifier::external_body]
fn conv_generics(g: &syn::Generics) -> Vec<String> {
    g.params.iter().map(|p| match p {
        syn::GenericParam::Type(t) => t.ident.to_string(),
        syn::GenericParam::Lifetime(l) => l.lifetime.ident.to_string(),
        syn::GenericParam::Const(c) => c.ident.to_string(),
    }).collect()
}

/// An attribute: its path when a single identifier, and what follows it.
#[verifier::external_body]
fn conv_attr(a: &syn::Attribute) -> Attr {
    let meta = match &a.meta {
        syn::Meta::Path(_) => AttrMeta::Path,
        syn::Meta::List(l) => AttrMeta::List(l.tokens.to_string()),
        syn::Meta::NameValue(nv) => AttrMeta::NameValue(match &nv.value {
            syn::Expr::Lit(syn::ExprLit { lit: syn::Lit::Str(s), .. }) => Some(s.value()),
            _ => None,
        }),
    };
    Attr { ident: a.path().get_ident().map(|i| i.to_string()), meta }
}

/// The attributes of an item, in order.
#[verifier::external_body]
fn conv_attrs(list: &Vec<syn::Attribute>) -> Vec<Attr> {
    list.iter().map(conv_attr).collect()
}

/// A bound of a trait object or `impl Trait` type.
#[verifier::external_body]
fn conv_bound(b: &syn::TypeParamBound) -> TypeBound {
    match b {
        syn::TypeParamBound::Trait(t) => {
            TypeBound::Trait(t.path.segments.iter().map(|s| s.ident.to_string()).collect())
        },
        syn::TypeParamBound::Lifetime(l) => TypeBound::Lifetime(l.ident.to_string()),
        _ => TypeBound::Other,
    }
}

/// A generic argument of a path segment.
#[verifier::external_body]
fn conv_generic_arg(g: &syn::GenericArgument) -> GenericArg {
    match g {
        syn::GenericArgument::Type(t) => GenericArg::Type(conv_type(t)),
        syn::GenericArgument::Lifetime(l) => GenericArg::Lifetime(l.ident.to_string()),
        _ => GenericArg::Other,
    }
}

/// A segment of a type's path, with its angle-bracketed arguments.
#[verifier::external_body]
fn conv_segment(s: &syn::PathSegment) -> Segment {
    let args = match &s.arguments {
        syn::PathArguments::AngleBracketed(a) => Some(a.args.iter().map(conv_generic_arg).collect()),
        _ => None,
    };
    Segment { ident: s.ident.to_string(), args }
}

/// A type, as the model writes it: paths, references, tuples, slices
/// and arrays here, the other kinds in `conv_type_rest`.
#[verifier::external_body]
fn conv_type(t: &syn::Type) -> SynType {
    match t {
        syn::Type::Path(p) => SynType::Path(p.path.segments.iter().map(conv_segment).collect()),
        syn::Type::Reference(r) => SynType::Reference { has_lifetime: r.lifetime.is_some(), elem: Box::new(conv_type(&r.elem)) },
        syn::Type::Tuple(u) => SynType::Tuple(u.elems.iter().map(conv_type).collect()),
        syn::Type::Slice(s) => SynType::Slice(Box::new(conv_type(&s.elem))),
        syn::Type::Array(a) => SynType::Array(Box::new(conv_type(&a.elem))),
        _ => conv_type_rest(t),
    }
}

/// The other kinds of type: pointers, function pointers, `!`, trait
/// objects, `impl Trait`, parenthesized and grouped types; any other kind
/// as `Other`.
#[verifier::external_body]
fn conv_type_rest(t: &syn::Type) -> SynType {
    match t {
        syn::Type::Ptr(p) => SynType::Ptr { is_const: p.const_token.is_some(), elem: Box::new(conv_type(&p.elem)) },
        syn::Type::BareFn(_) => SynType::BareFn,
        syn::Type::Never(_) => SynType::Never,
        syn::Type::TraitObject(o) => SynType::TraitObject(o.bounds.iter().map(conv_bound).collect()),
        syn::Type::ImplTrait(i) => SynType::ImplTrait(i.bounds.iter().map(conv_bound).collect()),
        syn::Type::Paren(p) => SynType::Paren(Box::new(conv_type(&p.elem))),
        syn::Type::Group(g) => SynType::Group(Box::new(conv_type(&g.elem))),
        _ => SynType::Other,
    }
}

/// A field: whether it is `pub`, its name, its type.
#[verifier::external_body]
fn conv_field(f: &syn::Field) -> FieldDef {
    FieldDef {
        is_pub: matches!(f.vis, syn::Visibility::Public(_)),
        ident: f.ident.as_ref().map(|i| i.to_string()),
        ty: conv_type(&f.ty),
    }
}

/// The fields of a struct or variant.
#[verifier::external_body]
fn conv_fields(f: &syn::Fields) -> FieldDefs {
    match f {
        syn::Fields::Named(n) => FieldDefs::Named(n.named.iter().map(conv_field).collect()),
        syn::Fields::Unnamed(u) => FieldDefs::Unnamed(u.unnamed.iter().map(conv_field).collect()),
        syn::Fields::Unit => FieldDefs::Unit,
    }
}

/// A variant of an enum.
#[verifier::external_body]
fn conv_variant(v: &syn::Variant) -> VariantDef {
    VariantDef { ident: v.ident.to_string(), fields: conv_fields(&v.fields) }
}

/// A `use` tree.
#[verifier::external_body]
fn conv_use_tree(t: &syn::UseTree) -> UseItemTree {
    match t {
        syn::UseTree::Path(p) => UseItemTree::Path { ident: p.ident.to_string(), tree: Box::new(conv_use_tree(&p.tree)) },
        syn::UseTree::Name(n) => UseItemTree::Name(n.ident.to_string()),
        syn::UseTree::Rename(r) => UseItemTree::Rename { ident: r.ident.to_string(), rename: r.rename.to_string() },
        syn::UseTree::Glob(_) => UseItemTree::Glob,
        syn::UseTree::Group(g) => UseItemTree::Group(g.items.iter().map(conv_use_tree).collect()),
    }
}

/// A struct item.
#[verifier::external_body]
fn conv_struct(s: &syn::ItemStruct) -> SynItem {
    SynItem::Struct {
        vis: conv_vis(&s.vis),
        ident: s.ident.to_string(),
        line: s.ident.span().start().line,
        generics: conv_generics(&s.generics),
        attrs: conv_attrs(&s.attrs),
        fields: conv_fields(&s.fields),
    }
}

/// An enum item.
#[verifier::external_body]
fn conv_enum(e: &syn::ItemEnum) -> SynItem {
    SynItem::Enum {
        vis: conv_vis(&e.vis),
        ident: e.ident.to_string(),
        line: e.ident.span().start().line,
        generics: conv_generics(&e.generics),
        attrs: conv_attrs(&e.attrs),
        variants: e.variants.iter().map(conv_variant).collect(),
    }
}

/// A trait item.
#[verifier::external_body]
fn conv_trait(t: &syn::ItemTrait) -> SynItem {
    SynItem::Trait {
        vis: conv_vis(&t.vis),
        ident: t.ident.to_string(),
        line: t.ident.span().start().line,
        generics: conv_generics(&t.generics),
        attrs: conv_attrs(&t.attrs),
    }
}

/// A function item.
#[verifier::external_body]
fn conv_fn(f: &syn::ItemFn) -> SynItem {
    SynItem::Fn {
        vis: conv_vis(&f.vis),
        ident: f.sig.ident.to_string(),
        line: f.sig.ident.span().start().line,
        generics: conv_generics(&f.sig.generics),
        attrs: conv_attrs(&f.attrs),
    }
}

/// A type alias item.
#[verifier::external_body]
fn conv_type_alias(t: &syn::ItemType) -> SynItem {
    SynItem::TypeAlias {
        vis: conv_vis(&t.vis),
        ident: t.ident.to_string(),
        line: t.ident.span().start().line,
        generics: conv_generics(&t.generics),
        attrs: conv_attrs(&t.attrs),
    }
}

/// A macro item (`macro_rules!` has a name).
#[verifier::external_body]
fn conv_macro(m: &syn::ItemMacro) -> SynItem {
    SynItem::Macro {
        name: m.ident.as_ref().map(|i| i.to_string()),
        line: m.ident.as_ref().map_or(0, |i| i.span().start().line),
        attrs: conv_attrs(&m.attrs),
    }
}

/// A `mod` item, with its items when it has a body.
#[verifier::external_body]
fn conv_mod(m: &syn::ItemMod) -> SynItem {
    SynItem::Mod {
        vis: conv_vis(&m.vis),
        ident: m.ident.to_string(),
        line: m.ident.span().start().line,
        attrs: conv_attrs(&m.attrs),
        content: m.content.as_ref().map(|(_, items)| items.iter().map(conv_item).collect()),
    }
}

/// An `impl` block: its self type and its members (functions, types,
/// constants; others as `Other`).
#[verifier::external_body]
fn conv_impl(i: &syn::ItemImpl) -> SynItem {
    let members = i.items.iter().map(|m| match m {
        syn::ImplItem::Fn(f) => ImplMember::Fn { name: f.sig.ident.to_string(), generics: conv_generics(&f.sig.generics) },
        syn::ImplItem::Type(t) => ImplMember::Type(t.ident.to_string()),
        syn::ImplItem::Const(c) => ImplMember::Const(c.ident.to_string()),
        _ => ImplMember::Other,
    }).collect();
    SynItem::Impl { self_ty: conv_type(&i.self_ty), members }
}

/// An item, by its kind; kinds the map does not read become `Other`.
#[verifier::external_body]
fn conv_item(i: &syn::Item) -> SynItem {
    match i {
        syn::Item::Struct(s) => conv_struct(s),
        syn::Item::Enum(e) => conv_enum(e),
        syn::Item::Trait(t) => conv_trait(t),
        syn::Item::Fn(f) => conv_fn(f),
        syn::Item::Type(t) => conv_type_alias(t),
        syn::Item::Macro(m) => conv_macro(m),
        syn::Item::Mod(m) => conv_mod(m),
        syn::Item::Use(u) => SynItem::Use { vis: conv_vis(&u.vis), tree: conv_use_tree(&u.tree) },
        syn::Item::Impl(x) => conv_impl(x),
        _ => SynItem::Other,
    }
}

} // verus!
