//! The textual descriptions of types, generic parameters, visibilities,
//! struct fields and enum variants that the map records.
use vstd::prelude::*;
use crate::split_join::{join_with, join_strings};
use crate::syntax::{FieldDef, FieldDefs, GenericArg, Segment, SynType, TypeBound, VariantDef,
    Vis};
use crate::text::owned;

verus! {

// ── Specification ───────────────────────────────────────────────────────

/// The text of a type: paths with their angle-bracketed arguments,
/// references, tuples, slices, arrays, pointers, and bounds by the last
/// segment of their trait.
pub open spec fn type_text(t: SynType) -> Seq<char>
    decreases t, 0nat,
{
    match t {
        SynType::Path(segs) => join_with(segment_texts(segs, segs.len() as nat), "::"@),
        SynType::Reference { has_lifetime, elem } => "&"@ + (if has_lifetime {
            "'a "@
        } else {
            Seq::empty()
        }) + type_text(*elem),
        SynType::Tuple(elems) => "("@ + join_with(
            type_texts(elems, elems.len() as nat),
            ", "@,
        ) + ")"@,
        SynType::Slice(elem) => "["@ + type_text(*elem) + "]"@,
        SynType::Array(elem) => "["@ + type_text(*elem) + "; _]"@,
        SynType::Ptr { is_const, elem } => "*"@ + (if is_const {
            "const"@
        } else {
            "mut"@
        }) + " "@ + type_text(*elem),
        SynType::BareFn => "fn(...)"@,
        SynType::Never => "!"@,
        SynType::TraitObject(bounds) => join_with(bound_texts(bounds@), " + "@),
        SynType::ImplTrait(bounds) => "impl "@ + join_with(bound_texts(bounds@), " + "@),
        SynType::Paren(elem) => "("@ + type_text(*elem) + ")"@,
        SynType::Group(elem) => type_text(*elem),
        SynType::Other => "?"@,
    }
}

/// The texts of the first `n` types of `v`.
pub open spec fn type_texts(v: Vec<SynType>, n: nat) -> Seq<Seq<char>>
    decreases v, n,
{
    if n == 0 || n > v.len() {
        Seq::empty()
    } else {
        proof {
            vstd::std_specs::vec::axiom_vec_index_decreases(v, n - 1);
        }
        type_texts(v, (n - 1) as nat).push(type_text(v[n - 1]))
    }
}

/// The texts of the first `n` segments of `v`.
pub open spec fn segment_texts(v: Vec<Segment>, n: nat) -> Seq<Seq<char>>
    decreases v, n,
{
    if n == 0 || n > v.len() {
        Seq::empty()
    } else {
        proof {
            vstd::std_specs::vec::axiom_vec_index_decreases(v, n - 1);
        }
        segment_texts(v, (n - 1) as nat).push(segment_text(v[n - 1]))
    }
}

/// The text of a path segment: its identifier, then its angle-bracketed
/// arguments.
pub open spec fn segment_text(s: Segment) -> Seq<char>
    decreases s, 0nat,
{
    match s.args {
        Some(args) => s.ident@ + "<"@ + join_with(arg_texts(args, args.len() as nat), ", "@)
            + ">"@,
        None => s.ident@,
    }
}

/// The texts of the type and lifetime arguments among the first `n` of `v`.
pub open spec fn arg_texts(v: Vec<GenericArg>, n: nat) -> Seq<Seq<char>>
    decreases v, n,
{
    if n == 0 || n > v.len() {
        Seq::empty()
    } else {
        proof {
            vstd::std_specs::vec::axiom_vec_index_decreases(v, n - 1);
        }
        let rest = arg_texts(v, (n - 1) as nat);
        match v[n - 1] {
            GenericArg::Type(t) => rest.push(type_text(t)),
            GenericArg::Lifetime(l) => rest.push(l@),
            GenericArg::Other => rest,
        }
    }
}

/// The text of a bound: the last segment of a trait, or a lifetime.
pub open spec fn bound_text(b: TypeBound) -> Seq<char> {
    match b {
        TypeBound::Trait(segs) => if segs.len() > 0 {
            segs@.last()@
        } else {
            Seq::empty()
        },
        TypeBound::Lifetime(l) => l@,
        TypeBound::Other => "?"@,
    }
}

/// The texts of the bounds `bs`.
pub open spec fn bound_texts(bs: Seq<TypeBound>) -> Seq<Seq<char>> {
    bs.map_values(|b: TypeBound| bound_text(b))
}

/// The generic parameters `params`, by name, joined by `, `.
pub open spec fn generics_text(params: Seq<Seq<char>>) -> Seq<char> {
    join_with(params, ", "@)
}

/// The text of a visibility: `pub`, `pub(path)`, or `private`.
pub open spec fn vis_text(v: Vis) -> Seq<char> {
    match v {
        Vis::Public => "pub"@,
        Vis::Restricted(segs) => {
            let path = join_with(segs.deep_view(), "::"@);
            if path.len() == 0 {
                "pub(restricted)"@
            } else {
                "pub("@ + path + ")"@
            }
        },
        Vis::Inherited => "private"@,
    }
}

/// The text of a struct field: `pub ` when it is public, then its name
/// and type, or its type alone.
pub open spec fn field_text(f: FieldDef) -> Seq<char> {
    let vis = if f.is_pub {
        "pub "@
    } else {
        Seq::empty()
    };
    match f.ident {
        Some(name) => vis + name@ + ": "@ + type_text(f.ty),
        None => vis + type_text(f.ty),
    }
}

/// The fields of a struct or variant.
pub open spec fn field_list(fields: FieldDefs) -> Seq<FieldDef> {
    match fields {
        FieldDefs::Named(v) => v@,
        FieldDefs::Unnamed(v) => v@,
        FieldDefs::Unit => Seq::empty(),
    }
}

/// The texts of the fields of a struct.
pub open spec fn field_texts(fields: FieldDefs) -> Seq<Seq<char>> {
    field_list(fields).map_values(|f: FieldDef| field_text(f))
}

/// The text of a named field inside a variant: its name and type.
pub open spec fn variant_field_text(f: FieldDef) -> Seq<char> {
    match f.ident {
        Some(id) => id@ + ": "@ + type_text(f.ty),
        None => type_text(f.ty),
    }
}

/// The text of an enum variant: `Name { a: T, .. }`, `Name(T, ..)`, or
/// `Name`.
pub open spec fn variant_text(v: VariantDef) -> Seq<char> {
    match v.fields {
        FieldDefs::Named(fs) => v.ident@ + " { "@ + join_with(
            fs@.map_values(|f: FieldDef| variant_field_text(f)),
            ", "@,
        ) + " }"@,
        FieldDefs::Unnamed(fs) => v.ident@ + "("@ + join_with(
            fs@.map_values(|f: FieldDef| type_text(f.ty)),
            ", "@,
        ) + ")"@,
        FieldDefs::Unit => v.ident@,
    }
}

/// The texts of the variants of an enum.
pub open spec fn variant_texts(vs: Seq<VariantDef>) -> Seq<Seq<char>> {
    vs.map_values(|v: VariantDef| variant_text(v))
}

// ── Implementation ──────────────────────────────────────────────────────

/// The text of a type.
pub fn type_to_string(t: &SynType) -> (r: String)
    ensures
        r@ == type_text(*t),
    decreases t,
{
    match t {
        SynType::Path(segs) => {
            let mut parts: Vec<String> = Vec::new();
            let mut i: usize = 0;
            while i < segs.len()
                invariant
                    *t == SynType::Path(*segs),
                    0 <= i <= segs.len(),
                    parts.deep_view() == segment_texts(*segs, i as nat),
                decreases segs.len() - i,
            {
                proof {
                    vstd::std_specs::vec::axiom_vec_index_decreases(*segs, i as int);
                    assert(decreases_to!(*t => (*t)->Path_0));
                    assert(decreases_to!(*t => segs@[i as int]));
                }
                let s = segment_to_string(&segs[i]);
                let ghost prev = parts.deep_view();
                parts.push(s);
                assert(parts.deep_view() =~= prev.push(s@));
                i = i + 1;
            }
            join_strings(&parts, "::")
        },
        SynType::Reference { has_lifetime, elem } => {
            let mut s = owned("&");
            if *has_lifetime {
                s.append("'a ");
            }
            let inner = type_to_string(elem);
            s.append(inner.as_str());
            s
        },
        SynType::Tuple(elems) => {
            let mut parts: Vec<String> = Vec::new();
            let mut i: usize = 0;
            while i < elems.len()
                invariant
                    *t == SynType::Tuple(*elems),
                    0 <= i <= elems.len(),
                    parts.deep_view() == type_texts(*elems, i as nat),
                decreases elems.len() - i,
            {
                proof {
                    vstd::std_specs::vec::axiom_vec_index_decreases(*elems, i as int);
                    assert(decreases_to!(*t => (*t)->Tuple_0));
                    assert(decreases_to!(*t => elems@[i as int]));
                }
                let s = type_to_string(&elems[i]);
                let ghost prev = parts.deep_view();
                parts.push(s);
                assert(parts.deep_view() =~= prev.push(s@));
                i = i + 1;
            }
            let mut s = owned("(");
            let inner = join_strings(&parts, ", ");
            s.append(inner.as_str());
            s.append(")");
            s
        },
        SynType::Slice(elem) => {
            let mut s = owned("[");
            let inner = type_to_string(elem);
            s.append(inner.as_str());
            s.append("]");
            s
        },
        SynType::Array(elem) => {
            let mut s = owned("[");
            let inner = type_to_string(elem);
            s.append(inner.as_str());
            s.append("; _]");
            s
        },
        SynType::Ptr { is_const, elem } => {
            let mut s = owned("*");
            if *is_const {
                s.append("const");
            } else {
                s.append("mut");
            }
            s.append(" ");
            let inner = type_to_string(elem);
            s.append(inner.as_str());
            s
        },
        SynType::BareFn => owned("fn(...)"),
        SynType::Never => owned("!"),
        SynType::TraitObject(bounds) => {
            let parts = bounds_to_strings(bounds);
            join_strings(&parts, " + ")
        },
        SynType::ImplTrait(bounds) => {
            let parts = bounds_to_strings(bounds);
            let mut s = owned("impl ");
            let inner = join_strings(&parts, " + ");
            s.append(inner.as_str());
            s
        },
        SynType::Paren(elem) => {
            let mut s = owned("(");
            let inner = type_to_string(elem);
            s.append(inner.as_str());
            s.append(")");
            s
        },
        SynType::Group(elem) => type_to_string(elem),
        SynType::Other => owned("?"),
    }
}

/// The text of a path segment.
fn segment_to_string(seg: &Segment) -> (r: String)
    ensures
        r@ == segment_text(*seg),
    decreases seg,
{
    match &seg.args {
        Some(args) => {
            let mut parts: Vec<String> = Vec::new();
            let mut i: usize = 0;
            while i < args.len()
                invariant
                    seg.args == Some(*args),
                    0 <= i <= args.len(),
                    parts.deep_view() == arg_texts(*args, i as nat),
                decreases args.len() - i,
            {
                proof {
                    vstd::std_specs::vec::axiom_vec_index_decreases(*args, i as int);
                }
                let ghost prev = parts.deep_view();
                match &args[i] {
                    GenericArg::Type(t) => {
                        proof {
                            assert(decreases_to!(*seg => seg.args));
                            assert(decreases_to!(seg.args => seg.args->Some_0));
                            assert(decreases_to!(*args => args@[i as int]));
                            assert(decreases_to!(args@[i as int] => *t));
                            assert(decreases_to!(*seg => *t));
                        }
                        let s = type_to_string(t);
                        parts.push(s);
                        assert(parts.deep_view() =~= prev.push(s@));
                    },
                    GenericArg::Lifetime(l) => {
                        parts.push(l.clone());
                        assert(parts.deep_view() =~= prev.push(l@));
                    },
                    GenericArg::Other => {},
                }
                i = i + 1;
            }
            let mut s = seg.ident.clone();
            s.append("<");
            let inner = join_strings(&parts, ", ");
            s.append(inner.as_str());
            s.append(">");
            s
        },
        None => seg.ident.clone(),
    }
}

/// The text of a bound.
pub fn quote_bound(b: &TypeBound) -> (r: String)
    ensures
        r@ == bound_text(*b),
{
    match b {
        TypeBound::Trait(segs) => {
            if segs.len() > 0 {
                segs[segs.len() - 1].clone()
            } else {
                String::new()
            }
        },
        TypeBound::Lifetime(l) => l.clone(),
        TypeBound::Other => owned("?"),
    }
}

/// The texts of the bounds `bs`.
fn bounds_to_strings(bs: &Vec<TypeBound>) -> (r: Vec<String>)
    ensures
        r.deep_view() == bound_texts(bs@),
{
    let mut r: Vec<String> = Vec::new();
    let mut i: usize = 0;
    while i < bs.len()
        invariant
            0 <= i <= bs.len(),
            r.deep_view() == bound_texts(bs@.take(i as int)),
        decreases bs.len() - i,
    {
        let s = quote_bound(&bs[i]);
        let ghost prev = r.deep_view();
        r.push(s);
        assert(r.deep_view() =~= prev.push(s@));
        assert(bound_texts(bs@.take(i + 1)) =~= bound_texts(bs@.take(i as int)).push(
            bound_text(bs@[i as int]),
        ));
        i = i + 1;
    }
    assert(bs@.take(bs@.len() as int) =~= bs@);
    r
}

/// The generic parameters `params`, by name, joined by `, `; empty when
/// there are none.
pub fn generics_to_string(params: &Vec<String>) -> (r: String)
    ensures
        r@ == generics_text(params.deep_view()),
{
    if params.len() == 0 {
        return String::new();
    }
    join_strings(params, ", ")
}

/// The text of a visibility.
pub fn vis_to_string(v: &Vis) -> (r: String)
    ensures
        r@ == vis_text(*v),
{
    match v {
        Vis::Public => owned("pub"),
        Vis::Restricted(segs) => {
            let path = join_strings(segs, "::");
            if path.as_str().is_empty() {
                owned("pub(restricted)")
            } else {
                let mut s = owned("pub(");
                s.append(path.as_str());
                s.append(")");
                s
            }
        },
        Vis::Inherited => owned("private"),
    }
}

/// The texts of the fields of a struct.
pub fn fields_to_strings(fields: &FieldDefs) -> (r: Vec<String>)
    ensures
        r.deep_view() == field_texts(*fields),
{
    let v = match fields {
        FieldDefs::Named(v) => v,
        FieldDefs::Unnamed(v) => v,
        FieldDefs::Unit => {
            let r: Vec<String> = Vec::new();
            assert(r.deep_view() =~= field_texts(*fields));
            return r;
        },
    };
    assert(field_list(*fields) == v@);
    let mut r: Vec<String> = Vec::new();
    let mut i: usize = 0;
    while i < v.len()
        invariant
            0 <= i <= v.len(),
            r.deep_view() == v@.take(i as int).map_values(|f: FieldDef| field_text(f)),
        decreases v.len() - i,
    {
        let f = &v[i];
        let ty = type_to_string(&f.ty);
        let mut s = if f.is_pub {
            owned("pub ")
        } else {
            String::new()
        };
        match &f.ident {
            Some(name) => {
                s.append(name.as_str());
                s.append(": ");
                s.append(ty.as_str());
            },
            None => {
                s.append(ty.as_str());
            },
        }
        assert(s@ == field_text(v@[i as int]));
        let ghost prev = r.deep_view();
        r.push(s);
        assert(r.deep_view() =~= prev.push(s@));
        assert(v@.take(i + 1).map_values(|f: FieldDef| field_text(f)) =~= v@.take(i as int).map_values(
            |f: FieldDef| field_text(f),
        ).push(field_text(v@[i as int])));
        i = i + 1;
    }
    assert(v@.take(v@.len() as int) =~= v@);
    r
}

/// The text of an enum variant.
fn variant_to_string(v: &VariantDef) -> (r: String)
    ensures
        r@ == variant_text(*v),
{
    match &v.fields {
        FieldDefs::Named(fs) => {
            let mut parts: Vec<String> = Vec::new();
            let mut i: usize = 0;
            while i < fs.len()
                invariant
                    0 <= i <= fs.len(),
                    parts.deep_view() == fs@.take(i as int).map_values(
                        |f: FieldDef| variant_field_text(f),
                    ),
                decreases fs.len() - i,
            {
                let f = &fs[i];
                let ty = type_to_string(&f.ty);
                let s = match &f.ident {
                    Some(id) => {
                        let mut s = id.clone();
                        s.append(": ");
                        s.append(ty.as_str());
                        s
                    },
                    None => ty,
                };
                let ghost prev = parts.deep_view();
                parts.push(s);
                assert(parts.deep_view() =~= prev.push(s@));
                assert(fs@.take(i + 1).map_values(|f: FieldDef| variant_field_text(f))
                    =~= fs@.take(i as int).map_values(|f: FieldDef| variant_field_text(f)).push(
                    variant_field_text(fs@[i as int]),
                ));
                i = i + 1;
            }
            assert(fs@.take(fs@.len() as int) =~= fs@);
            let mut s = v.ident.clone();
            s.append(" { ");
            let inner = join_strings(&parts, ", ");
            s.append(inner.as_str());
            s.append(" }");
            s
        },
        FieldDefs::Unnamed(fs) => {
            let mut parts: Vec<String> = Vec::new();
            let mut i: usize = 0;
            while i < fs.len()
                invariant
                    0 <= i <= fs.len(),
                    parts.deep_view() == fs@.take(i as int).map_values(|f: FieldDef| type_text(f.ty)),
                decreases fs.len() - i,
            {
                let s = type_to_string(&fs[i].ty);
                let ghost prev = parts.deep_view();
                parts.push(s);
                assert(parts.deep_view() =~= prev.push(s@));
                assert(fs@.take(i + 1).map_values(|f: FieldDef| type_text(f.ty)) =~= fs@.take(
                    i as int,
                ).map_values(|f: FieldDef| type_text(f.ty)).push(type_text(fs@[i as int].ty)));
                i = i + 1;
            }
            assert(fs@.take(fs@.len() as int) =~= fs@);
            let mut s = v.ident.clone();
            s.append("(");
            let inner = join_strings(&parts, ", ");
            s.append(inner.as_str());
            s.append(")");
            s
        },
        FieldDefs::Unit => v.ident.clone(),
    }
}

/// The texts of the variants of an enum.
pub fn variants_to_strings(vs: &Vec<VariantDef>) -> (r: Vec<String>)
    ensures
        r.deep_view() == variant_texts(vs@),
{
    let mut r: Vec<String> = Vec::new();
    let mut i: usize = 0;
    while i < vs.len()
        invariant
            0 <= i <= vs.len(),
            r.deep_view() == variant_texts(vs@.take(i as int)),
        decreases vs.len() - i,
    {
        let s = variant_to_string(&vs[i]);
        let ghost prev = r.deep_view();
        r.push(s);
        assert(r.deep_view() =~= prev.push(s@));
        assert(variant_texts(vs@.take(i + 1)) =~= variant_texts(vs@.take(i as int)).push(
            variant_text(vs@[i as int]),
        ));
        i = i + 1;
    }
    assert(vs@.take(vs@.len() as int) =~= vs@);
    r
}

} // verus!
