//! The package metadata and dependency lists of a crate's `Cargo.toml`.
use vstd::prelude::*;
use crate::schema::{CrateType, DepInfo, DepView, Error, ErrorView, PackageInfo, PackageView};
use crate::sort::{dedup_seq, dedup_texts, key_texts, lemma_sort_texts, sort_texts, stable_sort};
use crate::toml_model::{TomlEntry, TomlValue, as_str, entry_value, get, parse_toml, table_keys,
    toml_document, toml_get, toml_str};
use crate::text::owned;

verus! {

// ── Specification ───────────────────────────────────────────────────────

/// The text of the string at `key` of `v`, or `default` when there is none.
pub open spec fn str_or(v: TomlValue, key: Seq<char>, default: Seq<char>) -> Seq<char> {
    match toml_str(toml_get(v, key)) {
        Some(s) => s,
        None => default,
    }
}

/// The package metadata of a manifest: name, version and edition of its
/// `[package]` table, `unknown`, `0.0.0` and `2021` where they are not
/// strings; a library until the crate roots are known.
pub open spec fn package_spec(doc: TomlValue) -> PackageView {
    match toml_get(doc, "package"@) {
        Some(p) => PackageView {
            name: str_or(p, "name"@, "unknown"@),
            version: str_or(p, "version"@, "0.0.0"@),
            edition: str_or(p, "edition"@, "2021"@),
            crate_type: CrateType::Lib,
        },
        None => PackageView {
            name: "unknown"@,
            version: "0.0.0"@,
            edition: "2021"@,
            crate_type: CrateType::Lib,
        },
    }
}

/// A dependency given as `{ workspace = true }`.
pub open spec fn is_workspace_dep(v: TomlValue) -> bool {
    toml_get(v, "workspace"@) == Some(TomlValue::Boolean(true))
}

/// The keys `keys` split, in order, into those whose entry in `entries` is
/// an ordinary dependency and those inherited from the workspace.
pub open spec fn split_keys(keys: Seq<Seq<char>>, entries: Seq<TomlEntry>) -> (
    Seq<Seq<char>>,
    Seq<Seq<char>>,
)
    decreases keys.len(),
{
    if keys.len() == 0 {
        (Seq::empty(), Seq::empty())
    } else {
        let (n, w) = split_keys(keys.drop_last(), entries);
        let k = keys.last();
        match entry_value(entries, k) {
            Some(v) => if is_workspace_dep(v) {
                (n, w.push(k))
            } else {
                (n.push(k), w)
            },
            None => (n, w),
        }
    }
}

/// The dependencies of table `section` of a manifest, sorted by name:
/// ordinary ones, and those inherited from the workspace.
pub open spec fn section_split(doc: TomlValue, section: Seq<char>) -> (
    Seq<Seq<char>>,
    Seq<Seq<char>>,
) {
    match toml_get(doc, section) {
        Some(TomlValue::Table(entries)) => split_keys(sort_texts(table_keys(entries@)), entries@),
        _ => (Seq::empty(), Seq::empty()),
    }
}

/// The dependency lists of a manifest: the ordinary dependencies and
/// dev-dependencies, and the names inherited from the workspace in either,
/// sorted without repeats.
pub open spec fn deps_spec(doc: TomlValue) -> DepView {
    let (normal, ws) = section_split(doc, "dependencies"@);
    let (dev, ws_dev) = section_split(doc, "dev-dependencies"@);
    DepView { normal, dev, workspace_members: dedup_seq(sort_texts(ws + ws_dev)) }
}

/// The document of the manifest at `path`, from the outcome of reading it
/// (its text, or the message of the read error): the read error, the parse
/// error, or the document toml's parser reads from the text.
pub open spec fn manifest_result(path: Seq<char>, content: Result<String, String>) -> Result<
    TomlValue,
    ErrorView,
> {
    match content {
        Err(m) => Err(ErrorView::FileRead { path, message: m@ }),
        Ok(t) => match toml_document(t@) {
            Ok(d) => Ok(d),
            Err(m) => Err(ErrorView::TomlParse { path, message: m }),
        },
    }
}

// ── Implementation ──────────────────────────────────────────────────────

/// The text of the string at `key` of `v`, or `default`.
fn string_or(v: &TomlValue, key: &str, default: &str) -> (r: String)
    ensures
        r@ == str_or(*v, key@, default@),
{
    let found = get(v, key);
    match as_str(found) {
        Some(s) => owned(s),
        None => owned(default),
    }
}

/// The dependencies of table `section`, sorted by name: ordinary ones and
/// those inherited from the workspace.
fn extract_deps(doc: &TomlValue, section: &str) -> (r: (Vec<String>, Vec<String>))
    ensures
        (r.0.deep_view(), r.1.deep_view()) == section_split(*doc, section@),
{
    let mut normal: Vec<String> = Vec::new();
    let mut workspace_members: Vec<String> = Vec::new();
    let table = match get(doc, section) {
        Some(t) => t,
        None => {
            assert(normal.deep_view() =~= Seq::<Seq<char>>::empty());
            assert(workspace_members.deep_view() =~= Seq::<Seq<char>>::empty());
            return (normal, workspace_members);
        },
    };
    let entries = match table {
        TomlValue::Table(entries) => entries,
        _ => {
            assert(normal.deep_view() =~= Seq::<Seq<char>>::empty());
            assert(workspace_members.deep_view() =~= Seq::<Seq<char>>::empty());
            return (normal, workspace_members);
        },
    };
    let mut keys: Vec<String> = Vec::new();
    let mut i: usize = 0;
    while i < entries.len()
        invariant
            0 <= i <= entries@.len(),
            keys.deep_view() == table_keys(entries@.take(i as int)),
        decreases entries@.len() - i,
    {
        let ghost prev = keys.deep_view();
        let k = entries[i].key.clone();
        keys.push(k);
        assert(keys.deep_view() =~= prev.push(k@));
        assert(table_keys(entries@.take(i + 1)) =~= table_keys(entries@.take(i as int)).push(
            entries@[i as int].key@,
        ));
        i = i + 1;
    }
    assert(entries@.take(entries@.len() as int) =~= entries@);
    proof {
        lemma_sort_texts(keys@);
        assert(key_texts(keys@) =~= keys.deep_view());
    }
    let sorted = stable_sort(keys);
    let ghost ks = sorted.deep_view();
    assert(ks =~= key_texts(sorted@));
    let mut j: usize = 0;
    assert(ks.take(0) =~= Seq::<Seq<char>>::empty());
    while j < sorted.len()
        invariant
            ks == sorted.deep_view(),
            *table == TomlValue::Table(*entries),
            0 <= j <= ks.len(),
            (normal.deep_view(), workspace_members.deep_view()) == split_keys(
                ks.take(j as int),
                entries@,
            ),
        decreases ks.len() - j,
    {
        let key = &sorted[j];
        assert(ks.take(j + 1).drop_last() =~= ks.take(j as int));
        assert(ks.take(j + 1).last() == key@);
        if let Some(value) = get(table, key.as_str()) {
            let is_ws = match get(value, "workspace") {
                Some(TomlValue::Boolean(b)) => *b,
                _ => false,
            };
            let ghost pn = normal.deep_view();
            let ghost pw = workspace_members.deep_view();
            if is_ws {
                workspace_members.push(key.clone());
                assert(workspace_members.deep_view() =~= pw.push(key@));
            } else {
                normal.push(key.clone());
                assert(normal.deep_view() =~= pn.push(key@));
            }
        }
        j = j + 1;
    }
    assert(ks.take(ks.len() as int) =~= ks);
    (normal, workspace_members)
}

/// The document of the manifest at `path`, parsed from the outcome of
/// reading it; `FileRead` or `TomlParse` when there is none.
pub fn read_manifest(path: &str, content: &Result<String, String>) -> (r: Result<TomlValue, Error>)
    ensures
        match manifest_result(path@, *content) {
            Ok(d) => r matches Ok(v) && v == d,
            Err(e) => r matches Err(x) && x.deep_view() == e,
        },
{
    match content {
        Err(m) => Err(Error::FileRead { path: owned(path), message: m.clone() }),
        Ok(t) => match parse_toml(t.as_str()) {
            Ok(v) => Ok(v),
            Err(m) => Err(Error::TomlParse { path: owned(path), message: m }),
        },
    }
}

/// Parse a crate's `Cargo.toml` and return package metadata and
/// dependency lists, from the outcome of reading the manifest at `path`
/// (its text, or the message of the read error). The returned `PackageInfo.crate_type` is `Lib`; the caller
/// sets it from the crate roots.
///
/// Fails, with `FileRead` or `TomlParse`, exactly when the manifest could
/// not be read or parsed.
pub fn parse_cargo_toml(path: &str, manifest: &Result<String, String>) -> (r: Result<
    (PackageInfo, DepInfo),
    Error,
>)
    ensures
        match manifest_result(path@, *manifest) {
            Ok(doc) => r matches Ok((p, d)) && p.deep_view() == package_spec(doc)
                && d.deep_view() == deps_spec(doc),
            Err(e) => r matches Err(x) && x.deep_view() == e,
        },
{
    match read_manifest(path, manifest) {
        Ok(doc) => Ok(cargo_info_of(&doc)),
        Err(e) => Err(e),
    }
}

/// The package metadata and dependency lists that manifest document `doc`
/// gives: the package's name, version and edition (`unknown`, `0.0.0`,
/// `2021` when missing; crate type `Lib`), the normal and dev dependency
/// names in table order, and the workspace-inherited names sorted without
/// repeats.
pub fn cargo_info_of(doc: &TomlValue) -> (r: (PackageInfo, DepInfo))
    ensures
        r.0.deep_view() == package_spec(*doc),
        r.1.deep_view() == deps_spec(*doc),
{
    let package = match get(doc, "package") {
        Some(p) => PackageInfo {
            name: string_or(p, "name", "unknown"),
            version: string_or(p, "version", "0.0.0"),
            edition: string_or(p, "edition", "2021"),
            crate_type: CrateType::Lib,
        },
        None => PackageInfo {
            name: owned("unknown"),
            version: owned("0.0.0"),
            edition: owned("2021"),
            crate_type: CrateType::Lib,
        },
    };
    let (normal_deps, mut ws_deps) = extract_deps(doc, "dependencies");
    let (dev_deps, mut ws_dev_deps) = extract_deps(doc, "dev-dependencies");
    let ghost w1 = ws_deps.deep_view();
    let ghost w2 = ws_dev_deps.deep_view();
    ws_deps.append(&mut ws_dev_deps);
    assert(ws_deps.deep_view() =~= w1 + w2);
    proof {
        lemma_sort_texts(ws_deps@);
        assert(key_texts(ws_deps@) =~= ws_deps.deep_view());
    }
    let sorted = stable_sort(ws_deps);
    assert(sorted.deep_view() =~= key_texts(sorted@));
    let ws = dedup_texts(sorted);
    let deps = DepInfo { normal: normal_deps, dev: dev_deps, workspace_members: ws };
    (package, deps)
}

// ── Laws ────────────────────────────────────────────────────────────────

/// The names of workspace-inherited dependencies are listed in increasing
/// order without repeats, and hold exactly the names inherited in
/// `[dependencies]` or `[dev-dependencies]`.
pub proof fn law_workspace_members_sorted(doc: TomlValue)
    ensures
        crate::ordered_map::strictly_sorted(deps_spec(doc).workspace_members),
        forall|t: Seq<char>|
            deps_spec(doc).workspace_members.contains(t) <==> (section_split(doc, "dependencies"@).1
                + section_split(doc, "dev-dependencies"@).1).contains(t),
{
    let all = section_split(doc, "dependencies"@).1 + section_split(doc, "dev-dependencies"@).1;
    let tk = |t: Seq<char>| t;
    assert(crate::sort::key_lt_by(tk) =~= crate::sort::text_lt());
    crate::sort::lemma_sort_sorted(all, tk);
    let st = sort_texts(all);
    assert forall|i: int, j: int| 0 <= i < j < st.len() implies !crate::text::seq_lt(
        #[trigger] st[j],
        #[trigger] st[i],
    ) by {
        assert(!crate::text::seq_lt(tk(st[j]), tk(st[i])));
    }
    crate::sort::lemma_dedup_sorted(st);
    crate::sort::lemma_sort_view_permutes(all, crate::sort::text_lt());
    crate::sort::lemma_dedup_keeps(sort_texts(all));
}

/// `value` is what the `[package]` table of `doc` gives at `key`: the text
/// of the string there, or `default` when there is none or it is not a
/// string.
pub open spec fn package_field_is(
    doc: TomlValue,
    key: Seq<char>,
    value: Seq<char>,
    default: Seq<char>,
) -> bool {
    let v = match toml_get(doc, "package"@) {
        Some(p) => toml_get(p, key),
        None => None,
    };
    match v {
        Some(TomlValue::String(s)) => value == s@,
        _ => value == default,
    }
}

/// The package's name, version and edition are the strings that the
/// manifest's `[package]` table gives for them; the defaults `unknown`,
/// `0.0.0` and `2021` stand only where the value is missing or not a
/// string. The crate type is a library until the crate roots are known.
pub proof fn law_package_fields(doc: TomlValue)
    ensures
        package_field_is(doc, "name"@, package_spec(doc).name, "unknown"@),
        package_field_is(doc, "version"@, package_spec(doc).version, "0.0.0"@),
        package_field_is(doc, "edition"@, package_spec(doc).edition, "2021"@),
        package_spec(doc).crate_type == CrateType::Lib,
{
}

/// Table `section` of `doc` has an entry keyed `t` whose value is (when
/// `inherited`) or is not (otherwise) `{ workspace = true }`.
pub open spec fn dep_in(doc: TomlValue, section: Seq<char>, t: Seq<char>, inherited: bool) -> bool {
    match toml_get(doc, section) {
        Some(TomlValue::Table(es)) => match entry_value(es@, t) {
            Some(v) => (toml_get(v, "workspace"@) == Some(TomlValue::Boolean(true))) == inherited,
            None => false,
        },
        _ => false,
    }
}

proof fn lemma_keys_have_values(entries: Seq<TomlEntry>, t: Seq<char>)
    ensures
        table_keys(entries).contains(t) <==> entry_value(entries, t) is Some,
    decreases entries.len(),
{
    if entries.len() > 0 {
        lemma_keys_have_values(entries.drop_first(), t);
        assert(table_keys(entries.drop_first()) =~= table_keys(entries).drop_first());
        if table_keys(entries).contains(t) && entries[0].key@ != t {
            let i = choose|i: int| 0 <= i < table_keys(entries).len() && table_keys(entries)[i] == t;
            assert(table_keys(entries.drop_first())[i - 1] == t);
        }
        if entry_value(entries, t) is Some && entries[0].key@ != t {
            let i = choose|i: int|
                0 <= i < table_keys(entries.drop_first()).len() && table_keys(entries.drop_first())[i] == t;
            assert(table_keys(entries)[i + 1] == t);
        }
        if entries[0].key@ == t {
            assert(table_keys(entries)[0] == t);
        }
    }
}

proof fn lemma_split_keys_members(keys: Seq<Seq<char>>, entries: Seq<TomlEntry>, t: Seq<char>)
    ensures
        split_keys(keys, entries).0.contains(t) <==> (keys.contains(t) && (entry_value(entries, t) matches Some(v)
            && !is_workspace_dep(v))),
        split_keys(keys, entries).1.contains(t) <==> (keys.contains(t) && (entry_value(entries, t) matches Some(v)
            && is_workspace_dep(v))),
    decreases keys.len(),
{
    if keys.len() > 0 {
        lemma_split_keys_members(keys.drop_last(), entries, t);
        let k = keys.last();
        assert(keys.contains(t) <==> keys.drop_last().contains(t) || k == t) by {
            if keys.contains(t) && k != t {
                let i = choose|i: int| 0 <= i < keys.len() && keys[i] == t;
                assert(keys.drop_last()[i] == t);
            }
            if keys.drop_last().contains(t) {
                let i = choose|i: int| 0 <= i < keys.drop_last().len() && keys.drop_last()[i] == t;
                assert(keys[i] == t);
            }
            if k == t {
                assert(keys[keys.len() - 1] == t);
            }
        }
        let (n, w) = split_keys(keys.drop_last(), entries);
        assert(n.push(k).contains(t) <==> n.contains(t) || k == t) by {
            if n.push(k).contains(t) && k != t {
                let i = choose|i: int| 0 <= i < n.push(k).len() && n.push(k)[i] == t;
                assert(n[i] == t);
            }
            if n.contains(t) {
                let i = choose|i: int| 0 <= i < n.len() && n[i] == t;
                assert(n.push(k)[i] == t);
            }
            assert(n.push(k)[n.len() as int] == k);
        }
        assert(w.push(k).contains(t) <==> w.contains(t) || k == t) by {
            if w.push(k).contains(t) && k != t {
                let i = choose|i: int| 0 <= i < w.push(k).len() && w.push(k)[i] == t;
                assert(w[i] == t);
            }
            if w.contains(t) {
                let i = choose|i: int| 0 <= i < w.len() && w[i] == t;
                assert(w.push(k)[i] == t);
            }
            assert(w.push(k)[w.len() as int] == k);
        }
    }
}

proof fn lemma_section_members(doc: TomlValue, section: Seq<char>, t: Seq<char>)
    ensures
        section_split(doc, section).0.contains(t) <==> dep_in(doc, section, t, false),
        section_split(doc, section).1.contains(t) <==> dep_in(doc, section, t, true),
{
    match toml_get(doc, section) {
        Some(TomlValue::Table(entries)) => {
            let keys = table_keys(entries@);
            crate::sort::lemma_sort_view_permutes(keys, crate::sort::text_lt());
            lemma_keys_have_values(entries@, t);
            lemma_split_keys_members(sort_texts(keys), entries@, t);
        },
        _ => {},
    }
}

/// The dependency lists are what the manifest's tables say: a name is an
/// ordinary dependency (or dev-dependency) exactly when `[dependencies]`
/// (or `[dev-dependencies]`) has an entry for it that is not
/// `{ workspace = true }`, and is inherited from the workspace exactly
/// when one of the two tables has such an entry for it.
pub proof fn law_dependency_lists(doc: TomlValue, t: Seq<char>)
    ensures
        deps_spec(doc).normal.contains(t) <==> dep_in(doc, "dependencies"@, t, false),
        deps_spec(doc).dev.contains(t) <==> dep_in(doc, "dev-dependencies"@, t, false),
        deps_spec(doc).workspace_members.contains(t) <==> dep_in(doc, "dependencies"@, t, true)
            || dep_in(doc, "dev-dependencies"@, t, true),
{
    lemma_section_members(doc, "dependencies"@, t);
    lemma_section_members(doc, "dev-dependencies"@, t);
    law_workspace_members_sorted(doc);
    let a = section_split(doc, "dependencies"@).1;
    let b = section_split(doc, "dev-dependencies"@).1;
    assert((a + b).contains(t) <==> a.contains(t) || b.contains(t)) by {
        if (a + b).contains(t) {
            let i = choose|i: int| 0 <= i < (a + b).len() && (a + b)[i] == t;
            if i < a.len() {
                assert(a[i] == t);
            } else {
                assert(b[i - a.len()] == t);
            }
        }
        if a.contains(t) {
            let i = choose|i: int| 0 <= i < a.len() && a[i] == t;
            assert((a + b)[i] == t);
        }
        if b.contains(t) {
            let i = choose|i: int| 0 <= i < b.len() && b[i] == t;
            assert((a + b)[a.len() + i] == t);
        }
    }
}

} // verus!
