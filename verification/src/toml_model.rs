//! A plain model of a parsed TOML document, and the lookups that the map
//! makes in it, with their specifications.
use vstd::prelude::*;
use crate::text::str_eq;

verus! {

/// A TOML value. Tables keep their entries in key order.
#[derive(Debug)]
pub enum TomlValue {
    String(String),
    Integer(i64),
    /// A float; the map never reads its value.
    Float,
    Boolean(bool),
    /// A date-time, as TOML writes it.
    Datetime(String),
    Array(Vec<TomlValue>),
    Table(Vec<TomlEntry>),
}

/// An entry of a TOML table.
#[derive(Debug)]
pub struct TomlEntry {
    pub key: String,
    pub value: TomlValue,
}

/// toml's own value type, carried opaquely from its parser to the
/// conversion below.
#[verifier::external_type_specification]
#[verifier::external_body]
pub struct ExTomlValue(toml::Value);

// ── Parsing ─────────────────────────────────────────────────────────────

/// The document that toml's parser reads from `text`, or the message of its
/// error.
pub uninterp spec fn toml_document(text: Seq<char>) -> Result<TomlValue, Seq<char>>;

/// Parses TOML text with `toml::from_str::<toml::Value>` and converts the
/// value, one for one, into the model. Trusted, not proved: the outcome is
/// `toml_document` of the text, a function of the text alone; nothing more
/// is claimed of what toml accepts.
#[verifier::external_body]
pub(crate) fn parse_toml(text: &str) -> (r: Result<TomlValue, String>)
    ensures
        match r {
            Ok(v) => toml_document(text@) == Ok::<TomlValue, Seq<char>>(v),
            Err(e) => toml_document(text@) == Err::<TomlValue, Seq<char>>(e@),
        },
{
    match toml::from_str::<toml::Value>(text) {
        Ok(v) => Ok(toml_model(&v)),
        Err(e) => Err(e.to_string()),
    }
}

/// The conversion part of `parse_toml`: toml's value as the model's, one
/// variant for one (a float keeps no value; a date-time keeps its text;
/// table entries keep toml's key order).
#[verifier::external_body]
fn toml_model(v: &toml::Value) -> (r: TomlValue) {
    match v {
        toml::Value::String(s) => TomlValue::String(s.clone()),
        toml::Value::Integer(i) => TomlValue::Integer(*i),
        toml::Value::Float(_) => TomlValue::Float,
        toml::Value::Boolean(b) => TomlValue::Boolean(*b),
        toml::Value::Datetime(d) => TomlValue::Datetime(d.to_string()),
        toml::Value::Array(a) => TomlValue::Array(a.iter().map(toml_model).collect()),
        toml::Value::Table(t) => TomlValue::Table(
            t.iter().map(|(k, x)| TomlEntry { key: k.clone(), value: toml_model(x) }).collect(),
        ),
    }
}

// ── Specification ───────────────────────────────────────────────────────

/// The value of the first entry of `entries` with key `key`.
pub open spec fn entry_value(entries: Seq<TomlEntry>, key: Seq<char>) -> Option<TomlValue>
    decreases entries.len(),
{
    if entries.len() == 0 {
        None
    } else if entries[0].key@ == key {
        Some(entries[0].value)
    } else {
        entry_value(entries.drop_first(), key)
    }
}

/// The value at `key` of a table, as `Value::get` gives it; none for a
/// value that is not a table.
pub open spec fn toml_get(v: TomlValue, key: Seq<char>) -> Option<TomlValue> {
    match v {
        TomlValue::Table(entries) => entry_value(entries@, key),
        _ => None,
    }
}

/// The text of a string value, as `Value::as_str` gives it.
pub open spec fn toml_str(v: Option<TomlValue>) -> Option<Seq<char>> {
    match v {
        Some(TomlValue::String(s)) => Some(s@),
        _ => None,
    }
}

/// The keys of a table, in order, as `Map::keys` yields them.
pub open spec fn table_keys(entries: Seq<TomlEntry>) -> Seq<Seq<char>> {
    entries.map_values(|e: TomlEntry| e.key@)
}

/// The texts of the string elements of an array, in order.
pub open spec fn array_strs(vs: Seq<TomlValue>) -> Seq<Seq<char>>
    decreases vs.len(),
{
    if vs.len() == 0 {
        Seq::empty()
    } else {
        let rest = array_strs(vs.drop_last());
        match vs.last() {
            TomlValue::String(s) => rest.push(s@),
            _ => rest,
        }
    }
}

/// The texts of the string elements of the array at `key` of `v`; none
/// when there is no array there.
pub open spec fn strs_at(v: TomlValue, key: Seq<char>) -> Seq<Seq<char>> {
    match toml_get(v, key) {
        Some(TomlValue::Array(a)) => array_strs(a@),
        _ => Seq::empty(),
    }
}

// ── Implementation ──────────────────────────────────────────────────────

/// The value at `key` of a table.
pub fn get<'a>(v: &'a TomlValue, key: &str) -> (r: Option<&'a TomlValue>)
    ensures
        match r {
            Some(x) => toml_get(*v, key@) == Some(*x),
            None => toml_get(*v, key@) is None,
        },
{
    match v {
        TomlValue::Table(entries) => {
            let mut i: usize = 0;
            assert(entries@.skip(0) =~= entries@);
            while i < entries.len()
                invariant
                    *v == TomlValue::Table(*entries),
                    0 <= i <= entries@.len(),
                    entry_value(entries@, key@) == entry_value(entries@.skip(i as int), key@),
                decreases entries@.len() - i,
            {
                assert(entries@.skip(i as int)[0] == entries@[i as int]);
                if str_eq(entries[i].key.as_str(), key) {
                    return Some(&entries[i].value);
                }
                assert(entries@.skip(i as int).drop_first() =~= entries@.skip(i + 1));
                i = i + 1;
            }
            assert(entries@.skip(i as int) =~= Seq::<TomlEntry>::empty());
            None
        },
        _ => None,
    }
}

/// The text of a string value.
pub fn as_str(v: Option<&TomlValue>) -> (r: Option<&str>)
    ensures
        match v {
            Some(x) => match toml_str(Some(*x)) {
                Some(t) => r matches Some(s) && s@ == t,
                None => r is None,
            },
            None => r is None,
        },
{
    match v {
        Some(TomlValue::String(s)) => Some(s.as_str()),
        _ => None,
    }
}

/// The texts of the string elements of the array at `key` of `v`.
pub fn strings_at(v: &TomlValue, key: &str) -> (r: Vec<String>)
    ensures
        r.deep_view() == strs_at(*v, key@),
{
    let mut r: Vec<String> = Vec::new();
    match get(v, key) {
        Some(TomlValue::Array(a)) => {
            let mut i: usize = 0;
            assert(a@.take(0) =~= Seq::<TomlValue>::empty());
            while i < a.len()
                invariant
                    0 <= i <= a@.len(),
                    r.deep_view() == array_strs(a@.take(i as int)),
                decreases a@.len() - i,
            {
                assert(a@.take(i + 1).drop_last() =~= a@.take(i as int));
                assert(a@.take(i + 1).last() == a@[i as int]);
                if let TomlValue::String(s) = &a[i] {
                    let ghost prev = r.deep_view();
                    r.push(s.clone());
                    assert(r.deep_view() =~= prev.push(s@));
                }
                i = i + 1;
            }
            assert(a@.take(a@.len() as int) =~= a@);
        },
        _ => {
            assert(r.deep_view() =~= Seq::<Seq<char>>::empty());
        },
    }
    r
}

} // verus!
