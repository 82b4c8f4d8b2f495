//! The TOML documents of the core's configuration, as plain data.
//!
//! The `toml` crate parses and renders the text; the import and export rules
//! read and build [`TomlValue`]s.

use vstd::prelude::*;

use crate::profile::{ProfileError, ProfileFault};
use crate::text::{ascii_lower, chars_lower, chars_vec, owned, str_eq};

verus! {

broadcast use vstd::string::group_string_axioms;

/// A TOML value.  Floats and date-times are `Other`: no configuration rule
/// accepts them.
pub enum TomlValue {
    String(String),
    Integer(i64),
    Boolean(bool),
    Array(Vec<TomlValue>),
    /// Key/value pairs, in the order the parsed table keeps them (by key).
    Table(Vec<(String, TomlValue)>),
    Other,
}

/// The mathematical form of a [`TomlValue`].
pub ghost enum TomlModel {
    String(Seq<char>),
    Integer(i64),
    Boolean(bool),
    Array(Seq<TomlModel>),
    Table(Seq<(Seq<char>, TomlModel)>),
    Other,
}

pub open spec fn toml_model(v: TomlValue) -> TomlModel
    decreases v,
{
    match v {
        TomlValue::String(s) => TomlModel::String(s@),
        TomlValue::Integer(i) => TomlModel::Integer(i),
        TomlValue::Boolean(b) => TomlModel::Boolean(b),
        TomlValue::Array(items) => TomlModel::Array(
            Seq::new(
                items@.len(),
                |i: int|
                    if 0 <= i < items@.len() {
                        proof {
                            vstd::std_specs::vec::axiom_vec_index_decreases(items, i);
                        }
                        toml_model(items@[i])
                    } else {
                        TomlModel::Other
                    },
            ),
        ),
        TomlValue::Table(entries) => TomlModel::Table(
            Seq::new(
                entries@.len(),
                |i: int|
                    if 0 <= i < entries@.len() {
                        proof {
                            vstd::std_specs::vec::axiom_vec_index_decreases(entries, i);
                        }
                        (entries@[i].0@, toml_model(entries@[i].1))
                    } else {
                        (Seq::empty(), TomlModel::Other)
                    },
            ),
        ),
        TomlValue::Other => TomlModel::Other,
    }
}

impl View for TomlValue {
    type V = TomlModel;

    open spec fn view(&self) -> TomlModel {
        toml_model(*self)
    }
}

/// The models of a table's entries.
pub open spec fn entries_model(e: Seq<(String, TomlValue)>) -> Seq<(Seq<char>, TomlModel)> {
    Seq::new(e.len(), |i: int| (e[i].0@, e[i].1@))
}

pub proof fn lemma_table_model(e: Vec<(String, TomlValue)>)
    ensures
        TomlValue::Table(e)@ == TomlModel::Table(entries_model(e@)),
{
    assert(entries_model(e@) =~= TomlValue::Table(e)@->Table_0);
}

/// The models of a list of values.
pub open spec fn values_model(items: Seq<TomlValue>) -> Seq<TomlModel> {
    items.map_values(|v: TomlValue| v@)
}

pub proof fn lemma_array_model(items: Vec<TomlValue>)
    ensures
        TomlValue::Array(items)@ == TomlModel::Array(values_model(items@)),
{
    assert(values_model(items@) =~= TomlValue::Array(items)@->Array_0);
}

pub proof fn lemma_entries_model_append(a: Seq<(String, TomlValue)>, b: Seq<(String, TomlValue)>)
    ensures
        entries_model(a + b) == entries_model(a) + entries_model(b),
{
    assert(entries_model(a + b) =~= entries_model(a) + entries_model(b));
}

/// What `toml::from_str` makes of a document: the root value, or the text of
/// the parse error.
pub uninterp spec fn toml_document(input: Seq<char>) -> Result<TomlModel, Seq<char>>;

/// What `toml::to_string_pretty` writes for a value, or the text of its
/// error.
pub uninterp spec fn toml_text(value: TomlModel) -> Result<Seq<char>, Seq<char>>;

/// Declares `toml::Value` so the conversions below can name it.
#[verifier::external_type_specification]
#[verifier::external_body]
pub struct ExTomlValue(toml::Value);

/// Converts a `toml::Value`, variant by variant.
#[verifier::external_body]
fn from_toml_value(value: toml::Value) -> TomlValue {
    match value {
        toml::Value::String(s) => TomlValue::String(s),
        toml::Value::Integer(i) => TomlValue::Integer(i),
        toml::Value::Boolean(b) => TomlValue::Boolean(b),
        toml::Value::Array(a) => TomlValue::Array(a.into_iter().map(from_toml_value).collect()),
        toml::Value::Table(t) => TomlValue::Table(
            t.into_iter().map(|(k, v)| (k, from_toml_value(v))).collect(),
        ),
        toml::Value::Float(_) | toml::Value::Datetime(_) => TomlValue::Other,
    }
}

/// Converts into a `toml::Value`, variant by variant.
#[verifier::external_body]
fn to_toml_value(value: &TomlValue) -> toml::Value {
    match value {
        TomlValue::String(s) => toml::Value::String(s.clone()),
        TomlValue::Integer(i) => toml::Value::Integer(*i),
        TomlValue::Boolean(b) => toml::Value::Boolean(*b),
        TomlValue::Array(a) => toml::Value::Array(a.iter().map(to_toml_value).collect()),
        TomlValue::Table(t) => toml::Value::Table(
            t.iter().map(|(k, v)| (k.clone(), to_toml_value(v))).collect(),
        ),
        TomlValue::Other => toml::Value::Table(toml::map::Map::new()),
    }
}

/// `toml::from_str` into a `toml::Value`.
#[verifier::external_body]
pub(crate) fn parse_toml(input: &str) -> (r: Result<TomlValue, String>)
    ensures
        match r {
            Ok(v) => toml_document(input@) == Ok::<TomlModel, Seq<char>>(v@),
            Err(e) => toml_document(input@) == Err::<TomlModel, Seq<char>>(e@),
        },
{
    toml::from_str::<toml::Value>(input).map(from_toml_value).map_err(|e| e.to_string())
}

/// `toml::to_string_pretty` of a `toml::Value`.
#[verifier::external_body]
pub(crate) fn render_toml(value: &TomlValue) -> (r: Result<String, String>)
    ensures
        match r {
            Ok(t) => toml_text(value@) == Ok::<Seq<char>, Seq<char>>(t@),
            Err(e) => toml_text(value@) == Err::<Seq<char>, Seq<char>>(e@),
        },
{
    toml::to_string_pretty(&to_toml_value(value)).map_err(|e| e.to_string())
}

// ---------------------------------------------------------------------------
// Reading tables
// ---------------------------------------------------------------------------

/// The value of the first entry at or after `i` with `key`.
pub open spec fn lookup_from(entries: Seq<(Seq<char>, TomlModel)>, key: Seq<char>, i: int) -> Option<
    TomlModel,
>
    decreases entries.len() - i,
{
    if i < 0 || i >= entries.len() {
        None
    } else if entries[i].0 == key {
        Some(entries[i].1)
    } else {
        lookup_from(entries, key, i + 1)
    }
}

pub open spec fn lookup(entries: Seq<(Seq<char>, TomlModel)>, key: Seq<char>) -> Option<TomlModel> {
    lookup_from(entries, key, 0)
}

/// The first of two lookups that finds the key.
pub open spec fn first_found(a: Option<TomlModel>, b: Option<TomlModel>) -> Option<TomlModel> {
    if a is Some {
        a
    } else {
        b
    }
}

proof fn lemma_lookup_from_shifted(a: Seq<(Seq<char>, TomlModel)>, b: Seq<(Seq<char>, TomlModel)>, key: Seq<char>, m: int)
    requires
        0 <= m,
    ensures
        lookup_from(a + b, key, a.len() + m) == lookup_from(b, key, m),
    decreases b.len() - m,
{
    if m < b.len() {
        lemma_lookup_from_shifted(a, b, key, m + 1);
    }
}

proof fn lemma_lookup_from_concat(a: Seq<(Seq<char>, TomlModel)>, b: Seq<(Seq<char>, TomlModel)>, key: Seq<char>, j: int)
    requires
        0 <= j <= a.len(),
    ensures
        lookup_from(a + b, key, j) == first_found(lookup_from(a, key, j), lookup_from(b, key, 0)),
    decreases a.len() - j,
{
    if j < a.len() {
        lemma_lookup_from_concat(a, b, key, j + 1);
    } else {
        lemma_lookup_from_shifted(a, b, key, 0);
    }
}

/// A key is looked up in the first table, then in the second.
pub proof fn lemma_lookup_concat(a: Seq<(Seq<char>, TomlModel)>, b: Seq<(Seq<char>, TomlModel)>, key: Seq<char>)
    ensures
        lookup(a + b, key) == first_found(lookup(a, key), lookup(b, key)),
{
    lemma_lookup_from_concat(a, b, key, 0);
}

proof fn lemma_disallowed_from_shifted(a: Seq<(Seq<char>, TomlModel)>, b: Seq<(Seq<char>, TomlModel)>, allowed: Seq<Seq<char>>, m: int)
    requires
        0 <= m,
    ensures
        disallowed_from(a + b, allowed, a.len() + m) == disallowed_from(b, allowed, m),
    decreases b.len() - m,
{
    if m < b.len() {
        lemma_disallowed_from_shifted(a, b, allowed, m + 1);
    }
}

proof fn lemma_disallowed_from_concat(a: Seq<(Seq<char>, TomlModel)>, b: Seq<(Seq<char>, TomlModel)>, allowed: Seq<Seq<char>>, j: int)
    requires
        0 <= j <= a.len(),
    ensures
        disallowed_from(a + b, allowed, j) == (if disallowed_from(a, allowed, j) is Some {
            disallowed_from(a, allowed, j)
        } else {
            disallowed_from(b, allowed, 0)
        }),
    decreases a.len() - j,
{
    if j < a.len() {
        lemma_disallowed_from_concat(a, b, allowed, j + 1);
    } else {
        lemma_disallowed_from_shifted(a, b, allowed, 0);
    }
}

/// The first disallowed key of two tables, one after the other.
pub proof fn lemma_disallowed_concat(a: Seq<(Seq<char>, TomlModel)>, b: Seq<(Seq<char>, TomlModel)>, allowed: Seq<Seq<char>>)
    ensures
        disallowed_from(a + b, allowed, 0) == (if disallowed_from(a, allowed, 0) is Some {
            disallowed_from(a, allowed, 0)
        } else {
            disallowed_from(b, allowed, 0)
        }),
{
    lemma_disallowed_from_concat(a, b, allowed, 0);
}

/// The value of `key` in a table.
pub fn table_get<'a>(entries: &'a Vec<(String, TomlValue)>, key: &str) -> (r: Option<&'a TomlValue>)
    ensures
        match r {
            Some(v) => lookup(entries_model(entries@), key@) == Some(v@),
            None => lookup(entries_model(entries@), key@) is None,
        },
{
    let ghost m = entries_model(entries@);
    let mut i: usize = 0;
    while i < entries.len()
        invariant
            i <= entries@.len(),
            m == entries_model(entries@),
            lookup(m, key@) == lookup_from(m, key@, i as int),
        decreases entries@.len() - i,
    {
        if str_eq(entries[i].0.as_str(), key) {
            return Some(&entries[i].1);
        }
        i = i + 1;
    }
    None
}

/// The first key of a table, in entry order, that is not in `allowed`.
pub open spec fn disallowed_from(entries: Seq<(Seq<char>, TomlModel)>, allowed: Seq<Seq<char>>, i: int) -> Option<
    Seq<char>,
>
    decreases entries.len() - i,
{
    if i < 0 || i >= entries.len() {
        None
    } else if !allowed.contains(entries[i].0) {
        Some(entries[i].0)
    } else {
        disallowed_from(entries, allowed, i + 1)
    }
}

/// The path of a key below `prefix`.
pub open spec fn key_path(prefix: Seq<char>, key: Seq<char>) -> Seq<char> {
    if prefix.len() == 0 {
        key
    } else {
        prefix + seq!['.'] + key
    }
}

/// Only `allowed` keys may occur; the first other key, in entry order, is
/// reported under its path.
pub open spec fn keys_fault(entries: Seq<(Seq<char>, TomlModel)>, prefix: Seq<char>, allowed: Seq<Seq<char>>) -> Option<
    ProfileFault,
> {
    match disallowed_from(entries, allowed, 0) {
        Some(key) => Some(ProfileFault::DisallowedTomlKey(key_path(prefix, key))),
        None => None,
    }
}

/// The texts of a list of string slices.
pub open spec fn str_texts(v: Seq<&str>) -> Seq<Seq<char>> {
    v.map_values(|s: &str| s@)
}

pub fn ensure_allowed_keys(entries: &Vec<(String, TomlValue)>, prefix: &str, allowed: &[&str]) -> (r:
    Result<(), ProfileError>)
    ensures
        crate::profile::outcome_is(
            r,
            keys_fault(entries_model(entries@), prefix@, str_texts(allowed@)),
        ),
{
    let ghost m = entries_model(entries@);
    let ghost allowed_texts = str_texts(allowed@);
    let mut i: usize = 0;
    while i < entries.len()
        invariant
            i <= entries@.len(),
            m == entries_model(entries@),
            allowed_texts == str_texts(allowed@),
            disallowed_from(m, allowed_texts, 0) == disallowed_from(m, allowed_texts, i as int),
        decreases entries@.len() - i,
    {
        let key = entries[i].0.as_str();
        let mut found = false;
        let mut j: usize = 0;
        while j < allowed.len()
            invariant
                j <= allowed@.len(),
                allowed_texts == str_texts(allowed@),
                found == exists|k: int| 0 <= k < j && allowed_texts[k] == key@,
            decreases allowed@.len() - j,
        {
            assert(allowed_texts[j as int] == allowed@[j as int]@);
            if str_eq(allowed[j], key) {
                found = true;
            }
            j = j + 1;
        }
        assert(m[i as int].0 == key@);
        if !found {
            assert(!allowed_texts.contains(key@));
            let path = if prefix.is_empty() {
                owned(key)
            } else {
                crate::text::concat3(prefix, ".", key)
            };
            proof {
                reveal_strlit(".");
                assert(disallowed_from(m, allowed_texts, i as int) == Some(key@));
                assert(path@ == key_path(prefix@, key@));
            }
            return Err(ProfileError::DisallowedTomlKey { path });
        }
        proof {
            let k = choose|k: int| 0 <= k < j && allowed_texts[k] == key@;
            assert(allowed_texts.contains(key@));
        }
        i = i + 1;
    }
    assert(disallowed_from(m, allowed_texts, i as int) is None);
    Ok(())
}

} // verus!
