//! Parsed configuration documents (YAML, TOML, JSON) as plain values, and
//! the lookups the validations make in them.
use vstd::prelude::*;

use crate::text::chars_of;

verus! {

/// A parsed document: scalars, lists and mappings, in document order.
/// Mapping keys are values too (YAML allows any); TOML and JSON keys are
/// always `Text`. YAML tags are not kept.
#[derive(Debug)]
pub enum DocValue {
    Null,
    Bool(bool),
    Number(String),
    Text(String),
    List(Vec<DocValue>),
    Mapping(Vec<(DocValue, DocValue)>),
}

/// The text of a string value.
pub open spec fn text_of(v: DocValue) -> Option<Seq<char>> {
    match v {
        DocValue::Text(s) => Some(s@),
        _ => None,
    }
}

/// The value of a boolean.
pub open spec fn bool_of(v: DocValue) -> Option<bool> {
    match v {
        DocValue::Bool(b) => Some(b),
        _ => None,
    }
}

/// The entries of a mapping.
pub open spec fn entries_of(v: DocValue) -> Option<Seq<(DocValue, DocValue)>> {
    match v {
        DocValue::Mapping(e) => Some(e@),
        _ => None,
    }
}

/// The value of the first entry whose key is the string `key`.
pub open spec fn lookup(entries: Seq<(DocValue, DocValue)>, key: Seq<char>) -> Option<DocValue>
    decreases entries.len(),
{
    if entries.len() == 0 {
        None
    } else if text_of(entries[0].0) == Some(key) {
        Some(entries[0].1)
    } else {
        lookup(entries.skip(1), key)
    }
}

/// The value under `key` of a mapping; `None` for anything else.
pub open spec fn get(v: DocValue, key: Seq<char>) -> Option<DocValue> {
    match entries_of(v) {
        Some(e) => lookup(e, key),
        None => None,
    }
}

/// `get` on an optional value.
pub open spec fn get_in(v: Option<DocValue>, key: Seq<char>) -> Option<DocValue> {
    match v {
        Some(x) => get(x, key),
        None => None,
    }
}

/// The text of an optional value.
pub open spec fn opt_text(v: Option<DocValue>) -> Option<Seq<char>> {
    match v {
        Some(x) => text_of(x),
        None => None,
    }
}

/// The strings among the items, in order.
pub open spec fn texts_in(items: Seq<DocValue>) -> Seq<Seq<char>>
    decreases items.len(),
{
    if items.len() == 0 {
        Seq::empty()
    } else {
        let rest = texts_in(items.drop_last());
        match text_of(items.last()) {
            Some(s) => rest.push(s),
            None => rest,
        }
    }
}

/// The text of a string value.
pub fn doc_text(v: &DocValue) -> (r: Option<String>)
    ensures
        match r {
            Some(s) => text_of(*v) == Some(s@),
            None => text_of(*v) is None,
        },
{
    match v {
        DocValue::Text(s) => Some(s.clone()),
        _ => None,
    }
}

/// The text of an optional value.
pub fn opt_doc_text(v: Option<&DocValue>) -> (r: Option<String>)
    ensures
        match r {
            Some(s) => opt_text(match v { Some(x) => Some(*x), None => None }) == Some(s@),
            None => opt_text(match v { Some(x) => Some(*x), None => None }) is None,
        },
{
    match v {
        Some(x) => doc_text(x),
        None => None,
    }
}

/// The value of a boolean.
pub fn doc_bool(v: &DocValue) -> (r: Option<bool>)
    ensures
        r == bool_of(*v),
{
    match v {
        DocValue::Bool(b) => Some(*b),
        _ => None,
    }
}

/// Whether `v` is the string `key`.
fn is_text(v: &DocValue, key: &str) -> (r: bool)
    ensures
        r == (text_of(*v) == Some(key@)),
{
    match v {
        DocValue::Text(s) => {
            let a = chars_of(s.as_str());
            let b = chars_of(key);
            let eq = crate::text::same_chars(&a, &b);
            eq
        },
        _ => false,
    }
}

/// The value of the first entry whose key is the string `key`.
pub fn doc_lookup<'a>(entries: &'a Vec<(DocValue, DocValue)>, key: &str) -> (r: Option<&'a DocValue>)
    ensures
        match r {
            Some(x) => lookup(entries@, key@) == Some(*x),
            None => lookup(entries@, key@) is None,
        },
{
    let mut i: usize = 0;
    assert(entries@.skip(0) =~= entries@);
    while i < entries.len()
        invariant
            i <= entries@.len(),
            lookup(entries@, key@) == lookup(entries@.skip(i as int), key@),
        decreases entries@.len() - i,
    {
        assert(entries@.skip(i as int)[0] == entries@[i as int]);
        if is_text(&entries[i].0, key) {
            return Some(&entries[i].1);
        }
        assert(entries@.skip(i as int).skip(1) =~= entries@.skip(i + 1));
        i = i + 1;
    }
    None
}

/// The value under `key` of a mapping.
pub fn doc_get<'a>(v: &'a DocValue, key: &str) -> (r: Option<&'a DocValue>)
    ensures
        match r {
            Some(x) => get(*v, key@) == Some(*x),
            None => get(*v, key@) is None,
        },
{
    match v {
        DocValue::Mapping(e) => doc_lookup(e, key),
        _ => None,
    }
}

/// `doc_get` on an optional value.
pub fn doc_get_in<'a>(v: Option<&'a DocValue>, key: &str) -> (r: Option<&'a DocValue>)
    ensures
        match r {
            Some(x) => get_in(match v { Some(y) => Some(*y), None => None }, key@) == Some(*x),
            None => get_in(match v { Some(y) => Some(*y), None => None }, key@) is None,
        },
{
    match v {
        Some(x) => doc_get(x, key),
        None => None,
    }
}

/// The strings among the items, in order.
pub fn doc_texts(items: &Vec<DocValue>) -> (r: Vec<String>)
    ensures
        r@.map_values(|s: String| s@) == texts_in(items@),
{
    let mut out: Vec<String> = Vec::new();
    let mut i: usize = 0;
    while i < items.len()
        invariant
            i <= items@.len(),
            out@.map_values(|s: String| s@) == texts_in(items@.take(i as int)),
        decreases items@.len() - i,
    {
        assert(items@.take(i + 1).drop_last() =~= items@.take(i as int));
        let ghost before = out@;
        match doc_text(&items[i]) {
            Some(s) => {
                let ghost sv = s@;
                out.push(s);
                assert(out@.map_values(|s: String| s@) =~= before.map_values(|s: String| s@).push(sv));
            },
            None => {},
        }
        i = i + 1;
    }
    assert(items@.take(items@.len() as int) =~= items@);
    out
}

// ---------------------------------------------------------------------------
// Parsers
// ---------------------------------------------------------------------------

/// The parsed YAML value type.
#[verifier::external_type_specification]
#[verifier::external_body]
pub struct ExYamlValue(serde_yaml::Value);

/// The parsed JSON value type.
#[verifier::external_type_specification]
#[verifier::external_body]
pub struct ExJsonValue(serde_json::Value);

/// Copies a `serde_yaml::Value` into a `DocValue`, variant by variant: the
/// number as its text, sequences and mappings entry by entry in their order,
/// a tagged value as the value it tags. Nothing is claimed of it.
#[verifier::external_body]
fn doc_of_yaml(v: &serde_yaml::Value) -> (r: DocValue) {
    match v {
        serde_yaml::Value::Null => DocValue::Null,
        serde_yaml::Value::Bool(b) => DocValue::Bool(*b),
        serde_yaml::Value::Number(n) => DocValue::Number(n.to_string()),
        serde_yaml::Value::String(s) => DocValue::Text(s.clone()),
        serde_yaml::Value::Sequence(s) => DocValue::List(s.iter().map(doc_of_yaml).collect()),
        serde_yaml::Value::Mapping(m) => DocValue::Mapping(m.iter().map(|(k, x)| (doc_of_yaml(k), doc_of_yaml(x))).collect()),
        serde_yaml::Value::Tagged(t) => doc_of_yaml(&t.value),
    }
}

/// Copies a `serde_json::Value` into a `DocValue`, variant by variant: the
/// number as its text, arrays and objects entry by entry in their order,
/// object keys as `Text`. Nothing is claimed of it.
#[verifier::external_body]
fn doc_of_json(v: &serde_json::Value) -> (r: DocValue) {
    match v {
        serde_json::Value::Null => DocValue::Null,
        serde_json::Value::Bool(b) => DocValue::Bool(*b),
        serde_json::Value::Number(n) => DocValue::Number(n.to_string()),
        serde_json::Value::String(s) => DocValue::Text(s.clone()),
        serde_json::Value::Array(a) => DocValue::List(a.iter().map(doc_of_json).collect()),
        serde_json::Value::Object(o) => DocValue::Mapping(o.iter().map(|(k, x)| (DocValue::Text(k.clone()), doc_of_json(x))).collect()),
    }
}

/// What `serde_yaml::from_str::<serde_yaml::Value>` makes of `text`, copied
/// into a `DocValue`; `None` where the text is not YAML.
pub uninterp spec fn yaml_document(text: Seq<char>) -> Option<DocValue>;

/// What `toml::from_str::<serde_json::Value>` makes of `text`, copied into a
/// `DocValue`; `None` where the text is not TOML.
pub uninterp spec fn toml_document(text: Seq<char>) -> Option<DocValue>;

/// What `serde_json::from_str::<serde_json::Value>` makes of `text`, copied
/// into a `DocValue`; `None` where the text is not JSON.
pub uninterp spec fn json_document(text: Seq<char>) -> Option<DocValue>;

/// Parses YAML with `serde_yaml::from_str`. The claim is the named result
/// only.
#[verifier::external_body]
pub(crate) fn parse_yaml(text: &str) -> (r: Option<DocValue>)
    ensures
        r == yaml_document(text@),
{
    serde_yaml::from_str::<serde_yaml::Value>(text).ok().map(|v| doc_of_yaml(&v))
}

/// Parses TOML with `toml::from_str`, into a `serde_json::Value`. The claim
/// is the named result only.
#[verifier::external_body]
pub(crate) fn parse_toml(text: &str) -> (r: Option<DocValue>)
    ensures
        r == toml_document(text@),
{
    toml::from_str::<serde_json::Value>(text).ok().map(|v| doc_of_json(&v))
}

/// Parses JSON with `serde_json::from_str`. The claim is the named result
/// only.
#[verifier::external_body]
pub(crate) fn parse_json(text: &str) -> (r: Option<DocValue>)
    ensures
        r == json_document(text@),
{
    serde_json::from_str::<serde_json::Value>(text).ok().map(|v| doc_of_json(&v))
}

} // verus!
