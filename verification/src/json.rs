//! The JSON values of the persisted data document.
//!
//! Parsing, printing and the value type itself belong to `serde_json`; this
//! module gives them a mathematical model and states, without proof, what the
//! handful of calls used by the document logic do in terms of that model.

use vstd::prelude::*;

verus! {

/// Mathematical model of a JSON value.
pub enum Json {
    Null,
    Bool(bool),
    /// A number, identified by the text the serialiser prints for it.
    Number(Seq<char>),
    Text(Seq<char>),
    List(Seq<Json>),
    Object(Map<Seq<char>, Json>),
}

/// `serde_json::Value`: a JSON value. What it holds is told by
/// `value_model`.
#[verifier::external_type_specification]
#[verifier::external_body]
pub struct ExValue(serde_json::Value);

/// `serde_json::Map`: a JSON object. What it holds is told by
/// `object_entries`.
#[verifier::external_type_specification]
#[verifier::external_body]
#[verifier::reject_recursive_types(K)]
#[verifier::reject_recursive_types(V)]
pub struct ExObject<K, V>(serde_json::Map<K, V>);

/// `serde_json::Error`: why a text could not be parsed or a value not be
/// printed. Nothing is read from it.
#[verifier::external_type_specification]
#[verifier::external_body]
pub struct ExJsonError(serde_json::Error);

/// The JSON value that a `serde_json::Value` holds.
pub uninterp spec fn value_model(v: serde_json::Value) -> Json;

/// The members of a `serde_json` object, by key.
pub uninterp spec fn object_entries(m: serde_json::Map<String, serde_json::Value>) -> Map<
    Seq<char>,
    Json,
>;

/// What `serde_json::from_str` makes of `text` when asked for an object:
/// its members, or `None` where it reports an error.
pub uninterp spec fn parsed_object(text: Seq<char>) -> Option<Map<Seq<char>, Json>>;

/// What `serde_json::to_string_pretty` prints for an object with the given
/// members, or `None` where it reports an error.
pub uninterp spec fn pretty_text(entries: Map<Seq<char>, Json>) -> Option<Seq<char>>;

/// The members of an object that has none.
pub open spec fn no_entries() -> Map<Seq<char>, Json> {
    Map::empty()
}

/// The models of a sequence of values, element by element.
pub open spec fn models_of(values: Seq<serde_json::Value>) -> Seq<Json> {
    Seq::new(values.len(), |i: int| value_model(values[i]))
}

/// `serde_json::from_str` at the type of a JSON object. The outcome is a
/// function of the text alone; it is named by `parsed_object`.
#[verifier::external_body]
pub(crate) fn parse_object(text: &str) -> (r: Result<
    serde_json::Map<String, serde_json::Value>,
    serde_json::Error,
>)
    ensures
        r is Ok ==> parsed_object(text@) == Some(object_entries(r->Ok_0)),
        r is Err ==> parsed_object(text@) is None,
{
    serde_json::from_str(text)
}

/// `serde_json::Map::new`: an object without members.
#[verifier::external_body]
pub(crate) fn empty_object() -> (m: serde_json::Map<String, serde_json::Value>)
    ensures
        object_entries(m) == no_entries(),
{
    serde_json::Map::new()
}

/// `serde_json::Map::insert`: binds `key` to `value`, replacing an earlier
/// member of that key and leaving every other member as it was.
#[verifier::external_body]
pub(crate) fn object_insert(
    m: &mut serde_json::Map<String, serde_json::Value>,
    key: String,
    value: serde_json::Value,
)
    ensures
        object_entries(*final(m)) == object_entries(*old(m)).insert(key@, value_model(value)),
{
    m.insert(key, value);
}

/// `serde_json::Map::get`: the member bound to `key`, if there is one.
#[verifier::external_body]
pub(crate) fn object_get<'a>(
    m: &'a serde_json::Map<String, serde_json::Value>,
    key: &str,
) -> (r: Option<&'a serde_json::Value>)
    ensures
        r is Some <==> object_entries(*m).contains_key(key@),
        r is Some ==> value_model(*r->Some_0) == object_entries(*m)[key@],
{
    m.get(key)
}

/// `serde_json::Value::as_str`: the text of a string value, `None` for any
/// other kind of value.
#[verifier::external_body]
pub(crate) fn value_as_str<'a>(v: &'a serde_json::Value) -> (r: Option<&'a str>)
    ensures
        r is Some <==> value_model(*v) is Text,
        r is Some ==> value_model(*v) == Json::Text(r->Some_0@),
{
    v.as_str()
}

/// `serde_json::Value::as_array`: the elements of an array value, `None`
/// for any other kind of value.
#[verifier::external_body]
pub(crate) fn value_as_array<'a>(v: &'a serde_json::Value) -> (r: Option<
    &'a Vec<serde_json::Value>,
>)
    ensures
        r is Some <==> value_model(*v) is List,
        r is Some ==> value_model(*v) == Json::List(models_of(r->Some_0@)),
{
    v.as_array()
}

/// The variant `serde_json::Value::String`.
#[verifier::external_body]
pub(crate) fn text_value(s: String) -> (v: serde_json::Value)
    ensures
        value_model(v) == Json::Text(s@),
{
    serde_json::Value::String(s)
}

/// The variant `serde_json::Value::Array`.
#[verifier::external_body]
pub(crate) fn list_value(items: Vec<serde_json::Value>) -> (v: serde_json::Value)
    ensures
        value_model(v) == Json::List(models_of(items@)),
{
    serde_json::Value::Array(items)
}

/// `Clone` for `serde_json::Value`: the copy holds the same JSON value.
#[verifier::external_body]
pub(crate) fn clone_value(v: &serde_json::Value) -> (c: serde_json::Value)
    ensures
        value_model(c) == value_model(*v),
{
    v.clone()
}

/// `serde_json::to_string_pretty` on an object. An object keeps its members
/// sorted by key, so the outcome is a function of the members alone; it is
/// named by `pretty_text`.
#[verifier::external_body]
pub(crate) fn render_pretty(m: &serde_json::Map<String, serde_json::Value>) -> (r: Result<
    String,
    serde_json::Error,
>)
    ensures
        r is Ok ==> pretty_text(object_entries(*m)) == Some(r->Ok_0@),
        r is Err ==> pretty_text(object_entries(*m)) is None,
{
    serde_json::to_string_pretty(m)
}

} // verus!
