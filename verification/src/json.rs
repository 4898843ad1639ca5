//! JSON documents, built and written out by `serde_json`.
//!
//! The library builds a `serde_json::Value` from plain values and lets
//! `serde_json` turn it into text. What the value holds is modelled by
//! `Json`; what comes of writing it out is named by `json_text`.

use vstd::prelude::*;

verus! {

/// Declares `serde_json::Value`, a JSON value, as a type whose inside the
/// verifier does not see.
#[verifier::external_type_specification]
#[verifier::external_body]
pub struct ExJsonValue(serde_json::Value);

/// Declares `serde_json::Error`, the error of `serde_json`, as a type whose
/// inside the verifier does not see.
#[verifier::external_type_specification]
#[verifier::external_body]
pub struct ExJsonError(serde_json::Error);

/// A JSON document, as far as this library builds one.
pub enum Json {
    /// An integer.
    Number(int),
    /// A string.
    Text(Seq<char>),
    /// An array of documents.
    Array(Seq<Json>),
    /// An object: member names with their documents, in order.
    Object(Seq<(Seq<char>, Json)>),
}

/// The document that a `serde_json::Value` holds. Nothing is said of it
/// but what the functions below state of the values they make.
pub uninterp spec fn json_of(value: serde_json::Value) -> Json;

/// What `serde_json::to_string` returns for a document: its compact JSON
/// text, or `None` where it reports an error. Nothing is said of the
/// characters of the text, nor of the documents for which there is one.
pub uninterp spec fn json_text(doc: Json) -> Option<Seq<char>>;

/// The documents that a vector of values holds.
pub open spec fn items_of(values: Seq<serde_json::Value>) -> Seq<Json> {
    Seq::new(values.len(), |i: int| json_of(values[i]))
}

/// The members that a vector of named values holds.
pub open spec fn members_of(fields: Seq<(String, serde_json::Value)>) -> Seq<(Seq<char>, Json)> {
    Seq::new(fields.len(), |i: int| (fields[i].0@, json_of(fields[i].1)))
}

/// No two members have the same name.
pub open spec fn distinct_names(members: Seq<(Seq<char>, Json)>) -> bool {
    forall|i: int, j: int|
        0 <= i < j < members.len() ==> (#[trigger] members[i]).0 != (#[trigger] members[j]).0
}

/// The JSON number for an integer.
///
/// Trusted: stands for `serde_json::Value::from` on an `i32`, which gives
/// the number value of that integer.
#[verifier::external_body]
pub(crate) fn json_number(n: i32) -> (v: serde_json::Value)
    ensures
        json_of(v) == Json::Number(n as int),
{
    serde_json::Value::from(n)
}

/// The JSON string for a text.
///
/// Trusted: stands for `serde_json::Value::from` on a string slice, which
/// gives the string value with the same characters.
#[verifier::external_body]
pub(crate) fn json_string(s: &str) -> (v: serde_json::Value)
    ensures
        json_of(v) == Json::Text(s@),
{
    serde_json::Value::from(s)
}

/// The JSON array of the given values, in order.
///
/// Trusted: stands for `serde_json::Value::from` on a vector of values,
/// which gives the array value that holds them in the same order.
#[verifier::external_body]
pub(crate) fn json_array(items: Vec<serde_json::Value>) -> (v: serde_json::Value)
    ensures
        json_of(v) == Json::Array(items_of(items@)),
{
    serde_json::Value::from(items)
}

/// The JSON object of the given members, in order.
///
/// Trusted: stands for `serde_json::Value::from_iter` on pairs of name and
/// value, which gives the object value that holds each pair; as names are
/// distinct here, the members keep the order in which they were given.
#[verifier::external_body]
pub(crate) fn json_object(fields: Vec<(String, serde_json::Value)>) -> (v: serde_json::Value)
    requires
        distinct_names(members_of(fields@)),
    ensures
        json_of(v) == Json::Object(members_of(fields@)),
{
    serde_json::Value::from_iter(fields)
}

/// The text of a JSON value.
///
/// Trusted: stands for `serde_json::to_string`, which returns the document
/// as compact JSON text or an error. It writes into memory and reads
/// nothing but the document, so what it returns, text or error, depends on
/// the document alone.
#[verifier::external_body]
pub(crate) fn json_to_string(value: &serde_json::Value) -> (r: Result<String, serde_json::Error>)
    ensures
        match r {
            Ok(s) => json_text(json_of(*value)) == Some(s@),
            Err(_) => json_text(json_of(*value)) is None,
        },
{
    serde_json::to_string(value)
}

} // verus!
