//! The boundary to serde_json: parsing JSON text and printing it back.
//!
//! Everything that serde_json computes is named here, never restated: whether
//! a text parses, and to what document, is a function of the text alone, and
//! the pretty-printed text is a function of the document alone (object
//! entries are kept in a key-ordered map, so entry order cannot show).

use vstd::prelude::*;

use crate::json::{canonical_number, json_model, nums_canonical, Json, JsonModel};

verus! {

#[verifier::external_type_specification]
#[verifier::external_body]
pub struct ExSerdeValue(serde_json::Value);

/// The document a JSON text parses to, or `None` where parsing fails.
pub uninterp spec fn parsed_json(text: Seq<char>) -> Option<JsonModel>;

/// The pretty-printed text of a document: two-space indent, key-ordered
/// object entries.
pub uninterp spec fn pretty_of(doc: JsonModel) -> Seq<char>;

/// Rebuilds serde_json's tree as the library's own; only the trusted
/// wrappers below call it.
#[verifier::external_body]
fn value_to_json(v: serde_json::Value) -> Json {
    match v {
        serde_json::Value::Null => Json::Null,
        serde_json::Value::Bool(b) => Json::Bool(b),
        serde_json::Value::Number(n) => Json::Num(n.to_string()),
        serde_json::Value::String(s) => Json::Str(s),
        serde_json::Value::Array(a) => Json::Arr(a.into_iter().map(value_to_json).collect()),
        serde_json::Value::Object(o) => Json::Obj(
            o.into_iter().map(|(k, x)| (k, value_to_json(x))).collect(),
        ),
    }
}

/// Rebuilds the library's tree as serde_json's; only the trusted wrappers
/// below call it.
#[verifier::external_body]
fn json_to_value(j: &Json) -> serde_json::Value {
    match j {
        Json::Null => serde_json::Value::Null,
        Json::Bool(b) => serde_json::Value::Bool(*b),
        Json::Num(s) => match serde_json::from_str::<serde_json::Number>(s) {
            Ok(n) => serde_json::Value::Number(n),
            Err(_) => serde_json::Value::Null,
        },
        Json::Str(s) => serde_json::Value::String(s.clone()),
        Json::Arr(items) => serde_json::Value::Array(items.iter().map(json_to_value).collect()),
        Json::Obj(entries) => serde_json::Value::Object(
            entries.iter().map(|(k, x)| (k.clone(), json_to_value(x))).collect(),
        ),
    }
}

/// Relies on serde_json::from_str: whether a text parses, and to what
/// document, depends on the text alone. The error message is serde_json's.
#[verifier::external_body]
pub fn parse_json(text: &str) -> (r: Result<Json, String>)
    ensures
        r is Ok <==> parsed_json(text@) is Some,
        r is Ok ==> parsed_json(text@) == Some(json_model(r->Ok_0)),
        r is Ok ==> nums_canonical(r->Ok_0),
        r matches Ok(j) ==> (j is Num ==> canonical_number(j->Num_0@)),
{
    match serde_json::from_str::<serde_json::Value>(text) {
        Ok(v) => Ok(value_to_json(v)),
        Err(e) => Err(e.to_string()),
    }
}

/// Relies on serde_json::to_string_pretty: the printed text depends on the
/// document alone, since object entries are held key-ordered. Printing a
/// tree of plain data values cannot fail. Where the value's number lexemes
/// are serde_json's own, a text that parses at all parses back to the same
/// document: the `float_roundtrip` feature makes the float parse exact, so a
/// shortest-form lexeme reads back as the float it was printed from. A
/// deeply nested document may exceed the parser's recursion limit, in which
/// case the written text does not parse.
#[verifier::external_body]
pub fn to_pretty(j: &Json) -> (r: String)
    ensures
        r@ == pretty_of(json_model(*j)),
        nums_canonical(*j) && parsed_json(r@) is Some ==> parsed_json(r@) == Some(
            json_model(*j),
        ),
{
    match serde_json::to_string_pretty(&json_to_value(j)) {
        Ok(s) => s,
        Err(_) => String::new(),
    }
}

} // verus!
