//! The JSON collaborator. Parsing is done by serde_json; this module gives
//! its values a mathematical model `Jv` so that the classifier's contracts
//! can speak about what a document holds. Every function here is trusted:
//! its contract states, over the model, what serde_json's source shows.

use vstd::prelude::*;

verus! {

/// The model of a JSON value. Numbers carry no payload: nothing in this
/// library reads a JSON number (prices arrive as strings).
pub enum Jv {
    Null,
    Bool(bool),
    Num,
    Str(Seq<char>),
    Arr(Seq<Jv>),
    Obj(Map<Seq<char>, Jv>),
}

/// What a `serde_json::Value` holds.
pub uninterp spec fn json_model(v: serde_json::Value) -> Jv;

/// What parsing a text yields: `None` on malformed JSON, otherwise the
/// model of the one value the document denotes. Parsing is a function of
/// the text alone.
pub uninterp spec fn json_of(s: Seq<char>) -> Option<Jv>;

#[verifier::external_type_specification]
#[verifier::external_body]
pub struct ExValue(serde_json::Value);

/// The field `k` of `j`, when `j` models an object that has it.
pub open spec fn jv_get(j: Jv, k: Seq<char>) -> Option<Jv> {
    match j {
        Jv::Obj(m) => if m.contains_key(k) {
            Some(m[k])
        } else {
            None
        },
        _ => None,
    }
}

/// The field `k` of `j` as a string, when it is one.
pub open spec fn jv_str(j: Jv, k: Seq<char>) -> Option<Seq<char>> {
    match jv_get(j, k) {
        Some(Jv::Str(s)) => Some(s),
        _ => None,
    }
}

/// Relies on serde_json::from_str::<Value>: parses the document, or fails;
/// the result depends on the text alone.
#[verifier::external_body]
pub fn parse_json(s: &str) -> (r: Option<serde_json::Value>)
    ensures
        match r {
            Some(v) => json_of(s@) == Some(json_model(v)),
            None => json_of(s@) is None,
        },
{
    serde_json::from_str::<serde_json::Value>(s).ok()
}

/// Relies on serde_json::Value::get with a string key: looks the key up
/// when the value is an object, and is `None` otherwise.
#[verifier::external_body]
pub fn obj_get<'a>(v: &'a serde_json::Value, k: &str) -> (r: Option<&'a serde_json::Value>)
    ensures
        match r {
            Some(f) => jv_get(json_model(*v), k@) == Some(json_model(*f)),
            None => jv_get(json_model(*v), k@) is None,
        },
{
    v.get(k)
}

/// Relies on serde_json::Value::as_str: the string a string value holds.
#[verifier::external_body]
pub fn as_str<'a>(v: &'a serde_json::Value) -> (r: Option<&'a str>)
    ensures
        match r {
            Some(s) => json_model(*v) == Jv::Str(s@),
            None => !(json_model(*v) is Str),
        },
{
    v.as_str()
}

/// Relies on serde_json::Value::as_array: the elements an array value
/// holds, in order.
#[verifier::external_body]
pub fn as_array<'a>(v: &'a serde_json::Value) -> (r: Option<&'a Vec<serde_json::Value>>)
    ensures
        match r {
            Some(a) => json_model(*v) == Jv::Arr(
                Seq::new(a@.len(), |i: int| json_model(a@[i])),
            ),
            None => !(json_model(*v) is Arr),
        },
{
    v.as_array()
}

} // verus!
