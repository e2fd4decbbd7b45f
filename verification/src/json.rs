//! The JSON values the schema decoder reads, and the trusted parse into them.
//!
//! Parsing is the one step an outside crate performs; everything that gives
//! the parsed value meaning is verified in `decode`.

use vstd::prelude::*;

verus! {

broadcast use vstd::std_specs::vec::axiom_vec_index_decreases;

/// A parsed JSON value, held as plain library data.
#[derive(Debug)]
pub enum JsonValue {
    Null,
    Bool(bool),
    /// A number representable as a signed 64-bit integer.
    Int(i64),
    /// Any other number; the schema shape never accepts one.
    OtherNumber,
    Text(String),
    Arr(Vec<JsonValue>),
    Obj(Vec<(String, JsonValue)>),
}

/// The mathematical value of a `JsonValue`.
pub enum JsonVal {
    Null,
    Bool(bool),
    Int(i64),
    OtherNumber,
    Text(Seq<char>),
    Arr(Seq<JsonVal>),
    Obj(Seq<(Seq<char>, JsonVal)>),
}

/// The mathematical value of a parsed JSON tree.
pub open spec fn jv_view(v: JsonValue) -> JsonVal
    decreases v,
{
    match v {
        JsonValue::Null => JsonVal::Null,
        JsonValue::Bool(b) => JsonVal::Bool(b),
        JsonValue::Int(i) => JsonVal::Int(i),
        JsonValue::OtherNumber => JsonVal::OtherNumber,
        JsonValue::Text(s) => JsonVal::Text(s@),
        JsonValue::Arr(items) => JsonVal::Arr(
            Seq::new(
                items@.len(),
                |i: int|
                    if 0 <= i < items@.len() {
                        jv_view(items@[i])
                    } else {
                        JsonVal::Null
                    },
            ),
        ),
        JsonValue::Obj(fields) => JsonVal::Obj(
            Seq::new(
                fields@.len(),
                |i: int|
                    if 0 <= i < fields@.len() {
                        (fields@[i].0@, jv_view(fields@[i].1))
                    } else {
                        (Seq::empty(), JsonVal::Null)
                    },
            ),
        ),
    }
}

impl View for JsonValue {
    type V = JsonVal;

    open spec fn view(&self) -> JsonVal {
        jv_view(*self)
    }
}

impl DeepView for JsonValue {
    type V = JsonVal;

    open spec fn deep_view(&self) -> JsonVal {
        self@
    }
}

/// serde_json's value type, declared so the trusted parse below can handle
/// it; verified code never looks inside one.
#[verifier::external_type_specification]
#[verifier::external_body]
pub struct ExValue(serde_json::Value);

/// The JSON value standing at the start of a text, or nothing when no value
/// parses there. A pure function of the text alone. For a value that ends at
/// its own closing delimiter (an object or array) the text after it is
/// ignored; for a bare scalar the parse reads up to the next delimiter, so
/// trailing text can make it fail.
pub uninterp spec fn json_value_at(s: Seq<char>) -> Option<JsonVal>;

/// Relies on `serde_json::Value`: each variant is carried over one to one,
/// a number through `Number::as_i64`.
#[verifier::external_body]
fn from_json(v: serde_json::Value) -> JsonValue {
    match v {
        serde_json::Value::Null => JsonValue::Null,
        serde_json::Value::Bool(b) => JsonValue::Bool(b),
        serde_json::Value::Number(n) => match n.as_i64() {
            Option::Some(i) => JsonValue::Int(i),
            Option::None => JsonValue::OtherNumber,
        },
        serde_json::Value::String(s) => JsonValue::Text(s),
        serde_json::Value::Array(items) => JsonValue::Arr(
            items.into_iter().map(from_json).collect(),
        ),
        serde_json::Value::Object(map) => JsonValue::Obj(
            map.into_iter().map(|(k, inner)| (k, from_json(inner))).collect(),
        ),
    }
}

/// Relies on `serde_json::Deserializer::from_str` and its value stream: the
/// first JSON value at the start of the text is parsed, and the outcome
/// depends on the text alone. An object or array ends at its closing
/// delimiter and the rest of the text is left alone, which is all the
/// schema scan needs: it parses only at `{` positions.
#[verifier::external_body]
pub(crate) fn parse_json_prefix(s: &str) -> (r: Option<JsonValue>)
    ensures
        match r {
            Option::Some(v) => json_value_at(s@) == Option::Some(v@),
            Option::None => json_value_at(s@) is None,
        },
{
    let mut stream = serde_json::Deserializer::from_str(s).into_iter::<serde_json::Value>();
    match stream.next() {
        Option::Some(Ok(v)) => Option::Some(from_json(v)),
        _ => Option::None,
    }
}

} // verus!
