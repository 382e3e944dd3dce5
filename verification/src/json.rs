//! JSON documents as plain values. Parsing is `serde_json`'s; the library
//! reads the parsed document through the accessors below.

use vstd::prelude::*;

use crate::text::string_eq_str;

verus! {

/// The integer readings of a JSON number.
#[derive(Clone, Copy, Debug, PartialEq, Eq, Structural)]
pub struct JsonNumber {
    pub unsigned: Option<u64>,
    pub signed: Option<i64>,
}

/// A parsed JSON document. Object fields keep the order in which the parser
/// hands them out, and no key occurs twice.
#[derive(Debug)]
pub enum JsonValue {
    Null,
    Bool(bool),
    Number(JsonNumber),
    String(String),
    Array(Vec<JsonValue>),
    Object(Vec<(String, JsonValue)>),
}

/// What `serde_json::from_slice` makes of `bytes` as a `serde_json::Value`,
/// carried over into a `JsonValue`; `None` where parsing fails.
pub uninterp spec fn json_document(bytes: Seq<u8>) -> Option<JsonValue>;

/// Calls `serde_json::from_slice::<serde_json::Value>`. The document is a
/// function of the bytes alone; the contract names it and says nothing more.
#[verifier::external_body]
pub(crate) fn parse_json(bytes: &[u8]) -> (r: Option<JsonValue>)
    ensures
        r == json_document(bytes@),
{
    serde_json::from_slice::<serde_json::Value>(bytes).ok().map(json_value_of)
}

/// `serde_json::Value`, the parser's own document type, carried through
/// `json_value_of` only.
#[verifier::external_type_specification]
#[verifier::external_body]
pub struct ExSerdeJsonValue(serde_json::Value);

/// Carries a `serde_json::Value` over into a `JsonValue`, variant by variant;
/// a number keeps its `as_u64` and `as_i64` readings.
#[verifier::external_body]
fn json_value_of(value: serde_json::Value) -> JsonValue {
    match value {
        serde_json::Value::Null => JsonValue::Null,
        serde_json::Value::Bool(b) => JsonValue::Bool(b),
        serde_json::Value::Number(n) => JsonValue::Number(
            JsonNumber { unsigned: n.as_u64(), signed: n.as_i64() },
        ),
        serde_json::Value::String(s) => JsonValue::String(s),
        serde_json::Value::Array(items) => JsonValue::Array(
            items.into_iter().map(json_value_of).collect(),
        ),
        serde_json::Value::Object(fields) => JsonValue::Object(
            fields.into_iter().map(|(k, v)| (k, json_value_of(v))).collect(),
        ),
    }
}

/// The value of the first field named `key`.
pub open spec fn json_field(fields: Seq<(String, JsonValue)>, key: Seq<char>) -> Option<JsonValue>
    decreases fields.len(),
{
    if fields.len() == 0 {
        None
    } else if fields[0].0@ == key {
        Some(fields[0].1)
    } else {
        json_field(fields.drop_first(), key)
    }
}

/// `serde_json::Value::get` with a string key: a field of an object, nothing
/// for any other value.
pub open spec fn json_get(value: Option<JsonValue>, key: Seq<char>) -> Option<JsonValue> {
    match value {
        Some(JsonValue::Object(fields)) => json_field(fields@, key),
        _ => None,
    }
}

pub open spec fn json_str(value: Option<JsonValue>) -> Option<Seq<char>> {
    match value {
        Some(JsonValue::String(s)) => Some(s@),
        _ => None,
    }
}

pub open spec fn json_u64(value: Option<JsonValue>) -> Option<u64> {
    match value {
        Some(JsonValue::Number(n)) => n.unsigned,
        _ => None,
    }
}

pub open spec fn json_i64(value: Option<JsonValue>) -> Option<i64> {
    match value {
        Some(JsonValue::Number(n)) => n.signed,
        _ => None,
    }
}

pub open spec fn ref_option(r: Option<&JsonValue>) -> Option<JsonValue> {
    match r {
        Some(v) => Some(*v),
        None => None,
    }
}

impl JsonValue {
    /// The field `key` of an object.
    pub fn get(&self, key: &str) -> (r: Option<&JsonValue>)
        ensures
            ref_option(r) == json_get(Some(*self), key@),
    {
        match self {
            JsonValue::Object(fields) => {
                assert(json_get(Some(*self), key@) == json_field(fields@, key@));
                let mut i: usize = 0;
                assert(fields@.skip(0) =~= fields@);
                while i < fields.len()
                    invariant
                        i <= fields@.len(),
                        json_get(Some(*self), key@) == json_field(fields@, key@),
                        json_field(fields@, key@) == json_field(fields@.skip(i as int), key@),
                    decreases fields@.len() - i,
                {
                    assert(fields@.skip(i as int)[0] == fields@[i as int]);
                    if string_eq_str(&fields[i].0, key) {
                        assert(json_field(fields@.skip(i as int), key@) == Some(fields@[i as int].1));
                        return Some(&fields[i].1);
                    }
                    assert(fields@.skip(i as int).drop_first() =~= fields@.skip(i + 1));
                    i = i + 1;
                }
                assert(fields@.skip(i as int) =~= Seq::<(String, JsonValue)>::empty());
                None
            },
            _ => None,
        }
    }

    /// The text of a string value.
    pub fn as_str(&self) -> (r: Option<&String>)
        ensures
            match r {
                Some(s) => json_str(Some(*self)) == Some(s@),
                None => json_str(Some(*self)) is None,
            },
    {
        match self {
            JsonValue::String(s) => Some(s),
            _ => None,
        }
    }

    /// The unsigned reading of a number.
    pub fn as_u64(&self) -> (r: Option<u64>)
        ensures
            r == json_u64(Some(*self)),
    {
        match self {
            JsonValue::Number(n) => n.unsigned,
            _ => None,
        }
    }

    /// The signed reading of a number.
    pub fn as_i64(&self) -> (r: Option<i64>)
        ensures
            r == json_i64(Some(*self)),
    {
        match self {
            JsonValue::Number(n) => n.signed,
            _ => None,
        }
    }
}

/// Field `key` of an optional value.
pub fn get_in<'a>(value: Option<&'a JsonValue>, key: &str) -> (r: Option<&'a JsonValue>)
    ensures
        ref_option(r) == json_get(ref_option(value), key@),
{
    match value {
        Some(v) => v.get(key),
        None => None,
    }
}

/// The text of an optional string value.
pub fn str_in(value: Option<&JsonValue>) -> (r: Option<&String>)
    ensures
        match r {
            Some(s) => json_str(ref_option(value)) == Some(s@),
            None => json_str(ref_option(value)) is None,
        },
{
    match value {
        Some(v) => v.as_str(),
        None => None,
    }
}

} // verus!
