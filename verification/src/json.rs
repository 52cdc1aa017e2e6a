//! A plain model of the JSON documents the daemon sends back over IPC.
//!
//! The tools only read these documents: they look fields up by name and take
//! a field as a string, a boolean, an unsigned or signed integer, or an
//! array. The model keeps exactly what those reads need.
use vstd::prelude::*;
use crate::text::str_eq;
use serde_json::Value as SerdeValue;

verus! {

/// A JSON number, held as the readings the tools take of it.
pub struct JsonNumber {
    /// The number as a `u64`, when it is a non-negative integer in range.
    pub as_u64: Option<u64>,
    /// The number as an `i64`, when it is an integer in range.
    pub as_i64: Option<i64>,
    /// The number read as an `f64` and converted to `u64` with Rust's
    /// saturating float-to-integer conversion (whole part, negatives to 0).
    pub as_f64_to_u64: Option<u64>,
    /// The number as `serde_json` writes it.
    pub text: String,
}

/// One `"key": value` member of a JSON object.
pub struct JsonField {
    pub key: String,
    pub value: JsonValue,
}

/// A JSON value.
pub enum JsonValue {
    Null,
    Bool(bool),
    Number(JsonNumber),
    Str(String),
    Array(Vec<JsonValue>),
    Object(Vec<JsonField>),
}

/// The first member of `fields` named `key`.
pub open spec fn lookup(fields: Seq<JsonField>, key: Seq<char>) -> Option<JsonValue>
    decreases fields.len(),
{
    if fields.len() == 0 {
        None
    } else if fields[0].key@ == key {
        Some(fields[0].value)
    } else {
        lookup(fields.drop_first(), key)
    }
}

/// `value.get(key)`: the member named `key` of an object; `None` for any
/// other kind of value.
pub open spec fn spec_get(v: JsonValue, key: Seq<char>) -> Option<JsonValue> {
    match v {
        JsonValue::Object(fields) => lookup(fields@, key),
        _ => None,
    }
}

/// `.and_then(|v| v.as_str())`.
pub open spec fn opt_str(v: Option<JsonValue>) -> Option<Seq<char>> {
    match v {
        Some(JsonValue::Str(s)) => Some(s@),
        _ => None,
    }
}

/// `.and_then(|v| v.as_u64())`.
pub open spec fn opt_u64(v: Option<JsonValue>) -> Option<u64> {
    match v {
        Some(JsonValue::Number(n)) => n.as_u64,
        _ => None,
    }
}

/// `.and_then(|v| v.as_i64())`.
pub open spec fn opt_i64(v: Option<JsonValue>) -> Option<i64> {
    match v {
        Some(JsonValue::Number(n)) => n.as_i64,
        _ => None,
    }
}

/// `.and_then(|v| v.as_f64()).map(|f| f as u64)`.
pub open spec fn opt_f64_to_u64(v: Option<JsonValue>) -> Option<u64> {
    match v {
        Some(JsonValue::Number(n)) => n.as_f64_to_u64,
        _ => None,
    }
}

/// `.and_then(|v| v.as_bool())`.
pub open spec fn opt_bool(v: Option<JsonValue>) -> Option<bool> {
    match v {
        Some(JsonValue::Bool(b)) => Some(b),
        _ => None,
    }
}

/// `.and_then(|v| v.as_array())`.
pub open spec fn opt_array(v: Option<JsonValue>) -> Option<Seq<JsonValue>> {
    match v {
        Some(JsonValue::Array(a)) => Some(a@),
        _ => None,
    }
}

/// `value.get(key).and_then(|v| v.as_str())`.
pub open spec fn str_field(v: JsonValue, key: Seq<char>) -> Option<Seq<char>> {
    opt_str(spec_get(v, key))
}

/// `value.get(key).and_then(|v| v.as_u64())`.
pub open spec fn u64_field(v: JsonValue, key: Seq<char>) -> Option<u64> {
    opt_u64(spec_get(v, key))
}

/// `value.get(key).and_then(|v| v.as_i64())`.
pub open spec fn i64_field(v: JsonValue, key: Seq<char>) -> Option<i64> {
    opt_i64(spec_get(v, key))
}

/// `value.get(key).and_then(|v| v.as_bool())`.
pub open spec fn bool_field(v: JsonValue, key: Seq<char>) -> Option<bool> {
    opt_bool(spec_get(v, key))
}

impl JsonValue {
    /// `value.get(key)`.
    pub fn get(&self, key: &str) -> (r: Option<&JsonValue>)
        ensures
            match r {
                Some(v) => spec_get(*self, key@) == Some(*v),
                None => spec_get(*self, key@) is None,
            },
    {
        match self {
            JsonValue::Object(fields) => {
                let n = fields.len();
                let mut i: usize = 0;
                proof {
                    assert(fields@.skip(0) =~= fields@);
                }
                while i < n
                    invariant
                        n == fields@.len(),
                        i <= n,
                        spec_get(*self, key@) == lookup(fields@, key@),
                        lookup(fields@, key@) == lookup(fields@.skip(i as int), key@),
                    decreases n - i,
                {
                    proof {
                        assert(fields@.skip(i as int).drop_first() =~= fields@.skip(i + 1));
                        assert(fields@.skip(i as int)[0] == fields@[i as int]);
                    }
                    if str_eq(fields[i].key.as_str(), key) {
                        proof {
                            assert(fields@.skip(i as int).len() > 0);
                            assert(lookup(fields@.skip(i as int), key@) == Some(fields@[i as int].value));
                        }
                        return Some(&fields[i].value);
                    }
                    i = i + 1;
                }
                None
            },
            _ => None,
        }
    }

    /// `value.as_str()`.
    pub fn as_str(&self) -> (r: Option<&str>)
        ensures
            match r {
                Some(s) => opt_str(Some(*self)) == Some(s@),
                None => opt_str(Some(*self)) is None,
            },
    {
        match self {
            JsonValue::Str(s) => Some(s.as_str()),
            _ => None,
        }
    }

    /// `value.as_u64()`.
    pub fn as_u64(&self) -> (r: Option<u64>)
        ensures
            r == opt_u64(Some(*self)),
    {
        match self {
            JsonValue::Number(n) => n.as_u64,
            _ => None,
        }
    }

    /// `value.as_i64()`.
    pub fn as_i64(&self) -> (r: Option<i64>)
        ensures
            r == opt_i64(Some(*self)),
    {
        match self {
            JsonValue::Number(n) => n.as_i64,
            _ => None,
        }
    }

    /// `value.as_bool()`.
    pub fn as_bool(&self) -> (r: Option<bool>)
        ensures
            r == opt_bool(Some(*self)),
    {
        match self {
            JsonValue::Bool(b) => Some(*b),
            _ => None,
        }
    }

    /// `value.as_array()`.
    pub fn as_array(&self) -> (r: Option<&Vec<JsonValue>>)
        ensures
            match r {
                Some(a) => opt_array(Some(*self)) == Some(a@),
                None => opt_array(Some(*self)) is None,
            },
    {
        match self {
            JsonValue::Array(a) => Some(a),
            _ => None,
        }
    }

    /// `value.get(key).and_then(|v| v.as_str())`.
    pub fn get_str(&self, key: &str) -> (r: Option<&str>)
        ensures
            match r {
                Some(s) => str_field(*self, key@) == Some(s@),
                None => str_field(*self, key@) is None,
            },
    {
        match self.get(key) {
            Some(v) => v.as_str(),
            None => None,
        }
    }

    /// `value.get(key).and_then(|v| v.as_u64())`.
    pub fn get_u64(&self, key: &str) -> (r: Option<u64>)
        ensures
            r == u64_field(*self, key@),
    {
        match self.get(key) {
            Some(v) => v.as_u64(),
            None => None,
        }
    }

    /// `value.get(key).and_then(|v| v.as_i64())`.
    pub fn get_i64(&self, key: &str) -> (r: Option<i64>)
        ensures
            r == i64_field(*self, key@),
    {
        match self.get(key) {
            Some(v) => v.as_i64(),
            None => None,
        }
    }

    /// `value.get(key).and_then(|v| v.as_bool())`.
    pub fn get_bool(&self, key: &str) -> (r: Option<bool>)
        ensures
            r == bool_field(*self, key@),
    {
        match self.get(key) {
            Some(v) => v.as_bool(),
            None => None,
        }
    }
}

// ───────────────────────────── reading JSON text ─────────────────────────────

/// The value type of `serde_json`, carried only through the conversion
/// below.
#[verifier::external_type_specification]
#[verifier::external_body]
pub struct ExSerdeJsonValue(serde_json::Value);

/// What `serde_json::from_str::<serde_json::Value>` makes of a text, as this
/// model: the value, or the text of the parser's error.
pub uninterp spec fn json_text_value(text: Seq<char>) -> Result<JsonValue, Seq<char>>;

/// A `serde_json` value as this model, one variant for another: each number
/// as its `as_u64`, `as_i64` and `as_f64` readings (the last cast to `u64`),
/// each string, array item and object member carried over in order. Nothing
/// is stated of it; `parse_json_text` states the composite.
#[verifier::external_body]
fn json_model(v: &SerdeValue) -> JsonValue {
    match v {
        SerdeValue::Null => JsonValue::Null,
        SerdeValue::Bool(b) => JsonValue::Bool(*b),
        SerdeValue::Number(n) => JsonValue::Number(
            JsonNumber { as_u64: n.as_u64(), as_i64: n.as_i64(), as_f64_to_u64: n.as_f64().map(|f| f as u64), text: n.to_string() },
        ),
        SerdeValue::String(s) => JsonValue::Str(s.clone()),
        SerdeValue::Array(a) => JsonValue::Array(a.iter().map(json_model).collect()),
        SerdeValue::Object(m) => JsonValue::Object(m.iter().map(|(k, x)| JsonField { key: k.clone(), value: json_model(x) }).collect()),
    }
}

/// `serde_json::from_str::<serde_json::Value>(text)`: the value read from
/// the text, as this model, or the parser's error message. Which texts are
/// JSON, and what they hold, is the name `json_text_value`; the result
/// depends on the text alone.
#[verifier::external_body]
pub(crate) fn parse_json_text(text: &str) -> (r: Result<JsonValue, String>)
    ensures
        match r {
            Ok(v) => json_text_value(text@) == Ok::<JsonValue, Seq<char>>(v),
            Err(e) => json_text_value(text@) == Err::<JsonValue, Seq<char>>(e@),
        },
{
    match serde_json::from_str::<serde_json::Value>(text) {
        Ok(v) => Ok(json_model(&v)),
        Err(e) => Err(e.to_string()),
    }
}

} // verus!
