use vstd::prelude::*;
use crate::text::{str_eq, trim, trimmed};

verus! {

/// A JSON document as the session logic reads it.
pub enum JsonValue {
    Null,
    Bool(bool),
    /// The number's value when it is a non-negative integer that fits in a `u64`;
    /// `None` for every other number (negative, fractional, or too large).
    Number(Option<u64>),
    Str(String),
    Array(Vec<JsonValue>),
    Object(Vec<(String, JsonValue)>),
}

/// The value stored under `key` in the first member of `members` named `key`.
pub open spec fn member_lookup(members: Seq<(String, JsonValue)>, key: Seq<char>) -> Option<JsonValue>
    decreases members.len(),
{
    if members.len() == 0 {
        None
    } else if members[0].0@ == key {
        Some(members[0].1)
    } else {
        member_lookup(members.drop_first(), key)
    }
}

impl JsonValue {
    /// `v.get(key)`: the member named `key` of an object; `None` for non-objects.
    pub open spec fn spec_get(self, key: Seq<char>) -> Option<JsonValue> {
        match self {
            JsonValue::Object(members) => member_lookup(members@, key),
            _ => None,
        }
    }

    pub fn get(&self, key: &str) -> (r: Option<&JsonValue>)
        ensures
            match r {
                Some(x) => self.spec_get(key@) == Some(*x),
                None => self.spec_get(key@) is None,
            },
    {
        match self {
            JsonValue::Object(members) => {
                let mut i: usize = 0;
                assert(members@.skip(0) =~= members@);
                while i < members.len()
                    invariant
                        0 <= i <= members.len(),
                        self.spec_get(key@) == member_lookup(members@, key@),
                        member_lookup(members@, key@) == member_lookup(members@.skip(i as int), key@),
                    decreases members.len() - i,
                {
                    assert(members@.skip(i as int).drop_first() =~= members@.skip(i + 1));
                    if str_eq(members[i].0.as_str(), key) {
                        assert(members@.skip(i as int)[0] == members@[i as int]);
                        return Some(&members[i].1);
                    }
                    i = i + 1;
                }
                None
            },
            _ => None,
        }
    }
}


impl JsonValue {
    pub open spec fn spec_as_str(self) -> Option<Seq<char>> {
        match self {
            JsonValue::Str(s) => Some(s@),
            _ => None,
        }
    }

    pub open spec fn spec_as_u64(self) -> Option<u64> {
        match self {
            JsonValue::Number(n) => n,
            _ => None,
        }
    }

    pub open spec fn spec_as_bool(self) -> Option<bool> {
        match self {
            JsonValue::Bool(b) => Some(b),
            _ => None,
        }
    }

    pub open spec fn spec_as_array(self) -> Option<Seq<JsonValue>> {
        match self {
            JsonValue::Array(a) => Some(a@),
            _ => None,
        }
    }

    /// `Value::as_str`.
    pub fn as_str(&self) -> (r: Option<&str>)
        ensures
            match r {
                Some(x) => self.spec_as_str() == Some(x@),
                None => self.spec_as_str() is None,
            },
    {
        match self {
            JsonValue::Str(s) => Some(s.as_str()),
            _ => None,
        }
    }

    /// `Value::as_u64`.
    pub fn as_u64(&self) -> (r: Option<u64>)
        ensures
            r == self.spec_as_u64(),
    {
        match self {
            JsonValue::Number(n) => *n,
            _ => None,
        }
    }

    /// `Value::as_bool`.
    pub fn as_bool(&self) -> (r: Option<bool>)
        ensures
            r == self.spec_as_bool(),
    {
        match self {
            JsonValue::Bool(b) => Some(*b),
            _ => None,
        }
    }

    /// `Value::as_array`.
    pub fn as_array(&self) -> (r: Option<&Vec<JsonValue>>)
        ensures
            match r {
                Some(a) => self.spec_as_array() == Some(a@),
                None => self.spec_as_array() is None,
            },
    {
        match self {
            JsonValue::Array(a) => Some(a),
            _ => None,
        }
    }

    /// `Value::is_string`.
    pub fn is_string(&self) -> (r: bool)
        ensures
            r == (self.spec_as_str() is Some),
    {
        match self {
            JsonValue::Str(_) => true,
            _ => false,
        }
    }

    /// `Value::is_array`.
    pub fn is_array(&self) -> (r: bool)
        ensures
            r == (self.spec_as_array() is Some),
    {
        match self {
            JsonValue::Array(_) => true,
            _ => false,
        }
    }
}

/// The member `key` of `v`, when `v` is present.
pub open spec fn get_in(v: Option<JsonValue>, key: Seq<char>) -> Option<JsonValue> {
    match v {
        Some(x) => x.spec_get(key),
        None => None,
    }
}

/// The string under `key`, when there is one.
pub open spec fn str_in(v: Option<JsonValue>, key: Seq<char>) -> Option<Seq<char>> {
    match get_in(v, key) {
        Some(x) => x.spec_as_str(),
        None => None,
    }
}

/// The boolean under `key`, when there is one.
pub open spec fn bool_in(v: Option<JsonValue>, key: Seq<char>) -> Option<bool> {
    match get_in(v, key) {
        Some(x) => x.spec_as_bool(),
        None => None,
    }
}

/// The non-negative integer under `key`, when there is one.
pub open spec fn u64_in(v: Option<JsonValue>, key: Seq<char>) -> Option<u64> {
    match get_in(v, key) {
        Some(x) => x.spec_as_u64(),
        None => None,
    }
}

/// `v.get(key).and_then(Value::as_str)`.
pub fn get_str<'a>(v: &'a JsonValue, key: &str) -> (r: Option<&'a str>)
    ensures
        match r {
            Some(x) => str_in(Some(*v), key@) == Some(x@),
            None => str_in(Some(*v), key@) is None,
        },
{
    match v.get(key) {
        Some(x) => x.as_str(),
        None => None,
    }
}

/// `v.get(key).and_then(Value::as_bool)`.
pub fn get_bool(v: &JsonValue, key: &str) -> (r: Option<bool>)
    ensures
        r == bool_in(Some(*v), key@),
{
    match v.get(key) {
        Some(x) => x.as_bool(),
        None => None,
    }
}

/// `v.get(key).and_then(Value::as_u64)`.
pub fn get_u64(v: &JsonValue, key: &str) -> (r: Option<u64>)
    ensures
        r == u64_in(Some(*v), key@),
{
    match v.get(key) {
        Some(x) => x.as_u64(),
        None => None,
    }
}

// ── Reading JSON text ───────────────────────────────────────────────────────

#[verifier::external_type_specification]
#[verifier::external_body]
pub struct ExSerdeValue(serde_json::Value);

/// The document that serde_json reads from `text`, in the library's model;
/// `None` when serde_json rejects the text.
pub uninterp spec fn json_of_text(text: Seq<char>) -> Option<JsonValue>;

/// The library's model of a serde_json document, one variant for another.
///
/// Trusted: a conversion of `serde_json::Value` (numbers through
/// `Number::as_u64`); it is only called from `parse_json`, whose contract
/// covers the two together.
#[verifier::external_body]
fn model_of_value(v: &serde_json::Value) -> JsonValue {
    match v {
        serde_json::Value::Null => JsonValue::Null,
        serde_json::Value::Bool(b) => JsonValue::Bool(*b),
        serde_json::Value::Number(n) => JsonValue::Number(n.as_u64()),
        serde_json::Value::String(s) => JsonValue::Str(s.clone()),
        serde_json::Value::Array(a) => JsonValue::Array(a.iter().map(model_of_value).collect()),
        serde_json::Value::Object(m) => JsonValue::Object(m.iter().map(|(k, x)| (k.clone(), model_of_value(x))).collect()),
    }
}

/// Parses JSON text.
///
/// Trusted: calls `serde_json::from_str::<serde_json::Value>` and converts the
/// document into a `JsonValue`. The contract names the result: it is a
/// function of the text alone (`json_of_text`), `Ok` exactly when serde_json
/// accepts the text; the error carries serde_json's message.
#[verifier::external_body]
pub(crate) fn parse_json(text: &str) -> (r: Result<JsonValue, String>)
    ensures
        r is Ok <==> json_of_text(text@) is Some,
        r matches Ok(v) ==> json_of_text(text@) == Some(v),
{
    match serde_json::from_str::<serde_json::Value>(text) {
        Ok(v) => Ok(model_of_value(&v)),
        Err(e) => Err(e.to_string()),
    }
}

/// The document of a transcript line: the line without surrounding white
/// space, parsed; `None` for a blank line or one that is not JSON.
pub open spec fn line_json(line: Seq<char>) -> Option<JsonValue> {
    if trim(line).len() == 0 {
        None
    } else {
        json_of_text(trim(line))
    }
}

/// What reading a transcript line gives: the document, or nothing for a blank
/// line, or serde_json's message for a line that is not JSON.
pub enum LineRead {
    Blank,
    Json(JsonValue),
    Invalid(String),
}

/// Reads one transcript line (see `line_json`).
pub fn read_line(line: &str) -> (r: LineRead)
    ensures
        trim(line@).len() == 0 <==> r is Blank,
        r is Invalid <==> (trim(line@).len() > 0 && json_of_text(trim(line@)) is None),
        line_json(line@) matches Some(v) ==> r == LineRead::Json(v),
        r matches LineRead::Json(v) ==> line_json(line@) == Some(v),
{
    let t = trimmed(line);
    if t.as_str().is_empty() {
        return LineRead::Blank;
    }
    match parse_json(t.as_str()) {
        Ok(v) => LineRead::Json(v),
        Err(e) => LineRead::Invalid(e),
    }
}

} // verus!
