use vstd::prelude::*;
use crate::text::str_eq;

verus! {

/// A JSON document as the library reads it. Numbers are kept without their
/// value, since nothing here reads one.
pub enum JsonValue {
    Null,
    Bool(bool),
    Number,
    Str(String),
    Array(Vec<JsonValue>),
    Object(Vec<(String, JsonValue)>),
}

/// The value that `serde_json::from_str::<serde_json::Value>` reads from a
/// text, or `None` where it reports an error.
pub uninterp spec fn json_parse(text: Seq<char>) -> Option<JsonValue>;

#[verifier::external_type_specification]
#[verifier::external_body]
pub struct ExJsonDocument(serde_json::Value);

/// Converts a `serde_json::Value`, variant by variant, into the library's
/// `JsonValue` (a number loses its value). Nothing is stated of it.
#[verifier::external_body]
fn json_from_serde(v: &serde_json::Value) -> JsonValue {
    match v {
        serde_json::Value::Null => JsonValue::Null,
        serde_json::Value::Bool(b) => JsonValue::Bool(*b),
        serde_json::Value::Number(_) => JsonValue::Number,
        serde_json::Value::String(s) => JsonValue::Str(s.clone()),
        serde_json::Value::Array(a) => JsonValue::Array(a.iter().map(json_from_serde).collect()),
        serde_json::Value::Object(o) => JsonValue::Object(
            o.iter().map(|(k, x)| (k.clone(), json_from_serde(x))).collect(),
        ),
    }
}

/// Calls `serde_json::from_str` for a `serde_json::Value`; the document read
/// is named `json_parse` of the text, `None` standing for a parse error.
#[verifier::external_body]
pub fn parse_json(text: &str) -> (r: Option<JsonValue>)
    ensures
        r == json_parse(text@),
{
    serde_json::from_str::<serde_json::Value>(text).ok().map(|v| json_from_serde(&v))
}

/// The first entry of `entries`, from position `i` on, whose key is `key`.
pub open spec fn lookup_from(entries: Seq<(String, JsonValue)>, key: Seq<char>, i: int) -> JsonValue
    decreases entries.len() - i,
{
    if i < 0 || i >= entries.len() {
        JsonValue::Null
    } else if entries[i].0@ == key {
        entries[i].1
    } else {
        lookup_from(entries, key, i + 1)
    }
}

/// `v[key]`: the member named `key` of an object, `Null` otherwise.
pub open spec fn json_member(v: JsonValue, key: Seq<char>) -> JsonValue {
    match v {
        JsonValue::Object(entries) => lookup_from(entries@, key, 0),
        _ => JsonValue::Null,
    }
}

/// `v[i]`: the element at `i` of an array, `Null` otherwise.
pub open spec fn json_element(v: JsonValue, i: int) -> JsonValue {
    match v {
        JsonValue::Array(items) => if 0 <= i < items@.len() {
            items@[i]
        } else {
            JsonValue::Null
        },
        _ => JsonValue::Null,
    }
}

/// The text of a JSON string, `None` for any other value.
pub open spec fn json_text(v: JsonValue) -> Option<Seq<char>> {
    match v {
        JsonValue::Str(s) => Some(s@),
        _ => None,
    }
}

impl JsonValue {
    /// Whether the value is an array.
    pub fn is_array(&self) -> (b: bool)
        ensures
            b == (*self is Array),
    {
        match self {
            JsonValue::Array(_) => true,
            _ => false,
        }
    }

    /// The member named `key`; `None` stands for `Null`.
    pub fn member(&self, key: &str) -> (r: Option<&JsonValue>)
        ensures
            match r {
                Some(x) => *x == json_member(*self, key@),
                None => json_member(*self, key@) == JsonValue::Null,
            },
    {
        match self {
            JsonValue::Object(entries) => {
                let n = entries.len();
                assert(json_member(*self, key@) == lookup_from(entries@, key@, 0));
                let mut i: usize = 0;
                while i < n
                    invariant
                        n == entries@.len(),
                        i <= n,
                        json_member(*self, key@) == lookup_from(entries@, key@, i as int),
                    decreases n - i,
                {
                    if str_eq(entries[i].0.as_str(), key) {
                        assert(lookup_from(entries@, key@, i as int) == entries@[i as int].1);
                        return Some(&entries[i].1);
                    }
                    i += 1;
                }
                None
            },
            _ => None,
        }
    }

    /// The element at `i`; `None` stands for `Null`.
    pub fn element(&self, i: usize) -> (r: Option<&JsonValue>)
        ensures
            match r {
                Some(x) => *x == json_element(*self, i as int),
                None => json_element(*self, i as int) == JsonValue::Null,
            },
    {
        match self {
            JsonValue::Array(items) => if i < items.len() {
                Some(&items[i])
            } else {
                None
            },
            _ => None,
        }
    }

    /// The text of a string value.
    pub fn as_str(&self) -> (r: Option<&str>)
        ensures
            match r {
                Some(s) => json_text(*self) == Some(s@),
                None => json_text(*self) is None,
            },
    {
        match self {
            JsonValue::Str(s) => Some(s.as_str()),
            _ => None,
        }
    }
}

} // verus!
