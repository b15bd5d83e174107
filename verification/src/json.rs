//! A JSON document as plain values, and the lookups the validators make.
use serde_json::Value;
use vstd::prelude::*;
use crate::text::str_eq;

verus! {

/// A JSON value. A number is kept as its JSON text; an object keeps its
/// members in order.
#[derive(Debug)]
pub enum JsonValue {
    Null,
    Bool(bool),
    Number(String),
    Str(String),
    Array(Vec<JsonValue>),
    Object(Vec<(String, JsonValue)>),
}

/// `k` is the first member of `entries` named `key`.
pub open spec fn first_member(entries: Seq<(String, JsonValue)>, key: Seq<char>, k: int) -> bool {
    &&& 0 <= k < entries.len()
    &&& entries[k].0@ == key
    &&& forall|k2: int| 0 <= k2 < k ==> #[trigger] entries[k2].0@ != key
}

/// The value of the first member named `key`, if there is one.
pub open spec fn member(entries: Seq<(String, JsonValue)>, key: Seq<char>) -> Option<JsonValue> {
    if exists|k: int| #[trigger] first_member(entries, key, k) {
        Some(entries[choose|k: int| #[trigger] first_member(entries, key, k)].1)
    } else {
        None
    }
}

/// Two first members of one name are one member.
proof fn lemma_first_member_unique(entries: Seq<(String, JsonValue)>, key: Seq<char>, a: int, b: int)
    requires
        first_member(entries, key, a),
        first_member(entries, key, b),
    ensures
        a == b,
{
    if a < b {
        assert(entries[a].0@ != key);
    } else if b < a {
        assert(entries[b].0@ != key);
    }
}

impl JsonValue {
    /// The member `key` of an object; nothing for any other value.
    pub open spec fn get_spec(self, key: Seq<char>) -> Option<JsonValue> {
        match self {
            JsonValue::Object(entries) => member(entries@, key),
            _ => None,
        }
    }

    /// The text of member `key` where it is a string.
    pub open spec fn str_member(self, key: Seq<char>) -> Option<Seq<char>> {
        match self.get_spec(key) {
            Some(JsonValue::Str(s)) => Some(s@),
            _ => None,
        }
    }

    /// The items of member `key` where it is an array.
    pub open spec fn array_member(self, key: Seq<char>) -> Option<Seq<JsonValue>> {
        match self.get_spec(key) {
            Some(JsonValue::Array(items)) => Some(items@),
            _ => None,
        }
    }

    /// Member `key` of an object (`Value::get` with a key).
    pub fn get(&self, key: &str) -> (r: Option<&JsonValue>)
        ensures
            match r {
                Some(v) => self.get_spec(key@) == Some(*v),
                None => self.get_spec(key@) is None,
            },
    {
        match self {
            JsonValue::Object(entries) => {
                let n = entries.len();
                let mut k: usize = 0;
                while k < n
                    invariant
                        n == entries@.len(),
                        k <= n,
                        self.get_spec(key@) == member(entries@, key@),
                        forall|k2: int| 0 <= k2 < k ==> #[trigger] entries@[k2].0@ != key@,
                    decreases n - k,
                {
                    if str_eq(entries[k].0.as_str(), key) {
                        proof {
                            assert(first_member(entries@, key@, k as int));
                            let c = choose|c: int| #[trigger] first_member(entries@, key@, c);
                            lemma_first_member_unique(entries@, key@, c, k as int);
                            assert(member(entries@, key@) == Some(entries@[k as int].1));
                        }
                        return Some(&entries[k].1);
                    }
                    k = k + 1;
                }
                proof {
                    assert forall|c: int| !#[trigger] first_member(entries@, key@, c) by {
                        if 0 <= c < n {
                            assert(entries@[c].0@ != key@);
                        }
                    }
                }
                None
            },
            _ => None,
        }
    }

    /// The text of member `key` where it is a string
    /// (`get(key).and_then(Value::as_str)`).
    pub fn get_str(&self, key: &str) -> (r: Option<&str>)
        ensures
            match r {
                Some(s) => self.str_member(key@) == Some(s@),
                None => self.str_member(key@) is None,
            },
    {
        match self.get(key) {
            Some(JsonValue::Str(s)) => Some(s.as_str()),
            _ => None,
        }
    }

    /// The items of member `key` where it is an array
    /// (`get(key).and_then(Value::as_array)`).
    pub fn get_array(&self, key: &str) -> (r: Option<&Vec<JsonValue>>)
        ensures
            match r {
                Some(items) => self.array_member(key@) == Some(items@),
                None => self.array_member(key@) is None,
            },
    {
        match self.get(key) {
            Some(JsonValue::Array(items)) => Some(items),
            _ => None,
        }
    }
}

#[verifier::external_type_specification]
#[verifier::external_body]
pub struct ExSerdeJsonValue(serde_json::Value);

/// What `serde_json::from_str::<serde_json::Value>` yields for `text`,
/// carried over into [`JsonValue`] member for member (numbers as their JSON
/// text, object members in `serde_json`'s order), or the parser's message.
pub uninterp spec fn json_text_parse(text: Seq<char>) -> Result<JsonValue, Seq<char>>;

/// The compact JSON text `serde_json` writes for `v` once carried over into
/// a `serde_json::Value` (a number whose text is not a JSON number becomes
/// `null`).
pub uninterp spec fn json_text_render(v: JsonValue) -> Seq<char>;

/// A `serde_json::Value` carried over into [`JsonValue`], variant for
/// variant; numbers keep their JSON text. Conversion only, for the two
/// wrappers below.
#[verifier::external_body]
fn from_serde(v: Value) -> JsonValue {
    match v {
        Value::Null => JsonValue::Null,
        Value::Bool(b) => JsonValue::Bool(b),
        Value::Number(n) => JsonValue::Number(n.to_string()),
        Value::String(s) => JsonValue::Str(s),
        Value::Array(items) => JsonValue::Array(items.into_iter().map(from_serde).collect()),
        Value::Object(m) => JsonValue::Object(m.into_iter().map(|(k, v)| (k, from_serde(v))).collect()),
    }
}

/// A [`JsonValue`] carried over into a `serde_json::Value`, variant for
/// variant; a number's text is read back with `serde_json`, and one that is
/// not a JSON number becomes `null`. Conversion only, for the wrappers below.
#[verifier::external_body]
fn to_serde(v: &JsonValue) -> Value {
    match v {
        JsonValue::Null => Value::Null,
        JsonValue::Bool(b) => Value::Bool(*b),
        JsonValue::Number(t) => serde_json::from_str(t).map_or(Value::Null, Value::Number),
        JsonValue::Str(s) => Value::String(s.clone()),
        JsonValue::Array(items) => Value::Array(items.iter().map(to_serde).collect()),
        JsonValue::Object(m) => Value::Object(m.iter().map(|(k, v)| (k.clone(), to_serde(v))).collect()),
    }
}

/// A parse outcome with its error message by its view.
pub open spec fn json_result_view(r: Result<JsonValue, String>) -> Result<JsonValue, Seq<char>> {
    match r {
        Ok(v) => Ok(v),
        Err(m) => Err(m@),
    }
}

/// `serde_json::from_str::<serde_json::Value>`, carried over into
/// [`JsonValue`]; the error becomes its message.
///
/// Trusted: the outcome is named by [`json_text_parse`], a function of the
/// text; the JSON grammar is not stated.
#[verifier::external_body]
pub(crate) fn parse_json(text: &str) -> (r: Result<JsonValue, String>)
    ensures
        json_result_view(r) == json_text_parse(text@),
{
    serde_json::from_str::<Value>(text).map(from_serde).map_err(|e| e.to_string())
}

/// `serde_json::Value`'s compact serialization (`to_string`) of `v`.
///
/// Trusted: the text is named by [`json_text_render`], a function of the
/// value; the serialization rules are not stated.
#[verifier::external_body]
pub(crate) fn render_json(v: &JsonValue) -> (r: String)
    ensures
        r@ == json_text_render(*v),
{
    to_serde(v).to_string()
}

} // verus!
