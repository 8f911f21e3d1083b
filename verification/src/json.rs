//! JSON values as the library reads them, and the parsers that produce them.
use vstd::prelude::*;

use crate::text::string_from;

verus! {

/// A JSON value. A number that is a non-negative integer within `u64` keeps its value,
/// those are the only numbers the library reads; any other number keeps its JSON text. An
/// object keeps its members in order.
#[derive(Debug)]
pub enum Json {
    Null,
    Bool(bool),
    Number(Option<u64>),
    Numeral(String),
    Str(String),
    Array(Vec<Json>),
    Object(Vec<(String, Json)>),
}

/// The value of the first member named `key` among `fs`.
pub open spec fn field_in(fs: Seq<(String, Json)>, key: Seq<char>) -> Option<Json>
    decreases fs.len(),
{
    if fs.len() == 0 {
        None
    } else if fs[0].0@ == key {
        Some(fs[0].1)
    } else {
        field_in(fs.drop_first(), key)
    }
}

/// The member `key` of an object; nothing for other values.
pub open spec fn field(j: Json, key: Seq<char>) -> Option<Json> {
    match j {
        Json::Object(fs) => field_in(fs@, key),
        _ => None,
    }
}

/// The member `key` of a value that may be missing.
pub open spec fn field_of(j: Option<Json>, key: Seq<char>) -> Option<Json> {
    match j {
        Some(v) => field(v, key),
        None => None,
    }
}

/// The text of a string value.
pub open spec fn text_of(j: Option<Json>) -> Option<Seq<char>> {
    match j {
        Some(Json::Str(s)) => Some(s@),
        _ => None,
    }
}

/// The value of a number that is a non-negative integer within `u64`.
pub open spec fn count_of(j: Option<Json>) -> Option<u64> {
    match j {
        Some(Json::Number(n)) => n,
        _ => None,
    }
}

/// The value of a boolean.
pub open spec fn flag_of(j: Option<Json>) -> Option<bool> {
    match j {
        Some(Json::Bool(b)) => Some(b),
        _ => None,
    }
}

/// The items of an array.
pub open spec fn items_of(j: Option<Json>) -> Option<Seq<Json>> {
    match j {
        Some(Json::Array(v)) => Some(v@),
        _ => None,
    }
}

/// A borrowed value that may be missing, as a value.
pub open spec fn deref_json(o: Option<&Json>) -> Option<Json> {
    match o {
        Some(x) => Some(*x),
        None => None,
    }
}

/// Whether a borrowed value that may be missing is the value `j`.
pub open spec fn same_json(r: Option<&Json>, j: Option<Json>) -> bool {
    match r {
        Some(x) => j == Some(*x),
        None => j is None,
    }
}

impl Json {
    /// The member `key` of an object.
    pub fn get(&self, key: &str) -> (r: Option<&Json>)
        ensures
            same_json(r, field(*self, key@)),
    {
        match self {
            Json::Object(fs) => {
                let mut i: usize = 0;
                assert(field(*self, key@) == field_in(fs@, key@));
                assert(fs@.subrange(0, fs@.len() as int) =~= fs@);
                while i < fs.len()
                    invariant
                        i <= fs.len(),
                        field(*self, key@) == field_in(fs@, key@),
                        field_in(fs@, key@) == field_in(fs@.subrange(i as int, fs@.len() as int), key@),
                    decreases fs.len() - i,
                {
                    let ghost rest = fs@.subrange(i as int, fs@.len() as int);
                    assert(rest.drop_first() =~= fs@.subrange(i + 1, fs@.len() as int));
                    assert(rest[0] == fs@[i as int]);
                    if crate::text::str_eq(fs[i].0.as_str(), key) {
                        assert(field_in(rest, key@) == Some(fs@[i as int].1));
                        return Some(&fs[i].1);
                    }
                    i += 1;
                }
                assert(fs@.subrange(i as int, fs@.len() as int).len() == 0);
                None
            },
            _ => None,
        }
    }

    /// The text of a string value.
    pub fn as_str(&self) -> (r: Option<&str>)
        ensures
            match r {
                Some(s) => text_of(Some(*self)) == Some(s@),
                None => text_of(Some(*self)) is None,
            },
    {
        match self {
            Json::Str(s) => Some(s.as_str()),
            _ => None,
        }
    }

    /// The value of a number that is a non-negative integer within `u64`.
    pub fn as_u64(&self) -> (r: Option<u64>)
        ensures
            r == count_of(Some(*self)),
    {
        match self {
            Json::Number(n) => *n,
            _ => None,
        }
    }

    /// The value of a boolean.
    pub fn as_bool(&self) -> (r: Option<bool>)
        ensures
            r == flag_of(Some(*self)),
    {
        match self {
            Json::Bool(b) => Some(*b),
            _ => None,
        }
    }

    /// The items of an array.
    pub fn as_array(&self) -> (r: Option<&Vec<Json>>)
        ensures
            match r {
                Some(v) => items_of(Some(*self)) == Some(v@),
                None => items_of(Some(*self)) is None,
            },
    {
        match self {
            Json::Array(v) => Some(v),
            _ => None,
        }
    }
}

/// The text of the member `key`, when it is a string.
pub fn str_field(j: &Json, key: &str) -> (r: Option<String>)
    ensures
        crate::config::opt_text(r) == text_of(field(*j, key@)),
{
    match j.get(key) {
        Some(v) => match v.as_str() {
            Some(s) => Some(string_from(s)),
            None => None,
        },
        None => None,
    }
}

/// The text of the member `key` when it is a string, else `default`.
pub fn str_field_or(j: &Json, key: &str, default: &str) -> (r: String)
    ensures
        r@ == (match text_of(field(*j, key@)) {
            Some(s) => s,
            None => default@,
        }),
{
    match str_field(j, key) {
        Some(s) => s,
        None => string_from(default),
    }
}

/// The value `serde_json` parses from a text, when the text is valid JSON.
pub uninterp spec fn json_text_parse(text: Seq<char>) -> Option<Json>;

/// The value `serde_json` parses from bytes, when they are valid UTF-8 JSON.
pub uninterp spec fn json_bytes_parse(bytes: Seq<u8>) -> Option<Json>;

/// A value parsed by `serde_json`, carried through the conversion below.
#[verifier::external_type_specification]
#[verifier::external_body]
pub struct ExJsonValue(serde_json::Value);

/// Converts a parsed `serde_json::Value` one for one: each variant to its counterpart,
/// a number to its `as_u64` or else its text, members in the map's order.
#[verifier::external_body]
fn json_of_value(v: &serde_json::Value) -> Json {
    match v {
        serde_json::Value::Null => Json::Null,
        serde_json::Value::Bool(b) => Json::Bool(*b),
        serde_json::Value::Number(n) => match n.as_u64() {
            Some(u) => Json::Number(Some(u)),
            None => Json::Numeral(n.to_string()),
        },
        serde_json::Value::String(s) => Json::Str(s.clone()),
        serde_json::Value::Array(a) => Json::Array(a.iter().map(json_of_value).collect()),
        serde_json::Value::Object(o) => Json::Object(
            o.iter().map(|(k, x)| (k.clone(), json_of_value(x))).collect(),
        ),
    }
}

/// Parses a text with `serde_json::from_str` into a `serde_json::Value`: `None` when the
/// text is not valid JSON. The result is named, not described.
#[verifier::external_body]
pub(crate) fn parse_json(text: &str) -> (r: Option<Json>)
    ensures
        r == json_text_parse(text@),
{
    match serde_json::from_str::<serde_json::Value>(text) {
        Ok(v) => Some(json_of_value(&v)),
        Err(_) => None,
    }
}

/// Parses bytes with `serde_json::from_slice` into a `serde_json::Value`: `None` when they
/// are not valid JSON. The result is named, not described.
#[verifier::external_body]
pub(crate) fn parse_json_bytes(bytes: &[u8]) -> (r: Option<Json>)
    ensures
        r == json_bytes_parse(bytes@),
{
    match serde_json::from_slice::<serde_json::Value>(bytes) {
        Ok(v) => Some(json_of_value(&v)),
        Err(_) => None,
    }
}

} // verus!
