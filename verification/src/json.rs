//! A plain model of the JSON documents herdr prints, and the lookups the
//! telescope makes in them. Parsing itself is serde_json's.
use vstd::prelude::*;

verus! {

/// A JSON value. Numbers keep what `serde_json::Value::as_i64` gives.
pub enum JsonValue {
    Null,
    Bool(bool),
    Number(Option<i64>),
    Str(String),
    Array(Vec<JsonValue>),
    Object(Vec<(String, JsonValue)>),
}

/// The view of an optional string.
pub open spec fn opt_view(x: Option<String>) -> Option<Seq<char>> {
    match x {
        Some(s) => Some(s@),
        None => None,
    }
}

/// The value of the first entry named `key`.
pub open spec fn lookup(entries: Seq<(String, JsonValue)>, key: Seq<char>) -> Option<JsonValue>
    decreases entries.len(),
{
    if entries.len() == 0 {
        None
    } else if entries[0].0@ == key {
        Some(entries[0].1)
    } else {
        lookup(entries.drop_first(), key)
    }
}

/// `v.get(key)`: the member `key` of an object.
pub open spec fn json_get(v: JsonValue, key: Seq<char>) -> Option<JsonValue> {
    match v {
        JsonValue::Object(entries) => lookup(entries@, key),
        _ => None,
    }
}

/// `v.pointer("/a/b/...")` for a path of object keys.
pub open spec fn json_path(v: JsonValue, path: Seq<Seq<char>>) -> Option<JsonValue>
    decreases path.len(),
{
    if path.len() == 0 {
        Some(v)
    } else {
        match json_get(v, path[0]) {
            Some(w) => json_path(w, path.drop_first()),
            None => None,
        }
    }
}

/// The string `v` holds, if it is one.
pub open spec fn json_str(v: Option<JsonValue>) -> Option<Seq<char>> {
    match v {
        Some(JsonValue::Str(s)) => Some(s@),
        _ => None,
    }
}

/// The non-empty string under `key` in the object `v`.
pub open spec fn spec_str_of(v: JsonValue, key: Seq<char>) -> Option<Seq<char>> {
    match json_str(json_get(v, key)) {
        Some(s) => if s.len() > 0 { Some(s) } else { None },
        None => None,
    }
}

/// What serde_json parses `bytes` into, as a `JsonValue`; `None` when the
/// bytes are not one JSON document.
pub uninterp spec fn json_parse(bytes: Seq<u8>) -> Option<JsonValue>;

/// Declares `serde_json::Value` to Verus, opaque.
#[verifier::external_type_specification]
#[verifier::external_body]
pub struct ExJsonValue(serde_json::Value);

/// Calls `serde_json::from_slice::<serde_json::Value>` and converts the
/// document into a `JsonValue`. Claims only that the result is a function of
/// the bytes (`json_parse`); nothing is claimed about which bytes parse.
#[verifier::external_body]
pub(crate) fn parse_json(bytes: &[u8]) -> (r: Option<JsonValue>)
    ensures
        r == json_parse(bytes@),
{
    serde_json::from_slice::<serde_json::Value>(bytes).ok().map(json_of)
}

/// Moves a `serde_json::Value` into a `JsonValue`, variant by variant; numbers
/// keep `as_i64`. Used only by `parse_json`.
#[verifier::external_body]
fn json_of(v: serde_json::Value) -> JsonValue {
    match v {
        serde_json::Value::Null => JsonValue::Null,
        serde_json::Value::Bool(b) => JsonValue::Bool(b),
        serde_json::Value::Number(n) => JsonValue::Number(n.as_i64()),
        serde_json::Value::String(s) => JsonValue::Str(s),
        serde_json::Value::Array(a) => JsonValue::Array(a.into_iter().map(json_of).collect()),
        serde_json::Value::Object(o) => JsonValue::Object(o.into_iter().map(|(k, v)| (k, json_of(v))).collect()),
    }
}

/// The member `key` of the object `v`.
pub fn get<'a>(v: &'a JsonValue, key: &str) -> (r: Option<&'a JsonValue>)
    ensures
        r matches Some(w) ==> json_get(*v, key@) == Some(*w),
        r is None ==> json_get(*v, key@) is None,
{
    match v {
        JsonValue::Object(entries) => {
            let ghost all = entries@;
            assert(*v == JsonValue::Object(*entries));
            let mut i: usize = 0;
            assert(all.skip(0) =~= all);
            while i < entries.len()
                invariant
                    i <= entries.len(),
                    all == entries@,
                    *v == JsonValue::Object(*entries),
                    lookup(all, key@) == lookup(all.skip(i as int), key@),
                decreases entries.len() - i,
            {
                assert(all.skip(i as int).drop_first() =~= all.skip(i + 1));
                assert(all.skip(i as int)[0] == entries@[i as int]);
                if crate::text::str_eq(entries[i].0.as_str(), key) {
                    return Some(&entries[i].1);
                }
                i = i + 1;
            }
            None
        },
        _ => None,
    }
}

/// `v.pointer(path)`: follow object keys.
pub fn pointer<'a>(v: &'a JsonValue, path: &[&str]) -> (r: Option<&'a JsonValue>)
    ensures
        r matches Some(w) ==> json_path(*v, path@.map_values(|k: &str| k@)) == Some(*w),
        r is None ==> json_path(*v, path@.map_values(|k: &str| k@)) is None,
{
    let ghost keys = path@.map_values(|k: &str| k@);
    let mut cur: &JsonValue = v;
    let mut i: usize = 0;
    assert(keys.skip(0) =~= keys);
    while i < path.len()
        invariant
            i <= path.len(),
            keys == path@.map_values(|k: &str| k@),
            json_path(*v, keys) == json_path(*cur, keys.skip(i as int)),
        decreases path.len() - i,
    {
        assert(keys.skip(i as int).drop_first() =~= keys.skip(i + 1));
        assert(keys.skip(i as int)[0] == path@[i as int]@);
        match get(cur, path[i]) {
            Some(w) => {
                cur = w;
            },
            None => {
                return None;
            },
        }
        i = i + 1;
    }
    Some(cur)
}

/// The string `v` holds.
pub fn as_str(v: &JsonValue) -> (r: Option<&String>)
    ensures
        r matches Some(s) ==> json_str(Some(*v)) == Some(s@),
        r is None ==> json_str(Some(*v)) is None,
{
    match v {
        JsonValue::Str(s) => Some(s),
        _ => None,
    }
}

/// The non-empty string under `key` in the object `v`.
pub fn json_string_field(v: &JsonValue, key: &str) -> (r: Option<String>)
    ensures
        opt_view(r) == spec_str_of(*v, key@),
{
    match get(v, key) {
        Some(JsonValue::Str(s)) => {
            if s.as_str().is_empty() {
                None
            } else {
                Some(s.clone())
            }
        },
        _ => None,
    }
}

} // verus!

verus! {

/// The JSON document a command printed: parsed only when the command
/// succeeded (`None` otherwise, or when stdout is not JSON).
pub fn json_from_output(success: bool, stdout: &[u8]) -> (r: Option<JsonValue>)
    ensures
        r == (if success { json_parse(stdout@) } else { None }),
{
    if !success {
        return None;
    }
    parse_json(stdout)
}

/// The string under `key`, or `default`.
pub open spec fn field_or(v: JsonValue, key: Seq<char>, default: Seq<char>) -> Seq<char> {
    match json_str(json_get(v, key)) {
        Some(s) => s,
        None => default,
    }
}

/// The string under `key` in `v`, or `default` (`v.get(key).and_then(as_str).unwrap_or(default)`).
pub fn str_field_or(v: &JsonValue, key: &str, default: &str) -> (r: String)
    ensures
        r@ == field_or(*v, key@, default@),
{
    match get(v, key) {
        Some(JsonValue::Str(s)) => s.clone(),
        _ => crate::text::owned(default),
    }
}

/// The integer under `key`, as `as_i64` reads it.
pub open spec fn int_field(v: JsonValue, key: Seq<char>) -> Option<i64> {
    match json_get(v, key) {
        Some(JsonValue::Number(n)) => n,
        _ => None,
    }
}

/// The integer under `key` in `v` (`v.get(key).and_then(as_i64)`).
pub fn i64_field(v: &JsonValue, key: &str) -> (r: Option<i64>)
    ensures
        r == int_field(*v, key@),
{
    match get(v, key) {
        Some(JsonValue::Number(n)) => *n,
        _ => None,
    }
}

/// The array at a path of object keys.
pub open spec fn array_at(v: JsonValue, path: Seq<Seq<char>>) -> Option<Seq<JsonValue>> {
    match json_path(v, path) {
        Some(JsonValue::Array(a)) => Some(a@),
        _ => None,
    }
}

/// The string at a path of object keys.
pub open spec fn str_at(v: JsonValue, path: Seq<Seq<char>>) -> Option<Seq<char>> {
    json_str(json_path(v, path))
}

/// The array at `path` in `v`.
pub fn array_pointer<'a>(v: &'a JsonValue, path: &[&str]) -> (r: Option<&'a Vec<JsonValue>>)
    ensures
        match r {
            Some(a) => array_at(*v, path@.map_values(|k: &str| k@)) == Some(a@),
            None => array_at(*v, path@.map_values(|k: &str| k@)) is None,
        },
{
    match pointer(v, path) {
        Some(JsonValue::Array(a)) => Some(a),
        _ => None,
    }
}

/// The string at `path` in `v`, or the empty string.
pub fn str_pointer_or_empty(v: &JsonValue, path: &[&str]) -> (r: String)
    ensures
        r@ == (match str_at(*v, path@.map_values(|k: &str| k@)) {
            Some(s) => s,
            None => Seq::<char>::empty(),
        }),
{
    match pointer(v, path) {
        Some(JsonValue::Str(s)) => s.clone(),
        _ => String::new(),
    }
}

} // verus!
