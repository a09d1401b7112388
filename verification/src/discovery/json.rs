//! Fields of a `package.json` read with `serde_json`.

use vstd::prelude::*;

verus! {

/// What `serde_json` reads from `bytes` at the top-level `key`: `None` when
/// the bytes are not JSON; `Some(None)` when the document has no object
/// under `key`; else the keys of that object, in the order in which
/// `serde_json::Map::keys` yields them.
pub uninterp spec fn json_object_keys(bytes: Seq<u8>, key: Seq<char>) -> Option<Option<Seq<Seq<char>>>>;

/// What `serde_json` reads from `bytes` at the top-level `key`: `None` when
/// the bytes are not JSON; `Some(None)` when the document has no string
/// under `key`; else that string.
pub uninterp spec fn json_string_field(bytes: Seq<u8>, key: Seq<char>) -> Option<Option<Seq<char>>>;

/// The plain view of what [`json_keys_at`] returns.
pub open spec fn keys_view(r: Option<Option<Vec<String>>>) -> Option<Option<Seq<Seq<char>>>> {
    match r {
        None => None,
        Some(None) => Some(None),
        Some(Some(v)) => Some(Some(v@.map_values(|s: String| s@))),
    }
}

/// The plain view of what [`json_str_at`] returns.
pub open spec fn field_view(r: Option<Option<String>>) -> Option<Option<Seq<char>>> {
    match r {
        None => None,
        Some(None) => Some(None),
        Some(Some(s)) => Some(Some(s@)),
    }
}

/// Parses `bytes` with `serde_json::from_slice` into a `serde_json::Value`,
/// looks up `key` with `Value::get`, takes the object there with
/// `Value::as_object` and collects its `Map::keys`. The contract only names
/// the result.
#[verifier::external_body]
pub(crate) fn json_keys_at(bytes: &[u8], key: &str) -> (r: Option<Option<Vec<String>>>)
    ensures
        keys_view(r) == json_object_keys(bytes@, key@),
{
    let doc: serde_json::Value = serde_json::from_slice(bytes).ok()?;
    Some(doc.get(key).and_then(|v| v.as_object()).map(|m| m.keys().cloned().collect()))
}

/// Parses `bytes` with `serde_json::from_slice` into a `serde_json::Value`,
/// looks up `key` with `Value::get` and takes the string there with
/// `Value::as_str`. The contract only names the result.
#[verifier::external_body]
pub(crate) fn json_str_at(bytes: &[u8], key: &str) -> (r: Option<Option<String>>)
    ensures
        field_view(r) == json_string_field(bytes@, key@),
{
    let doc: serde_json::Value = serde_json::from_slice(bytes).ok()?;
    Some(doc.get(key).and_then(|v| v.as_str()).map(String::from))
}

} // verus!
