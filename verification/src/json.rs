use vstd::prelude::*;

verus! {

/// What `serde_json` makes of `doc`: `Err` with the parser's message when
/// `doc` is not JSON, otherwise whether the value is an object.
pub uninterp spec fn json_shape(doc: Seq<u8>) -> Result<bool, Seq<char>>;

/// The string stored under `key` in the JSON object held in `doc`, as
/// `serde_json` reads it: `None` when `doc` is not JSON, is not an object,
/// or has no string under `key`.
pub uninterp spec fn json_string_field(doc: Seq<u8>, key: Seq<char>) -> Option<Seq<char>>;

/// The object stored under `key` in the JSON object held in `doc`, written
/// back as JSON text by `serde_json` (`Err` with the writer's message when
/// that fails): `None` when `doc` is not JSON, is not an object, or has no
/// object under `key`.
pub uninterp spec fn json_object_field_text(doc: Seq<u8>, key: Seq<char>) -> Option<
    Result<Seq<char>, Seq<char>>,
>;

/// Parses `doc` with `serde_json::from_slice` into a `serde_json::Value` and
/// asks `Value::is_object`; a parse error is kept as its message.  The
/// contract says that the outcome is the one `json_shape` names for the
/// bytes; what that is on given bytes is not stated.
#[verifier::external_body]
pub(crate) fn shape_of(doc: &[u8]) -> (shape: Result<bool, String>)
    ensures
        match shape {
            Ok(b) => json_shape(doc@) == Ok::<bool, Seq<char>>(b),
            Err(m) => json_shape(doc@) == Err::<bool, Seq<char>>(m@),
        },
{
    match serde_json::from_slice::<serde_json::Value>(doc) {
        Ok(value) => Ok(value.is_object()),
        Err(error) => Err(error.to_string()),
    }
}

/// Parses `doc` with `serde_json::from_slice` into a `serde_json::Value`,
/// takes the value under `key` with `Value::get` and reads it with
/// `Value::as_str`.  The contract says that the outcome is the one
/// `json_string_field` names for the bytes and the key.
#[verifier::external_body]
pub(crate) fn string_field(doc: &[u8], key: &str) -> (text: Option<String>)
    ensures
        match text {
            Some(s) => json_string_field(doc@, key@) == Some(s@),
            None => json_string_field(doc@, key@) is None,
        },
{
    match serde_json::from_slice::<serde_json::Value>(doc) {
        Ok(value) => value.get(key).and_then(serde_json::Value::as_str).map(String::from),
        Err(_) => None,
    }
}

/// Parses `doc` with `serde_json::from_slice` into a `serde_json::Value`,
/// takes the value under `key` with `Value::get` and `Value::as_object`, and
/// writes that object back with `serde_json::to_string`; a write error is
/// kept as its message.  The contract says that the outcome is the one
/// `json_object_field_text` names for the bytes and the key.
#[verifier::external_body]
pub(crate) fn object_field_text(doc: &[u8], key: &str) -> (text: Option<Result<String, String>>)
    ensures
        match text {
            Some(Ok(s)) => json_object_field_text(doc@, key@) == Some(
                Ok::<Seq<char>, Seq<char>>(s@),
            ),
            Some(Err(m)) => json_object_field_text(doc@, key@) == Some(
                Err::<Seq<char>, Seq<char>>(m@),
            ),
            None => json_object_field_text(doc@, key@) is None,
        },
{
    let value: serde_json::Value = match serde_json::from_slice(doc) {
        Ok(value) => value,
        Err(_) => return None,
    };
    match value.get(key).and_then(serde_json::Value::as_object) {
        Some(fields) => Some(serde_json::to_string(fields).map_err(|error| error.to_string())),
        None => None,
    }
}

} // verus!
