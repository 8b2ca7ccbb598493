use vstd::prelude::*;

use crate::errors::EngineError;
use crate::strutil::{spec_split_spaces, split_spaces};

verus! {

/// The string held by JSON field `key` of the document `text`: the result of
/// parsing `text` and looking the field up, when `text` is a JSON object
/// whose field `key` holds a string.
pub uninterp spec fn json_str_field(text: Seq<char>, key: Seq<char>) -> Option<Seq<char>>;

/// The integer held by JSON field `key` of the document `text`, when `text`
/// is a JSON object whose field `key` holds an integer representable in 64
/// signed bits.
pub uninterp spec fn json_int_field(text: Seq<char>, key: Seq<char>) -> Option<i64>;

/// Relies on serde_json::from_str, serde_json::Value::get and
/// serde_json::Value::as_str: whether `text` is a JSON object whose field
/// `key` holds a string, and that string, are functions of the two
/// arguments alone.
#[verifier::external_body]
pub(crate) fn json_get_str(text: &str, key: &str) -> (r: Option<String>)
    ensures
        r is Some <==> json_str_field(text@, key@) is Some,
        r matches Some(v) ==> json_str_field(text@, key@) == Some(v@),
{
    serde_json::from_str::<serde_json::Value>(text).ok().and_then(
        |doc| doc.get(key).and_then(|f| f.as_str()).map(|s| s.to_string()),
    )
}

/// Relies on serde_json::from_str, serde_json::Value::get and
/// serde_json::Value::as_i64: whether `text` is a JSON object whose field
/// `key` holds an integer fitting `i64`, and that integer, are functions of
/// the two arguments alone.
#[verifier::external_body]
fn json_get_i64(text: &str, key: &str) -> (r: Option<i64>)
    ensures
        r == json_int_field(text@, key@),
{
    serde_json::from_str::<serde_json::Value>(text).ok().and_then(
        |doc| doc.get(key).and_then(|f| f.as_i64()),
    )
}

/// A parsed build-completion marker: the derivation path of the finished
/// build and its output paths.
#[derive(Debug)]
pub struct PostBuildHookRecord {
    pub drv_path: String,
    pub out_paths: Vec<String>,
}

/// The two string fields of a completion-marker payload, when the payload
/// is a JSON object holding both `DRV_PATH` and `OUT_PATHS` as strings.
pub open spec fn spec_completion_fields(payload: Seq<char>) -> Option<(Seq<char>, Seq<char>)> {
    match (json_str_field(payload, "DRV_PATH"@), json_str_field(payload, "OUT_PATHS"@)) {
        (Some(d), Some(o)) => Some((d, o)),
        _ => None,
    }
}

/// Parses a completion-marker payload: a JSON object with a string field
/// `DRV_PATH` and a string field `OUT_PATHS` holding space-separated output
/// path tokens. Fails with `PayloadParseError` exactly when either field is
/// missing or not a string.
pub fn parse_completion_payload(payload: &str) -> (r: Result<PostBuildHookRecord, EngineError>)
    ensures
        match r {
            Ok(m) => spec_completion_fields(payload@) matches Some(f) && m.drv_path@ == f.0
                && m.out_paths.deep_view() == spec_split_spaces(f.1),
            Err(e) => e == EngineError::PayloadParseError && spec_completion_fields(
                payload@,
            ) is None,
        },
{
    let drv_path = match json_get_str(payload, "DRV_PATH") {
        Some(d) => d,
        None => {
            return Err(EngineError::PayloadParseError);
        },
    };
    let out_field = match json_get_str(payload, "OUT_PATHS") {
        Some(o) => o,
        None => {
            return Err(EngineError::PayloadParseError);
        },
    };
    let out_paths = split_spaces(out_field.as_str());
    Ok(PostBuildHookRecord { drv_path, out_paths })
}

/// The session id of a session-start payload: the integer field `pr` of the
/// payload parsed as a JSON object.
pub open spec fn spec_session_id(payload: Seq<char>) -> Option<i64> {
    json_int_field(payload, "pr"@)
}

/// Parses a session-start payload: a JSON object with an integer field
/// `pr`. Fails with `PayloadParseError` exactly when the payload is not
/// such an object.
pub fn parse_session_start(payload: &str) -> (r: Result<i64, EngineError>)
    ensures
        match r {
            Ok(n) => spec_session_id(payload@) == Some(n),
            Err(e) => e == EngineError::PayloadParseError && spec_session_id(payload@) is None,
        },
{
    match json_get_i64(payload, "pr") {
        Some(n) => Ok(n),
        None => Err(EngineError::PayloadParseError),
    }
}

} // verus!
