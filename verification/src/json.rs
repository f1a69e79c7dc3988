//! The JSON documents that the policy reads, as serde_json parses them.
use vstd::prelude::*;

verus! {

/// A JSON value as far as this library reads it: numbers are told apart from the
/// other kinds but their values are not kept.
pub enum JsonValue {
    Null,
    Bool(bool),
    Number,
    Str(Seq<char>),
    Array(Seq<JsonValue>),
    Object(Map<Seq<char>, JsonValue>),
}

/// The document that `serde_json::from_slice::<serde_json::Value>` parses from
/// `text`, or none when it rejects `text`.
pub uninterp spec fn json_document(text: Seq<u8>) -> Option<JsonValue>;

/// The member `key` of `v`, as `serde_json::Value::get` with a string index gives
/// it: only an object has members.
pub open spec fn member(v: JsonValue, key: Seq<char>) -> Option<JsonValue> {
    match v {
        JsonValue::Object(m) => if m.dom().contains(key) {
            Some(m[key])
        } else {
            None
        },
        _ => None,
    }
}

/// The text of `v` when it is a string, as `serde_json::Value::as_str` gives it.
pub open spec fn string_of(v: Option<JsonValue>) -> Option<Seq<char>> {
    match v {
        Some(JsonValue::Str(s)) => Some(s),
        _ => None,
    }
}

/// The string member `key` of the top-level object of the document in `text`;
/// none when `text` is no JSON, or the member is missing or no string.
pub open spec fn string_member_of(text: Seq<u8>, key: Seq<char>) -> Option<Seq<char>> {
    match json_document(text) {
        Some(doc) => string_of(member(doc, key)),
        None => None,
    }
}

/// Parses `text` with `serde_json::from_slice` into a `serde_json::Value`, then
/// reads the member `key` with `Value::get` and `Value::as_str`.
/// Trusted: the result is the string member `key` of the parsed document, none when
/// serde_json rejects `text` or the member is missing or not a string.
#[verifier::external_body]
pub(crate) fn json_string_member(text: &[u8], key: &str) -> (r: Option<String>)
    ensures
        r.deep_view() == match json_document(text@) {
            Some(doc) => string_of(member(doc, key@)),
            None => None,
        },
{
    match serde_json::from_slice::<serde_json::Value>(text) {
        Ok(doc) => doc.get(key).and_then(serde_json::Value::as_str).map(String::from),
        Err(_) => None,
    }
}

/// The fields of a JSON-RPC request that the policy reads: `method`, and the
/// `name` and `uri` members of `params`, each kept when it is a string.
#[derive(Clone, Debug)]
pub struct RpcEnvelope {
    pub method: Option<String>,
    pub name: Option<String>,
    pub uri: Option<String>,
}

/// The `params` member of `doc`, `null` when it has none.
pub open spec fn params_of(doc: JsonValue) -> JsonValue {
    match member(doc, "params"@) {
        Some(p) => p,
        None => JsonValue::Null,
    }
}

/// The string `method` of the request `doc`.
pub open spec fn method_of(doc: JsonValue) -> Option<Seq<char>> {
    string_of(member(doc, "method"@))
}

/// The string `params.name` of the request `doc`.
pub open spec fn name_of(doc: JsonValue) -> Option<Seq<char>> {
    string_of(member(params_of(doc), "name"@))
}

/// The string `params.uri` of the request `doc`.
pub open spec fn uri_of(doc: JsonValue) -> Option<Seq<char>> {
    string_of(member(params_of(doc), "uri"@))
}

/// Whether `e` holds the string fields that the policy reads from the request `doc`.
pub open spec fn envelope_of(e: RpcEnvelope, doc: JsonValue) -> bool {
    &&& e.method.deep_view() == method_of(doc)
    &&& e.name.deep_view() == name_of(doc)
    &&& e.uri.deep_view() == uri_of(doc)
}

/// Parses `body` with `serde_json::from_slice` into a `serde_json::Value`, then
/// reads `method`, `params.name` and `params.uri` with `Value::get` and
/// `Value::as_str`.
/// Trusted: none exactly when serde_json rejects `body`; otherwise the string
/// fields of the parsed document, each none when missing or not a string.
#[verifier::external_body]
pub(crate) fn parse_rpc_envelope(body: &[u8]) -> (r: Option<RpcEnvelope>)
    ensures
        match json_document(body@) {
            Some(doc) => r matches Some(e) && envelope_of(e, doc),
            None => r is None,
        },
{
    match serde_json::from_slice::<serde_json::Value>(body) {
        Ok(req) => {
            let params = req.get("params").unwrap_or(&serde_json::Value::Null);
            Some(RpcEnvelope {
                method: req.get("method").and_then(serde_json::Value::as_str).map(String::from),
                name: params.get("name").and_then(serde_json::Value::as_str).map(String::from),
                uri: params.get("uri").and_then(serde_json::Value::as_str).map(String::from),
            })
        },
        Err(_) => None,
    }
}

} // verus!
