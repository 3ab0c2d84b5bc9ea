use vstd::prelude::*;
use crate::json::{jval, Json, JsonV};

verus! {

// The crate's only window on outside code: serde_json parses JSON buffers,
// async_graphql renders the playground page. Everything downstream of these
// calls is verified against the names given to their results here.

#[verifier::external_type_specification]
#[verifier::external_body]
pub struct ExValue(serde_json::Value);

/// The JSON document written in `s`, if any: the result of serde_json's
/// parser, as a tree of this crate's model. `None` where the buffer is not
/// one well-formed JSON document.
pub uninterp spec fn json_of(s: Seq<u8>) -> Option<JsonV>;

/// The tree a `serde_json::Value` holds, as this crate's model.
pub uninterp spec fn value_model(v: serde_json::Value) -> JsonV;

/// Relies on `serde_json::from_slice::<Value>`: decodes the buffer as one
/// JSON document or fails; the outcome depends on the bytes alone.
#[verifier::external_body]
fn parse_value(bytes: &[u8]) -> (r: Option<serde_json::Value>)
    ensures
        match r {
            Some(v) => json_of(bytes@) == Some(value_model(v)),
            None => json_of(bytes@) is None,
        },
{
    serde_json::from_slice::<serde_json::Value>(bytes).ok()
}

/// Relies on the shape of `serde_json::Value`: each variant is moved into
/// the crate's own tree, object keys in serde_json's stored order, numbers
/// rendered by `Number::to_string`.
#[verifier::external_body]
fn value_to_json(v: serde_json::Value) -> (r: Json)
    ensures
        jval(r) == value_model(v),
{
    match v {
        serde_json::Value::Null => Json::Null,
        serde_json::Value::Bool(b) => Json::Bool(b),
        serde_json::Value::Number(n) => Json::Num(n.to_string().into_bytes()),
        serde_json::Value::String(s) => Json::Str(s.into_bytes()),
        serde_json::Value::Array(a) => Json::Arr(a.into_iter().map(value_to_json).collect()),
        serde_json::Value::Object(m) => Json::Obj(
            m.into_iter().map(|(k, x)| (k.into_bytes(), value_to_json(x))).collect(),
        ),
    }
}

/// Decode a JSON buffer into the crate's tree.
pub fn parse_json(bytes: &[u8]) -> (r: Option<Json>)
    ensures
        match r {
            Some(j) => json_of(bytes@) == Some(jval(j)),
            None => json_of(bytes@) is None,
        },
{
    match parse_value(bytes) {
        Some(v) => Some(value_to_json(v)),
        None => None,
    }
}

/// The playground page for a GraphQL endpoint.
pub uninterp spec fn playground_html_of(endpoint: Seq<u8>) -> Seq<u8>;

/// Relies on `async_graphql::http::playground_source`: the page is a
/// function of the playground configuration alone, here just the endpoint.
#[verifier::external_body]
pub(crate) fn render_playground(endpoint: &[u8]) -> (r: Vec<u8>)
    ensures
        r@ == playground_html_of(endpoint@),
{
    let e = String::from_utf8_lossy(endpoint).into_owned();
    let config = async_graphql::http::GraphQLPlaygroundConfig::new(&e);
    async_graphql::http::playground_source(config).into_bytes()
}

} // verus!
