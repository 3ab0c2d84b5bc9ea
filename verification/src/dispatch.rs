use vstd::prelude::*;
use vstd::string::{StrSliceExecFns, StringSliceAdditionalSpecFns};
use crate::doc::{dview, Doc, DocV};
use crate::extract::{
    bview, extract_get, extract_post, get_extract, oct, post_extract, pview, BodyV, ReqBody,
};
use crate::json::{aview, jval, oview, Json, JsonV};
use crate::scan::bytes_eq;
use crate::trusted::{playground_html_of, render_playground};
use crate::ExtractError;

verus! {

// The transport dispatcher: route by method and path, run the extractor,
// and classify the outcome. The transport around it performs the outcome:
// serving the page, executing the document, or sending the error envelope.

#[derive(Clone, Copy, PartialEq, Eq, Structural, Debug)]
pub enum Method {
    Get,
    Post,
    Other,
}

/// A transport-level request, reduced to what routing and extraction read:
/// the method, the path, the Content-Type header value as raw bytes, the
/// decoded query-string parameters, and the body.
#[derive(Debug, PartialEq, Eq)]
pub struct RawRequest {
    pub method: Method,
    pub path: Vec<u8>,
    pub content_type: Option<Vec<u8>>,
    pub params: Vec<(Vec<u8>, Vec<u8>)>,
    pub body: ReqBody,
}

/// What the transport must do with a request.
#[derive(Debug, PartialEq, Eq)]
pub enum Outcome {
    /// Serve this HTML page with status 200.
    Playground(Vec<u8>),
    /// Hand this document to the execution engine; its result is the
    /// response body, status 200.
    Execute(Doc),
    /// Send the error envelope for this failure with status 400.
    BadRequest(ExtractError),
    /// Reject the request at the transport boundary.
    MethodNotAllowed,
}

/// Mathematical model of an outcome.
pub enum OutcomeV {
    Playground(Seq<u8>),
    Execute(DocV),
    BadRequest(ExtractError),
    MethodNotAllowed,
}

pub open spec fn outview(o: Outcome) -> OutcomeV {
    match o {
        Outcome::Playground(h) => OutcomeV::Playground(h@),
        Outcome::Execute(d) => OutcomeV::Execute(dview(d)),
        Outcome::BadRequest(e) => OutcomeV::BadRequest(e),
        Outcome::MethodNotAllowed => OutcomeV::MethodNotAllowed,
    }
}

/// The GraphQL endpoint the playground page points at.
pub open spec fn endpoint_spec() -> Seq<u8> {
    "http://localhost:9000/graphql".spec_bytes()
}

/// The dispatcher's state machine over (method, path): the playground page
/// on `GET /playground` whatever the parameters; extraction on `GET /graphql`
/// and `POST /graphql`, a failure becoming a bad-request outcome; everything
/// else refused.
pub open spec fn outcome_of(
    method: Method,
    path: Seq<u8>,
    ct: Option<Seq<u8>>,
    params: Seq<(Seq<u8>, Seq<u8>)>,
    body: BodyV,
) -> OutcomeV {
    if method == Method::Get && path == "/playground".spec_bytes() {
        OutcomeV::Playground(playground_html_of(endpoint_spec()))
    } else if (method == Method::Get || method == Method::Post) && path
        == "/graphql".spec_bytes() {
        let r = if method == Method::Post {
            post_extract(ct, body)
        } else {
            get_extract(params)
        };
        match r {
            Ok(d) => OutcomeV::Execute(d),
            Err(e) => OutcomeV::BadRequest(e),
        }
    } else {
        OutcomeV::MethodNotAllowed
    }
}

/// Route a request and run the extraction strategy it selects.
pub fn dispatch(req: RawRequest) -> (r: Outcome)
    ensures
        outview(r) == outcome_of(
            req.method,
            req.path@,
            oct(req.content_type),
            pview(req.params@),
            bview(req.body),
        ),
{
    let pg = "/playground".as_bytes_vec();
    let gq = "/graphql".as_bytes_vec();
    match req.method {
        Method::Get => {
            if bytes_eq(req.path.as_slice(), pg.as_slice()) {
                let endpoint = "http://localhost:9000/graphql".as_bytes_vec();
                Outcome::Playground(render_playground(endpoint.as_slice()))
            } else if bytes_eq(req.path.as_slice(), gq.as_slice()) {
                match extract_get(&req.params) {
                    Ok(d) => Outcome::Execute(d),
                    Err(e) => Outcome::BadRequest(e),
                }
            } else {
                Outcome::MethodNotAllowed
            }
        },
        Method::Post => {
            if bytes_eq(req.path.as_slice(), gq.as_slice()) {
                match extract_post(&req.content_type, &req.body) {
                    Ok(d) => Outcome::Execute(d),
                    Err(e) => Outcome::BadRequest(e),
                }
            } else {
                Outcome::MethodNotAllowed
            }
        },
        Method::Other => Outcome::MethodNotAllowed,
    }
}

// ---------------------------------------------------------------------------
// The client-facing error envelope: a GraphQL-shaped response with a null
// `data` field and one error object holding the failure's message.
// ---------------------------------------------------------------------------

pub open spec fn message_bytes(e: ExtractError) -> Seq<u8> {
    match e {
        ExtractError::EmptyBody => "Empty body".spec_bytes(),
        ExtractError::MissingQuery => "Missing query".spec_bytes(),
        ExtractError::MissingContentType => "Missing content type".spec_bytes(),
        ExtractError::InvalidData => "Invalid data".spec_bytes(),
        ExtractError::MethodNotAllowed => "Method not allowed".spec_bytes(),
        ExtractError::Deserialization => "Failed to deserialize the request body".spec_bytes(),
    }
}

fn message_vec(e: ExtractError) -> (r: Vec<u8>)
    ensures
        r@ == message_bytes(e),
{
    match e {
        ExtractError::EmptyBody => "Empty body".as_bytes_vec(),
        ExtractError::MissingQuery => "Missing query".as_bytes_vec(),
        ExtractError::MissingContentType => "Missing content type".as_bytes_vec(),
        ExtractError::InvalidData => "Invalid data".as_bytes_vec(),
        ExtractError::MethodNotAllowed => "Method not allowed".as_bytes_vec(),
        ExtractError::Deserialization => "Failed to deserialize the request body".as_bytes_vec(),
    }
}

/// The envelope's JSON tree for one failure.
pub open spec fn envelope_of(e: ExtractError) -> JsonV {
    JsonV::Obj(
        seq![
            ("data".spec_bytes(), JsonV::Null),
            (
                "errors".spec_bytes(),
                JsonV::Arr(
                    seq![
                        JsonV::Obj(
                            seq![("message".spec_bytes(), JsonV::Str(message_bytes(e)))],
                        ),
                    ],
                ),
            ),
        ],
    )
}

/// Build the error envelope for one failure.
pub fn error_envelope(e: ExtractError) -> (r: Json)
    ensures
        jval(r) == envelope_of(e),
{
    let msg = message_vec(e);
    let mut inner: Vec<(Vec<u8>, Json)> = Vec::new();
    inner.push(("message".as_bytes_vec(), Json::Str(msg)));
    assert(oview(inner) =~= seq![("message".spec_bytes(), JsonV::Str(message_bytes(e)))]);
    let mut errs: Vec<Json> = Vec::new();
    errs.push(Json::Obj(inner));
    assert(aview(errs) =~= seq![
        JsonV::Obj(seq![("message".spec_bytes(), JsonV::Str(message_bytes(e)))]),
    ]);
    let mut outer: Vec<(Vec<u8>, Json)> = Vec::new();
    outer.push(("data".as_bytes_vec(), Json::Null));
    outer.push(("errors".as_bytes_vec(), Json::Arr(errs)));
    assert(oview(outer) =~= envelope_of(e)->Obj_0);
    Json::Obj(outer)
}

} // verus!
