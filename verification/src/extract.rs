use vstd::prelude::*;
use vstd::string::{StrSliceExecFns, StringSliceAdditionalSpecFns};
use vstd::slice::slice_to_vec;
use crate::doc::{
    dview, doc_from_json, doc_of_json, fmap_or_empty, fmview, Doc, DocV,
};
use crate::json::{
    jval, set_path_v, spec_split, split_bytes, uview, Json,
    JsonV, UploadValue, UploadV, apply_path,
};
use crate::multipart::{boundary_of, fviews, parse_multipart, spec_boundary_of, spec_multipart, FieldV};
use crate::scan::{bytes_eq, match_at, seqs, starts_with};
use crate::trusted::{json_of, parse_json};
use crate::ExtractError;

verus! {

// The request extractor: the GET query-string strategy, the POST body
// strategies, and the multipart orchestration that folds the field stream
// into one normalized operation document.

/// A transport-level request body.
#[derive(Debug, PartialEq, Eq)]
pub enum ReqBody {
    Empty,
    Text(Vec<u8>),
    Binary(Vec<u8>),
}

/// Mathematical model of a request body.
pub enum BodyV {
    Empty,
    Text(Seq<u8>),
    Binary(Seq<u8>),
}

pub open spec fn bview(b: ReqBody) -> BodyV {
    match b {
        ReqBody::Empty => BodyV::Empty,
        ReqBody::Text(t) => BodyV::Text(t@),
        ReqBody::Binary(t) => BodyV::Binary(t@),
    }
}

/// The operation document written in a JSON buffer, if any.
pub open spec fn op_doc_of(s: Seq<u8>) -> Option<DocV> {
    match json_of(s) {
        Some(j) => doc_of_json(j),
        None => None,
    }
}

/// Decode a JSON buffer into an operation document.
pub fn op_doc_from_bytes(b: &[u8]) -> (r: Option<Doc>)
    ensures
        match r {
            Some(d) => op_doc_of(b@) == Some(dview(d)),
            None => op_doc_of(b@) is None,
        },
{
    match parse_json(b) {
        Some(j) => doc_from_json(j),
        None => None,
    }
}

/// The file map written in a JSON buffer; malformed content degrades to
/// "no uploads declared".
pub open spec fn fmap_from_bytes(s: Seq<u8>) -> Seq<(Seq<u8>, Seq<Seq<u8>>)> {
    match json_of(s) {
        Some(j) => fmap_or_empty(j),
        None => Seq::empty(),
    }
}

pub fn fmap_decode(b: &[u8]) -> (r: Vec<(Vec<u8>, Vec<Vec<u8>>)>)
    ensures
        fmview(r@) == fmap_from_bytes(b@),
{
    match parse_json(b) {
        Some(j) => crate::doc::file_map_from_json(j),
        None => {
            let out: Vec<(Vec<u8>, Vec<Vec<u8>>)> = Vec::new();
            assert(fmview(out@) =~= Seq::<(Seq<u8>, Seq<Seq<u8>>)>::empty());
            out
        },
    }
}

// ---------------------------------------------------------------------------
// GET: query / operationName / variables from the query string.
// ---------------------------------------------------------------------------

/// The views of a parameter list.
pub open spec fn pview(v: Seq<(Vec<u8>, Vec<u8>)>) -> Seq<(Seq<u8>, Seq<u8>)> {
    Seq::new(v.len(), |i: int| (v[i].0@, v[i].1@))
}

/// The first parameter named `k`, at or after `from`.
pub open spec fn first_param(params: Seq<(Seq<u8>, Seq<u8>)>, k: Seq<u8>, from: int) -> Option<
    Seq<u8>,
>
    decreases params.len() - from,
{
    if from < 0 || from >= params.len() {
        None
    } else if params[from].0 == k {
        Some(params[from].1)
    } else {
        first_param(params, k, from + 1)
    }
}

/// The GET strategy: `query` is required; `operationName` is optional and
/// taken verbatim; `variables` is optional, and anything but a JSON object
/// (including unparseable text) falls back to the empty object.
pub open spec fn get_extract(params: Seq<(Seq<u8>, Seq<u8>)>) -> Result<DocV, ExtractError> {
    match first_param(params, "query".spec_bytes(), 0) {
        None => Err(ExtractError::MissingQuery),
        Some(q) => Ok(
            DocV {
                query: q,
                operation_name: first_param(params, "operationName".spec_bytes(), 0),
                variables: match first_param(params, "variables".spec_bytes(), 0) {
                    Some(vtext) => match json_of(vtext) {
                        Some(JsonV::Obj(o)) => JsonV::Obj(o),
                        _ => JsonV::Obj(Seq::empty()),
                    },
                    None => JsonV::Obj(Seq::empty()),
                },
            },
        ),
    }
}

fn param_lookup(params: &Vec<(Vec<u8>, Vec<u8>)>, k: &[u8]) -> (r: Option<Vec<u8>>)
    ensures
        match r {
            Some(v) => first_param(pview(params@), k@, 0) == Some(v@),
            None => first_param(pview(params@), k@, 0) is None,
        },
{
    let mut i: usize = 0;
    while i < params.len()
        invariant
            i <= params@.len(),
            first_param(pview(params@), k@, 0) == first_param(pview(params@), k@, i as int),
        decreases params@.len() - i,
    {
        if bytes_eq(params[i].0.as_slice(), k) {
            assert(pview(params@)[i as int].0 == k@);
            return Some(slice_to_vec(params[i].1.as_slice()));
        }
        assert(pview(params@)[i as int].0 != k@);
        i += 1;
    }
    None
}

/// Extract an operation document from GET query-string parameters.
pub fn extract_get(params: &Vec<(Vec<u8>, Vec<u8>)>) -> (r: Result<Doc, ExtractError>)
    ensures
        match r {
            Ok(d) => get_extract(pview(params@)) == Ok::<DocV, ExtractError>(dview(d)),
            Err(e) => get_extract(pview(params@)) == Err::<DocV, ExtractError>(e),
        },
{
    let qk = "query".as_bytes_vec();
    let onk = "operationName".as_bytes_vec();
    let vsk = "variables".as_bytes_vec();
    let query = match param_lookup(params, qk.as_slice()) {
        Some(q) => q,
        None => {
            return Err(ExtractError::MissingQuery);
        },
    };
    let operation_name = param_lookup(params, onk.as_slice());
    let variables = match param_lookup(params, vsk.as_slice()) {
        Some(vtext) => match parse_json(vtext.as_slice()) {
            Some(Json::Obj(o)) => Json::Obj(o),
            _ => crate::doc::empty_obj(),
        },
        None => crate::doc::empty_obj(),
    };
    Ok(Doc { query, operation_name, variables })
}

// ---------------------------------------------------------------------------
// Multipart orchestration: classify each field in arrival order, then apply
// the collected substitutions to the captured document's variables.
// ---------------------------------------------------------------------------

/// The fold state: the captured document, the current file map, and the
/// substitutions collected so far (each a path list and its upload).
pub struct FoldV {
    pub doc: Option<DocV>,
    pub fmap: Seq<(Seq<u8>, Seq<Seq<u8>>)>,
    pub subs: Seq<(Seq<Seq<u8>>, UploadV)>,
}

pub open spec fn od(o: Option<Doc>) -> Option<DocV> {
    match o {
        Some(d) => Some(dview(d)),
        None => None,
    }
}

pub open spec fn sview(s: Seq<(Vec<Vec<u8>>, UploadValue)>) -> Seq<(Seq<Seq<u8>>, UploadV)> {
    Seq::new(s.len(), |i: int| (seqs(s[i].0@), uview(s[i].1)))
}

/// The upload a field carries: its payload, its declared content type, and
/// its filename, defaulted when the part declares none.
pub open spec fn upload_of(f: FieldV) -> UploadV {
    UploadV {
        filename: match f.filename {
            Some(n) => n,
            None => "default_filename".spec_bytes(),
        },
        content_type: f.content_type,
        content: f.data,
    }
}

/// Index of the first map entry whose field name is `k`, at or after `from`.
pub open spec fn fmap_at(m: Seq<(Seq<u8>, Seq<Seq<u8>>)>, k: Seq<u8>, from: int) -> Option<int>
    decreases m.len() - from,
{
    if from < 0 || from >= m.len() {
        None
    } else if m[from].0 == k {
        Some(from)
    } else {
        fmap_at(m, k, from + 1)
    }
}

/// One pass over the field stream: an `operations` part re-captures the
/// document (a part that fails to decode leaves none), a `map` part
/// re-captures the file map, a part named in the current map records an
/// upload against that entry's paths, anything else is ignored.
pub open spec fn fold_fields(rest: Seq<FieldV>, st: FoldV) -> FoldV
    decreases rest.len(),
{
    if rest.len() == 0 {
        st
    } else {
        let f = rest[0];
        let st2 = match f.name {
            Some(nm) => if nm == "operations".spec_bytes() {
                FoldV { doc: op_doc_of(f.data), fmap: st.fmap, subs: st.subs }
            } else if nm == "map".spec_bytes() {
                FoldV { doc: st.doc, fmap: fmap_from_bytes(f.data), subs: st.subs }
            } else {
                match fmap_at(st.fmap, nm, 0) {
                    Some(k) => FoldV {
                        doc: st.doc,
                        fmap: st.fmap,
                        subs: st.subs + seq![(st.fmap[k].1, upload_of(f))],
                    },
                    None => st,
                }
            },
            None => st,
        };
        fold_fields(rest.drop_first(), st2)
    }
}

/// One substitution at one path: the path is split on dots; its first
/// segment must be `variables`, the rest walks the variables tree.
pub open spec fn apply_one(vars: JsonV, path: Seq<u8>, up: UploadV) -> JsonV {
    let segs = spec_split(path, 46);
    if segs.len() >= 2 && segs[0] == "variables".spec_bytes() {
        set_path_v(vars, segs, 1, up)
    } else {
        vars
    }
}

/// Broadcast: one upload applied to every path declared for its field name.
pub open spec fn apply_paths(vars: JsonV, paths: Seq<Seq<u8>>, up: UploadV) -> JsonV
    decreases paths.len(),
{
    if paths.len() == 0 {
        vars
    } else {
        apply_paths(apply_one(vars, paths[0], up), paths.drop_first(), up)
    }
}

/// All collected substitutions, in arrival order.
pub open spec fn apply_sub_list(vars: JsonV, subs: Seq<(Seq<Seq<u8>>, UploadV)>) -> JsonV
    decreases subs.len(),
{
    if subs.len() == 0 {
        vars
    } else {
        apply_sub_list(apply_paths(vars, subs[0].0, subs[0].1), subs.drop_first())
    }
}

/// The multipart strategy: read the field stream, fold it, and substitute.
/// Malformed framing is `InvalidData`; a stream without a decodable
/// `operations` part is `MissingQuery`.
pub open spec fn multipart_extract(body: Seq<u8>, boundary: Seq<u8>) -> Result<
    DocV,
    ExtractError,
> {
    match spec_multipart(body, boundary) {
        Some(fields) => {
            let st = fold_fields(
                fields,
                FoldV { doc: None, fmap: Seq::empty(), subs: Seq::empty() },
            );
            match st.doc {
                Some(d) => Ok(
                    DocV {
                        query: d.query,
                        operation_name: d.operation_name,
                        variables: apply_sub_list(d.variables, st.subs),
                    },
                ),
                None => Err(ExtractError::MissingQuery),
            }
        },
        None => Err(ExtractError::InvalidData),
    }
}

fn find_fmap(m: &Vec<(Vec<u8>, Vec<Vec<u8>>)>, k: &[u8]) -> (r: Option<usize>)
    ensures
        match r {
            Some(i) => i < m@.len() && fmap_at(fmview(m@), k@, 0) == Some(i as int),
            None => fmap_at(fmview(m@), k@, 0) is None,
        },
{
    let mut i: usize = 0;
    while i < m.len()
        invariant
            i <= m@.len(),
            fmap_at(fmview(m@), k@, 0) == fmap_at(fmview(m@), k@, i as int),
        decreases m@.len() - i,
    {
        if bytes_eq(m[i].0.as_slice(), k) {
            assert(fmview(m@)[i as int].0 == k@);
            return Some(i);
        }
        assert(fmview(m@)[i as int].0 != k@);
        i += 1;
    }
    None
}

fn dup_paths(v: &Vec<Vec<u8>>) -> (r: Vec<Vec<u8>>)
    ensures
        seqs(r@) =~= seqs(v@),
{
    let mut out: Vec<Vec<u8>> = Vec::new();
    let mut i: usize = 0;
    while i < v.len()
        invariant
            i <= v@.len(),
            out@.len() == i,
            forall|j: int| 0 <= j < i ==> out@[j]@ == v@[j]@,
        decreases v@.len() - i,
    {
        out.push(slice_to_vec(v[i].as_slice()));
        i += 1;
    }
    out
}

fn apply_one_exec(vars: Json, path: &[u8], up: &UploadValue) -> (r: Json)
    ensures
        jval(r) == apply_one(jval(vars), path@, uview(*up)),
{
    let segs = split_bytes(path, 46);
    let vk = "variables".as_bytes_vec();
    if segs.len() >= 2 && bytes_eq(segs[0].as_slice(), vk.as_slice()) {
        assert(seqs(segs@)[0] == "variables".spec_bytes());
        apply_path(vars, &segs, 1, up)
    } else {
        if segs.len() >= 2 {
            assert(seqs(segs@)[0] != "variables".spec_bytes());
        }
        vars
    }
}

fn apply_paths_exec(vars: Json, paths: Vec<Vec<u8>>, up: &UploadValue) -> (r: Json)
    ensures
        jval(r) == apply_paths(jval(vars), seqs(paths@), uview(*up)),
    decreases paths@.len(),
{
    let mut paths = paths;
    let ghost orig = seqs(paths@);
    if paths.len() == 0 {
        return vars;
    }
    let p = paths.remove(0);
    proof {
        assert(seqs(paths@) =~= orig.drop_first());
        assert(orig[0] == p@);
    }
    let v2 = apply_one_exec(vars, p.as_slice(), up);
    apply_paths_exec(v2, paths, up)
}

fn apply_sub_list_exec(vars: Json, subs: Vec<(Vec<Vec<u8>>, UploadValue)>) -> (r: Json)
    ensures
        jval(r) == apply_sub_list(jval(vars), sview(subs@)),
    decreases subs@.len(),
{
    let mut subs = subs;
    let ghost orig = sview(subs@);
    if subs.len() == 0 {
        return vars;
    }
    let (paths, up) = subs.remove(0);
    proof {
        assert(sview(subs@) =~= orig.drop_first());
        assert(orig[0].0 == seqs(paths@));
        assert(orig[0].1 == uview(up));
    }
    let v2 = apply_paths_exec(vars, paths, &up);
    apply_sub_list_exec(v2, subs)
}

/// Extract an operation document from a multipart body.
pub fn extract_multipart(body: &[u8], boundary: &[u8]) -> (r: Result<Doc, ExtractError>)
    ensures
        match r {
            Ok(d) => multipart_extract(body@, boundary@) == Ok::<DocV, ExtractError>(dview(d)),
            Err(e) => multipart_extract(body@, boundary@) == Err::<DocV, ExtractError>(e),
        },
{
    let mut fields = match parse_multipart(body, boundary) {
        Some(fs) => fs,
        None => {
            return Err(ExtractError::InvalidData);
        },
    };
    let ghost all = fviews(fields@);
    let mut doc: Option<Doc> = None;
    let mut fmap: Vec<(Vec<u8>, Vec<Vec<u8>>)> = Vec::new();
    let mut subs: Vec<(Vec<Vec<u8>>, UploadValue)> = Vec::new();
    let opsk = "operations".as_bytes_vec();
    let mapk = "map".as_bytes_vec();
    proof {
        assert(fmview(fmap@) =~= Seq::<(Seq<u8>, Seq<Seq<u8>>)>::empty());
        assert(sview(subs@) =~= Seq::<(Seq<Seq<u8>>, UploadV)>::empty());
    }
    while fields.len() > 0
        invariant
            opsk@ == "operations".spec_bytes(),
            mapk@ == "map".spec_bytes(),
            fold_fields(
                fviews(fields@),
                FoldV { doc: od(doc), fmap: fmview(fmap@), subs: sview(subs@) },
            ) == fold_fields(all, FoldV { doc: None, fmap: Seq::empty(), subs: Seq::empty() }),
        decreases fields@.len(),
    {
        let ghost pre = fviews(fields@);
        let f = fields.remove(0);
        proof {
            assert(fviews(fields@) =~= pre.drop_first());
            assert(pre[0] == crate::multipart::fview(f));
        }
        match f.name {
            Some(nm) => {
                if bytes_eq(nm.as_slice(), opsk.as_slice()) {
                    doc = op_doc_from_bytes(f.data.as_slice());
                } else if bytes_eq(nm.as_slice(), mapk.as_slice()) {
                    fmap = fmap_decode(f.data.as_slice());
                } else {
                    match find_fmap(&fmap, nm.as_slice()) {
                        Some(k) => {
                            let paths = dup_paths(&fmap[k].1);
                            let filename = match f.filename {
                                Some(n) => n,
                                None => "default_filename".as_bytes_vec(),
                            };
                            let up = UploadValue {
                                filename,
                                content_type: f.content_type,
                                content: f.data,
                            };
                            let ghost presubs = sview(subs@);
                            subs.push((paths, up));
                            proof {
                                assert(sview(subs@) =~= presubs + seq![
                                    (fmview(fmap@)[k as int].1, upload_of(pre[0])),
                                ]);
                            }
                        },
                        None => {},
                    }
                }
            },
            None => {},
        }
    }
    proof {
        assert(fviews(fields@).len() == 0);
    }
    match doc {
        Some(d) => {
            let variables = apply_sub_list_exec(d.variables, subs);
            Ok(Doc { query: d.query, operation_name: d.operation_name, variables })
        },
        None => Err(ExtractError::MissingQuery),
    }
}

// ---------------------------------------------------------------------------
// POST: branch on the body variant.
// ---------------------------------------------------------------------------

/// Whether every byte may appear in a text-decodable header value
/// (visible ASCII, space or tab).
pub open spec fn all_visible(s: Seq<u8>) -> bool {
    forall|i: int| 0 <= i < s.len() ==> (32 <= #[trigger] s[i] < 127 || s[i] == 9)
}

fn check_visible(s: &[u8]) -> (r: bool)
    ensures
        r == all_visible(s@),
{
    let mut i: usize = 0;
    while i < s.len()
        invariant
            i <= s@.len(),
            forall|k: int| 0 <= k < i ==> (32 <= #[trigger] s@[k] < 127 || s@[k] == 9),
        decreases s@.len() - i,
    {
        let b = s[i];
        if !(32 <= b && b < 127 || b == 9) {
            return false;
        }
        i += 1;
    }
    true
}

/// The POST strategy: an empty body is refused; a text body is a JSON
/// document; a binary body needs a Content-Type header, and is multipart
/// when that header says so, else a raw JSON document.
pub open spec fn post_extract(ct: Option<Seq<u8>>, body: BodyV) -> Result<DocV, ExtractError> {
    match body {
        BodyV::Empty => Err(ExtractError::EmptyBody),
        BodyV::Text(t) => match op_doc_of(t) {
            Some(d) => Ok(d),
            None => Err(ExtractError::Deserialization),
        },
        BodyV::Binary(b) => match ct {
            None => Err(ExtractError::MissingContentType),
            Some(c) => if !all_visible(c) {
                Err(ExtractError::InvalidData)
            } else if match_at(c, "multipart/form-data".spec_bytes(), 0) {
                match spec_boundary_of(c) {
                    Some(bd) => multipart_extract(b, bd),
                    None => Err(ExtractError::InvalidData),
                }
            } else {
                match op_doc_of(b) {
                    Some(d) => Ok(d),
                    None => Err(ExtractError::Deserialization),
                }
            },
        },
    }
}

pub open spec fn oct(ct: Option<Vec<u8>>) -> Option<Seq<u8>> {
    match ct {
        Some(c) => Some(c@),
        None => None,
    }
}

/// Extract an operation document from a POST request.
pub fn extract_post(content_type: &Option<Vec<u8>>, body: &ReqBody) -> (r: Result<
    Doc,
    ExtractError,
>)
    ensures
        match r {
            Ok(d) => post_extract(oct(*content_type), bview(*body)) == Ok::<
                DocV,
                ExtractError,
            >(dview(d)),
            Err(e) => post_extract(oct(*content_type), bview(*body)) == Err::<
                DocV,
                ExtractError,
            >(e),
        },
{
    match body {
        ReqBody::Empty => Err(ExtractError::EmptyBody),
        ReqBody::Text(t) => match op_doc_from_bytes(t.as_slice()) {
            Some(d) => Ok(d),
            None => Err(ExtractError::Deserialization),
        },
        ReqBody::Binary(b) => {
            let ct = match content_type {
                Some(c) => c,
                None => {
                    return Err(ExtractError::MissingContentType);
                },
            };
            if !check_visible(ct.as_slice()) {
                return Err(ExtractError::InvalidData);
            }
            let mfd = "multipart/form-data".as_bytes_vec();
            if starts_with(ct.as_slice(), mfd.as_slice()) {
                match boundary_of(ct.as_slice()) {
                    Some(bd) => extract_multipart(b.as_slice(), bd.as_slice()),
                    None => Err(ExtractError::InvalidData),
                }
            } else {
                match op_doc_from_bytes(b.as_slice()) {
                    Some(d) => Ok(d),
                    None => Err(ExtractError::Deserialization),
                }
            }
        },
    }
}

} // verus!
