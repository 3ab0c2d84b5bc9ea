use vstd::prelude::*;
use vstd::string::{StrSliceExecFns, StringSliceAdditionalSpecFns};
use crate::json::{aview, jval, oview, Json, JsonV};
use crate::scan::seqs;
use crate::scan::bytes_eq;

verus! {

// The operation document: the query / operationName / variables triple that
// one GraphQL request carries, decoded from a JSON document.

#[derive(Debug, PartialEq, Eq)]
pub struct Doc {
    pub query: Vec<u8>,
    pub operation_name: Option<Vec<u8>>,
    pub variables: Json,
}

/// Mathematical model of an operation document.
pub struct DocV {
    pub query: Seq<u8>,
    pub operation_name: Option<Seq<u8>>,
    pub variables: JsonV,
}

pub open spec fn dview(d: Doc) -> DocV {
    DocV {
        query: d.query@,
        operation_name: match d.operation_name {
            Some(n) => Some(n@),
            None => None,
        },
        variables: jval(d.variables),
    }
}

pub open spec fn oj(o: Option<Json>) -> Option<JsonV> {
    match o {
        Some(j) => Some(jval(j)),
        None => None,
    }
}

/// One pass over the entries of a JSON object, keeping the first entry named
/// `query`, `operationName` and `variables` respectively.
pub open spec fn scan_doc(
    rest: Seq<(Seq<u8>, JsonV)>,
    q: Option<JsonV>,
    on: Option<JsonV>,
    vs: Option<JsonV>,
) -> (Option<JsonV>, Option<JsonV>, Option<JsonV>)
    decreases rest.len(),
{
    if rest.len() == 0 {
        (q, on, vs)
    } else {
        let k = rest[0].0;
        let v = rest[0].1;
        if q is None && k == "query".spec_bytes() {
            scan_doc(rest.drop_first(), Some(v), on, vs)
        } else if on is None && k == "operationName".spec_bytes() {
            scan_doc(rest.drop_first(), q, Some(v), vs)
        } else if vs is None && k == "variables".spec_bytes() {
            scan_doc(rest.drop_first(), q, on, Some(v))
        } else {
            scan_doc(rest.drop_first(), q, on, vs)
        }
    }
}

/// The operation document a JSON tree describes: the tree must be an object,
/// `query` must be a string; `operationName` may be absent, null or a
/// string; `variables` may be absent, null or an object and defaults to the
/// empty object. Anything else is a malformed document.
pub open spec fn doc_of_json(j: JsonV) -> Option<DocV> {
    match j {
        JsonV::Obj(fields) => {
            let slots = scan_doc(fields, None, None, None);
            match slots.0 {
                Some(JsonV::Str(qs)) => {
                    let on_ok = match slots.1 {
                        None => true,
                        Some(JsonV::Null) => true,
                        Some(JsonV::Str(_)) => true,
                        Some(_) => false,
                    };
                    let vs_ok = match slots.2 {
                        None => true,
                        Some(JsonV::Null) => true,
                        Some(JsonV::Obj(_)) => true,
                        Some(_) => false,
                    };
                    if on_ok && vs_ok {
                        Some(
                            DocV {
                                query: qs,
                                operation_name: match slots.1 {
                                    Some(JsonV::Str(s)) => Some(s),
                                    _ => None,
                                },
                                variables: match slots.2 {
                                    Some(JsonV::Obj(o)) => JsonV::Obj(o),
                                    _ => JsonV::Obj(Seq::empty()),
                                },
                            },
                        )
                    } else {
                        None
                    }
                },
                _ => None,
            }
        },
        _ => None,
    }
}

/// The empty JSON object.
pub fn empty_obj() -> (r: Json)
    ensures
        jval(r) == JsonV::Obj(Seq::<(Seq<u8>, JsonV)>::empty()),
{
    let e: Vec<(Vec<u8>, Json)> = Vec::new();
    assert(oview(e) =~= Seq::<(Seq<u8>, JsonV)>::empty());
    Json::Obj(e)
}

/// Decode a JSON tree into an operation document.
pub fn doc_from_json(j: Json) -> (r: Option<Doc>)
    ensures
        match r {
            Some(d) => doc_of_json(jval(j)) == Some(dview(d)),
            None => doc_of_json(jval(j)) is None,
        },
{
    match j {
        Json::Obj(mut fields) => {
            let ghost fields0 = oview(fields);
            let mut q: Option<Json> = None;
            let mut on: Option<Json> = None;
            let mut vs: Option<Json> = None;
            let qk = "query".as_bytes_vec();
            let onk = "operationName".as_bytes_vec();
            let vsk = "variables".as_bytes_vec();
            while fields.len() > 0
                invariant
                    qk@ == "query".spec_bytes(),
                    onk@ == "operationName".spec_bytes(),
                    vsk@ == "variables".spec_bytes(),
                    scan_doc(oview(fields), oj(q), oj(on), oj(vs)) == scan_doc(
                        fields0,
                        None,
                        None,
                        None,
                    ),
                decreases fields@.len(),
            {
                let ghost pre = oview(fields);
                let (k, v) = fields.remove(0);
                proof {
                    assert(oview(fields) =~= pre.drop_first());
                    assert(pre[0].0 == k@);
                    assert(pre[0].1 == jval(v));
                }
                if q.is_none() && bytes_eq(k.as_slice(), qk.as_slice()) {
                    q = Some(v);
                } else if on.is_none() && bytes_eq(k.as_slice(), onk.as_slice()) {
                    on = Some(v);
                } else if vs.is_none() && bytes_eq(k.as_slice(), vsk.as_slice()) {
                    vs = Some(v);
                }
            }
            proof {
                assert(oview(fields).len() == 0);
                assert(scan_doc(oview(fields), oj(q), oj(on), oj(vs)) == (oj(q), oj(on), oj(vs)));
            }
            let query = match q {
                Some(Json::Str(qs)) => qs,
                _ => {
                    return None;
                },
            };
            let operation_name = match on {
                None => None,
                Some(Json::Null) => None,
                Some(Json::Str(s)) => Some(s),
                Some(_) => {
                    return None;
                },
            };
            let variables = match vs {
                None => empty_obj(),
                Some(Json::Null) => empty_obj(),
                Some(Json::Obj(o)) => Json::Obj(o),
                Some(_) => {
                    return None;
                },
            };
            Some(Doc { query, operation_name, variables })
        },
        _ => None,
    }
}

// ---------------------------------------------------------------------------
// The file map: upload-field-name -> list of variable paths. A malformed map
// degrades to "no uploads declared" at the caller.
// ---------------------------------------------------------------------------

/// The views of a list of path lists.
pub open spec fn fmview(v: Seq<(Vec<u8>, Vec<Vec<u8>>)>) -> Seq<(Seq<u8>, Seq<Seq<u8>>)> {
    Seq::new(v.len(), |i: int| (v[i].0@, seqs(v[i].1@)))
}

/// The elements of `elems` as strings, or `None` if one is not a string.
pub open spec fn strs_of(elems: Seq<JsonV>) -> Option<Seq<Seq<u8>>>
    decreases elems.len(),
{
    if elems.len() == 0 {
        Some(Seq::empty())
    } else {
        match elems[0] {
            JsonV::Str(s) => match strs_of(elems.drop_first()) {
                Some(t) => Some(seq![s] + t),
                None => None,
            },
            _ => None,
        }
    }
}

/// The entries of a map object, each value a list of strings.
pub open spec fn fmap_entries(fields: Seq<(Seq<u8>, JsonV)>) -> Option<
    Seq<(Seq<u8>, Seq<Seq<u8>>)>,
>
    decreases fields.len(),
{
    if fields.len() == 0 {
        Some(Seq::empty())
    } else {
        match fields[0].1 {
            JsonV::Arr(elems) => match strs_of(elems) {
                Some(ps) => match fmap_entries(fields.drop_first()) {
                    Some(t) => Some(seq![(fields[0].0, ps)] + t),
                    None => None,
                },
                None => None,
            },
            _ => None,
        }
    }
}

/// The file map a JSON tree describes, if it is well-formed.
pub open spec fn fmap_of_json(j: JsonV) -> Option<Seq<(Seq<u8>, Seq<Seq<u8>>)>> {
    match j {
        JsonV::Obj(fields) => fmap_entries(fields),
        _ => None,
    }
}

/// The file map a JSON tree describes, a malformed one degrading to empty.
pub open spec fn fmap_or_empty(j: JsonV) -> Seq<(Seq<u8>, Seq<Seq<u8>>)> {
    match fmap_of_json(j) {
        Some(m) => m,
        None => Seq::empty(),
    }
}

fn path_strs(elems: Vec<Json>) -> (r: Option<Vec<Vec<u8>>>)
    ensures
        match r {
            Some(v) => strs_of(aview(elems)) == Some(seqs(v@)),
            None => strs_of(aview(elems)) is None,
        },
    decreases elems@.len(),
{
    let mut elems = elems;
    let ghost orig = aview(elems);
    if elems.len() == 0 {
        let out: Vec<Vec<u8>> = Vec::new();
        assert(seqs(out@) =~= Seq::<Seq<u8>>::empty());
        return Some(out);
    }
    let h = elems.remove(0);
    proof {
        assert(aview(elems) =~= orig.drop_first());
        assert(orig[0] == jval(h));
    }
    match h {
        Json::Str(s) => match path_strs(elems) {
            Some(mut t) => {
                t.insert(0, s);
                assert(seqs(t@) =~= seq![s@] + seqs(t@.drop_first()));
                Some(t)
            },
            None => None,
        },
        _ => None,
    }
}

fn fmap_list(fields: Vec<(Vec<u8>, Json)>) -> (r: Option<Vec<(Vec<u8>, Vec<Vec<u8>>)>>)
    ensures
        match r {
            Some(v) => fmap_entries(oview(fields)) == Some(fmview(v@)),
            None => fmap_entries(oview(fields)) is None,
        },
    decreases fields@.len(),
{
    let mut fields = fields;
    let ghost orig = oview(fields);
    if fields.len() == 0 {
        let out: Vec<(Vec<u8>, Vec<Vec<u8>>)> = Vec::new();
        assert(fmview(out@) =~= Seq::<(Seq<u8>, Seq<Seq<u8>>)>::empty());
        return Some(out);
    }
    let (k, v) = fields.remove(0);
    proof {
        assert(oview(fields) =~= orig.drop_first());
        assert(orig[0].0 == k@);
        assert(orig[0].1 == jval(v));
    }
    match v {
        Json::Arr(elems) => match path_strs(elems) {
            Some(ps) => match fmap_list(fields) {
                Some(mut t) => {
                    t.insert(0, (k, ps));
                    assert(fmview(t@) =~= seq![(t@[0].0@, seqs(t@[0].1@))] + fmview(
                        t@.drop_first(),
                    ));
                    Some(t)
                },
                None => None,
            },
            None => None,
        },
        _ => None,
    }
}

/// Decode the `map` part: a malformed map yields no declared uploads.
pub fn file_map_from_json(j: Json) -> (r: Vec<(Vec<u8>, Vec<Vec<u8>>)>)
    ensures
        fmview(r@) == fmap_or_empty(jval(j)),
{
    match j {
        Json::Obj(fields) => match fmap_list(fields) {
            Some(m) => m,
            None => {
                let out: Vec<(Vec<u8>, Vec<Vec<u8>>)> = Vec::new();
                assert(fmview(out@) =~= Seq::<(Seq<u8>, Seq<Seq<u8>>)>::empty());
                out
            },
        },
        _ => {
            let out: Vec<(Vec<u8>, Vec<Vec<u8>>)> = Vec::new();
            assert(fmview(out@) =~= Seq::<(Seq<u8>, Seq<Seq<u8>>)>::empty());
            out
        },
    }
}

} // verus!
