use vstd::prelude::*;
use vstd::string::StringSliceAdditionalSpecFns;
use crate::dispatch::{endpoint_spec, outcome_of, Method, OutcomeV};
use crate::extract::{
    fold_fields, get_extract, multipart_extract, op_doc_of, post_extract, BodyV, FoldV,
};
use crate::json::{all_digits, digits_val, key_at, lemma_key_at, set_path_v, JsonV, UploadV};
use crate::multipart::{spec_multipart, FieldV};
use crate::trusted::{json_of, playground_html_of};
use crate::doc::DocV;
use crate::ExtractError;

verus! {

// The laws this library states of itself, each proved from the public
// contracts alone.

/// A valid JSON operation document posted as a text or raw byte body comes
/// back verbatim as the normalized request.
pub proof fn law_post_text_round_trip(ct: Option<Seq<u8>>, t: Seq<u8>, d: DocV)
    requires
        op_doc_of(t) == Some(d),
    ensures
        post_extract(ct, BodyV::Text(t)) == Ok::<DocV, ExtractError>(d),
{
}

/// The same document posted as raw bytes under a non-multipart Content-Type
/// comes back verbatim too.
pub proof fn law_post_binary_round_trip(c: Seq<u8>, t: Seq<u8>, d: DocV)
    requires
        op_doc_of(t) == Some(d),
        crate::extract::all_visible(c),
        !crate::scan::match_at(c, "multipart/form-data".spec_bytes(), 0),
    ensures
        post_extract(Some(c), BodyV::Binary(t)) == Ok::<DocV, ExtractError>(d),
{
}

/// A GET request with a `query` parameter and an unparseable `variables`
/// parameter yields empty variables, not an error.
pub proof fn law_get_variables_fallback(params: Seq<(Seq<u8>, Seq<u8>)>, q: Seq<u8>, v: Seq<u8>)
    requires
        crate::extract::first_param(params, "query".spec_bytes(), 0) == Some(q),
        crate::extract::first_param(params, "variables".spec_bytes(), 0) == Some(v),
        json_of(v) is None,
    ensures
        get_extract(params) == Ok::<DocV, ExtractError>(
            DocV {
                query: q,
                operation_name: crate::extract::first_param(
                    params,
                    "operationName".spec_bytes(),
                    0,
                ),
                variables: JsonV::Obj(Seq::empty()),
            },
        ),
{
}

/// A POST with an empty body always fails with `EmptyBody`.
pub proof fn law_empty_body(ct: Option<Seq<u8>>)
    ensures
        post_extract(ct, BodyV::Empty) == Err::<DocV, ExtractError>(ExtractError::EmptyBody),
{
}

/// No field of the stream is named `operations`.
pub open spec fn no_operations(fields: Seq<FieldV>) -> bool {
    forall|i: int|
        0 <= i < fields.len() ==> (#[trigger] fields[i].name) != Some("operations".spec_bytes())
}

proof fn lemma_fold_keeps_no_doc(rest: Seq<FieldV>, st: FoldV)
    requires
        no_operations(rest),
        st.doc is None,
    ensures
        fold_fields(rest, st).doc is None,
    decreases rest.len(),
{
    if rest.len() == 0 {
    } else {
        assert(rest[0].name != Some("operations".spec_bytes()));
        assert(forall|i: int|
            0 <= i < rest.drop_first().len() ==> (#[trigger] rest.drop_first()[i].name) == rest[
                i + 1
            ].name);
        let f = rest[0];
        let st2 = match f.name {
            Some(nm) => if nm == "operations".spec_bytes() {
                FoldV { doc: op_doc_of(f.data), fmap: st.fmap, subs: st.subs }
            } else if nm == "map".spec_bytes() {
                FoldV { doc: st.doc, fmap: crate::extract::fmap_from_bytes(f.data), subs: st.subs }
            } else {
                match crate::extract::fmap_at(st.fmap, nm, 0) {
                    Some(k) => FoldV {
                        doc: st.doc,
                        fmap: st.fmap,
                        subs: st.subs + seq![
                            (st.fmap[k].1, crate::extract::upload_of(f)),
                        ],
                    },
                    None => st,
                }
            },
            None => st,
        };
        assert(st2.doc is None);
        lemma_fold_keeps_no_doc(rest.drop_first(), st2);
    }
}

/// A multipart stream without an `operations` part fails with
/// `MissingQuery`, however many file parts it carries.
pub proof fn law_multipart_missing_operations(body: Seq<u8>, boundary: Seq<u8>, fields: Seq<FieldV>)
    requires
        spec_multipart(body, boundary) == Some(fields),
        no_operations(fields),
    ensures
        multipart_extract(body, boundary) == Err::<DocV, ExtractError>(ExtractError::MissingQuery),
{
    lemma_fold_keeps_no_doc(
        fields,
        FoldV { doc: None, fmap: Seq::empty(), subs: Seq::empty() },
    );
}

/// A multipart POST whose Content-Type declares no boundary fails with
/// `InvalidData` before any field is read.
pub proof fn law_missing_boundary(c: Seq<u8>, b: Seq<u8>)
    requires
        crate::extract::all_visible(c),
        crate::scan::match_at(c, "multipart/form-data".spec_bytes(), 0),
        crate::multipart::spec_boundary_of(c) is None,
    ensures
        post_extract(Some(c), BodyV::Binary(b)) == Err::<DocV, ExtractError>(
            ExtractError::InvalidData,
        ),
{
}

/// `GET /playground` always yields the playground page for the GraphQL
/// endpoint, whatever the parameters, headers and body.
pub proof fn law_playground(
    path: Seq<u8>,
    ct: Option<Seq<u8>>,
    params: Seq<(Seq<u8>, Seq<u8>)>,
    body: BodyV,
)
    requires
        path == "/playground".spec_bytes(),
    ensures
        outcome_of(Method::Get, path, ct, params, body) == OutcomeV::Playground(
            playground_html_of(endpoint_spec()),
        ),
{
}

/// Any (method, path) pair other than the three routed ones is refused.
pub proof fn law_method_not_allowed(
    method: Method,
    path: Seq<u8>,
    ct: Option<Seq<u8>>,
    params: Seq<(Seq<u8>, Seq<u8>)>,
    body: BodyV,
)
    requires
        !(method == Method::Get && path == "/playground".spec_bytes()),
        !((method == Method::Get || method == Method::Post) && path == "/graphql".spec_bytes()),
    ensures
        outcome_of(method, path, ct, params, body) == OutcomeV::MethodNotAllowed,
{
}

// ---------------------------------------------------------------------------
// Substitution laws: what lands where when uploads are applied.
// ---------------------------------------------------------------------------

/// The node that segments `i..` of `segs` name inside `v`, if the path
/// resolves.
pub open spec fn get_path_v(v: JsonV, segs: Seq<Seq<u8>>, i: int) -> Option<JsonV>
    decreases segs.len() - i,
{
    if i >= segs.len() {
        Some(v)
    } else {
        match v {
            JsonV::Obj(fields) => match key_at(fields, segs[i], 0) {
                Some(k) => get_path_v(fields[k].1, segs, i + 1),
                None => None,
            },
            JsonV::Arr(elems) => {
                if all_digits(segs[i]) && digits_val(segs[i]) < elems.len() {
                    get_path_v(elems[digits_val(segs[i]) as int], segs, i + 1)
                } else {
                    None
                }
            },
            _ => None,
        }
    }
}

proof fn lemma_key_at_update(
    fields: Seq<(Seq<u8>, JsonV)>,
    k: Seq<u8>,
    from: int,
    j: int,
    x: JsonV,
)
    requires
        0 <= j < fields.len(),
    ensures
        key_at(fields.update(j, (fields[j].0, x)), k, from) == key_at(fields, k, from),
    decreases fields.len() - from,
{
    if from < 0 || from >= fields.len() {
    } else {
        assert(fields.update(j, (fields[j].0, x))[from].0 == fields[from].0);
        if fields[from].0 == k {
        } else {
            lemma_key_at_update(fields, k, from + 1, j, x);
        }
    }
}

/// A substitution at a path that resolves puts the upload exactly there.
pub proof fn law_substituted_at_path(v: JsonV, segs: Seq<Seq<u8>>, i: int, up: UploadV)
    requires
        get_path_v(v, segs, i) is Some,
    ensures
        get_path_v(set_path_v(v, segs, i, up), segs, i) == Some(JsonV::Upload(up)),
    decreases segs.len() - i,
{
    if i >= segs.len() {
    } else {
        match v {
            JsonV::Obj(fields) => {
                let k = key_at(fields, segs[i], 0)->Some_0;
                lemma_key_at(fields, segs[i], 0);
                let child2 = set_path_v(fields[k].1, segs, i + 1, up);
                lemma_key_at_update(fields, segs[i], 0, k, child2);
                law_substituted_at_path(fields[k].1, segs, i + 1, up);
            },
            JsonV::Arr(elems) => {
                law_substituted_at_path(elems[digits_val(segs[i]) as int], segs, i + 1, up);
            },
            _ => {},
        }
    }
}

/// A substitution at one path leaves every path that diverges from it
/// (equal up to some segment, then a different key or index) untouched.
pub proof fn law_substitution_frames_other_paths(
    v: JsonV,
    a: Seq<Seq<u8>>,
    b: Seq<Seq<u8>>,
    i: int,
    j: int,
    up: UploadV,
)
    requires
        i <= j < a.len(),
        j < b.len(),
        forall|m: int| i <= m < j ==> a[m] == b[m],
        a[j] != b[j],
        !(all_digits(a[j]) && all_digits(b[j]) && digits_val(a[j]) == digits_val(b[j])),
    ensures
        get_path_v(set_path_v(v, a, i, up), b, i) == get_path_v(v, b, i),
    decreases j - i,
{
    match v {
        JsonV::Obj(fields) => {
            match key_at(fields, a[i], 0) {
                Some(ka) => {
                    lemma_key_at(fields, a[i], 0);
                    let child2 = set_path_v(fields[ka].1, a, i + 1, up);
                    let fields2 = fields.update(ka, (fields[ka].0, child2));
                    lemma_key_at_update(fields, b[i], 0, ka, child2);
                    if i == j {
                        // the two paths part here: different keys, so the
                        // entry `b` walks through is not the updated one
                        match key_at(fields, b[i], 0) {
                            Some(kb) => {
                                lemma_key_at(fields, b[i], 0);
                                assert(fields[ka].0 == a[i]);
                                assert(fields[kb].0 == b[i]);
                                assert(ka != kb);
                                assert(fields2[kb] == fields[kb]);
                            },
                            None => {},
                        }
                    } else {
                        assert(a[i] == b[i]);
                        match key_at(fields, b[i], 0) {
                            Some(kb) => {
                                assert(kb == ka);
                                law_substitution_frames_other_paths(
                                    fields[ka].1,
                                    a,
                                    b,
                                    i + 1,
                                    j,
                                    up,
                                );
                            },
                            None => {},
                        }
                    }
                },
                None => {},
            }
        },
        JsonV::Arr(elems) => {
            if all_digits(a[i]) && digits_val(a[i]) < elems.len() {
                let na = digits_val(a[i]) as int;
                let child2 = set_path_v(elems[na], a, i + 1, up);
                let elems2 = elems.update(na, child2);
                if i == j {
                    if all_digits(b[i]) && digits_val(b[i]) < elems.len() {
                        let nb = digits_val(b[i]) as int;
                        assert(na != nb);
                        assert(elems2[nb] == elems[nb]);
                    }
                } else {
                    assert(a[i] == b[i]);
                    if all_digits(b[i]) && digits_val(b[i]) < elems.len() {
                        law_substitution_frames_other_paths(elems[na], a, b, i + 1, j, up);
                    }
                }
            }
        },
        _ => {},
    }
}

/// Broadcast: one upload declared for two paths that diverge lands at both.
pub proof fn law_broadcast_pair(v: JsonV, a: Seq<Seq<u8>>, b: Seq<Seq<u8>>, j: int, up: UploadV)
    requires
        get_path_v(v, a, 0) is Some,
        get_path_v(v, b, 0) is Some,
        0 <= j < a.len(),
        j < b.len(),
        forall|m: int| 0 <= m < j ==> a[m] == b[m],
        a[j] != b[j],
        !(all_digits(a[j]) && all_digits(b[j]) && digits_val(a[j]) == digits_val(b[j])),
    ensures
        get_path_v(set_path_v(set_path_v(v, a, 0, up), b, 0, up), a, 0) == Some(
            JsonV::Upload(up),
        ),
        get_path_v(set_path_v(set_path_v(v, a, 0, up), b, 0, up), b, 0) == Some(
            JsonV::Upload(up),
        ),
{
    let v1 = set_path_v(v, a, 0, up);
    law_substituted_at_path(v, a, 0, up);
    law_substitution_frames_other_paths(v, a, b, 0, j, up);
    law_substituted_at_path(v1, b, 0, up);
    law_substitution_frames_other_paths(v1, b, a, 0, j, up);
}

} // verus!
