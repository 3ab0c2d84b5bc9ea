use vstd::prelude::*;
use vstd::slice::{slice_subrange, slice_to_vec};
use crate::scan::{bytes_eq, seqs, sub_vec};

verus! {

broadcast use vstd::std_specs::vec::axiom_vec_index_decreases;

// The crate's own JSON tree. Strings and number literals are held as UTF-8
// bytes; an `Upload` node stands where a declared upload path was substituted
// by its received attachment. Parsing never produces `Upload`; only the file
// map resolver inserts it.

#[derive(Debug, PartialEq, Eq)]
pub struct UploadValue {
    pub filename: Vec<u8>,
    pub content_type: Option<Vec<u8>>,
    pub content: Vec<u8>,
}

#[derive(Debug, PartialEq, Eq)]
pub enum Json {
    Null,
    Bool(bool),
    Num(Vec<u8>),
    Str(Vec<u8>),
    Arr(Vec<Json>),
    Obj(Vec<(Vec<u8>, Json)>),
    Upload(UploadValue),
}

/// Mathematical model of an upload.
pub struct UploadV {
    pub filename: Seq<u8>,
    pub content_type: Option<Seq<u8>>,
    pub content: Seq<u8>,
}

/// Mathematical model of a JSON tree.
pub enum JsonV {
    Null,
    Bool(bool),
    Num(Seq<u8>),
    Str(Seq<u8>),
    Arr(Seq<JsonV>),
    Obj(Seq<(Seq<u8>, JsonV)>),
    Upload(UploadV),
}

pub open spec fn uview(u: UploadValue) -> UploadV {
    UploadV {
        filename: u.filename@,
        content_type: match u.content_type {
            Some(c) => Some(c@),
            None => None,
        },
        content: u.content@,
    }
}

pub open spec fn aview(a: Vec<Json>) -> Seq<JsonV>
    decreases a,
{
    Seq::new(
        a@.len(),
        |i: int|
            if 0 <= i < a@.len() {
                jval(a[i])
            } else {
                JsonV::Null
            },
    )
}

pub open spec fn oview(o: Vec<(Vec<u8>, Json)>) -> Seq<(Seq<u8>, JsonV)>
    decreases o,
{
    Seq::new(
        o@.len(),
        |i: int|
            if 0 <= i < o@.len() {
                (o[i].0@, jval(o[i].1))
            } else {
                (Seq::<u8>::empty(), JsonV::Null)
            },
    )
}

/// The model of an executable JSON tree.
pub open spec fn jval(j: Json) -> JsonV
    decreases j,
{
    match j {
        Json::Null => JsonV::Null,
        Json::Bool(b) => JsonV::Bool(b),
        Json::Num(n) => JsonV::Num(n@),
        Json::Str(s) => JsonV::Str(s@),
        Json::Arr(a) => JsonV::Arr(aview(a)),
        Json::Obj(o) => JsonV::Obj(oview(o)),
        Json::Upload(u) => JsonV::Upload(uview(u)),
    }
}

/// Index of the first entry of `o` whose key is `k`, at or after `from`.
pub open spec fn key_at(o: Seq<(Seq<u8>, JsonV)>, k: Seq<u8>, from: int) -> Option<int>
    decreases o.len() - from,
{
    if from < 0 || from >= o.len() {
        None
    } else if o[from].0 == k {
        Some(from)
    } else {
        key_at(o, k, from + 1)
    }
}

pub proof fn lemma_key_at(o: Seq<(Seq<u8>, JsonV)>, k: Seq<u8>, from: int)
    requires
        key_at(o, k, from) is Some,
    ensures
        from <= key_at(o, k, from)->Some_0 < o.len(),
        o[key_at(o, k, from)->Some_0].0 == k,
    decreases o.len() - from,
{
    if from < 0 || from >= o.len() {
    } else if o[from].0 == k {
    } else {
        lemma_key_at(o, k, from + 1);
    }
}

/// First occurrence of byte `b` in `s` at or after `from`.
pub open spec fn first_byte(s: Seq<u8>, b: u8, from: int) -> Option<int>
    decreases s.len() - from,
{
    if from < 0 || from >= s.len() {
        None
    } else if s[from] == b {
        Some(from)
    } else {
        first_byte(s, b, from + 1)
    }
}

pub fn find_byte(s: &[u8], b: u8, from: usize) -> (r: Option<usize>)
    ensures
        match r {
            Some(i) => first_byte(s@, b, from as int) == Some(i as int),
            None => first_byte(s@, b, from as int) is None,
        },
    decreases s@.len() - from,
{
    if from >= s.len() {
        None
    } else if s[from] == b {
        Some(from)
    } else {
        find_byte(s, b, from + 1)
    }
}

/// `s` split on the byte `sep`; always at least one piece.
pub open spec fn spec_split(s: Seq<u8>, sep: u8) -> Seq<Seq<u8>>
    decreases s.len(),
{
    match first_byte(s, sep, 0) {
        None => seq![s],
        Some(i) => if 0 <= i < s.len() {
            seq![s.subrange(0, i)] + spec_split(s.subrange(i + 1, s.len() as int), sep)
        } else {
            seq![s]
        },
    }
}

pub proof fn lemma_first_byte_in_range(s: Seq<u8>, b: u8, from: int)
    requires
        first_byte(s, b, from) is Some,
    ensures
        from <= first_byte(s, b, from)->Some_0 < s.len(),
    decreases s.len() - from,
{
    if from < 0 || from >= s.len() {
    } else if s[from] == b {
    } else {
        lemma_first_byte_in_range(s, b, from + 1);
    }
}

pub fn split_bytes(s: &[u8], sep: u8) -> (r: Vec<Vec<u8>>)
    ensures
        seqs(r@) =~= spec_split(s@, sep),
    decreases s@.len(),
{
    match find_byte(s, sep, 0) {
        None => {
            let mut out: Vec<Vec<u8>> = Vec::new();
            out.push(slice_to_vec(s));
            assert(seqs(out@) =~= seq![s@]);
            out
        },
        Some(i) => {
            proof {
                lemma_first_byte_in_range(s@, sep, 0);
            }
            let n = s.len();
            let head = sub_vec(s, 0, i);
            let tail = slice_subrange(s, i + 1, n);
            let mut rest = split_bytes(tail, sep);
            rest.insert(0, head);
            assert(seqs(rest@) =~= seq![s@.subrange(0, i as int)] + spec_split(
                s@.subrange(i + 1, s@.len() as int),
                sep,
            ));
            rest
        },
    }
}

/// Whether `s` is a non-empty run of decimal digits.
pub open spec fn all_digits(s: Seq<u8>) -> bool {
    s.len() > 0 && forall|i: int| 0 <= i < s.len() ==> 48 <= #[trigger] s[i] <= 57
}

/// The number written in decimal in `s`.
pub open spec fn digits_val(s: Seq<u8>) -> nat
    decreases s.len(),
{
    if s.len() == 0 {
        0
    } else {
        digits_val(s.drop_last()) * 10 + (if s[s.len() - 1] >= 48 {
            (s[s.len() - 1] - 48) as nat
        } else {
            0
        })
    }
}

/// Decimal value of a path segment, bounded by `cap`; `None` when the segment
/// is not a run of digits or names a position at or past `cap`.
pub fn seg_index(seg: &[u8], cap: usize) -> (r: Option<usize>)
    ensures
        match r {
            Some(n) => all_digits(seg@) && digits_val(seg@) == n && n < cap,
            None => !all_digits(seg@) || digits_val(seg@) >= cap,
        },
{
    if seg.len() == 0 {
        return None;
    }
    let mut acc: u128 = 0;
    let mut i: usize = 0;
    while i < seg.len()
        invariant
            0 < seg@.len(),
            i <= seg@.len(),
            forall|k: int| 0 <= k < i ==> 48 <= #[trigger] seg@[k] <= 57,
            acc <= cap as u128,
            digits_val(seg@.subrange(0, i as int)) < cap ==> acc == digits_val(
                seg@.subrange(0, i as int),
            ),
            digits_val(seg@.subrange(0, i as int)) >= cap ==> acc == cap as u128,
        decreases seg@.len() - i,
    {
        let b = seg[i];
        if b < 48 || b > 57 {
            return None;
        }
        let d: u128 = (b - 48) as u128;
        let ghost prev = seg@.subrange(0, i as int);
        let ghost cur = seg@.subrange(0, i + 1 as int);
        proof {
            assert(cur.drop_last() =~= prev);
            assert(digits_val(cur) == digits_val(prev) * 10 + (seg@[i as int] - 48));
            assert(digits_val(prev) * 10 >= digits_val(prev)) by (nonlinear_arith);
        }
        let next: u128 = acc * 10 + d;
        if next >= cap as u128 {
            acc = cap as u128;
            proof {
                if digits_val(prev) >= cap as nat {
                    assert(digits_val(cur) >= digits_val(prev));
                } else {
                    assert(acc as nat == cap as nat);
                }
            }
        } else {
            acc = next;
        }
        i += 1;
    }
    assert(seg@.subrange(0, seg@.len() as int) =~= seg@);
    if acc < cap as u128 {
        Some(acc as usize)
    } else {
        None
    }
}

// ---------------------------------------------------------------------------
// Path substitution: the heart of the file map resolver. A path such as
// `variables.image` or `variables.files.0` is split on dots; the leading
// segment must be `variables`, the rest walks the variables tree by object
// key or array index. An unresolvable path leaves the tree unchanged.
// ---------------------------------------------------------------------------

/// One substitution step at segment `i` of `segs`.
pub open spec fn set_path_v(v: JsonV, segs: Seq<Seq<u8>>, i: int, up: UploadV) -> JsonV
    decreases segs.len() - i,
{
    if i >= segs.len() {
        JsonV::Upload(up)
    } else {
        match v {
            JsonV::Obj(fields) => match key_at(fields, segs[i], 0) {
                Some(k) => JsonV::Obj(
                    fields.update(k, (fields[k].0, set_path_v(fields[k].1, segs, i + 1, up))),
                ),
                None => v,
            },
            JsonV::Arr(elems) => {
                if all_digits(segs[i]) && digits_val(segs[i]) < elems.len() {
                    JsonV::Arr(
                        elems.update(
                            digits_val(segs[i]) as int,
                            set_path_v(elems[digits_val(segs[i]) as int], segs, i + 1, up),
                        ),
                    )
                } else {
                    v
                }
            },
            _ => v,
        }
    }
}

pub fn find_entry(fields: &Vec<(Vec<u8>, Json)>, k: &[u8]) -> (r: Option<usize>)
    ensures
        match r {
            Some(i) => i < fields@.len() && key_at(oview(*fields), k@, 0) == Some(i as int),
            None => key_at(oview(*fields), k@, 0) is None,
        },
{
    let mut i: usize = 0;
    while i < fields.len()
        invariant
            i <= fields@.len(),
            key_at(oview(*fields), k@, 0) == key_at(oview(*fields), k@, i as int),
        decreases fields@.len() - i,
    {
        if bytes_eq(fields[i].0.as_slice(), k) {
            assert(oview(*fields)[i as int].0 == k@);
            return Some(i);
        }
        assert(oview(*fields)[i as int].0 != k@);
        i += 1;
    }
    None
}

/// A copy of an upload (payload bytes included).
pub fn dup_upload(u: &UploadValue) -> (r: UploadValue)
    ensures
        uview(r) == uview(*u),
{
    let content_type = match &u.content_type {
        Some(c) => Some(slice_to_vec(c.as_slice())),
        None => None,
    };
    UploadValue {
        filename: slice_to_vec(u.filename.as_slice()),
        content_type,
        content: slice_to_vec(u.content.as_slice()),
    }
}

/// Substitute `up` at the node that segments `i..` of `segs` name inside `v`.
pub fn apply_path(v: Json, segs: &Vec<Vec<u8>>, i: usize, up: &UploadValue) -> (r: Json)
    requires
        i <= segs@.len(),
    ensures
        jval(r) == set_path_v(jval(v), seqs(segs@), i as int, uview(*up)),
    decreases segs@.len() - i,
{
    if i >= segs.len() {
        return Json::Upload(dup_upload(up));
    }
    let seg = &segs[i];
    match v {
        Json::Obj(mut fields) => {
            match find_entry(&fields, seg.as_slice()) {
                Some(k) => {
                    let ghost before = fields;
                    let (key, child) = fields.remove(k);
                    let newv = apply_path(child, segs, i + 1, up);
                    fields.insert(k, (key, newv));
                    proof {
                        lemma_key_at(oview(before), seg@, 0);
                        assert(oview(fields) =~= oview(before).update(
                            k as int,
                            (
                                oview(before)[k as int].0,
                                set_path_v(jval(before[k as int].1), seqs(segs@), i + 1, uview(*up)),
                            ),
                        ));
                    }
                    Json::Obj(fields)
                },
                None => Json::Obj(fields),
            }
        },
        Json::Arr(mut elems) => {
            match seg_index(seg.as_slice(), elems.len()) {
                Some(n) => {
                    let ghost before = elems;
                    let child = elems.remove(n);
                    let newv = apply_path(child, segs, i + 1, up);
                    elems.insert(n, newv);
                    proof {
                        assert(aview(elems) =~= aview(before).update(
                            n as int,
                            set_path_v(jval(before[n as int]), seqs(segs@), i + 1, uview(*up)),
                        ));
                    }
                    Json::Arr(elems)
                },
                None => Json::Arr(elems),
            }
        },
        other => other,
    }
}

} // verus!
