use vstd::prelude::*;
use vstd::string::{StrSliceExecFns, StringSliceAdditionalSpecFns};
use crate::json::{find_byte, first_byte};
use crate::scan::{
    bytes_eq, concat_bytes, eq_sub, find, four_bytes, lemma_find_bounds, match_at, seqs,
    one_byte, spec_find, spec_lower, spec_split_on, spec_trim, split_on, starts_with, sub_vec,
    to_lower, trim, trim_start, two_bytes,
};

verus! {

// The field stream reader: a raw byte buffer plus a boundary token, read as
// a finite sequence of named multipart parts. The framing grammar is the
// usual multipart/form-data one: the body starts with `--boundary`; after
// each delimiter either `--` closes the stream or CRLF opens a part; a part
// is a CRLF-separated header block, a blank line, and a payload running to
// the next `\r\n--boundary`. Malformed framing is a parse failure.

#[derive(Debug, PartialEq, Eq)]
pub struct FieldRec {
    pub name: Option<Vec<u8>>,
    pub filename: Option<Vec<u8>>,
    pub content_type: Option<Vec<u8>>,
    pub data: Vec<u8>,
}

/// Mathematical model of one multipart field.
pub struct FieldV {
    pub name: Option<Seq<u8>>,
    pub filename: Option<Seq<u8>>,
    pub content_type: Option<Seq<u8>>,
    pub data: Seq<u8>,
}

pub open spec fn ob(o: Option<Vec<u8>>) -> Option<Seq<u8>> {
    match o {
        Some(v) => Some(v@),
        None => None,
    }
}

pub open spec fn fview(f: FieldRec) -> FieldV {
    FieldV {
        name: ob(f.name),
        filename: ob(f.filename),
        content_type: ob(f.content_type),
        data: f.data@,
    }
}

pub open spec fn fviews(s: Seq<FieldRec>) -> Seq<FieldV> {
    Seq::new(s.len(), |i: int| fview(s[i]))
}

/// The first header line of `lines` (at or after `i`) whose name, lowered
/// and trimmed, is `key`; its value, trimmed.
pub open spec fn spec_find_header(lines: Seq<Seq<u8>>, i: int, key: Seq<u8>) -> Option<Seq<u8>>
    decreases lines.len() - i,
{
    if i < 0 || i >= lines.len() {
        None
    } else {
        let line = lines[i];
        match first_byte(line, 58, 0) {
            Some(c) => if 0 <= c < line.len() && spec_lower(spec_trim(line.subrange(0, c)))
                == key {
                Some(spec_trim(line.subrange(c + 1, line.len() as int)))
            } else {
                spec_find_header(lines, i + 1, key)
            },
            None => spec_find_header(lines, i + 1, key),
        }
    }
}

/// A quoted parameter value without its quotes; an unquoted one unchanged.
pub open spec fn spec_unquote(v: Seq<u8>) -> Seq<u8> {
    if v.len() >= 2 && v[0] == 34 && v[v.len() - 1] == 34 {
        v.subrange(1, v.len() - 1)
    } else {
        v
    }
}

/// The first `key=value` segment of `segs` (at or after `i`) whose key,
/// lowered and trimmed, is `key`; its value, trimmed and unquoted.
pub open spec fn spec_param(segs: Seq<Seq<u8>>, i: int, key: Seq<u8>) -> Option<Seq<u8>>
    decreases segs.len() - i,
{
    if i < 0 || i >= segs.len() {
        None
    } else {
        let seg = segs[i];
        match first_byte(seg, 61, 0) {
            Some(e) => if 0 <= e < seg.len() && spec_lower(spec_trim(seg.subrange(0, e))) == key {
                Some(spec_unquote(spec_trim(seg.subrange(e + 1, seg.len() as int))))
            } else {
                spec_param(segs, i + 1, key)
            },
            None => spec_param(segs, i + 1, key),
        }
    }
}

/// The field described by a part's header block and payload.
pub open spec fn mk_field(headers: Seq<u8>, data: Seq<u8>) -> FieldV {
    let lines = spec_split_on(headers, seq![13u8, 10u8]);
    let disp = spec_find_header(lines, 0, "content-disposition".spec_bytes());
    let name = match disp {
        Some(d) => spec_param(spec_split_on(d, seq![59u8]), 0, "name".spec_bytes()),
        None => None,
    };
    let filename = match disp {
        Some(d) => spec_param(spec_split_on(d, seq![59u8]), 0, "filename".spec_bytes()),
        None => None,
    };
    FieldV {
        name,
        filename,
        content_type: spec_find_header(lines, 0, "content-type".spec_bytes()),
        data,
    }
}

/// The parts of `body` after position `pos`, `pos` standing just past a
/// delimiter. `--` closes the stream; CRLF opens a part; anything else is
/// malformed framing.
pub open spec fn parse_parts(body: Seq<u8>, del: Seq<u8>, pos: int) -> Option<Seq<FieldV>>
    decreases body.len() - pos,
{
    if match_at(body, seq![45u8, 45u8], pos) {
        Some(Seq::empty())
    } else if match_at(body, seq![13u8, 10u8], pos) {
        match spec_find(body, seq![13u8, 10u8, 13u8, 10u8], pos) {
            Some(hs) => if pos <= hs {
                let headers = if hs >= pos + 2 {
                    body.subrange(pos + 2, hs)
                } else {
                    Seq::<u8>::empty()
                };
                match spec_find(body, seq![13u8, 10u8] + del, hs + 4) {
                    Some(pe) => if hs + 4 <= pe && pe + 2 + del.len() <= body.len() {
                        match parse_parts(body, del, pe + 2 + del.len()) {
                            Some(rest) => Some(
                                seq![mk_field(headers, body.subrange(hs + 4, pe))] + rest,
                            ),
                            None => None,
                        }
                    } else {
                        None
                    },
                    None => None,
                }
            } else {
                None
            },
            None => None,
        }
    } else {
        None
    }
}

/// The field stream of a multipart body: the body must open with
/// `--boundary`, and its parts follow `parse_parts`.
pub open spec fn spec_multipart(body: Seq<u8>, boundary: Seq<u8>) -> Option<Seq<FieldV>> {
    let del = seq![45u8, 45u8] + boundary;
    if match_at(body, del, 0) {
        parse_parts(body, del, del.len() as int)
    } else {
        None
    }
}

fn header_val(lines: &Vec<Vec<u8>>, i: usize, key: &[u8]) -> (r: Option<Vec<u8>>)
    ensures
        match r {
            Some(v) => spec_find_header(seqs(lines@), i as int, key@) == Some(v@),
            None => spec_find_header(seqs(lines@), i as int, key@) is None,
        },
    decreases lines@.len() - i,
{
    if i >= lines.len() {
        return None;
    }
    let line = &lines[i];
    let _n = line.len();
    match find_byte(line.as_slice(), 58, 0) {
        Some(c) => {
            proof {
                crate::json::lemma_first_byte_in_range(line@, 58, 0);
            }
            let left0 = trim(slice_left(line.as_slice(), c));
            let left = to_lower(left0.as_slice());
            if bytes_eq(left.as_slice(), key) {
                Some(trim(slice_right(line.as_slice(), c + 1)))
            } else {
                header_val(lines, i + 1, key)
            }
        },
        None => header_val(lines, i + 1, key),
    }
}

fn slice_left<'a>(s: &'a [u8], c: usize) -> (r: &'a [u8])
    requires
        c <= s@.len(),
    ensures
        r@ == s@.subrange(0, c as int),
{
    vstd::slice::slice_subrange(s, 0, c)
}

fn slice_right<'a>(s: &'a [u8], c: usize) -> (r: &'a [u8])
    requires
        c <= s@.len(),
    ensures
        r@ == s@.subrange(c as int, s@.len() as int),
{
    vstd::slice::slice_subrange(s, c, s.len())
}

fn param_val(segs: &Vec<Vec<u8>>, i: usize, key: &[u8]) -> (r: Option<Vec<u8>>)
    ensures
        match r {
            Some(v) => spec_param(seqs(segs@), i as int, key@) == Some(v@),
            None => spec_param(seqs(segs@), i as int, key@) is None,
        },
    decreases segs@.len() - i,
{
    if i >= segs.len() {
        return None;
    }
    let seg = &segs[i];
    let _n = seg.len();
    match find_byte(seg.as_slice(), 61, 0) {
        Some(e) => {
            proof {
                crate::json::lemma_first_byte_in_range(seg@, 61, 0);
            }
            let left0 = trim(slice_left(seg.as_slice(), e));
            let left = to_lower(left0.as_slice());
            if bytes_eq(left.as_slice(), key) {
                let val = trim(slice_right(seg.as_slice(), e + 1));
                Some(unquote(val))
            } else {
                param_val(segs, i + 1, key)
            }
        },
        None => param_val(segs, i + 1, key),
    }
}

fn unquote(v: Vec<u8>) -> (r: Vec<u8>)
    ensures
        r@ == spec_unquote(v@),
{
    if v.len() >= 2 && v[0] == 34 && v[v.len() - 1] == 34 {
        sub_vec(v.as_slice(), 1, v.len() - 1)
    } else {
        v
    }
}

/// Read one part's field from its header block and payload.
fn read_field(headers: &[u8], data: Vec<u8>) -> (f: FieldRec)
    ensures
        fview(f) == mk_field(headers@, data@),
{
    let crlf = two_bytes(13, 10);
    let lines = split_on(headers, crlf.as_slice());
    let dispk = "content-disposition".as_bytes_vec();
    let ctk = "content-type".as_bytes_vec();
    let disp = header_val(&lines, 0, dispk.as_slice());
    let content_type = header_val(&lines, 0, ctk.as_slice());
    let (name, filename) = match disp {
        Some(d) => {
            let semi = one_byte(59);
            let segs = split_on(d.as_slice(), semi.as_slice());
            let namek = "name".as_bytes_vec();
            let filek = "filename".as_bytes_vec();
            (param_val(&segs, 0, namek.as_slice()), param_val(&segs, 0, filek.as_slice()))
        },
        None => (None, None),
    };
    FieldRec { name, filename, content_type, data }
}

fn parts_from(body: &[u8], del: &Vec<u8>, pos: usize) -> (r: Option<Vec<FieldRec>>)
    ensures
        match r {
            Some(fs) => parse_parts(body@, del@, pos as int) == Some(fviews(fs@)),
            None => parse_parts(body@, del@, pos as int) is None,
        },
    decreases body@.len() - pos,
{
    let blen = body.len();
    let dash2 = two_bytes(45, 45);
    let crlf = two_bytes(13, 10);
    if eq_sub(body, pos, dash2.as_slice()) {
        let out: Vec<FieldRec> = Vec::new();
        assert(fviews(out@) =~= Seq::<FieldV>::empty());
        return Some(out);
    }
    if !eq_sub(body, pos, crlf.as_slice()) {
        return None;
    }
    let crlf2 = four_bytes(13, 10, 13, 10);
    let hs = match find(body, crlf2.as_slice(), pos) {
        Some(h) => h,
        None => {
            return None;
        },
    };
    proof {
        lemma_find_bounds(body@, crlf2@, pos as int);
    }
    let headers: Vec<u8> = if hs >= pos + 2 {
        sub_vec(body, pos + 2, hs)
    } else {
        Vec::new()
    };
    let ps = hs + 4;
    let crlf_del = concat_bytes(crlf.as_slice(), del.as_slice());
    let pe = match find(body, crlf_del.as_slice(), ps) {
        Some(p) => p,
        None => {
            return None;
        },
    };
    proof {
        lemma_find_bounds(body@, crlf_del@, ps as int);
    }
    let data = sub_vec(body, ps, pe);
    let f = read_field(headers.as_slice(), data);
    let next = pe + 2 + del.len();
    match parts_from(body, del, next) {
        Some(mut rest) => {
            rest.insert(0, f);
            assert(fviews(rest@) =~= seq![fview(rest@[0])] + fviews(rest@.drop_first()));
            Some(rest)
        },
        None => None,
    }
}

/// Read the field stream of a multipart body; `None` on malformed framing.
pub fn parse_multipart(body: &[u8], boundary: &[u8]) -> (r: Option<Vec<FieldRec>>)
    ensures
        match r {
            Some(fs) => spec_multipart(body@, boundary@) == Some(fviews(fs@)),
            None => spec_multipart(body@, boundary@) is None,
        },
{
    let dash2 = two_bytes(45, 45);
    let del = concat_bytes(dash2.as_slice(), boundary);
    if starts_with(body, del.as_slice()) {
        parts_from(body, &del, del.len())
    } else {
        None
    }
}

// ---------------------------------------------------------------------------
// The boundary extractor: the `;`-separated segment of the Content-Type
// header whose trimmed left side starts with `boundary=`; the token between
// the segment's first and second `=`, trimmed.
// ---------------------------------------------------------------------------

/// The boundary written in one segment list, from segment `i` on.
pub open spec fn spec_boundary_seg(segs: Seq<Seq<u8>>, i: int) -> Option<Seq<u8>>
    decreases segs.len() - i,
{
    if i < 0 || i >= segs.len() {
        None
    } else {
        let seg = segs[i];
        if match_at(crate::scan::spec_trim_start(seg), "boundary=".spec_bytes(), 0) {
            match first_byte(seg, 61, 0) {
                Some(e) => if 0 <= e < seg.len() {
                    let rest = seg.subrange(e + 1, seg.len() as int);
                    let second = match first_byte(rest, 61, 0) {
                        Some(e2) => if 0 <= e2 <= rest.len() {
                            rest.subrange(0, e2)
                        } else {
                            rest
                        },
                        None => rest,
                    };
                    Some(spec_trim(second))
                } else {
                    spec_boundary_seg(segs, i + 1)
                },
                None => spec_boundary_seg(segs, i + 1),
            }
        } else {
            spec_boundary_seg(segs, i + 1)
        }
    }
}

/// The multipart boundary a Content-Type header declares, if any.
pub open spec fn spec_boundary_of(ct: Seq<u8>) -> Option<Seq<u8>> {
    spec_boundary_seg(spec_split_on(ct, seq![59u8]), 0)
}

fn boundary_seg(segs: &Vec<Vec<u8>>, i: usize) -> (r: Option<Vec<u8>>)
    ensures
        match r {
            Some(v) => spec_boundary_seg(seqs(segs@), i as int) == Some(v@),
            None => spec_boundary_seg(seqs(segs@), i as int) is None,
        },
    decreases segs@.len() - i,
{
    if i >= segs.len() {
        return None;
    }
    let seg = &segs[i];
    let _n = seg.len();
    let bk = "boundary=".as_bytes_vec();
    let trimmed = trim_start(seg.as_slice());
    if starts_with(trimmed.as_slice(), bk.as_slice()) {
        match find_byte(seg.as_slice(), 61, 0) {
            Some(e) => {
                proof {
                    crate::json::lemma_first_byte_in_range(seg@, 61, 0);
                }
                let rest = slice_right(seg.as_slice(), e + 1);
                let second: &[u8] = match find_byte(rest, 61, 0) {
                    Some(e2) => {
                        proof {
                            crate::json::lemma_first_byte_in_range(rest@, 61, 0);
                        }
                        slice_left(rest, e2)
                    },
                    None => rest,
                };
                Some(trim(second))
            },
            None => boundary_seg(segs, i + 1),
        }
    } else {
        boundary_seg(segs, i + 1)
    }
}

/// Extract the multipart boundary from a Content-Type header value.
pub fn boundary_of(ct: &[u8]) -> (r: Option<Vec<u8>>)
    ensures
        match r {
            Some(v) => spec_boundary_of(ct@) == Some(v@),
            None => spec_boundary_of(ct@) is None,
        },
{
    let semi = one_byte(59);
    let segs = split_on(ct, semi.as_slice());
    boundary_seg(&segs, 0)
}

} // verus!
