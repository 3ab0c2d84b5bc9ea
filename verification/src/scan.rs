use vstd::prelude::*;
use vstd::slice::{slice_subrange, slice_to_vec};

verus! {

// Byte-level scanning helpers shared by the boundary extractor and the
// multipart field reader. All text in this crate is handled as UTF-8 bytes,
// so these operate on `Seq<u8>` at the spec level and `&[u8]` at runtime.

/// Linear whitespace accepted around tokens in header values.
pub open spec fn is_ws(b: u8) -> bool {
    b == 32 || b == 9 || b == 13 || b == 10
}

pub fn byte_is_ws(b: u8) -> (r: bool)
    ensures
        r == is_ws(b),
{
    b == 32 || b == 9 || b == 13 || b == 10
}

/// The needle `n` occurs in `h` at position `i`.
pub open spec fn match_at(h: Seq<u8>, n: Seq<u8>, i: int) -> bool {
    &&& 0 <= i
    &&& i + n.len() <= h.len()
    &&& h.subrange(i, i + n.len() as int) == n
}

/// Position of the first occurrence of `n` in `h` at or after `from`.
pub open spec fn spec_find(h: Seq<u8>, n: Seq<u8>, from: int) -> Option<int>
    decreases h.len() - from,
{
    if n.len() == 0 {
        if 0 <= from <= h.len() {
            Some(from)
        } else {
            None
        }
    } else if from < 0 || from + n.len() > h.len() {
        None
    } else if h.subrange(from, from + n.len() as int) == n {
        Some(from)
    } else {
        spec_find(h, n, from + 1)
    }
}

pub proof fn lemma_find_bounds(h: Seq<u8>, n: Seq<u8>, from: int)
    requires
        spec_find(h, n, from) is Some,
    ensures
        from <= spec_find(h, n, from)->Some_0,
        match_at(h, n, spec_find(h, n, from)->Some_0),
    decreases h.len() - from,
{
    if n.len() == 0 {
        assert(h.subrange(from, from + n.len() as int) =~= n);
    } else if from < 0 || from + n.len() > h.len() {
    } else if h.subrange(from, from + n.len() as int) == n {
    } else {
        lemma_find_bounds(h, n, from + 1);
    }
}

/// Equality of a slice of `h` starting at `from` with the whole of `n`.
pub fn eq_sub(h: &[u8], from: usize, n: &[u8]) -> (r: bool)
    ensures
        r == match_at(h@, n@, from as int),
{
    if n.len() > h.len() || from > h.len() - n.len() {
        return false;
    }
    let mut i: usize = 0;
    while i < n.len()
        invariant
            from + n.len() <= h.len(),
            i <= n.len(),
            forall|k: int| 0 <= k < i ==> h@[from + k] == n@[k],
        decreases n.len() - i,
    {
        if h[from + i] != n[i] {
            assert(h@.subrange(from as int, from + n@.len()) != n@) by {
                assert(h@.subrange(from as int, from + n@.len())[i as int] != n@[i as int]);
            }
            return false;
        }
        i += 1;
    }
    assert(h@.subrange(from as int, from + n@.len()) =~= n@);
    true
}

pub fn find(h: &[u8], n: &[u8], from: usize) -> (r: Option<usize>)
    ensures
        match r {
            Some(i) => spec_find(h@, n@, from as int) == Some(i as int),
            None => spec_find(h@, n@, from as int) is None,
        },
    decreases h@.len() - from,
{
    if n.len() > h.len() || from > h.len() - n.len() {
        None
    } else if eq_sub(h, from, n) {
        Some(from)
    } else {
        assert(n@.len() > 0) by {
            if n@.len() == 0 {
                assert(h@.subrange(from as int, from + n@.len()) =~= n@);
            }
        }
        find(h, n, from + 1)
    }
}

pub fn bytes_eq(a: &[u8], b: &[u8]) -> (r: bool)
    ensures
        r == (a@ == b@),
{
    if a.len() != b.len() {
        return false;
    }
    if eq_sub(a, 0, b) {
        assert(a@.subrange(0, a@.len() as int) =~= a@);
        true
    } else {
        assert(a@.subrange(0, a@.len() as int) =~= a@);
        false
    }
}

pub fn starts_with(a: &[u8], p: &[u8]) -> (r: bool)
    ensures
        r == match_at(a@, p@, 0),
{
    eq_sub(a, 0, p)
}

/// `s` with leading whitespace removed.
pub open spec fn spec_trim_start(s: Seq<u8>) -> Seq<u8>
    decreases s.len(),
{
    if s.len() > 0 && is_ws(s[0]) {
        spec_trim_start(s.drop_first())
    } else {
        s
    }
}

/// `s` with trailing whitespace removed.
pub open spec fn spec_trim_end(s: Seq<u8>) -> Seq<u8>
    decreases s.len(),
{
    if s.len() > 0 && is_ws(s[s.len() - 1]) {
        spec_trim_end(s.drop_last())
    } else {
        s
    }
}

/// `s` with whitespace removed on both sides.
pub open spec fn spec_trim(s: Seq<u8>) -> Seq<u8> {
    spec_trim_end(spec_trim_start(s))
}

proof fn lemma_trim_start_index(s: Seq<u8>, i: int)
    requires
        0 <= i <= s.len(),
        forall|k: int| 0 <= k < i ==> is_ws(s[k]),
        i < s.len() ==> !is_ws(s[i]),
    ensures
        spec_trim_start(s) =~= s.subrange(i, s.len() as int),
    decreases s.len(),
{
    if s.len() > 0 && is_ws(s[0]) {
        assert(i > 0);
        lemma_trim_start_index(s.drop_first(), i - 1);
        assert(s.drop_first().subrange(i - 1, s.drop_first().len() as int) =~= s.subrange(
            i,
            s.len() as int,
        ));
    } else {
        assert(i == 0);
    }
}

proof fn lemma_trim_end_index(s: Seq<u8>, j: int)
    requires
        0 <= j <= s.len(),
        forall|k: int| j <= k < s.len() ==> is_ws(s[k]),
        j > 0 ==> !is_ws(s[j - 1]),
    ensures
        spec_trim_end(s) =~= s.subrange(0, j),
    decreases s.len(),
{
    if s.len() > 0 && is_ws(s[s.len() - 1]) {
        assert(j < s.len());
        lemma_trim_end_index(s.drop_last(), j);
        assert(s.drop_last().subrange(0, j) =~= s.subrange(0, j));
    } else {
        assert(j == s.len());
    }
}

pub fn trim(s: &[u8]) -> (r: Vec<u8>)
    ensures
        r@ == spec_trim(s@),
{
    let mut i: usize = 0;
    while i < s.len() && byte_is_ws(s[i])
        invariant
            i <= s.len(),
            forall|k: int| 0 <= k < i ==> is_ws(s@[k]),
        decreases s.len() - i,
    {
        i += 1;
    }
    proof {
        lemma_trim_start_index(s@, i as int);
    }
    let mut j: usize = s.len();
    while j > i && byte_is_ws(s[j - 1])
        invariant
            i <= j <= s.len(),
            forall|k: int| j <= k < s.len() ==> is_ws(s@[k]),
        decreases j,
    {
        j -= 1;
    }
    let ghost t = s@.subrange(i as int, s@.len() as int);
    proof {
        assert(forall|k: int| j - i <= k < t.len() ==> is_ws(t[k]));
        lemma_trim_end_index(t, j - i);
        assert(t.subrange(0, j - i) =~= s@.subrange(i as int, j as int));
    }
    slice_to_vec(slice_subrange(s, i, j))
}

pub fn trim_start(s: &[u8]) -> (r: Vec<u8>)
    ensures
        r@ == spec_trim_start(s@),
{
    let mut i: usize = 0;
    while i < s.len() && byte_is_ws(s[i])
        invariant
            i <= s.len(),
            forall|k: int| 0 <= k < i ==> is_ws(s@[k]),
        decreases s.len() - i,
    {
        i += 1;
    }
    proof {
        lemma_trim_start_index(s@, i as int);
    }
    slice_to_vec(slice_subrange(s, i, s.len()))
}

/// ASCII upper-case letters mapped to lower case; other bytes unchanged.
pub open spec fn lower_byte(b: u8) -> u8 {
    if 65 <= b <= 90 {
        (b + 32) as u8
    } else {
        b
    }
}

pub open spec fn spec_lower(s: Seq<u8>) -> Seq<u8> {
    s.map_values(|b: u8| lower_byte(b))
}

pub fn to_lower(s: &[u8]) -> (r: Vec<u8>)
    ensures
        r@ == spec_lower(s@),
{
    let mut out: Vec<u8> = Vec::new();
    let mut i: usize = 0;
    while i < s.len()
        invariant
            i <= s.len(),
            out@.len() == i,
            forall|k: int| 0 <= k < i ==> out@[k] == lower_byte(s@[k]),
        decreases s.len() - i,
    {
        let b = s[i];
        if 65 <= b && b <= 90 {
            out.push(b + 32);
        } else {
            out.push(b);
        }
        i += 1;
    }
    assert(out@ =~= spec_lower(s@));
    out
}

/// The views of a list of byte vectors.
pub open spec fn seqs(v: Seq<Vec<u8>>) -> Seq<Seq<u8>> {
    Seq::new(v.len(), |i: int| v[i]@)
}

/// `s` split on every occurrence of the (non-empty) separator `n`;
/// always at least one piece.
pub open spec fn spec_split_on(s: Seq<u8>, n: Seq<u8>) -> Seq<Seq<u8>>
    decreases s.len(),
{
    match spec_find(s, n, 0) {
        None => seq![s],
        Some(i) => if 0 <= i && n.len() > 0 && i + n.len() <= s.len() {
            seq![s.subrange(0, i)] + spec_split_on(s.subrange(i + n.len(), s.len() as int), n)
        } else {
            seq![s]
        },
    }
}

pub fn split_on(s: &[u8], n: &[u8]) -> (r: Vec<Vec<u8>>)
    requires
        n@.len() > 0,
    ensures
        seqs(r@) =~= spec_split_on(s@, n@),
    decreases s@.len(),
{
    match find(s, n, 0) {
        None => {
            let mut out: Vec<Vec<u8>> = Vec::new();
            out.push(slice_to_vec(s));
            assert(seqs(out@) =~= seq![s@]);
            out
        },
        Some(i) => {
            proof {
                lemma_find_bounds(s@, n@, 0);
            }
            let len = s.len();
            let head = slice_to_vec(slice_subrange(s, 0, i));
            let tail = slice_subrange(s, i + n.len(), len);
            let mut rest = split_on(tail, n);
            rest.insert(0, head);
            assert(seqs(rest@) =~= seq![s@.subrange(0, i as int)] + spec_split_on(
                s@.subrange(i + n@.len(), s@.len() as int),
                n@,
            ));
            rest
        },
    }
}

/// The bytes of `a` followed by the bytes of `b`.
pub fn concat_bytes(a: &[u8], b: &[u8]) -> (r: Vec<u8>)
    ensures
        r@ == a@ + b@,
{
    let mut out = slice_to_vec(a);
    let mut i: usize = 0;
    while i < b.len()
        invariant
            i <= b@.len(),
            out@ =~= a@ + b@.subrange(0, i as int),
        decreases b@.len() - i,
    {
        out.push(b[i]);
        i += 1;
    }
    assert(out@ =~= a@ + b@);
    out
}

pub fn one_byte(a: u8) -> (r: Vec<u8>)
    ensures
        r@ =~= seq![a],
{
    let mut v: Vec<u8> = Vec::new();
    v.push(a);
    v
}

pub fn two_bytes(a: u8, b: u8) -> (r: Vec<u8>)
    ensures
        r@ =~= seq![a, b],
{
    let mut v: Vec<u8> = Vec::new();
    v.push(a);
    v.push(b);
    v
}

pub fn four_bytes(a: u8, b: u8, c: u8, d: u8) -> (r: Vec<u8>)
    ensures
        r@ =~= seq![a, b, c, d],
{
    let mut v: Vec<u8> = Vec::new();
    v.push(a);
    v.push(b);
    v.push(c);
    v.push(d);
    v
}

/// Copy of the byte range `[i, j)` of `s`.
pub fn sub_vec(s: &[u8], i: usize, j: usize) -> (r: Vec<u8>)
    requires
        0 <= i <= j <= s@.len(),
    ensures
        r@ == s@.subrange(i as int, j as int),
{
    slice_to_vec(slice_subrange(s, i, j))
}

} // verus!
