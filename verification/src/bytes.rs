//! Byte-sequence primitives shared by the wire adapters, the composition
//! engine and the encoders. All text in the core flows as UTF-8 bytes.

use vstd::prelude::*;

verus! {

use vstd::string::StrSliceExecFns;
use vstd::string::StringSliceAdditionalSpecFns;

/// ASCII whitespace, as trimmed from wire text.
pub open spec fn is_ws(b: u8) -> bool {
    b == 32 || (9 <= b && b <= 13)
}

pub open spec fn trim_start_spec(s: Seq<u8>) -> Seq<u8>
    decreases s.len(),
{
    if s.len() > 0 && is_ws(s[0]) {
        trim_start_spec(s.drop_first())
    } else {
        s
    }
}

pub open spec fn trim_end_spec(s: Seq<u8>) -> Seq<u8>
    decreases s.len(),
{
    if s.len() > 0 && is_ws(s[s.len() - 1]) {
        trim_end_spec(s.drop_last())
    } else {
        s
    }
}

/// Both ends trimmed of ASCII whitespace.
pub open spec fn trim_spec(s: Seq<u8>) -> Seq<u8> {
    trim_end_spec(trim_start_spec(s))
}

/// The needle `n` occurs in `h` at position `i`.
pub open spec fn is_match_at(h: Seq<u8>, n: Seq<u8>, i: int) -> bool {
    0 <= i && i + n.len() <= h.len() && h.subrange(i, i + n.len()) == n
}

/// The needle `n` occurs somewhere in `h`.
pub open spec fn contains_seq(h: Seq<u8>, n: Seq<u8>) -> bool {
    exists|i: int| is_match_at(h, n, i)
}

/// Position of the first occurrence of `n` in `h`; `h.len()` and beyond
/// means no occurrence (see `lemma_first_match_idx`).
pub open spec fn first_match_idx(h: Seq<u8>, n: Seq<u8>) -> nat
    decreases h.len(),
{
    if is_match_at(h, n, 0) {
        0
    } else if h.len() == 0 {
        1
    } else {
        1 + first_match_idx(h.drop_first(), n)
    }
}

/// Shifting the haystack by one shifts every match position by one.
proof fn lemma_match_shift(h: Seq<u8>, n: Seq<u8>, i: int)
    requires
        h.len() > 0,
        1 <= i,
    ensures
        is_match_at(h, n, i) <==> is_match_at(h.drop_first(), n, i - 1),
{
    if is_match_at(h, n, i) {
        assert(h.drop_first().subrange(i - 1, i - 1 + n.len() as int) =~= h.subrange(
            i,
            i + n.len() as int,
        ));
    }
    if is_match_at(h.drop_first(), n, i - 1) {
        assert(h.subrange(i, i + n.len() as int) =~= h.drop_first().subrange(
            i - 1,
            i - 1 + n.len() as int,
        ));
    }
}

/// `first_match_idx` is the least match position when a match exists,
/// and lies past the end when none does.
pub proof fn lemma_first_match_idx(h: Seq<u8>, n: Seq<u8>)
    ensures
        contains_seq(h, n) ==> {
            &&& is_match_at(h, n, first_match_idx(h, n) as int)
            &&& forall|j: int| 0 <= j < first_match_idx(h, n) ==> !is_match_at(h, n, j)
        },
        !contains_seq(h, n) ==> first_match_idx(h, n) > h.len(),
    decreases h.len(),
{
    if is_match_at(h, n, 0) {
    } else if h.len() == 0 {
        assert forall|i: int| !is_match_at(h, n, i) by {
            if is_match_at(h, n, i) {
                assert(i == 0);
            }
        }
    } else {
        lemma_first_match_idx(h.drop_first(), n);
        assert forall|i: int| 1 <= i implies (is_match_at(h, n, i) <==> is_match_at(
            h.drop_first(),
            n,
            i - 1,
        )) by {
            lemma_match_shift(h, n, i);
        }
        if contains_seq(h, n) {
            let w = choose|i: int| is_match_at(h, n, i);
            assert(w >= 1);
            assert(is_match_at(h.drop_first(), n, w - 1));
            assert(contains_seq(h.drop_first(), n));
            let f = first_match_idx(h.drop_first(), n);
            assert(is_match_at(h, n, f as int + 1));
            assert forall|j: int| 0 <= j < f + 1 implies !is_match_at(h, n, j) by {
                if j >= 1 && is_match_at(h, n, j) {
                    assert(is_match_at(h.drop_first(), n, j - 1));
                }
            }
        } else {
            assert forall|i: int| !is_match_at(h.drop_first(), n, i) by {
                if is_match_at(h.drop_first(), n, i) {
                    assert(i >= 0);
                    assert(is_match_at(h, n, i + 1));
                }
            }
            assert(!contains_seq(h.drop_first(), n));
        }
    }
}

/// Compares `h[i .. i + n.len()]` with `n`.
pub fn match_at(h: &Vec<u8>, n: &Vec<u8>, i: usize) -> (r: bool)
    requires
        i + n@.len() <= h@.len(),
    ensures
        r == is_match_at(h@, n@, i as int),
{
    let hl = h.len();
    let mut k: usize = 0;
    while k < n.len()
        invariant
            0 <= k <= n@.len(),
            i + n@.len() <= h@.len(),
            h@.len() == hl,
            forall|j: int| 0 <= j < k ==> h@[i + j] == n@[j],
        decreases n@.len() - k,
    {
        if h[i + k] != n[k] {
            assert(h@.subrange(i as int, i + n@.len()) != n@) by {
                assert(h@.subrange(i as int, i + n@.len())[k as int] != n@[k as int]);
            }
            return false;
        }
        k += 1;
    }
    assert(h@.subrange(i as int, i + n@.len()) =~= n@);
    true
}

/// First occurrence of `n` in `h`, if any.
pub fn find_subseq(h: &Vec<u8>, n: &Vec<u8>) -> (r: Option<usize>)
    ensures
        match r {
            Some(i) => is_match_at(h@, n@, i as int) && forall|j: int|
                0 <= j < i ==> !is_match_at(h@, n@, j),
            None => !contains_seq(h@, n@),
        },
{
    if n.len() > h.len() {
        assert forall|i: int| !is_match_at(h@, n@, i) by {}
        return None;
    }
    if n.len() == 0 {
        assert(is_match_at(h@, n@, 0)) by {
            assert(h@.subrange(0, 0) =~= n@);
        }
        return Some(0);
    }
    let mut i: usize = 0;
    while i <= h.len() - n.len()
        invariant
            1 <= n@.len() <= h@.len(),
            0 <= i <= h@.len() - n@.len() + 1,
            forall|j: int| 0 <= j < i ==> !is_match_at(h@, n@, j),
        decreases h@.len() - n@.len() - i + 1,
    {
        if match_at(h, n, i) {
            return Some(i);
        }
        i += 1;
    }
    assert forall|j: int| !is_match_at(h@, n@, j) by {
        if is_match_at(h@, n@, j) {
            assert(0 <= j < i);
        }
    }
    None
}

/// True when `h` contains `n`.
pub fn contains_sub(h: &Vec<u8>, n: &Vec<u8>) -> (r: bool)
    ensures
        r == contains_seq(h@, n@),
{
    match find_subseq(h, n) {
        Some(_) => true,
        None => false,
    }
}

/// True when `h` begins with `p`.
pub fn starts_with(h: &Vec<u8>, p: &Vec<u8>) -> (r: bool)
    ensures
        r == (p@.len() <= h@.len() && h@.subrange(0, p@.len() as int) == p@),
{
    if p.len() > h.len() {
        return false;
    }
    match_at(h, p, 0)
}

/// Byte-for-byte equality.
pub fn bytes_eq(a: &Vec<u8>, b: &Vec<u8>) -> (r: bool)
    ensures
        r == (a@ == b@),
{
    if a.len() != b.len() {
        return false;
    }
    let mut k: usize = 0;
    while k < a.len()
        invariant
            a@.len() == b@.len(),
            0 <= k <= a@.len(),
            forall|j: int| 0 <= j < k ==> a@[j] == b@[j],
        decreases a@.len() - k,
    {
        if a[k] != b[k] {
            return false;
        }
        k += 1;
    }
    assert(a@ =~= b@);
    true
}

/// Appends all of `src` to `dst`.
pub fn push_all(dst: &mut Vec<u8>, src: &Vec<u8>)
    ensures
        final(dst)@ == old(dst)@ + src@,
{
    let mut k: usize = 0;
    while k < src.len()
        invariant
            0 <= k <= src@.len(),
            dst@ == old(dst)@ + src@.subrange(0, k as int),
        decreases src@.len() - k,
    {
        dst.push(src[k]);
        assert(old(dst)@ + src@.subrange(0, k + 1 as int) =~= (old(dst)@ + src@.subrange(
            0,
            k as int,
        )).push(src@[k as int]));
        k += 1;
    }
    assert(src@.subrange(0, src@.len() as int) =~= src@);
}

/// Copy of `v[from .. to]`.
pub fn subvec(v: &Vec<u8>, from: usize, to: usize) -> (r: Vec<u8>)
    requires
        from <= to <= v@.len(),
    ensures
        r@ == v@.subrange(from as int, to as int),
{
    let mut out: Vec<u8> = Vec::new();
    let mut k: usize = from;
    while k < to
        invariant
            from <= k <= to <= v@.len(),
            out@ == v@.subrange(from as int, k as int),
        decreases to - k,
    {
        out.push(v[k]);
        assert(v@.subrange(from as int, k + 1 as int) =~= v@.subrange(from as int, k as int).push(
            v@[k as int],
        ));
        k += 1;
    }
    out
}

/// The bytes of a string slice, for feeding literals into the byte-level core.
pub fn lit(s: &str) -> (r: Vec<u8>)
    ensures
        r@ == s.spec_bytes(),
{
    s.as_bytes_vec()
}

proof fn lemma_trim_start_at(s: Seq<u8>, i: int)
    requires
        0 <= i <= s.len(),
        forall|k: int| 0 <= k < i ==> is_ws(s[k]),
        i == s.len() || !is_ws(s[i]),
    ensures
        trim_start_spec(s) =~= s.subrange(i, s.len() as int),
    decreases i,
{
    if i == 0 {
        assert(trim_start_spec(s) == s);
        assert(s.subrange(0, s.len() as int) =~= s);
    } else {
        assert(is_ws(s[0]));
        let t = s.drop_first();
        assert forall|k: int| 0 <= k < i - 1 implies is_ws(t[k]) by {
            assert(t[k] == s[k + 1]);
        }
        lemma_trim_start_at(t, i - 1);
        assert(t.subrange(i - 1, t.len() as int) =~= s.subrange(i, s.len() as int));
    }
}

proof fn lemma_trim_end_at(s: Seq<u8>, j: int)
    requires
        0 <= j <= s.len(),
        forall|k: int| j <= k < s.len() ==> is_ws(s[k]),
        j == 0 || !is_ws(s[j - 1]),
    ensures
        trim_end_spec(s) =~= s.subrange(0, j),
    decreases s.len() - j,
{
    if j == s.len() {
        assert(trim_end_spec(s) == s);
        assert(s.subrange(0, j) =~= s);
    } else {
        assert(is_ws(s[s.len() - 1]));
        let t = s.drop_last();
        lemma_trim_end_at(t, j);
        assert(t.subrange(0, j) =~= s.subrange(0, j));
    }
}

/// Copy of `s` with ASCII whitespace removed from the front.
pub fn trim_start(s: &Vec<u8>) -> (r: Vec<u8>)
    ensures
        r@ == trim_start_spec(s@),
{
    let mut i: usize = 0;
    while i < s.len() && (s[i] == 32 || (9 <= s[i] && s[i] <= 13))
        invariant
            0 <= i <= s@.len(),
            forall|k: int| 0 <= k < i ==> is_ws(s@[k]),
        decreases s@.len() - i,
    {
        i += 1;
    }
    proof {
        lemma_trim_start_at(s@, i as int);
    }
    subvec(s, i, s.len())
}

/// Copy of `s` with ASCII whitespace removed from both ends.
pub fn trim(s: &Vec<u8>) -> (r: Vec<u8>)
    ensures
        r@ == trim_spec(s@),
{
    let t = trim_start(s);
    let mut j: usize = t.len();
    while j > 0 && (t[j - 1] == 32 || (9 <= t[j - 1] && t[j - 1] <= 13))
        invariant
            0 <= j <= t@.len(),
            forall|k: int| j <= k < t@.len() ==> is_ws(t@[k]),
        decreases j,
    {
        j -= 1;
    }
    proof {
        lemma_trim_end_at(t@, j as int);
    }
    subvec(&t, 0, j)
}

/// Index of the first occurrence of byte `b` in `s`, or `s.len()`.
pub open spec fn first_idx(s: Seq<u8>, b: u8) -> nat
    decreases s.len(),
{
    if s.len() == 0 {
        0
    } else if s[0] == b {
        0
    } else {
        1 + first_idx(s.drop_first(), b)
    }
}

pub proof fn lemma_first_idx(s: Seq<u8>, b: u8)
    ensures
        first_idx(s, b) <= s.len(),
        forall|k: int| 0 <= k < first_idx(s, b) ==> s[k] != b,
        first_idx(s, b) < s.len() ==> s[first_idx(s, b) as int] == b,
    decreases s.len(),
{
    if s.len() == 0 {
    } else if s[0] == b {
    } else {
        lemma_first_idx(s.drop_first(), b);
        assert forall|k: int| 0 <= k < first_idx(s, b) implies s[k] != b by {
            if k > 0 {
                assert(s.drop_first()[k - 1] == s[k]);
            }
        }
    }
}

/// Position of the first occurrence of byte `b` in `v`, if any.
pub fn find_byte(v: &Vec<u8>, b: u8) -> (r: Option<usize>)
    ensures
        match r {
            Some(i) => i == first_idx(v@, b) && i < v@.len() && v@[i as int] == b,
            None => first_idx(v@, b) == v@.len(),
        },
{
    proof {
        lemma_first_idx(v@, b);
    }
    let mut i: usize = 0;
    while i < v.len()
        invariant
            0 <= i <= v@.len(),
            forall|k: int| 0 <= k < i ==> v@[k] != b,
            first_idx(v@, b) <= v@.len(),
            forall|k: int| 0 <= k < first_idx(v@, b) ==> v@[k] != b,
            first_idx(v@, b) < v@.len() ==> v@[first_idx(v@, b) as int] == b,
        decreases v@.len() - i,
    {
        if v[i] == b {
            proof {
                if i < first_idx(v@, b) {
                    assert(v@[i as int] != b);
                }
                if first_idx(v@, b) < i {
                    assert(v@[first_idx(v@, b) as int] != b);
                }
            }
            return Some(i);
        }
        i += 1;
    }
    proof {
        if first_idx(v@, b) < v@.len() {
            assert(v@[first_idx(v@, b) as int] != b);
        }
    }
    None
}

/// `s` with every occurrence of `from` replaced by `to`, scanning left
/// to right without overlap.
pub open spec fn replace_all_spec(s: Seq<u8>, from: Seq<u8>, to: Seq<u8>) -> Seq<u8>
    decreases s.len() when from.len() > 0 via replace_all_spec_decreases
{
    if !contains_seq(s, from) {
        s
    } else {
        let i = first_match_idx(s, from);
        s.subrange(0, i as int) + to + replace_all_spec(
            s.subrange(i + from.len() as int, s.len() as int),
            from,
            to,
        )
    }
}

#[via_fn]
proof fn replace_all_spec_decreases(s: Seq<u8>, from: Seq<u8>, to: Seq<u8>) {
    if contains_seq(s, from) {
        lemma_first_match_idx(s, from);
    }
}

/// Replaces every occurrence of `from` in `s` by `to`.
pub fn replace_all(s: &Vec<u8>, from: &Vec<u8>, to: &Vec<u8>) -> (r: Vec<u8>)
    requires
        from@.len() > 0,
    ensures
        r@ == replace_all_spec(s@, from@, to@),
{
    let mut out: Vec<u8> = Vec::new();
    let mut rest = subvec(s, 0, s.len());
    proof {
        assert(s@.subrange(0, s@.len() as int) =~= s@);
        assert(Seq::<u8>::empty() + replace_all_spec(rest@, from@, to@) =~= replace_all_spec(
            s@,
            from@,
            to@,
        ));
    }
    loop
        invariant_except_break
            from@.len() > 0,
            out@ + replace_all_spec(rest@, from@, to@) == replace_all_spec(s@, from@, to@),
        ensures
            out@ == replace_all_spec(s@, from@, to@),
        decreases rest@.len(),
    {
        match find_subseq(&rest, from) {
            Some(i) => {
                proof {
                    lemma_first_match_idx(rest@, from@);
                    let f = first_match_idx(rest@, from@);
                    if (i as int) < f {
                        assert(!is_match_at(rest@, from@, i as int));
                    }
                    if f < i as int {
                        assert(!is_match_at(rest@, from@, f as int));
                    }
                    assert(i as int == f);
                }
                let rl = rest.len();
                proof {
                    assert(i + from@.len() <= rl);
                }
                let ghost out_pre = out@;
                let ghost rest_pre = rest@;
                let prefix = subvec(&rest, 0, i);
                push_all(&mut out, &prefix);
                push_all(&mut out, to);
                let next = subvec(&rest, i + from.len(), rl);
                rest = next;
                proof {
                    assert(out@ =~= out_pre + rest_pre.subrange(0, i as int) + to@);
                    assert(replace_all_spec(rest_pre, from@, to@) =~= rest_pre.subrange(0, i as int)
                        + to@ + replace_all_spec(rest@, from@, to@));
                    assert(out@ + replace_all_spec(rest@, from@, to@) =~= out_pre
                        + replace_all_spec(rest_pre, from@, to@));
                }
            },
            None => {
                let ghost out_pre = out@;
                push_all(&mut out, &rest);
                proof {
                    assert(replace_all_spec(rest@, from@, to@) == rest@);
                    assert(out@ =~= out_pre + replace_all_spec(rest@, from@, to@));
                }
                break ;
            },
        }
    }
    out
}

} // verus!
