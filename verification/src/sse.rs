//! Incremental framing of a Server-Sent-Events byte stream into lines.
//!
//! The framer buffers bytes until a full line (terminated by `\n`) has
//! arrived, so the events recovered downstream do not depend on how the
//! transport split the stream into chunks.

use vstd::prelude::*;

verus! {

/// Index of the first `\n` in `s`, or `s.len()` when there is none.
pub open spec fn first_nl(s: Seq<u8>) -> nat
    decreases s.len(),
{
    if s.len() == 0 {
        0
    } else if s[0] == 10 {
        0
    } else {
        1 + first_nl(s.drop_first())
    }
}

/// `s` holds a `\n` somewhere.
pub open spec fn has_nl(s: Seq<u8>) -> bool {
    exists|i: int| 0 <= i < s.len() && s[i] == 10
}

pub proof fn lemma_first_nl(s: Seq<u8>)
    ensures
        first_nl(s) <= s.len(),
        forall|k: int| 0 <= k < first_nl(s) ==> s[k] != 10,
        first_nl(s) < s.len() ==> s[first_nl(s) as int] == 10,
        has_nl(s) <==> first_nl(s) < s.len(),
    decreases s.len(),
{
    if s.len() == 0 {
    } else if s[0] == 10 {
    } else {
        lemma_first_nl(s.drop_first());
        assert forall|k: int| 0 <= k < first_nl(s) implies s[k] != 10 by {
            if k > 0 {
                assert(s.drop_first()[k - 1] == s[k]);
            }
        }
        if has_nl(s) {
            let w = choose|i: int| 0 <= i < s.len() && s[i] == 10;
            assert(w >= 1);
            assert(s.drop_first()[w - 1] == 10);
            assert(has_nl(s.drop_first()));
        }
        if has_nl(s.drop_first()) {
            let w = choose|i: int| 0 <= i < s.drop_first().len() && s.drop_first()[i] == 10;
            assert(s[w + 1] == 10);
            assert(has_nl(s));
        }
    }
}

/// The complete (newline-terminated) lines of `s`, without their `\n`.
pub open spec fn complete_lines(s: Seq<u8>) -> Seq<Seq<u8>>
    decreases s.len(),
{
    let i = first_nl(s);
    if i >= s.len() {
        Seq::empty()
    } else {
        seq![s.subrange(0, i as int)] + complete_lines(
            s.subrange(i as int + 1, s.len() as int),
        )
    }
}

/// What remains of `s` after its last complete line.
pub open spec fn line_rest(s: Seq<u8>) -> Seq<u8>
    decreases s.len(),
{
    let i = first_nl(s);
    if i >= s.len() {
        s
    } else {
        line_rest(s.subrange(i as int + 1, s.len() as int))
    }
}

pub proof fn lemma_line_rest_no_nl(s: Seq<u8>)
    ensures
        !has_nl(line_rest(s)),
    decreases s.len(),
{
    lemma_first_nl(s);
    let i = first_nl(s);
    if i >= s.len() {
        if has_nl(s) {
            assert(first_nl(s) < s.len());
        }
    } else {
        lemma_line_rest_no_nl(s.subrange(i as int + 1, s.len() as int));
    }
}

/// Without a newline, nothing is complete and all is rest.
proof fn lemma_no_nl_whole(s: Seq<u8>)
    requires
        !has_nl(s),
    ensures
        complete_lines(s) == Seq::<Seq<u8>>::empty(),
        line_rest(s) == s,
{
    lemma_first_nl(s);
}

/// The first newline of a concatenation sits in the left part when the
/// left part has one.
proof fn lemma_first_nl_append(a: Seq<u8>, b: Seq<u8>)
    ensures
        has_nl(a) ==> first_nl(a + b) == first_nl(a),
        !has_nl(a) ==> first_nl(a + b) == a.len() + first_nl(b),
    decreases a.len(),
{
    lemma_first_nl(a);
    lemma_first_nl(a + b);
    lemma_first_nl(b);
    if a.len() == 0 {
        assert(a + b =~= b);
    } else if a[0] == 10 {
        assert((a + b)[0] == 10);
    } else {
        assert((a + b)[0] == a[0]);
        lemma_first_nl_append(a.drop_first(), b);
        assert((a + b).drop_first() =~= a.drop_first() + b);
        if has_nl(a) {
            let w = choose|i: int| 0 <= i < a.len() && a[i] == 10;
            assert(a.drop_first()[w - 1] == 10);
            assert(has_nl(a.drop_first()));
        } else {
            if has_nl(a.drop_first()) {
                let w = choose|i: int|
                    0 <= i < a.drop_first().len() && a.drop_first()[i] == 10;
                assert(a[w + 1] == 10);
            }
        }
    }
}

/// Splitting a stream anywhere does not change which lines come out:
/// the lines of `a + b` are the lines of `a` followed by the lines of
/// `a`'s remainder joined with `b`, and the remainders agree too.
pub proof fn lemma_lines_split(a: Seq<u8>, b: Seq<u8>)
    ensures
        complete_lines(a + b) == complete_lines(a) + complete_lines(line_rest(a) + b),
        line_rest(a + b) == line_rest(line_rest(a) + b),
    decreases a.len(),
{
    lemma_first_nl(a);
    let i = first_nl(a);
    if i >= a.len() {
        // `a` holds no newline: it is all remainder.
        if has_nl(a) {
            assert(first_nl(a) < a.len());
        }
        lemma_no_nl_whole(a);
        assert(complete_lines(a) + complete_lines(line_rest(a) + b) =~= complete_lines(a + b));
    } else {
        assert(has_nl(a));
        lemma_first_nl_append(a, b);
        assert(first_nl(a + b) == i);
        assert(i < (a + b).len());
        let tail_a = a.subrange(i as int + 1, a.len() as int);
        let tail_ab = (a + b).subrange(i as int + 1, (a + b).len() as int);
        assert(tail_ab =~= tail_a + b);
        assert((a + b).subrange(0, i as int) =~= a.subrange(0, i as int));
        lemma_lines_split(tail_a, b);
        assert(complete_lines(a + b) == seq![a.subrange(0, i as int)] + complete_lines(
            tail_a + b,
        ));
        assert(complete_lines(a) == seq![a.subrange(0, i as int)] + complete_lines(tail_a));
        assert(line_rest(a) == line_rest(tail_a));
        assert(complete_lines(a) + complete_lines(line_rest(a) + b) =~= seq![
            a.subrange(0, i as int),
        ] + (complete_lines(tail_a) + complete_lines(line_rest(tail_a) + b)));
        assert(complete_lines(a + b) =~= complete_lines(a) + complete_lines(
            line_rest(a) + b,
        ));
    }
}

/// All chunks joined, oldest first.
pub open spec fn concat_chunks(chunks: Seq<Seq<u8>>) -> Seq<u8>
    decreases chunks.len(),
{
    if chunks.len() == 0 {
        Seq::empty()
    } else {
        concat_chunks(chunks.drop_last()) + chunks.last()
    }
}

/// The lines an incremental framer has produced after feeding `chunks`
/// one by one, starting from an empty buffer.
pub open spec fn fed_lines(chunks: Seq<Seq<u8>>) -> Seq<Seq<u8>>
    decreases chunks.len(),
{
    if chunks.len() == 0 {
        Seq::empty()
    } else {
        fed_lines(chunks.drop_last()) + complete_lines(fed_rest(chunks.drop_last()) + chunks.last())
    }
}

/// The framer's buffer after feeding `chunks` one by one.
pub open spec fn fed_rest(chunks: Seq<Seq<u8>>) -> Seq<u8>
    decreases chunks.len(),
{
    if chunks.len() == 0 {
        Seq::empty()
    } else {
        line_rest(fed_rest(chunks.drop_last()) + chunks.last())
    }
}

/// Byte-boundary robustness: however an upstream response is split into
/// chunks, feeding the pieces yields exactly the lines of the whole.
pub proof fn lemma_byte_boundary_robust(chunks: Seq<Seq<u8>>)
    ensures
        fed_lines(chunks) == complete_lines(concat_chunks(chunks)),
        fed_rest(chunks) == line_rest(concat_chunks(chunks)),
    decreases chunks.len(),
{
    if chunks.len() == 0 {
        lemma_no_nl_whole(Seq::empty());
        assert(complete_lines(concat_chunks(chunks)) =~= Seq::<Seq<u8>>::empty());
    } else {
        lemma_byte_boundary_robust(chunks.drop_last());
        lemma_lines_split(concat_chunks(chunks.drop_last()), chunks.last());
    }
}

/// Buffers a byte stream and hands out complete lines.
pub struct Framer {
    buf: Vec<u8>,
}

impl Framer {
    /// The bytes waiting for their terminating newline.
    pub closed spec fn pending(&self) -> Seq<u8> {
        self.buf@
    }

    /// The buffer never holds a completed line.
    pub closed spec fn wf(&self) -> bool {
        !has_nl(self.buf@)
    }

    pub fn new() -> (r: Self)
        ensures
            r.wf(),
            r.pending() == Seq::<u8>::empty(),
    {
        Framer { buf: Vec::new() }
    }

    /// Hands back the bytes still waiting for their newline.
    pub fn into_rest(self) -> (r: Vec<u8>)
        ensures
            r@ == self.pending(),
    {
        self.buf
    }

    /// Feeds one transport chunk; returns every line completed by it.
    pub fn feed(&mut self, chunk: &Vec<u8>) -> (lines: Vec<Vec<u8>>)
        requires
            old(self).wf(),
        ensures
            final(self).wf(),
            lines@.map_values(|l: Vec<u8>| l@) == complete_lines(old(self).pending() + chunk@),
            final(self).pending() == line_rest(old(self).pending() + chunk@),
    {
        let ghost input_spec = self.buf@ + chunk@;
        let mut input: Vec<u8> = Vec::new();
        crate::bytes::push_all(&mut input, &self.buf);
        crate::bytes::push_all(&mut input, chunk);
        proof {
            assert(Seq::<u8>::empty() + self.buf@ =~= self.buf@);
        }
        let mut lines: Vec<Vec<u8>> = Vec::new();
        let mut cur: Vec<u8> = Vec::new();
        let mut k: usize = 0;
        proof {
            lemma_no_nl_whole(Seq::<u8>::empty());
            assert(input_spec.subrange(0, 0) =~= Seq::<u8>::empty());
        }
        while k < input.len()
            invariant
                0 <= k <= input@.len(),
                input@ == input_spec,
                lines@.map_values(|l: Vec<u8>| l@) == complete_lines(input_spec.subrange(0, k as int)),
                cur@ == line_rest(input_spec.subrange(0, k as int)),
                !has_nl(cur@),
            decreases input@.len() - k,
        {
            let ghost pre = input_spec.subrange(0, k as int);
            let ghost post = input_spec.subrange(0, k as int + 1);
            let b = input[k];
            proof {
                assert(post =~= pre + seq![b]);
                lemma_lines_split(pre, seq![b]);
                lemma_first_nl(line_rest(pre) + seq![b]);
                lemma_line_rest_no_nl(pre);
                if b == 10 {
                    // the byte completes the pending line
                    let ext = line_rest(pre) + seq![b];
                    assert(ext[ext.len() - 1] == 10);
                    assert(has_nl(ext));
                    assert forall|q: int| 0 <= q < ext.len() - 1 implies ext[q] != 10 by {
                        assert(ext[q] == line_rest(pre)[q]);
                        if line_rest(pre)[q] == 10 {
                            assert(has_nl(line_rest(pre)));
                        }
                    }
                    assert(first_nl(ext) == ext.len() - 1);
                    assert(ext.subrange(0, ext.len() - 1) =~= line_rest(pre));
                    assert(ext.subrange(ext.len() as int, ext.len() as int) =~= Seq::<u8>::empty());
                    lemma_no_nl_whole(Seq::empty());
                    assert(complete_lines(ext) =~= seq![line_rest(pre)]);
                    assert(line_rest(ext) == Seq::<u8>::empty());
                } else {
                    let ext = line_rest(pre) + seq![b];
                    assert forall|q: int| 0 <= q < ext.len() implies ext[q] != 10 by {
                        if q < ext.len() - 1 {
                            assert(ext[q] == line_rest(pre)[q]);
                            if line_rest(pre)[q] == 10 {
                                assert(has_nl(line_rest(pre)));
                            }
                        }
                    }
                    assert(!has_nl(ext));
                    lemma_no_nl_whole(ext);
                }
            }
            if b == 10 {
                lines.push(cur);
                cur = Vec::new();
                proof {
                    let ghost prev_map = complete_lines(pre);
                    assert(lines@.map_values(|l: Vec<u8>| l@) =~= complete_lines(post));
                }
            } else {
                cur.push(b);
                proof {
                    assert(cur@ =~= line_rest(pre) + seq![b]);
                }
            }
            k += 1;
        }
        proof {
            assert(input_spec.subrange(0, input_spec.len() as int) =~= input_spec);
        }
        self.buf = cur;
        lines
    }
}

} // verus!
