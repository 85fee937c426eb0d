//! Stream-shape laws of the composition engine.
//!
//! These proofs state, once and for all inputs, what the outbound chunk
//! sequence of a composed request looks like: one leading role chunk,
//! reasoning-phase chunks that carry only non-empty reasoning text,
//! answer-phase chunks that carry only non-empty answer text, a single
//! finish chunk and a single terminal sentinel on success, and an answer
//! concatenation that equals the engine's accumulated answer buffer.

use vstd::prelude::*;

verus! {

use crate::bytes::{lemma_first_match_idx, first_match_idx, is_match_at, contains_seq};
use crate::events::{EventModel, event_wf};
use crate::engine::{
    EngineModel, ChunkModel, Mode, Phase, step_model, run_model, compose_model, init_model,
    sentinel_spec,
};

/// Concatenation of the `Content` payloads of a chunk sequence.
pub open spec fn content_concat(out: Seq<ChunkModel>) -> Seq<u8>
    decreases out.len(),
{
    if out.len() == 0 {
        Seq::empty()
    } else {
        content_concat(out.drop_last()) + (match out.last() {
            ChunkModel::Content(t) => t,
            _ => Seq::<u8>::empty(),
        })
    }
}

pub proof fn lemma_content_concat_append(a: Seq<ChunkModel>, b: Seq<ChunkModel>)
    ensures
        content_concat(a + b) == content_concat(a) + content_concat(b),
    decreases b.len(),
{
    if b.len() == 0 {
        assert(a + b =~= a);
        assert(content_concat(a) + Seq::<u8>::empty() =~= content_concat(a));
    } else {
        assert((a + b).drop_last() =~= a + b.drop_last());
        assert((a + b).last() == b.last());
        lemma_content_concat_append(a, b.drop_last());
        assert(content_concat(a) + content_concat(b.drop_last()) + (match b.last() {
            ChunkModel::Content(t) => t,
            _ => Seq::<u8>::empty(),
        }) =~= content_concat(a) + content_concat(b));
    }
}

/// `content_concat` of one chunk.
proof fn lemma_cc_single(c: ChunkModel)
    ensures
        content_concat(seq![c]) == (match c {
            ChunkModel::Content(t) => t,
            _ => Seq::<u8>::empty(),
        }),
{
    reveal_with_fuel(content_concat, 2);
    let s = seq![c];
    assert(s.drop_last() =~= Seq::<ChunkModel>::empty());
    assert(s.last() == c);
    assert(Seq::<u8>::empty() + (match c {
        ChunkModel::Content(t) => t,
        _ => Seq::<u8>::empty(),
    }) =~= (match c {
        ChunkModel::Content(t) => t,
        _ => Seq::<u8>::empty(),
    }));
}

proof fn lemma_content_concat_none(s: Seq<ChunkModel>)
    requires
        forall|i: int| 0 <= i < s.len() ==> !(#[trigger] s[i] is Content),
    ensures
        content_concat(s) == Seq::<u8>::empty(),
    decreases s.len(),
{
    if s.len() > 0 {
        lemma_content_concat_none(s.drop_last());
        assert(content_concat(s) =~= Seq::<u8>::empty());
    }
}

/// A chunk the Reasoning phase may emit: non-empty reasoning text.
pub open spec fn reasoning_chunk(c: ChunkModel) -> bool {
    c matches ChunkModel::Reasoning(t) && t.len() > 0
}

/// A chunk the Answer phase may emit before its end: non-empty answer
/// text.
pub open spec fn content_chunk(c: ChunkModel) -> bool {
    c matches ChunkModel::Content(t) && t.len() > 0
}

proof fn lemma_step_reasoning(e: EngineModel, ev: EventModel)
    requires
        e.phase == Phase::Reasoning,
        event_wf(ev),
    ensures
        step_model(e, ev).0.phase == Phase::Reasoning || step_model(e, ev).0.phase
            == Phase::Answer,
        forall|i: int|
            0 <= i < step_model(e, ev).1.len() ==> reasoning_chunk(#[trigger] step_model(e, ev).1[i]),
        step_model(e, ev).0.mode == e.mode,
        step_model(e, ev).0.answer == e.answer,
{
    match ev {
        EventModel::ReasoningDelta(t) => {
            if t.len() > 0 && e.mode == Mode::Full {
                if contains_seq(t, sentinel_spec()) {
                    lemma_first_match_idx(t, sentinel_spec());
                    let f = first_match_idx(t, sentinel_spec());
                    assert(is_match_at(t, sentinel_spec(), f as int));
                    assert(sentinel_spec().len() == 21);
                    assert(t.subrange(f as int, t.len() as int).len() > 0);
                }
            }
        },
        _ => {},
    }
}

/// Law: every chunk the Reasoning phase emits carries non-empty
/// reasoning text and nothing else; the run can only stay in Reasoning
/// or move on to Answer, and it leaves the answer buffer alone.
pub proof fn lemma_reasoning_phase_chunks(e: EngineModel, evs: Seq<EventModel>)
    requires
        e.phase == Phase::Reasoning,
        forall|i: int| 0 <= i < evs.len() ==> event_wf(#[trigger] evs[i]),
    ensures
        run_model(e, evs).0.phase == Phase::Reasoning || run_model(e, evs).0.phase
            == Phase::Answer,
        forall|i: int|
            0 <= i < run_model(e, evs).1.len() ==> reasoning_chunk(
                #[trigger] run_model(e, evs).1[i],
            ),
        run_model(e, evs).0.mode == e.mode,
        run_model(e, evs).0.answer == e.answer,
        content_concat(run_model(e, evs).1) == Seq::<u8>::empty(),
    decreases evs.len(),
{
    if evs.len() == 0 {
        lemma_content_concat_none(run_model(e, evs).1);
    } else {
        lemma_step_reasoning(e, evs[0]);
        let (e1, out1) = step_model(e, evs[0]);
        if e1.phase == e.phase {
            lemma_reasoning_phase_chunks(e1, evs.drop_first());
            let (e2, out2) = run_model(e1, evs.drop_first());
            assert forall|i: int| 0 <= i < (out1 + out2).len() implies reasoning_chunk(
                #[trigger] (out1 + out2)[i],
            ) by {
                if i < out1.len() {
                    assert((out1 + out2)[i] == out1[i]);
                } else {
                    assert((out1 + out2)[i] == out2[i - out1.len()]);
                }
            }
            lemma_content_concat_none(run_model(e, evs).1);
        } else {
            lemma_content_concat_none(run_model(e, evs).1);
        }
    }
}

/// Law: the Answer phase emits only non-empty answer text until its
/// end; when the upstream stops, the run closes with exactly one finish
/// chunk followed by exactly one terminal sentinel; and the payloads it
/// forwarded are exactly what the answer buffer gained.
pub proof fn lemma_answer_phase_chunks(e: EngineModel, evs: Seq<EventModel>)
    requires
        e.phase == Phase::Answer,
        forall|i: int| 0 <= i < evs.len() ==> event_wf(#[trigger] evs[i]),
    ensures
        run_model(e, evs).0.phase == Phase::Answer || run_model(e, evs).0.phase == Phase::Done,
        run_model(e, evs).0.phase == Phase::Answer ==> forall|i: int|
            0 <= i < run_model(e, evs).1.len() ==> content_chunk(#[trigger] run_model(e, evs).1[i]),
        run_model(e, evs).0.phase == Phase::Done ==> {
            let out = run_model(e, evs).1;
            &&& out.len() >= 2
            &&& out[out.len() - 2] is Finish
            &&& out[out.len() - 1] is Done
            &&& forall|i: int| 0 <= i < out.len() - 2 ==> content_chunk(#[trigger] out[i])
        },
        run_model(e, evs).0.answer == e.answer + content_concat(run_model(e, evs).1),
        run_model(e, evs).0.mode == e.mode,
        run_model(e, evs).0.reasoning == e.reasoning,
        run_model(e, evs).0.normal == e.normal,
    decreases evs.len(),
{
    if evs.len() == 0 {
        assert(e.answer + content_concat(run_model(e, evs).1) =~= e.answer);
    } else {
        let (e1, out1) = step_model(e, evs[0]);
        if e1.phase == e.phase {
            lemma_answer_phase_chunks(e1, evs.drop_first());
            let (e2, out2) = run_model(e1, evs.drop_first());
            lemma_content_concat_append(out1, out2);
            match evs[0] {
                EventModel::ContentDelta(t) => {
                    if t.len() > 0 {
                        assert(out1 =~= seq![ChunkModel::Content(t)]);
                        lemma_cc_single(ChunkModel::Content(t));
                    } else {
                        lemma_content_concat_none(out1);
                    }
                },
                _ => {
                    lemma_content_concat_none(out1);
                },
            }
            assert(e2.answer =~= e.answer + (content_concat(out1) + content_concat(out2)));
            if e2.phase == Phase::Done {
                let out = out1 + out2;
                assert(out[out.len() - 2] == out2[out2.len() - 2]);
                assert(out[out.len() - 1] == out2[out2.len() - 1]);
                assert forall|i: int| 0 <= i < out.len() - 2 implies content_chunk(
                    #[trigger] out[i],
                ) by {
                    if i < out1.len() {
                        assert(out[i] == out1[i]);
                    } else {
                        assert(out[i] == out2[i - out1.len()]);
                    }
                }
            } else {
                let out = out1 + out2;
                assert forall|i: int| 0 <= i < out.len() implies content_chunk(
                    #[trigger] out[i],
                ) by {
                    if i < out1.len() {
                        assert(out[i] == out1[i]);
                    } else {
                        assert(out[i] == out2[i - out1.len()]);
                    }
                }
            }
        } else {
            // the first event closed the phase
            assert(e1.phase == Phase::Done);
            assert(out1.len() == 2);
            assert(out1.drop_last() =~= seq![out1[0]]);
            lemma_cc_single(out1[0]);
            assert(content_concat(out1) =~= Seq::<u8>::empty());
            assert(e1.answer =~= e.answer + content_concat(out1));
        }
    }
}

/// Law: the outbound stream of an accepted request holds exactly one
/// role chunk, and it comes first; on success exactly one finish chunk
/// follows everything else, trailed by exactly one terminal sentinel.
pub proof fn lemma_stream_shape(mode: Mode, rev: Seq<EventModel>, aev: Seq<EventModel>)
    requires
        forall|i: int| 0 <= i < rev.len() ==> event_wf(#[trigger] rev[i]),
        forall|i: int| 0 <= i < aev.len() ==> event_wf(#[trigger] aev[i]),
    ensures
        compose_model(mode, rev, aev).1.len() >= 1,
        compose_model(mode, rev, aev).1[0] is Role,
        forall|i: int|
            1 <= i < compose_model(mode, rev, aev).1.len() ==> !(
            #[trigger] compose_model(mode, rev, aev).1[i] is Role),
        compose_model(mode, rev, aev).0.phase == Phase::Done ==> {
            let out = compose_model(mode, rev, aev).1;
            &&& out.len() >= 3
            &&& out[out.len() - 2] is Finish
            &&& out[out.len() - 1] is Done
            &&& forall|i: int|
                0 <= i < out.len() - 2 ==> !(#[trigger] out[i] is Finish) && !(out[i] is Done)
        },
{
    let e0 = init_model(mode);
    lemma_reasoning_phase_chunks(e0, rev);
    let (e1, out1) = run_model(e0, rev);
    assert(e1.phase != Phase::Failed);
    let e1b = EngineModel { phase: Phase::Answer, ..e1 };
    lemma_answer_phase_chunks(e1b, aev);
    let (e2, out2) = run_model(e1b, aev);
    let out = seq![ChunkModel::Role] + out1 + out2;
    assert(out[0] is Role);
    assert forall|i: int| 1 <= i < out.len() implies !(#[trigger] out[i] is Role) by {
        if i < 1 + out1.len() {
            assert(out[i] == out1[i - 1]);
            assert(reasoning_chunk(out1[i - 1]));
        } else {
            assert(out[i] == out2[i - 1 - out1.len()]);
        }
    }
    if e2.phase == Phase::Done {
        assert(out[out.len() - 2] == out2[out2.len() - 2]);
        assert(out[out.len() - 1] == out2[out2.len() - 1]);
        assert forall|i: int| 0 <= i < out.len() - 2 implies !(#[trigger] out[i] is Finish) && !(
        out[i] is Done) by {
            if i == 0 {
            } else if i < 1 + out1.len() {
                assert(out[i] == out1[i - 1]);
                assert(reasoning_chunk(out1[i - 1]));
            } else {
                assert(out[i] == out2[i - 1 - out1.len()]);
                assert(content_chunk(out2[i - 1 - out1.len()]));
            }
        }
    }
}

/// Law: the answer text a composed stream carries, read off its chunks,
/// is exactly the engine's accumulated answer buffer.
pub proof fn lemma_stream_content_is_answer(mode: Mode, rev: Seq<EventModel>, aev: Seq<EventModel>)
    requires
        forall|i: int| 0 <= i < rev.len() ==> event_wf(#[trigger] rev[i]),
        forall|i: int| 0 <= i < aev.len() ==> event_wf(#[trigger] aev[i]),
    ensures
        content_concat(compose_model(mode, rev, aev).1) == compose_model(mode, rev, aev).0.answer,
{
    let e0 = init_model(mode);
    lemma_reasoning_phase_chunks(e0, rev);
    let (e1, out1) = run_model(e0, rev);
    let e1b = EngineModel { phase: Phase::Answer, ..e1 };
    lemma_answer_phase_chunks(e1b, aev);
    let (e2, out2) = run_model(e1b, aev);
    lemma_content_concat_append(seq![ChunkModel::Role], out1);
    lemma_content_concat_append(seq![ChunkModel::Role] + out1, out2);
    lemma_cc_single(ChunkModel::Role);
    assert(content_concat(seq![ChunkModel::Role] + out1 + out2) =~= e2.answer);
}

} // verus!
