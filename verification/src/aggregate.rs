//! The non-streaming aggregator.
//!
//! When the caller did not ask for a stream, both phases run to
//! completion without emitting chunks, and one OpenAI-compatible
//! response is assembled from the engine's buffers.

use vstd::prelude::*;

verus! {

use crate::bytes::{trim_start_spec, trim_spec, trim_start, trim, subvec, push_all};
use crate::engine::{Engine, EngineModel, Mode, sentinel, sentinel_spec, compose_model};
use crate::events::{EventModel, event_wf};
use crate::laws::{content_concat, lemma_stream_content_is_answer};

/// The assembled non-streaming result, before wire encoding.
pub struct AggregateOutput {
    /// The answer text, left-trimmed.
    pub content: Vec<u8>,
    /// The reasoning text the response reports, when one is owed.
    pub reasoning_content: Option<Vec<u8>>,
    pub prompt_tokens: u64,
    pub completion_tokens: u64,
    pub total_tokens: u64,
}

/// The `content` of the non-streaming response.
pub open spec fn aggregate_content_model(e: EngineModel) -> Seq<u8> {
    trim_start_spec(e.answer)
}

/// The `reasoning_content` of the non-streaming response: the full
/// reasoning text in `Normal` mode; in `Full` mode the marked answer
/// text of the reasoning model, or nothing when it produced none.
pub open spec fn aggregate_reasoning_model(e: EngineModel) -> Option<Seq<u8>> {
    match e.mode {
        Mode::Normal => Some(e.reasoning),
        Mode::Full => if trim_spec(e.normal).len() > 0 {
            Some(sentinel_spec() + trim_spec(e.normal))
        } else {
            None
        },
    }
}

/// Token counts reported for the response: the answer upstream's last
/// report, with the total saturating rather than wrapping.
pub open spec fn aggregate_total_model(input: u64, output: u64) -> u64 {
    if input + output <= u64::MAX {
        (input + output) as u64
    } else {
        u64::MAX
    }
}

/// Assembles the non-streaming response from a finished engine.
pub fn aggregate(engine: &Engine) -> (r: AggregateOutput)
    ensures
        r.content@ == aggregate_content_model(engine@),
        match r.reasoning_content {
            Some(s) => aggregate_reasoning_model(engine@) == Some(s@),
            None => aggregate_reasoning_model(engine@) is None,
        },
        r.prompt_tokens == engine@.answer_usage.input,
        r.completion_tokens == engine@.answer_usage.output,
        r.total_tokens == aggregate_total_model(
            engine@.answer_usage.input,
            engine@.answer_usage.output,
        ),
{
    let content = trim_start(&engine.answer_buf);
    let reasoning_content = match engine.mode {
        Mode::Normal => Some(subvec(&engine.reasoning_buf, 0, engine.reasoning_buf.len())),
        Mode::Full => {
            let t = trim(&engine.normal_buf);
            if t.len() > 0 {
                let mut marked = sentinel();
                push_all(&mut marked, &t);
                Some(marked)
            } else {
                None
            }
        },
    };
    proof {
        assert(engine.reasoning_buf@.subrange(0, engine.reasoning_buf@.len() as int)
            =~= engine.reasoning_buf@);
    }
    let input = engine.answer_usage.input;
    let output = engine.answer_usage.output;
    let total = if input <= u64::MAX - output {
        input + output
    } else {
        u64::MAX
    };
    AggregateOutput {
        content,
        reasoning_content,
        prompt_tokens: input,
        completion_tokens: output,
        total_tokens: total,
    }
}

/// Law: with mode and inputs held constant, the concatenated answer
/// payloads of the streamed response equal the `content` of the
/// non-streaming response — for every answer that does not open with
/// whitespace. (The aggregator left-trims its content; the stream
/// forwards fragments verbatim, so an answer opening with whitespace
/// differs in exactly that whitespace.)
pub proof fn lemma_stream_equals_aggregate(mode: Mode, rev: Seq<EventModel>, aev: Seq<EventModel>)
    requires
        forall|i: int| 0 <= i < rev.len() ==> event_wf(#[trigger] rev[i]),
        forall|i: int| 0 <= i < aev.len() ==> event_wf(#[trigger] aev[i]),
        trim_start_spec(compose_model(mode, rev, aev).0.answer) == compose_model(
            mode,
            rev,
            aev,
        ).0.answer,
    ensures
        content_concat(compose_model(mode, rev, aev).1) == aggregate_content_model(
            compose_model(mode, rev, aev).0,
        ),
{
    lemma_stream_content_is_answer(mode, rev, aev);
}

} // verus!
