//! The client stream encoder.
//!
//! Turns outbound chunks into OpenAI-compatible SSE frames: each chunk
//! becomes one `data: <json>\n\n` frame, the terminal frame is
//! `data: [DONE]\n\n`. String payloads are JSON-escaped byte by byte and
//! numbers are rendered in decimal, both verified against exact
//! specifications.

use vstd::prelude::*;

verus! {

use vstd::string::StringSliceAdditionalSpecFns;
use crate::bytes::{lit, push_all};
use crate::engine::{ChunkKind, ChunkModel};

/// Lower-case hex digit of a value below 16.
pub open spec fn hex_digit(n: u8) -> u8 {
    if n < 10 {
        (48 + n) as u8
    } else {
        (87 + n) as u8
    }
}

/// JSON escape of one byte inside a string literal: quote and backslash
/// are escaped, control bytes become `\u00XX`, everything else (all
/// UTF-8 continuation bytes included) passes through.
pub open spec fn escape_byte(b: u8) -> Seq<u8> {
    if b == 34 {
        seq![92u8, 34]
    } else if b == 92 {
        seq![92u8, 92]
    } else if b < 32 {
        seq![92u8, 117, 48, 48, hex_digit(b / 16), hex_digit(b % 16)]
    } else {
        seq![b]
    }
}

/// JSON escape of a whole byte string.
pub open spec fn escape_spec(s: Seq<u8>) -> Seq<u8>
    decreases s.len(),
{
    if s.len() == 0 {
        Seq::empty()
    } else {
        escape_spec(s.drop_last()) + escape_byte(s.last())
    }
}

/// A JSON string literal: quotes around the escaped text.
pub open spec fn json_string_spec(s: Seq<u8>) -> Seq<u8> {
    seq![34u8] + escape_spec(s) + seq![34u8]
}

/// Decimal rendering of an unsigned number.
pub open spec fn dec_spec(n: nat) -> Seq<u8>
    decreases n,
{
    if n < 10 {
        seq![(48 + n) as u8]
    } else {
        dec_spec(n / 10) + seq![(48 + n % 10) as u8]
    }
}

/// Appends the JSON escape of `s` to `out`.
pub fn push_escaped(out: &mut Vec<u8>, s: &Vec<u8>)
    ensures
        final(out)@ == old(out)@ + escape_spec(s@),
{
    let mut i: usize = 0;
    proof {
        assert(s@.subrange(0, 0) =~= Seq::<u8>::empty());
        assert(old(out)@ + Seq::<u8>::empty() =~= old(out)@);
    }
    while i < s.len()
        invariant
            0 <= i <= s@.len(),
            out@ == old(out)@ + escape_spec(s@.subrange(0, i as int)),
        decreases s@.len() - i,
    {
        let ghost pre = s@.subrange(0, i as int);
        let ghost post = s@.subrange(0, i as int + 1);
        proof {
            assert(post.drop_last() =~= pre);
            assert(post.last() == s@[i as int]);
        }
        let b = s[i];
        let ghost out_pre = out@;
        if b == 34 {
            out.push(92);
            out.push(34);
        } else if b == 92 {
            out.push(92);
            out.push(92);
        } else if b < 32 {
            out.push(92);
            out.push(117);
            out.push(48);
            out.push(48);
            let hi = b / 16;
            let lo = b % 16;
            out.push(if hi < 10 {
                48 + hi
            } else {
                87 + hi
            });
            out.push(if lo < 10 {
                48 + lo
            } else {
                87 + lo
            });
        } else {
            out.push(b);
        }
        proof {
            assert(out@ =~= out_pre + escape_byte(s@[i as int]));
            assert(out@ =~= old(out)@ + escape_spec(post));
        }
        i += 1;
    }
    proof {
        assert(s@.subrange(0, s@.len() as int) =~= s@);
    }
}

/// Appends a JSON string literal holding `s` to `out`.
pub fn push_json_string(out: &mut Vec<u8>, s: &Vec<u8>)
    ensures
        final(out)@ == old(out)@ + json_string_spec(s@),
{
    out.push(34);
    push_escaped(out, s);
    out.push(34);
    proof {
        assert(final(out)@ =~= old(out)@ + json_string_spec(s@));
    }
}

/// Appends the decimal rendering of `n` to `out`.
pub fn push_dec(out: &mut Vec<u8>, n: u64)
    ensures
        final(out)@ == old(out)@ + dec_spec(n as nat),
{
    let mut digits: Vec<u8> = Vec::new();
    let mut m = n;
    if m == 0 {
        out.push(48);
        proof {
            assert(old(out)@ + dec_spec(0) =~= old(out)@.push(48u8));
        }
        return ;
    }
    while m > 0
        invariant
            0 <= m <= n,
            m > 0 || digits@.len() > 0,
            dec_spec(n as nat) == (if m > 0 {
                dec_spec(m as nat)
            } else {
                Seq::<u8>::empty()
            }) + digits@.reverse(),
        decreases m,
    {
        let ghost digits_pre = digits@;
        let d = (m % 10) as u8;
        digits.push(48 + d);
        proof {
            if m >= 10 {
                assert(dec_spec(m as nat) == dec_spec((m as nat) / 10) + seq![
                    (48 + (m as nat) % 10) as u8,
                ]);
                assert(digits@.reverse() =~= seq![(48 + (m as nat) % 10) as u8]
                    + digits_pre.reverse());
                assert(dec_spec((m / 10) as nat) + digits@.reverse() =~= dec_spec(m as nat)
                    + digits_pre.reverse());
            } else {
                assert(dec_spec(m as nat) == seq![(48 + m as nat) as u8]);
                assert(digits@.reverse() =~= seq![(48 + m as nat) as u8] + digits_pre.reverse());
                assert(Seq::<u8>::empty() + digits@.reverse() =~= dec_spec(m as nat)
                    + digits_pre.reverse());
            }
        }
        m = m / 10;
    }
    let mut k: usize = digits.len();
    proof {
        assert(digits@.subrange(0, digits@.len() as int) =~= digits@);
    }
    while k > 0
        invariant
            0 <= k <= digits@.len(),
            dec_spec(n as nat) == digits@.reverse(),
            out@ == old(out)@ + digits@.subrange(k as int, digits@.len() as int).reverse(),
        decreases k,
    {
        let ghost out_pre = out@;
        k -= 1;
        out.push(digits[k]);
        proof {
            assert(digits@.subrange(k as int, digits@.len() as int).reverse() =~= digits@.subrange(
                k as int + 1,
                digits@.len() as int,
            ).reverse().push(digits@[k as int]));
            assert(out@ =~= old(out)@ + digits@.subrange(
                k as int,
                digits@.len() as int,
            ).reverse());
        }
    }
    proof {
        assert(digits@.subrange(0, digits@.len() as int) =~= digits@);
    }
}

/// Appends a string literal's bytes to `out`.
pub fn push_lit(out: &mut Vec<u8>, s: &str)
    ensures
        final(out)@ == old(out)@ + s.spec_bytes(),
{
    let b = lit(s);
    push_all(out, &b);
}

/// The constant `content_filter_results` member every delta chunk carries.
pub open spec fn filter_results_spec() -> Seq<u8> {
    "\"content_filter_results\":{\"hate\":{\"filtered\":false},\"self_harm\":{\"filtered\":false},\"sexual\":{\"filtered\":false},\"violence\":{\"filtered\":false}}".spec_bytes()
}

/// The `delta` member of a chunk.
pub open spec fn delta_spec(c: ChunkModel) -> Seq<u8> {
    match c {
        ChunkModel::Role => "{\"role\":\"assistant\"}".spec_bytes(),
        ChunkModel::Reasoning(t) => "{\"content\":null,\"reasoning_content\":".spec_bytes()
            + json_string_spec(t) + ",\"role\":\"assistant\"}".spec_bytes(),
        ChunkModel::Content(t) => "{\"content\":".spec_bytes() + json_string_spec(t)
            + ",\"reasoning_content\":null,\"role\":\"assistant\"}".spec_bytes(),
        _ => "{}".spec_bytes(),
    }
}

/// The `finish_reason` member of a chunk.
pub open spec fn finish_spec(c: ChunkModel) -> Seq<u8> {
    match c {
        ChunkModel::Finish(r) => json_string_spec(r),
        _ => "null".spec_bytes(),
    }
}

/// The whole JSON object of one delta-bearing chunk.
pub open spec fn chunk_json_spec(
    c: ChunkModel,
    id: Seq<u8>,
    created: u64,
    model: Seq<u8>,
    prompt_tokens: u64,
    completion_tokens: u64,
    total_tokens: u64,
) -> Seq<u8> {
    "{\"id\":".spec_bytes() + json_string_spec(id)
        + ",\"object\":\"chat.completion.chunk\",\"created\":".spec_bytes()
        + dec_spec(created as nat) + ",\"model\":".spec_bytes() + json_string_spec(model)
        + ",\"choices\":[{\"index\":0,\"delta\":".spec_bytes() + delta_spec(c)
        + ",\"finish_reason\":".spec_bytes() + finish_spec(c) + ",".spec_bytes()
        + filter_results_spec()
        + "}],\"system_fingerprint\":\"\",\"usage\":{\"prompt_tokens\":".spec_bytes()
        + dec_spec(prompt_tokens as nat) + ",\"completion_tokens\":".spec_bytes()
        + dec_spec(completion_tokens as nat) + ",\"total_tokens\":".spec_bytes()
        + dec_spec(total_tokens as nat) + "}".spec_bytes() + (if c is Heartbeat {
        ",\"heartbeat\":true".spec_bytes()
    } else {
        Seq::<u8>::empty()
    }) + "}".spec_bytes()
}

/// The whole SSE frame of one outbound chunk: `data: <payload>` and a
/// blank line. The terminal sentinel and the in-stream error report have
/// their own payloads.
pub open spec fn chunk_frame_spec(
    c: ChunkModel,
    id: Seq<u8>,
    created: u64,
    model: Seq<u8>,
    prompt_tokens: u64,
    completion_tokens: u64,
    total_tokens: u64,
) -> Seq<u8> {
    match c {
        ChunkModel::Done => "data: [DONE]\n\n".spec_bytes(),
        ChunkModel::Error(m) => "data: ".spec_bytes() + "{\"error\":".spec_bytes()
            + json_string_spec(m) + "}\n\n".spec_bytes(),
        _ => "data: ".spec_bytes() + chunk_json_spec(
            c,
            id,
            created,
            model,
            prompt_tokens,
            completion_tokens,
            total_tokens,
        ) + "\n\n".spec_bytes(),
    }
}

/// Encodes one outbound chunk as a single SSE frame.
#[verifier::rlimit(100)]
pub fn encode_chunk(
    c: &ChunkKind,
    id: &Vec<u8>,
    created: u64,
    model: &Vec<u8>,
    prompt_tokens: u64,
    completion_tokens: u64,
    total_tokens: u64,
) -> (r: Vec<u8>)
    ensures
        r@ == chunk_frame_spec(
            c@,
            id@,
            created,
            model@,
            prompt_tokens,
            completion_tokens,
            total_tokens,
        ),
{
    let mut out: Vec<u8> = Vec::new();
    push_lit(&mut out, "data: ");
    match c {
        ChunkKind::Done => {
            // the terminal frame carries the bare sentinel
            out.clear();
            push_lit(&mut out, "data: [DONE]\n\n");
            proof {
                assert(Seq::<u8>::empty() + "data: [DONE]\n\n".spec_bytes()
                    =~= "data: [DONE]\n\n".spec_bytes());
            }
            return out;
        },
        ChunkKind::ErrorChunk { message } => {
            push_lit(&mut out, "{\"error\":");
            push_json_string(&mut out, message);
            push_lit(&mut out, "}\n\n");
            proof {
                assert(out@ =~= "data: ".spec_bytes() + "{\"error\":".spec_bytes()
                    + json_string_spec(message@) + "}\n\n".spec_bytes());
            }
            return out;
        },
        _ => {},
    }
    let ghost head = "data: ".spec_bytes();
    push_lit(&mut out, "{\"id\":");
    push_json_string(&mut out, id);
    push_lit(&mut out, ",\"object\":\"chat.completion.chunk\",\"created\":");
    push_dec(&mut out, created);
    push_lit(&mut out, ",\"model\":");
    push_json_string(&mut out, model);
    push_lit(&mut out, ",\"choices\":[{\"index\":0,\"delta\":");
    let ghost mid1 = out@;
    proof {
        assert(mid1 =~= head + ("{\"id\":".spec_bytes() + json_string_spec(id@)
            + ",\"object\":\"chat.completion.chunk\",\"created\":".spec_bytes()
            + dec_spec(created as nat) + ",\"model\":".spec_bytes() + json_string_spec(model@)
            + ",\"choices\":[{\"index\":0,\"delta\":".spec_bytes()));
    }
    match c {
        ChunkKind::Role => {
            push_lit(&mut out, "{\"role\":\"assistant\"}");
        },
        ChunkKind::Reasoning { text } => {
            push_lit(&mut out, "{\"content\":null,\"reasoning_content\":");
            push_json_string(&mut out, text);
            push_lit(&mut out, ",\"role\":\"assistant\"}");
        },
        ChunkKind::Content { text } => {
            push_lit(&mut out, "{\"content\":");
            push_json_string(&mut out, text);
            push_lit(&mut out, ",\"reasoning_content\":null,\"role\":\"assistant\"}");
        },
        _ => {
            push_lit(&mut out, "{}");
        },
    }
    push_lit(&mut out, ",\"finish_reason\":");
    match c {
        ChunkKind::Finish { reason } => {
            push_json_string(&mut out, reason);
        },
        _ => {
            push_lit(&mut out, "null");
        },
    }
    let ghost mid2 = out@;
    proof {
        assert(mid2 =~= mid1 + delta_spec(c@) + ",\"finish_reason\":".spec_bytes() + finish_spec(
            c@,
        ));
    }
    push_lit(&mut out, ",");
    push_lit(&mut out,
        "\"content_filter_results\":{\"hate\":{\"filtered\":false},\"self_harm\":{\"filtered\":false},\"sexual\":{\"filtered\":false},\"violence\":{\"filtered\":false}}",
    );
    push_lit(&mut out, "}],\"system_fingerprint\":\"\",\"usage\":{\"prompt_tokens\":");
    let ghost mid3 = out@;
    proof {
        assert(mid3 =~= mid2 + ",".spec_bytes() + filter_results_spec()
            + "}],\"system_fingerprint\":\"\",\"usage\":{\"prompt_tokens\":".spec_bytes());
    }
    push_dec(&mut out, prompt_tokens);
    push_lit(&mut out, ",\"completion_tokens\":");
    push_dec(&mut out, completion_tokens);
    push_lit(&mut out, ",\"total_tokens\":");
    push_dec(&mut out, total_tokens);
    push_lit(&mut out, "}");
    let ghost mid4 = out@;
    proof {
        assert(mid4 =~= mid3 + dec_spec(prompt_tokens as nat) + ",\"completion_tokens\":".spec_bytes()
            + dec_spec(completion_tokens as nat) + ",\"total_tokens\":".spec_bytes()
            + dec_spec(total_tokens as nat) + "}".spec_bytes());
    }
    if matches!(c, ChunkKind::Heartbeat) {
        push_lit(&mut out, ",\"heartbeat\":true");
    } else {
        proof {
            assert(out@ + Seq::<u8>::empty() =~= out@);
        }
    }
    push_lit(&mut out, "}");
    push_lit(&mut out, "\n\n");
    proof {
        assert(out@ =~= mid4 + (if c@ is Heartbeat {
            ",\"heartbeat\":true".spec_bytes()
        } else {
            Seq::<u8>::empty()
        }) + "}".spec_bytes() + "\n\n".spec_bytes());
        assert(out@ =~= head + chunk_json_spec(
            c@,
            id@,
            created,
            model@,
            prompt_tokens,
            completion_tokens,
            total_tokens,
        ) + "\n\n".spec_bytes());
    }
    out
}

/// The composed model name reported to the client.
pub open spec fn composed_model_spec(reasoning: Seq<u8>, answer: Seq<u8>) -> Seq<u8> {
    reasoning + "_".spec_bytes() + answer
}

pub fn composed_model_name(reasoning: &Vec<u8>, answer: &Vec<u8>) -> (r: Vec<u8>)
    ensures
        r@ == composed_model_spec(reasoning@, answer@),
{
    let mut r: Vec<u8> = Vec::new();
    push_all(&mut r, reasoning);
    push_lit(&mut r, "_");
    push_all(&mut r, answer);
    r
}

/// Relies on uuid::Uuid::new_v4 and its Display form: a fresh random
/// version-4 UUID rendered hyphenated, which is 36 ASCII bytes.
#[verifier::external_body]
pub(crate) fn fresh_id() -> (r: Vec<u8>)
    ensures
        r@.len() == 36,
{
    uuid::Uuid::new_v4().to_string().into_bytes()
}

/// Relies on chrono::Utc::now and DateTime::timestamp: the wall clock as
/// unix seconds; nothing is promised of the value.
#[verifier::external_body]
pub(crate) fn now_unix() -> i64 {
    chrono::Utc::now().timestamp()
}

/// Relies on chrono::Utc::now and DateTime::timestamp_millis: the wall
/// clock in unix milliseconds; nothing is promised of the value.
#[verifier::external_body]
pub(crate) fn now_unix_millis() -> i64 {
    chrono::Utc::now().timestamp_millis()
}

/// Whether a chunk carries the request-level stream id: the opening
/// role chunk and the closing finish and terminal chunks do; every
/// other chunk gets a fresh id of its own.
pub fn chunk_uses_stream_id(c: &ChunkKind) -> (r: bool)
    ensures
        r == (c@ is Role || c@ is Finish || c@ is Done),
{
    matches!(c, ChunkKind::Role | ChunkKind::Finish { .. } | ChunkKind::Done)
}

/// A fresh id for one intermediate chunk.
pub fn fresh_chunk_id() -> (r: Vec<u8>)
    ensures
        r@.len() == 36,
{
    fresh_id()
}

/// The identity a request's outbound conversation keeps: the stable
/// chunk id shared by the first and the final chunk, and when the
/// stream began, in seconds and in milliseconds.
pub struct StreamIdentity {
    pub stream_id: Vec<u8>,
    pub created: u64,
    pub created_ms: u64,
}

/// Opens a stream identity for one request.
pub fn fresh_stream_identity() -> (r: StreamIdentity)
    ensures
        r.stream_id@.len() == 36,
{
    StreamIdentity {
        stream_id: fresh_id(),
        created: clamp_timestamp(now_unix()),
        created_ms: clamp_timestamp(now_unix_millis()),
    }
}

/// A timestamp clamped to the unsigned range the encoder renders.
pub fn clamp_timestamp(t: i64) -> (r: u64)
    ensures
        r == (if t < 0 {
            0u64
        } else {
            t as u64
        }),
{
    if t < 0 {
        0
    } else {
        t as u64
    }
}

/// The response timestamp, shifted to UTC+8 seconds and saturating at
/// the numeric bounds.
pub fn beijing_timestamp(now: i64) -> (r: i64)
    ensures
        r == (if now <= i64::MAX - 28800 {
            (now + 28800) as i64
        } else {
            i64::MAX
        }),
{
    if now <= i64::MAX - 28800 {
        now + 28800
    } else {
        i64::MAX
    }
}

} // verus!
