//! The internal event vocabulary and the per-provider wire adapters.
//!
//! Each adapter turns an incoming byte stream of Server-Sent Events into
//! normalized events. Partial frames are buffered (see `sse`), JSON that
//! ends too early is deferred until more bytes arrive, and other
//! malformed payloads are counted and dropped with a single `Ping`.

use vstd::prelude::*;

verus! {

use vstd::string::StrSliceExecFns;
use vstd::string::StringSliceAdditionalSpecFns;
use vstd::utf8::encode_utf8;
use crate::bytes::{lit, trim, subvec, starts_with, bytes_eq, push_all, trim_spec};
use crate::sse::{Framer, complete_lines, line_rest, lemma_lines_split};
use crate::json::{
    classify_payload, PayloadClass, json_ok, json_incomplete, delta_role, delta_role_of,
    delta_reasoning, delta_reasoning_of, delta_content, delta_content_of, finish_present,
    finish_present_of, finish_reason, finish_reason_of, usage_openai, usage_openai_of, tag,
    tag_of, delta_kind, delta_kind_of, delta_text, delta_text_of, usage_anthropic,
    usage_anthropic_of,
};

/// Token counts reported by an upstream; a later report supersedes an
/// earlier one within the same stream.
#[derive(Clone, Copy, Debug, PartialEq, Eq, Structural)]
pub struct UsageCounts {
    pub input: u64,
    pub output: u64,
    pub reasoning: u64,
    pub cached: u64,
}

impl UsageCounts {
    pub fn zero() -> (r: UsageCounts)
        ensures
            r == (UsageCounts { input: 0, output: 0, reasoning: 0, cached: 0 }),
    {
        UsageCounts { input: 0, output: 0, reasoning: 0, cached: 0 }
    }
}

/// One normalized upstream event.
#[derive(Debug, Clone, PartialEq, Eq)]
pub enum NormalizedEvent {
    /// The upstream opened an assistant turn.
    RoleStart { role: Vec<u8> },
    /// A fragment of chain-of-thought text.
    ReasoningDelta { text: Vec<u8> },
    /// A fragment of answer text.
    ContentDelta { text: Vec<u8> },
    /// A usage report; the last one wins.
    UsageReport { usage: UsageCounts },
    /// Upstream end of stream, with its finish reason.
    Stop { reason: Vec<u8> },
    /// Upstream heartbeat; carries nothing.
    Ping,
    /// The upstream call failed; the message describes how.
    Failure { message: Vec<u8> },
}

/// Mathematical image of a `NormalizedEvent`.
pub enum EventModel {
    RoleStart(Seq<u8>),
    ReasoningDelta(Seq<u8>),
    ContentDelta(Seq<u8>),
    UsageReport(UsageCounts),
    Stop(Seq<u8>),
    Ping,
    Failure(Seq<u8>),
}

impl View for NormalizedEvent {
    type V = EventModel;

    open spec fn view(&self) -> EventModel {
        match self {
            NormalizedEvent::RoleStart { role } => EventModel::RoleStart(role@),
            NormalizedEvent::ReasoningDelta { text } => EventModel::ReasoningDelta(text@),
            NormalizedEvent::ContentDelta { text } => EventModel::ContentDelta(text@),
            NormalizedEvent::UsageReport { usage } => EventModel::UsageReport(*usage),
            NormalizedEvent::Stop { reason } => EventModel::Stop(reason@),
            NormalizedEvent::Ping => EventModel::Ping,
            NormalizedEvent::Failure { message } => EventModel::Failure(message@),
        }
    }
}

/// What a wire adapter may hand the engine: delta fragments are never
/// empty, and adapters never fabricate failures.
pub open spec fn event_wf(e: EventModel) -> bool {
    match e {
        EventModel::ReasoningDelta(t) => t.len() > 0,
        EventModel::ContentDelta(t) => t.len() > 0,
        EventModel::Failure(_) => false,
        _ => true,
    }
}

/// The payload of a data line: what follows its `data: ` prefix.
pub open spec fn data_payload(line: Seq<u8>) -> Option<Seq<u8>> {
    let prefix = "data: ".spec_bytes();
    if prefix.len() <= line.len() && line.subrange(0, prefix.len() as int) == prefix {
        Some(line.subrange(prefix.len() as int, line.len() as int))
    } else {
        None
    }
}

/// The trimmed payload announcing the end of an OpenAI-style stream.
pub open spec fn is_done_payload(payload: Seq<u8>) -> bool {
    trim_spec(payload) == "[DONE]".spec_bytes()
}

/// The three response dialects the gateway understands.
#[derive(Clone, Copy, Debug, PartialEq, Eq, Structural)]
pub enum Dialect {
    /// Anthropic-native SSE, tagged by a `type` field.
    Anthropic,
    /// OpenAI chat-completion SSE with `choices[0].delta`.
    OpenAiChat,
    /// DeepSeek implements the OpenAI chat dialect.
    DeepSeekChat,
}

/// Mathematical image of an event list.
pub open spec fn events_model(s: Seq<NormalizedEvent>) -> Seq<EventModel> {
    s.map_values(|e: NormalizedEvent| e@)
}

/// The events one OpenAI-dialect payload yields: its usage report, then
/// the non-empty role, reasoning and content deltas of
/// `choices[0].delta`, then a stop when a finish reason is announced
/// (carrying its text, or `stop` when none is given).
pub open spec fn openai_events_of(b: Seq<u8>) -> Seq<EventModel> {
    (match usage_openai_of(b) {
        Some(u) => seq![
            EventModel::UsageReport(
                UsageCounts { input: u.0, output: u.1, reasoning: u.2, cached: u.3 },
            ),
        ],
        None => Seq::<EventModel>::empty(),
    }) + (match delta_role_of(b) {
        Some(r) => if r.len() > 0 {
            seq![EventModel::RoleStart(r)]
        } else {
            Seq::<EventModel>::empty()
        },
        None => Seq::<EventModel>::empty(),
    }) + (match delta_reasoning_of(b) {
        Some(t) => if t.len() > 0 {
            seq![EventModel::ReasoningDelta(t)]
        } else {
            Seq::<EventModel>::empty()
        },
        None => Seq::<EventModel>::empty(),
    }) + (match delta_content_of(b) {
        Some(t) => if t.len() > 0 {
            seq![EventModel::ContentDelta(t)]
        } else {
            Seq::<EventModel>::empty()
        },
        None => Seq::<EventModel>::empty(),
    }) + (if finish_present_of(b) {
        seq![EventModel::Stop(stop_reason_bytes(finish_reason_of(b)))]
    } else {
        Seq::<EventModel>::empty()
    })
}

/// The announced finish reason as bytes, defaulting to `stop` when it
/// is missing or blank.
pub open spec fn stop_reason_bytes(r: Option<Seq<char>>) -> Seq<u8> {
    match r {
        Some(t) => if encode_utf8(t).len() > 0 {
            encode_utf8(t)
        } else {
            "stop".spec_bytes()
        },
        None => "stop".spec_bytes(),
    }
}

/// The events one Anthropic-native payload yields, dispatched on its
/// `type` tag; unknown tags yield nothing.
pub open spec fn anthropic_events_of(b: Seq<u8>) -> Seq<EventModel> {
    match tag_of(b) {
        Some(t) => if t == "message_start".spec_bytes() {
            seq![EventModel::RoleStart("assistant".spec_bytes())]
        } else if t == "content_block_delta".spec_bytes() {
            if delta_kind_of(b) == Some("text_delta".spec_bytes()) {
                match delta_text_of(b) {
                    Some(x) => if x.len() > 0 {
                        seq![EventModel::ContentDelta(x)]
                    } else {
                        Seq::<EventModel>::empty()
                    },
                    None => Seq::<EventModel>::empty(),
                }
            } else {
                Seq::<EventModel>::empty()
            }
        } else if t == "message_delta".spec_bytes() {
            match usage_anthropic_of(b) {
                Some(u) => seq![
                    EventModel::UsageReport(
                        UsageCounts { input: u.0, output: u.1, reasoning: 0, cached: u.3 },
                    ),
                ],
                None => Seq::<EventModel>::empty(),
            }
        } else if t == "message_stop".spec_bytes() {
            seq![EventModel::Stop("stop".spec_bytes())]
        } else if t == "ping".spec_bytes() {
            seq![EventModel::Ping]
        } else {
            Seq::<EventModel>::empty()
        },
        None => Seq::<EventModel>::empty(),
    }
}

/// The events one parsed payload yields under a dialect.
pub open spec fn payload_events(dialect: Dialect, b: Seq<u8>) -> Seq<EventModel> {
    match dialect {
        Dialect::Anthropic => anthropic_events_of(b),
        _ => openai_events_of(b),
    }
}

/// One complete SSE line: what it emits and what JSON text stays
/// deferred afterwards. Lines without the data prefix carry nothing;
/// the terminal sentinel is a plain stop; a payload is joined with the
/// deferred bytes and read as JSON — complete documents decode, short
/// ones wait, anything else is dropped with one ping.
pub open spec fn line_step(defer: Seq<u8>, dialect: Dialect, line: Seq<u8>) -> (
    Seq<EventModel>,
    Seq<u8>,
) {
    match data_payload(line) {
        None => (Seq::<EventModel>::empty(), defer),
        Some(p) => if is_done_payload(p) {
            (seq![EventModel::Stop("stop".spec_bytes())], Seq::<u8>::empty())
        } else {
            let attempt = defer + p;
            if json_ok(attempt) {
                (payload_events(dialect, attempt), Seq::<u8>::empty())
            } else if json_incomplete(attempt) {
                (Seq::<EventModel>::empty(), attempt)
            } else {
                (seq![EventModel::Ping], Seq::<u8>::empty())
            }
        },
    }
}

/// A run of complete lines, folded through `line_step`.
pub open spec fn lines_step(defer: Seq<u8>, dialect: Dialect, lines: Seq<Seq<u8>>) -> (
    Seq<EventModel>,
    Seq<u8>,
)
    decreases lines.len(),
{
    if lines.len() == 0 {
        (Seq::<EventModel>::empty(), defer)
    } else {
        let (evs1, d1) = line_step(defer, dialect, lines[0]);
        let (evs2, d2) = lines_step(d1, dialect, lines.drop_first());
        (evs1 + evs2, d2)
    }
}

pub proof fn lemma_lines_step_append(d: Seq<u8>, dialect: Dialect, l1: Seq<Seq<u8>>, l2: Seq<
    Seq<u8>,
>)
    ensures
        lines_step(d, dialect, l1 + l2).0 == lines_step(d, dialect, l1).0 + lines_step(
            lines_step(d, dialect, l1).1,
            dialect,
            l2,
        ).0,
        lines_step(d, dialect, l1 + l2).1 == lines_step(
            lines_step(d, dialect, l1).1,
            dialect,
            l2,
        ).1,
    decreases l1.len(),
{
    if l1.len() == 0 {
        assert(l1 + l2 =~= l2);
        assert(Seq::<EventModel>::empty() + lines_step(d, dialect, l2).0 =~= lines_step(
            d,
            dialect,
            l2,
        ).0);
    } else {
        assert((l1 + l2)[0] == l1[0]);
        assert((l1 + l2).drop_first() =~= l1.drop_first() + l2);
        let (evs1, d1) = line_step(d, dialect, l1[0]);
        lemma_lines_step_append(d1, dialect, l1.drop_first(), l2);
        assert(evs1 + (lines_step(d1, dialect, l1.drop_first()).0 + lines_step(
            lines_step(d1, dialect, l1.drop_first()).1,
            dialect,
            l2,
        ).0) =~= (evs1 + lines_step(d1, dialect, l1.drop_first()).0) + lines_step(
            lines_step(d1, dialect, l1.drop_first()).1,
            dialect,
            l2,
        ).0);
    }
}

/// Law: however the upstream bytes are split into transport chunks, the
/// decoded event sequence is the same — feeding `a` and then `b` yields
/// exactly the events of feeding `a + b`, from any decoder state.
pub proof fn lemma_event_boundary_robust(
    pending: Seq<u8>,
    defer: Seq<u8>,
    dialect: Dialect,
    a: Seq<u8>,
    b: Seq<u8>,
)
    ensures
        lines_step(defer, dialect, complete_lines(pending + a)).0 + lines_step(
            lines_step(defer, dialect, complete_lines(pending + a)).1,
            dialect,
            complete_lines(line_rest(pending + a) + b),
        ).0 == lines_step(defer, dialect, complete_lines(pending + (a + b))).0,
        lines_step(
            lines_step(defer, dialect, complete_lines(pending + a)).1,
            dialect,
            complete_lines(line_rest(pending + a) + b),
        ).1 == lines_step(defer, dialect, complete_lines(pending + (a + b))).1,
        line_rest(line_rest(pending + a) + b) == line_rest(pending + (a + b)),
{
    assert(pending + (a + b) =~= (pending + a) + b);
    lemma_lines_split(pending + a, b);
    lemma_lines_step_append(
        defer,
        dialect,
        complete_lines(pending + a),
        complete_lines(line_rest(pending + a) + b),
    );
}

/// Incremental decoder from transport chunks to normalized events.
pub struct StreamDecoder {
    dialect: Dialect,
    framer: Framer,
    defer: Vec<u8>,
    /// Malformed payloads dropped so far, kept for observability.
    pub dropped: u64,
}

impl StreamDecoder {
    pub closed spec fn wf(&self) -> bool {
        self.framer.wf()
    }

    /// The bytes still waiting for their terminating newline.
    pub closed spec fn pending(&self) -> Seq<u8> {
        self.framer.pending()
    }

    /// The JSON text waiting for its continuation.
    pub closed spec fn deferred(&self) -> Seq<u8> {
        self.defer@
    }

    /// The dialect this decoder reads.
    pub closed spec fn dialect_spec(&self) -> Dialect {
        self.dialect
    }

    pub fn new(dialect: Dialect) -> (r: StreamDecoder)
        ensures
            r.wf(),
            r.pending() == Seq::<u8>::empty(),
            r.deferred() == Seq::<u8>::empty(),
            r.dialect_spec() == dialect,
    {
        StreamDecoder { dialect, framer: Framer::new(), defer: Vec::new(), dropped: 0 }
    }

    /// Feeds one transport chunk and returns exactly the events its
    /// completed lines yield.
    pub fn feed(&mut self, chunk: &Vec<u8>) -> (out: Vec<NormalizedEvent>)
        requires
            old(self).wf(),
        ensures
            final(self).wf(),
            final(self).dialect_spec() == old(self).dialect_spec(),
            final(self).pending() == line_rest(old(self).pending() + chunk@),
            events_model(out@) == lines_step(
                old(self).deferred(),
                old(self).dialect_spec(),
                complete_lines(old(self).pending() + chunk@),
            ).0,
            final(self).deferred() == lines_step(
                old(self).deferred(),
                old(self).dialect_spec(),
                complete_lines(old(self).pending() + chunk@),
            ).1,
            forall|i: int| 0 <= i < out@.len() ==> event_wf(#[trigger] out@[i]@),
    {
        let ghost d0 = self.defer@;
        let ghost dialect = self.dialect;
        let lines = self.framer.feed(chunk);
        let ghost all = lines@.map_values(|l: Vec<u8>| l@);
        let mut out: Vec<NormalizedEvent> = Vec::new();
        let mut li: usize = 0;
        proof {
            assert(all.subrange(0, all.len() as int) =~= all);
            assert(events_model(out@) =~= Seq::<EventModel>::empty());
        }
        while li < lines.len()
            invariant
                0 <= li <= lines@.len(),
                self.wf(),
                self.dialect == dialect,
                self.pending() == line_rest(old(self).pending() + chunk@),
                all == lines@.map_values(|l: Vec<u8>| l@),
                lines_step(d0, dialect, all).0 == events_model(out@) + lines_step(
                    self.defer@,
                    dialect,
                    all.subrange(li as int, all.len() as int),
                ).0,
                lines_step(d0, dialect, all).1 == lines_step(
                    self.defer@,
                    dialect,
                    all.subrange(li as int, all.len() as int),
                ).1,
                forall|i: int| 0 <= i < out@.len() ==> event_wf(#[trigger] out@[i]@),
            decreases lines@.len() - li,
        {
            let ghost rest = all.subrange(li as int, all.len() as int);
            let ghost d_cur = self.defer@;
            proof {
                assert(rest[0] == all[li as int]);
                assert(rest.drop_first() =~= all.subrange(li as int + 1, all.len() as int));
            }
            let mut evs = self.decode_line(&lines[li]);
            proof {
                assert(lines_step(d_cur, dialect, rest).0 =~= events_model(evs@) + lines_step(
                    self.defer@,
                    dialect,
                    rest.drop_first(),
                ).0);
            }
            let ghost out_pre = events_model(out@);
            let ghost evs_all = events_model(evs@);
            while evs.len() > 0
                invariant
                    events_model(out@) + events_model(evs@) == out_pre + evs_all,
                    forall|i: int| 0 <= i < evs@.len() ==> event_wf(#[trigger] evs@[i]@),
                    forall|i: int| 0 <= i < out@.len() ==> event_wf(#[trigger] out@[i]@),
                decreases evs@.len(),
            {
                let ghost evs_pre = events_model(evs@);
                let ghost out_now = events_model(out@);
                let ev = evs.remove(0);
                out.push(ev);
                proof {
                    assert(events_model(evs@) =~= evs_pre.drop_first());
                    assert(events_model(out@) =~= out_now.push(evs_pre[0]));
                    assert(out_now.push(evs_pre[0]) + evs_pre.drop_first() =~= out_now + evs_pre);
                }
            }
            proof {
                assert(events_model(evs@) =~= Seq::<EventModel>::empty());
                assert(events_model(out@) =~= out_pre + evs_all);
                assert(out_pre + (evs_all + lines_step(
                    self.defer@,
                    dialect,
                    rest.drop_first(),
                ).0) =~= (out_pre + evs_all) + lines_step(
                    self.defer@,
                    dialect,
                    rest.drop_first(),
                ).0);
            }
            li += 1;
        }
        proof {
            assert(all.subrange(all.len() as int, all.len() as int) =~= Seq::<Seq<u8>>::empty());
            assert(events_model(out@) + Seq::<EventModel>::empty() =~= events_model(out@));
        }
        out
    }

    /// Decodes one complete SSE line, exactly as `line_step` says.
    fn decode_line(&mut self, line: &Vec<u8>) -> (out: Vec<NormalizedEvent>)
        ensures
            final(self).wf() == old(self).wf(),
            final(self).dialect == old(self).dialect,
            final(self).framer == old(self).framer,
            events_model(out@) == line_step(old(self).defer@, old(self).dialect, line@).0,
            final(self).defer@ == line_step(old(self).defer@, old(self).dialect, line@).1,
            forall|i: int| 0 <= i < out@.len() ==> event_wf(#[trigger] out@[i]@),
    {
        let mut out: Vec<NormalizedEvent> = Vec::new();
        let prefix = lit("data: ");
        if !starts_with(line, &prefix) {
            proof {
                assert(events_model(out@) =~= Seq::<EventModel>::empty());
            }
            return out;
        }
        let payload = subvec(line, prefix.len(), line.len());
        let trimmed = trim(&payload);
        let done = lit("[DONE]");
        if bytes_eq(&trimmed, &done) {
            self.defer.clear();
            out.push(NormalizedEvent::Stop { reason: lit("stop") });
            proof {
                assert(events_model(out@) =~= seq![EventModel::Stop("stop".spec_bytes())]);
            }
            return out;
        }
        let mut attempt: Vec<u8> = Vec::new();
        push_all(&mut attempt, &self.defer);
        push_all(&mut attempt, &payload);
        match classify_payload(&attempt) {
            PayloadClass::Parsed => {
                self.defer.clear();
                match self.dialect {
                    Dialect::Anthropic => decode_anthropic(&attempt, &mut out),
                    _ => decode_openai(&attempt, &mut out),
                }
                proof {
                    assert(events_model(out@) =~= Seq::<EventModel>::empty() + payload_events(
                        old(self).dialect,
                        attempt@,
                    ));
                    assert(events_model(out@) =~= line_step(
                        old(self).defer@,
                        old(self).dialect,
                        line@,
                    ).0);
                }
            },
            PayloadClass::Incomplete => {
                self.defer = attempt;
                proof {
                    assert(events_model(out@) =~= Seq::<EventModel>::empty());
                }
            },
            PayloadClass::Malformed => {
                self.defer.clear();
                if self.dropped < u64::MAX {
                    self.dropped = self.dropped + 1;
                }
                out.push(NormalizedEvent::Ping);
                proof {
                    assert(events_model(out@) =~= seq![EventModel::Ping]);
                }
            },
        }
        out
    }
}

/// Emits the events of one parsed OpenAI-dialect payload.
fn decode_openai(b: &Vec<u8>, out: &mut Vec<NormalizedEvent>)
    ensures
        events_model(final(out)@) == events_model(old(out)@) + openai_events_of(b@),
        forall|i: int|
            0 <= i < old(out)@.len() ==> final(out)@[i] == old(out)@[i],
        forall|i: int|
            old(out)@.len() <= i < final(out)@.len() ==> event_wf(#[trigger] final(out)@[i]@),
{
    let ghost base = events_model(out@);
    if let Some(u) = usage_openai(b) {
        out.push(
            NormalizedEvent::UsageReport {
                usage: UsageCounts { input: u.0, output: u.1, reasoning: u.2, cached: u.3 },
            },
        );
    }
    let ghost seg1 = base + (match usage_openai_of(b@) {
        Some(u) => seq![
            EventModel::UsageReport(
                UsageCounts { input: u.0, output: u.1, reasoning: u.2, cached: u.3 },
            ),
        ],
        None => Seq::<EventModel>::empty(),
    });
    proof {
        assert(events_model(out@) =~= seg1);
    }
    if let Some(role) = delta_role(b) {
        if role.len() > 0 {
            out.push(NormalizedEvent::RoleStart { role });
        }
    }
    let ghost seg2 = seg1 + (match delta_role_of(b@) {
        Some(r) => if r.len() > 0 {
            seq![EventModel::RoleStart(r)]
        } else {
            Seq::<EventModel>::empty()
        },
        None => Seq::<EventModel>::empty(),
    });
    proof {
        assert(events_model(out@) =~= seg2);
    }
    if let Some(text) = delta_reasoning(b) {
        if text.len() > 0 {
            out.push(NormalizedEvent::ReasoningDelta { text });
        }
    }
    let ghost seg3 = seg2 + (match delta_reasoning_of(b@) {
        Some(t) => if t.len() > 0 {
            seq![EventModel::ReasoningDelta(t)]
        } else {
            Seq::<EventModel>::empty()
        },
        None => Seq::<EventModel>::empty(),
    });
    proof {
        assert(events_model(out@) =~= seg3);
    }
    if let Some(text) = delta_content(b) {
        if text.len() > 0 {
            out.push(NormalizedEvent::ContentDelta { text });
        }
    }
    let ghost seg4 = seg3 + (match delta_content_of(b@) {
        Some(t) => if t.len() > 0 {
            seq![EventModel::ContentDelta(t)]
        } else {
            Seq::<EventModel>::empty()
        },
        None => Seq::<EventModel>::empty(),
    });
    proof {
        assert(events_model(out@) =~= seg4);
    }
    if finish_present(b) {
        let reason = match finish_reason(b) {
            Some(s) => {
                let r = s.as_str().as_bytes_vec();
                if r.len() == 0 {
                    lit("stop")
                } else {
                    r
                }
            },
            None => lit("stop"),
        };
        out.push(NormalizedEvent::Stop { reason });
    }
    proof {
        assert(events_model(out@) =~= base + openai_events_of(b@));
    }
}

/// Emits the events of one parsed Anthropic-native payload.
fn decode_anthropic(b: &Vec<u8>, out: &mut Vec<NormalizedEvent>)
    ensures
        events_model(final(out)@) == events_model(old(out)@) + anthropic_events_of(b@),
        forall|i: int|
            0 <= i < old(out)@.len() ==> final(out)@[i] == old(out)@[i],
        forall|i: int|
            old(out)@.len() <= i < final(out)@.len() ==> event_wf(#[trigger] final(out)@[i]@),
{
    let ghost base = events_model(out@);
    let t = match tag(b) {
        Some(t) => t,
        None => {
            proof {
                assert(events_model(out@) =~= base + anthropic_events_of(b@));
            }
            return ;
        },
    };
    if bytes_eq(&t, &lit("message_start")) {
        out.push(NormalizedEvent::RoleStart { role: lit("assistant") });
    } else if bytes_eq(&t, &lit("content_block_delta")) {
        let is_text = match delta_kind(b) {
            Some(k) => bytes_eq(&k, &lit("text_delta")),
            None => false,
        };
        if is_text {
            if let Some(text) = delta_text(b) {
                if text.len() > 0 {
                    out.push(NormalizedEvent::ContentDelta { text });
                }
            }
        }
    } else if bytes_eq(&t, &lit("message_delta")) {
        if let Some(u) = usage_anthropic(b) {
            out.push(
                NormalizedEvent::UsageReport {
                    usage: UsageCounts { input: u.0, output: u.1, reasoning: 0, cached: u.3 },
                },
            );
        }
    } else if bytes_eq(&t, &lit("message_stop")) {
        out.push(NormalizedEvent::Stop { reason: lit("stop") });
    } else if bytes_eq(&t, &lit("ping")) {
        out.push(NormalizedEvent::Ping);
    }
    proof {
        assert(events_model(out@) =~= base + anthropic_events_of(b@));
    }
}

} // verus!
