//! The two-stage composition engine.
//!
//! A per-request state machine sequences the Reasoning phase and the
//! Answer phase: reasoning text is buffered and (depending on the mode)
//! forwarded, answer text is forwarded verbatim, and the outbound chunk
//! sequence is strictly ordered. The decisions live here; the driver
//! that performs I/O feeds events in and writes chunks out.

use vstd::prelude::*;

verus! {

use crate::bytes::{
    contains_seq, first_match_idx, is_match_at, lemma_first_match_idx, find_subseq, subvec,
    push_all,
};
use crate::events::{NormalizedEvent, EventModel, UsageCounts, event_wf, events_model};

/// Gateway mode: `Normal` forwards only reasoning tokens to the client
/// and the answer model; `Full` forwards the reasoning model's final
/// answer instead, marked with an in-band prefix.
#[derive(Clone, Copy, Debug, PartialEq, Eq, Structural)]
pub enum Mode {
    Normal,
    Full,
}

/// Per-request lifecycle state.
#[derive(Clone, Copy, Debug, PartialEq, Eq, Structural)]
pub enum Phase {
    Reasoning,
    Answer,
    Done,
    Failed,
}

/// The in-band marker put before the reasoning model's own answer text.
/// These are the UTF-8 bytes of `deepseek` followed by four CJK
/// characters and a colon.
pub open spec fn sentinel_spec() -> Seq<u8> {
    seq![
        100u8, 101, 101, 112, 115, 101, 101, 107, 0xE5, 0x8E, 0x9F, 0xE5, 0xA7, 0x8B, 0xE5, 0x9B,
        0x9E, 0xE7, 0xAD, 0x94, 0x3A,
    ]
}

/// The sentinel as runtime bytes.
pub fn sentinel() -> (r: Vec<u8>)
    ensures
        r@ == sentinel_spec(),
        r@.len() == 21,
{
    let mut r: Vec<u8> = Vec::new();
    r.push(100);
    r.push(101);
    r.push(101);
    r.push(112);
    r.push(115);
    r.push(101);
    r.push(101);
    r.push(107);
    r.push(0xE5);
    r.push(0x8E);
    r.push(0x9F);
    r.push(0xE5);
    r.push(0xA7);
    r.push(0x8B);
    r.push(0xE5);
    r.push(0x9B);
    r.push(0x9E);
    r.push(0xE7);
    r.push(0xAD);
    r.push(0x94);
    r.push(0x3A);
    assert(r@ =~= sentinel_spec());
    r
}

/// One outbound chunk, before wire encoding.
#[derive(Debug, Clone, PartialEq, Eq)]
pub enum ChunkKind {
    /// The opening chunk announcing the assistant role.
    Role,
    /// A `reasoning_content` delta.
    Reasoning { text: Vec<u8> },
    /// A `content` delta.
    Content { text: Vec<u8> },
    /// A keep-alive chunk with an empty delta.
    Heartbeat,
    /// The final chunk carrying the finish reason.
    Finish { reason: Vec<u8> },
    /// The `[DONE]` sentinel frame.
    Done,
    /// An in-stream error report; the stream closes after it.
    ErrorChunk { message: Vec<u8> },
}

/// Mathematical image of a `ChunkKind`.
pub enum ChunkModel {
    Role,
    Reasoning(Seq<u8>),
    Content(Seq<u8>),
    Heartbeat,
    Finish(Seq<u8>),
    Done,
    Error(Seq<u8>),
}

impl View for ChunkKind {
    type V = ChunkModel;

    open spec fn view(&self) -> ChunkModel {
        match self {
            ChunkKind::Role => ChunkModel::Role,
            ChunkKind::Reasoning { text } => ChunkModel::Reasoning(text@),
            ChunkKind::Content { text } => ChunkModel::Content(text@),
            ChunkKind::Heartbeat => ChunkModel::Heartbeat,
            ChunkKind::Finish { reason } => ChunkModel::Finish(reason@),
            ChunkKind::Done => ChunkModel::Done,
            ChunkKind::ErrorChunk { message } => ChunkModel::Error(message@),
        }
    }
}

/// Mathematical image of the engine state.
pub struct EngineModel {
    pub mode: Mode,
    pub phase: Phase,
    pub reasoning: Seq<u8>,
    pub normal: Seq<u8>,
    pub answer: Seq<u8>,
    pub reasoning_usage: UsageCounts,
    pub answer_usage: UsageCounts,
}

/// The per-request composition state.
pub struct Engine {
    pub mode: Mode,
    pub phase: Phase,
    /// Accumulated chain-of-thought text from the reasoning upstream.
    pub reasoning_buf: Vec<u8>,
    /// Accumulated ordinary answer text the reasoning upstream emitted.
    pub normal_buf: Vec<u8>,
    /// Accumulated answer text forwarded to the client.
    pub answer_buf: Vec<u8>,
    /// Last usage report of the reasoning upstream.
    pub reasoning_usage: UsageCounts,
    /// Last usage report of the answer upstream.
    pub answer_usage: UsageCounts,
}

impl View for Engine {
    type V = EngineModel;

    open spec fn view(&self) -> EngineModel {
        EngineModel {
            mode: self.mode,
            phase: self.phase,
            reasoning: self.reasoning_buf@,
            normal: self.normal_buf@,
            answer: self.answer_buf@,
            reasoning_usage: self.reasoning_usage,
            answer_usage: self.answer_usage,
        }
    }
}

pub open spec fn init_model(mode: Mode) -> EngineModel {
    EngineModel {
        mode,
        phase: Phase::Reasoning,
        reasoning: Seq::empty(),
        normal: Seq::empty(),
        answer: Seq::empty(),
        reasoning_usage: UsageCounts { input: 0, output: 0, reasoning: 0, cached: 0 },
        answer_usage: UsageCounts { input: 0, output: 0, reasoning: 0, cached: 0 },
    }
}

/// What `Full` mode forwards of a reasoning fragment: nothing, unless
/// the fragment holds the sentinel, in which case the suffix from its
/// first occurrence.
pub open spec fn full_forward(t: Seq<u8>) -> Seq<ChunkModel> {
    if contains_seq(t, sentinel_spec()) {
        seq![
            ChunkModel::Reasoning(
                t.subrange(first_match_idx(t, sentinel_spec()) as int, t.len() as int),
            ),
        ]
    } else {
        Seq::empty()
    }
}

/// One step of the Reasoning phase.
pub open spec fn step_reasoning_model(e: EngineModel, ev: EventModel) -> (EngineModel, Seq<
    ChunkModel,
>) {
    match ev {
        EventModel::ReasoningDelta(t) => {
            if t.len() == 0 {
                (e, Seq::empty())
            } else {
                let e2 = EngineModel { reasoning: e.reasoning + t, ..e };
                let out = match e.mode {
                    Mode::Normal => seq![ChunkModel::Reasoning(t)],
                    Mode::Full => full_forward(t),
                };
                (e2, out)
            }
        },
        EventModel::ContentDelta(t) => {
            if t.len() == 0 {
                (e, Seq::empty())
            } else {
                let first = e.normal.len() == 0;
                let e2 = EngineModel { normal: e.normal + t, ..e };
                let out = match e.mode {
                    Mode::Normal => Seq::empty(),
                    Mode::Full => seq![
                        ChunkModel::Reasoning(
                            if first {
                                sentinel_spec() + t
                            } else {
                                t
                            },
                        ),
                    ],
                };
                (e2, out)
            }
        },
        EventModel::UsageReport(u) => (EngineModel { reasoning_usage: u, ..e }, Seq::empty()),
        EventModel::Stop(_) => (EngineModel { phase: Phase::Answer, ..e }, Seq::empty()),
        EventModel::Failure(m) => (
            EngineModel { phase: Phase::Failed, ..e },
            seq![ChunkModel::Error(m)],
        ),
        _ => (e, Seq::empty()),
    }
}

/// The default finish reason.
pub open spec fn stop_reason_spec() -> Seq<u8> {
    seq![115u8, 116, 111, 112]
}

/// One step of the Answer phase.
pub open spec fn step_answer_model(e: EngineModel, ev: EventModel) -> (EngineModel, Seq<
    ChunkModel,
>) {
    match ev {
        EventModel::ContentDelta(t) => {
            if t.len() == 0 {
                (e, Seq::empty())
            } else {
                (EngineModel { answer: e.answer + t, ..e }, seq![ChunkModel::Content(t)])
            }
        },
        EventModel::UsageReport(u) => (EngineModel { answer_usage: u, ..e }, Seq::empty()),
        EventModel::Stop(reason) => (
            EngineModel { phase: Phase::Done, ..e },
            seq![
                ChunkModel::Finish(
                    if reason.len() == 0 {
                        stop_reason_spec()
                    } else {
                        reason
                    },
                ),
                ChunkModel::Done,
            ],
        ),
        EventModel::Failure(m) => (
            EngineModel { phase: Phase::Failed, ..e },
            seq![ChunkModel::Error(m)],
        ),
        _ => (e, Seq::empty()),
    }
}

/// One engine step; completed and failed requests absorb every event.
pub open spec fn step_model(e: EngineModel, ev: EventModel) -> (EngineModel, Seq<ChunkModel>) {
    match e.phase {
        Phase::Reasoning => step_reasoning_model(e, ev),
        Phase::Answer => step_answer_model(e, ev),
        _ => (e, Seq::empty()),
    }
}

/// Runs the engine over events of one upstream, stopping as the phase
/// changes (the driver stops reading that upstream then).
pub open spec fn run_model(e: EngineModel, evs: Seq<EventModel>) -> (EngineModel, Seq<ChunkModel>)
    decreases evs.len(),
{
    if evs.len() == 0 {
        (e, Seq::empty())
    } else {
        let (e1, out1) = step_model(e, evs[0]);
        if e1.phase == e.phase {
            let (e2, out2) = run_model(e1, evs.drop_first());
            (e2, out1 + out2)
        } else {
            (e1, out1)
        }
    }
}

pub open spec fn chunks_model(s: Seq<ChunkKind>) -> Seq<ChunkModel> {
    s.map_values(|c: ChunkKind| c@)
}

impl Engine {
    pub fn new(mode: Mode) -> (r: Engine)
        ensures
            r@ == init_model(mode),
    {
        Engine {
            mode,
            phase: Phase::Reasoning,
            reasoning_buf: Vec::new(),
            normal_buf: Vec::new(),
            answer_buf: Vec::new(),
            reasoning_usage: UsageCounts { input: 0, output: 0, reasoning: 0, cached: 0 },
            answer_usage: UsageCounts { input: 0, output: 0, reasoning: 0, cached: 0 },
        }
    }

    /// Feeds one upstream event; returns the chunks owed to the client.
    pub fn step(&mut self, ev: NormalizedEvent) -> (out: Vec<ChunkKind>)
        ensures
            final(self)@ == step_model(old(self)@, ev@).0,
            chunks_model(out@) == step_model(old(self)@, ev@).1,
    {
        let mut out: Vec<ChunkKind> = Vec::new();
        match self.phase {
            Phase::Reasoning => {
                match ev {
                    NormalizedEvent::ReasoningDelta { text } => {
                        if text.len() > 0 {
                            push_all(&mut self.reasoning_buf, &text);
                            match self.mode {
                                Mode::Normal => {
                                    out.push(ChunkKind::Reasoning { text });
                                },
                                Mode::Full => {
                                    let sent = sentinel();
                                    match find_subseq(&text, &sent) {
                                        Some(i) => {
                                            proof {
                                                lemma_first_match_idx(text@, sentinel_spec());
                                                let f = first_match_idx(text@, sentinel_spec());
                                                assert(is_match_at(text@, sentinel_spec(), i as int));
                                                assert(is_match_at(text@, sentinel_spec(), f as int));
                                                if (i as int) < f {
                                                    assert(!is_match_at(text@, sentinel_spec(), i as int));
                                                }
                                                if f < i as int {
                                                    assert(!is_match_at(text@, sentinel_spec(), f as int));
                                                }
                                                assert(i as int == f);
                                            }
                                            let piece = subvec(&text, i, text.len());
                                            out.push(ChunkKind::Reasoning { text: piece });
                                        },
                                        None => {},
                                    }
                                },
                            }
                        }
                    },
                    NormalizedEvent::ContentDelta { text } => {
                        if text.len() > 0 {
                            let first = self.normal_buf.len() == 0;
                            push_all(&mut self.normal_buf, &text);
                            match self.mode {
                                Mode::Normal => {},
                                Mode::Full => {
                                    if first {
                                        let mut prefixed = sentinel();
                                        push_all(&mut prefixed, &text);
                                        out.push(ChunkKind::Reasoning { text: prefixed });
                                    } else {
                                        out.push(ChunkKind::Reasoning { text });
                                    }
                                },
                            }
                        }
                    },
                    NormalizedEvent::UsageReport { usage } => {
                        self.reasoning_usage = usage;
                    },
                    NormalizedEvent::Stop { reason: _ } => {
                        self.phase = Phase::Answer;
                    },
                    NormalizedEvent::Failure { message } => {
                        self.phase = Phase::Failed;
                        out.push(ChunkKind::ErrorChunk { message });
                    },
                    _ => {},
                }
            },
            Phase::Answer => {
                match ev {
                    NormalizedEvent::ContentDelta { text } => {
                        if text.len() > 0 {
                            push_all(&mut self.answer_buf, &text);
                            out.push(ChunkKind::Content { text });
                        }
                    },
                    NormalizedEvent::UsageReport { usage } => {
                        self.answer_usage = usage;
                    },
                    NormalizedEvent::Stop { reason } => {
                        self.phase = Phase::Done;
                        if reason.len() == 0 {
                            let mut stop: Vec<u8> = Vec::new();
                            stop.push(115);
                            stop.push(116);
                            stop.push(111);
                            stop.push(112);
                            assert(stop@ =~= stop_reason_spec());
                            out.push(ChunkKind::Finish { reason: stop });
                        } else {
                            out.push(ChunkKind::Finish { reason });
                        }
                        out.push(ChunkKind::Done);
                    },
                    NormalizedEvent::Failure { message } => {
                        self.phase = Phase::Failed;
                        out.push(ChunkKind::ErrorChunk { message });
                    },
                    _ => {},
                }
            },
            _ => {},
        }
        proof {
            assert(chunks_model(out@) =~= step_model(old(self)@, ev@).1);
        }
        out
    }

    /// Feeds events of one upstream in order until the phase moves on or
    /// the events run out.
    pub fn run_phase(&mut self, events: Vec<NormalizedEvent>) -> (out: Vec<ChunkKind>)
        ensures
            final(self)@ == run_model(old(self)@, events_model(events@)).0,
            chunks_model(out@) == run_model(old(self)@, events_model(events@)).1,
    {
        let ghost orig = self@;
        let ghost all = events_model(events@);
        let mut out: Vec<ChunkKind> = Vec::new();
        let mut evs = events;
        let entry_phase = self.phase;
        proof {
            assert(chunks_model(out@) =~= Seq::<ChunkModel>::empty());
        }
        while evs.len() > 0
            invariant_except_break
                self@.phase == orig.phase,
                entry_phase == orig.phase,
                run_model(orig, all).0 == run_model(self@, events_model(evs@)).0,
                run_model(orig, all).1 == chunks_model(out@) + run_model(
                    self@,
                    events_model(evs@),
                ).1,
            ensures
                run_model(orig, all).0 == self@,
                run_model(orig, all).1 == chunks_model(out@),
            decreases evs@.len(),
        {
            let ghost pre = self@;
            let ghost pre_evs = events_model(evs@);
            let ev = evs.remove(0);
            proof {
                assert(pre_evs[0] == ev@);
                assert(events_model(evs@) =~= pre_evs.drop_first());
            }
            let step_out = self.step(ev);
            let ghost pre_out = chunks_model(out@);
            let mut so = step_out;
            while so.len() > 0
                invariant
                    chunks_model(out@) + chunks_model(so@) == pre_out + step_model(pre, ev@).1,
                decreases so@.len(),
            {
                let ghost so_pre = chunks_model(so@);
                let ghost out_pre = chunks_model(out@);
                let c = so.remove(0);
                out.push(c);
                proof {
                    assert(chunks_model(so@) =~= so_pre.drop_first());
                    assert(chunks_model(out@) =~= out_pre.push(so_pre[0]));
                    assert(out_pre.push(so_pre[0]) + so_pre.drop_first() =~= out_pre + so_pre);
                }
            }
            proof {
                assert(chunks_model(so@) =~= Seq::<ChunkModel>::empty());
                assert(chunks_model(out@) + Seq::<ChunkModel>::empty() =~= chunks_model(out@));
                assert(chunks_model(out@) =~= pre_out + step_model(pre, ev@).1);
            }
            if !phase_eq(self.phase, entry_phase) {
                proof {
                    assert(run_model(pre, pre_evs).0 == self@);
                    assert(run_model(pre, pre_evs).1 =~= step_model(pre, ev@).1);
                    assert(run_model(orig, all).1 =~= chunks_model(out@));
                }
                break ;
            }
            proof {
                let (e1, out1) = step_model(pre, ev@);
                assert(e1 == self@);
                assert(e1.phase == pre.phase);
                assert(run_model(pre, pre_evs).0 == run_model(self@, events_model(evs@)).0);
                assert(run_model(pre, pre_evs).1 =~= step_model(pre, ev@).1 + run_model(
                    self@,
                    events_model(evs@),
                ).1);
                assert(pre_out + run_model(pre, pre_evs).1 =~= chunks_model(out@) + run_model(
                    self@,
                    events_model(evs@),
                ).1);
            }
        }
        proof {
            if run_model(orig, all).1 != chunks_model(out@) {
                // only reachable through normal loop exit with no events left
                assert(false);
            }
        }
        out
    }
}

/// Structural equality on phases.
fn phase_eq(a: Phase, b: Phase) -> (r: bool)
    ensures
        r == (a == b),
{
    match (a, b) {
        (Phase::Reasoning, Phase::Reasoning) => true,
        (Phase::Answer, Phase::Answer) => true,
        (Phase::Done, Phase::Done) => true,
        (Phase::Failed, Phase::Failed) => true,
        _ => false,
    }
}

/// The whole composed request: the opening role chunk, the Reasoning
/// phase, then (unless the first upstream failed) the Answer phase. An
/// upstream that ends without a `Stop` still moves the request onward,
/// as the driver has nothing more to read from it.
pub open spec fn compose_model(mode: Mode, rev: Seq<EventModel>, aev: Seq<EventModel>) -> (
    EngineModel,
    Seq<ChunkModel>,
) {
    let e0 = init_model(mode);
    let (e1, out1) = run_model(e0, rev);
    if e1.phase == Phase::Failed {
        (e1, seq![ChunkModel::Role] + out1)
    } else {
        let e1b = EngineModel { phase: Phase::Answer, ..e1 };
        let (e2, out2) = run_model(e1b, aev);
        (e2, seq![ChunkModel::Role] + out1 + out2)
    }
}

/// Runs a whole request from its two upstream event sequences.
pub fn compose(mode: Mode, revents: Vec<NormalizedEvent>, aevents: Vec<NormalizedEvent>) -> (r: (
    Engine,
    Vec<ChunkKind>,
))
    ensures
        r.0@ == compose_model(mode, events_model(revents@), events_model(aevents@)).0,
        chunks_model(r.1@) == compose_model(mode, events_model(revents@), events_model(aevents@)).1,
{
    let ghost rev = events_model(revents@);
    let ghost aev = events_model(aevents@);
    let mut engine = Engine::new(mode);
    let mut out: Vec<ChunkKind> = Vec::new();
    out.push(ChunkKind::Role);
    let mut out1 = engine.run_phase(revents);
    let ghost after1 = engine@;
    append_chunks(&mut out, out1);
    if phase_eq(engine.phase, Phase::Failed) {
        proof {
            assert(chunks_model(out@) =~= seq![ChunkModel::Role] + run_model(init_model(mode), rev).1);
        }
        return (engine, out);
    }
    engine.phase = Phase::Answer;
    proof {
        assert(engine@ == (EngineModel { phase: Phase::Answer, ..after1 }));
    }
    let out2 = engine.run_phase(aevents);
    append_chunks(&mut out, out2);
    proof {
        let e1b = EngineModel { phase: Phase::Answer, ..after1 };
        assert(chunks_model(out@) =~= seq![ChunkModel::Role] + run_model(init_model(mode), rev).1
            + run_model(e1b, aev).1);
    }
    (engine, out)
}

/// Moves every chunk of `src` to the end of `dst`.
fn append_chunks(dst: &mut Vec<ChunkKind>, src: Vec<ChunkKind>)
    ensures
        chunks_model(final(dst)@) == chunks_model(old(dst)@) + chunks_model(src@),
{
    let ghost base = chunks_model(dst@);
    let ghost all = chunks_model(src@);
    let mut src = src;
    while src.len() > 0
        invariant
            chunks_model(dst@) + chunks_model(src@) == base + all,
        decreases src@.len(),
    {
        let ghost src_pre = chunks_model(src@);
        let ghost dst_pre = chunks_model(dst@);
        let c = src.remove(0);
        dst.push(c);
        proof {
            assert(chunks_model(src@) =~= src_pre.drop_first());
            assert(chunks_model(dst@) =~= dst_pre.push(src_pre[0]));
            assert(dst_pre.push(src_pre[0]) + src_pre.drop_first() =~= dst_pre + src_pre);
        }
    }
    proof {
        assert(chunks_model(src@) =~= Seq::<ChunkModel>::empty());
        assert(chunks_model(dst@) =~= chunks_model(dst@) + Seq::<ChunkModel>::empty());
    }
}

} // verus!
