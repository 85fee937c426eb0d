//! End-to-end composition scenarios over concrete event sequences.

use deepclaude::aggregate::aggregate;
use deepclaude::engine::{compose, sentinel, ChunkKind, Engine, Mode, Phase};
use deepclaude::events::{NormalizedEvent, UsageCounts};

fn reasoning_delta(s: &str) -> NormalizedEvent {
    NormalizedEvent::ReasoningDelta { text: s.as_bytes().to_vec() }
}

fn content_delta(s: &str) -> NormalizedEvent {
    NormalizedEvent::ContentDelta { text: s.as_bytes().to_vec() }
}

fn stop(s: &str) -> NormalizedEvent {
    NormalizedEvent::Stop { reason: s.as_bytes().to_vec() }
}

#[test]
fn normal_mode_happy_path_stream() {
    let revents = vec![reasoning_delta("Think A"), reasoning_delta("Think B"), stop("stop")];
    let aevents = vec![content_delta("Hi"), content_delta(" there."), stop("stop")];
    let (engine, out) = compose(Mode::Normal, revents, aevents);
    assert_eq!(
        out,
        vec![
            ChunkKind::Role,
            ChunkKind::Reasoning { text: b"Think A".to_vec() },
            ChunkKind::Reasoning { text: b"Think B".to_vec() },
            ChunkKind::Content { text: b"Hi".to_vec() },
            ChunkKind::Content { text: b" there.".to_vec() },
            ChunkKind::Finish { reason: b"stop".to_vec() },
            ChunkKind::Done,
        ]
    );
    assert_eq!(engine.phase, Phase::Done);
    assert_eq!(engine.reasoning_buf, b"Think AThink B".to_vec());
    assert_eq!(engine.answer_buf, b"Hi there.".to_vec());
}

#[test]
fn full_mode_marks_first_normal_fragment() {
    let revents = vec![
        reasoning_delta("R"),
        content_delta("A1"),
        content_delta("A2"),
        stop("stop"),
    ];
    let aevents = vec![content_delta("ok"), stop("stop")];
    let (engine, out) = compose(Mode::Full, revents, aevents);
    let mut expected_first = sentinel();
    expected_first.extend_from_slice(b"A1");
    assert_eq!(
        out,
        vec![
            ChunkKind::Role,
            ChunkKind::Reasoning { text: expected_first },
            ChunkKind::Reasoning { text: b"A2".to_vec() },
            ChunkKind::Content { text: b"ok".to_vec() },
            ChunkKind::Finish { reason: b"stop".to_vec() },
            ChunkKind::Done,
        ]
    );
    // the raw reasoning fragment is buffered but never forwarded
    assert_eq!(engine.reasoning_buf, b"R".to_vec());
    assert_eq!(engine.normal_buf, b"A1A2".to_vec());
}

#[test]
fn full_mode_forwards_reasoning_only_from_marker() {
    let mut marked = b"prefix ".to_vec();
    marked.extend_from_slice(&sentinel());
    marked.extend_from_slice(b"tail");
    let revents = vec![
        reasoning_delta("unmarked"),
        NormalizedEvent::ReasoningDelta { text: marked },
        stop("stop"),
    ];
    let (_, out) = compose(Mode::Full, revents, vec![stop("stop")]);
    let mut expected = sentinel();
    expected.extend_from_slice(b"tail");
    assert_eq!(
        out,
        vec![
            ChunkKind::Role,
            ChunkKind::Reasoning { text: expected },
            ChunkKind::Finish { reason: b"stop".to_vec() },
            ChunkKind::Done,
        ]
    );
}

#[test]
fn one_role_first_one_finish_one_done() {
    let revents = vec![reasoning_delta("x"), stop("stop")];
    let aevents = vec![content_delta("y"), stop("length")];
    let (_, out) = compose(Mode::Normal, revents, aevents);
    assert!(matches!(out[0], ChunkKind::Role));
    assert_eq!(out.iter().filter(|c| matches!(c, ChunkKind::Role)).count(), 1);
    assert_eq!(out.iter().filter(|c| matches!(c, ChunkKind::Finish { .. })).count(), 1);
    assert_eq!(out.iter().filter(|c| matches!(c, ChunkKind::Done)).count(), 1);
    assert!(matches!(out[out.len() - 2], ChunkKind::Finish { ref reason } if reason == b"length"));
    assert!(matches!(out[out.len() - 1], ChunkKind::Done));
}

#[test]
fn reasoning_phase_chunks_carry_only_reasoning() {
    let revents = vec![
        reasoning_delta("a"),
        content_delta("hidden in normal mode"),
        NormalizedEvent::Ping,
        NormalizedEvent::RoleStart { role: b"assistant".to_vec() },
        stop("stop"),
    ];
    let (_, out) = compose(Mode::Normal, revents, vec![]);
    for c in &out[1..] {
        match c {
            ChunkKind::Reasoning { text } => assert!(!text.is_empty()),
            other => panic!("reasoning phase emitted {:?}", other),
        }
    }
}

#[test]
fn answer_phase_chunks_carry_only_content() {
    let aevents = vec![
        content_delta("a"),
        NormalizedEvent::ReasoningDelta { text: b"ignored".to_vec() },
        NormalizedEvent::Ping,
        content_delta("b"),
    ];
    let (engine, out) = compose(Mode::Normal, vec![stop("stop")], aevents);
    assert_eq!(
        out,
        vec![
            ChunkKind::Role,
            ChunkKind::Content { text: b"a".to_vec() },
            ChunkKind::Content { text: b"b".to_vec() },
        ]
    );
    // upstream ended without a stop: no finish chunk, no terminal sentinel
    assert_eq!(engine.phase, Phase::Answer);
}

#[test]
fn upstream_failure_emits_error_and_stops() {
    let revents = vec![
        reasoning_delta("a"),
        NormalizedEvent::Failure { message: b"bad gateway".to_vec() },
        reasoning_delta("never seen"),
    ];
    let (engine, out) = compose(Mode::Normal, revents, vec![content_delta("never")]);
    assert_eq!(
        out,
        vec![
            ChunkKind::Role,
            ChunkKind::Reasoning { text: b"a".to_vec() },
            ChunkKind::ErrorChunk { message: b"bad gateway".to_vec() },
        ]
    );
    assert_eq!(engine.phase, Phase::Failed);
    assert!(!out.contains(&ChunkKind::Done));
}

#[test]
fn empty_stop_reason_defaults_to_stop() {
    let (_, out) = compose(Mode::Normal, vec![stop("stop")], vec![stop("")]);
    assert!(matches!(out[out.len() - 2], ChunkKind::Finish { ref reason } if reason == b"stop"));
}

#[test]
fn stream_content_equals_aggregate_content() {
    let revents = vec![reasoning_delta("Think A"), reasoning_delta("Think B"), stop("stop")];
    let aevents = vec![
        content_delta("Hi"),
        content_delta(" there."),
        NormalizedEvent::UsageReport {
            usage: UsageCounts { input: 7, output: 5, reasoning: 0, cached: 0 },
        },
        stop("stop"),
    ];
    let (engine, out) = compose(Mode::Normal, revents, aevents);
    let streamed: Vec<u8> = out
        .iter()
        .filter_map(|c| match c {
            ChunkKind::Content { text } => Some(text.clone()),
            _ => None,
        })
        .flatten()
        .collect();
    let agg = aggregate(&engine);
    assert_eq!(streamed, agg.content);
    assert_eq!(agg.content, b"Hi there.".to_vec());
    assert_eq!(agg.reasoning_content, Some(b"Think AThink B".to_vec()));
    assert_eq!(agg.prompt_tokens, 7);
    assert_eq!(agg.completion_tokens, 5);
    assert_eq!(agg.total_tokens, agg.prompt_tokens + agg.completion_tokens);
}

#[test]
fn aggregate_full_mode_marks_normal_text() {
    let revents = vec![
        reasoning_delta("R"),
        content_delta(" A1"),
        content_delta("A2 "),
        stop("stop"),
    ];
    let (engine, _) = compose(Mode::Full, revents, vec![stop("stop")]);
    let agg = aggregate(&engine);
    let mut expected = sentinel();
    expected.extend_from_slice(b"A1A2");
    assert_eq!(agg.reasoning_content, Some(expected));
}

#[test]
fn aggregate_full_mode_without_normal_text_omits_reasoning() {
    let (engine, _) = compose(
        Mode::Full,
        vec![reasoning_delta("R"), stop("stop")],
        vec![stop("stop")],
    );
    let agg = aggregate(&engine);
    assert_eq!(agg.reasoning_content, None);
}

#[test]
fn aggregate_left_trims_content() {
    let (engine, _) = compose(
        Mode::Normal,
        vec![stop("stop")],
        vec![content_delta("  \n Hi"), stop("stop")],
    );
    let agg = aggregate(&engine);
    assert_eq!(agg.content, b"Hi".to_vec());
}

#[test]
fn usage_last_report_wins() {
    let mut engine = Engine::new(Mode::Normal);
    engine.step(NormalizedEvent::UsageReport {
        usage: UsageCounts { input: 1, output: 1, reasoning: 1, cached: 0 },
    });
    engine.step(NormalizedEvent::UsageReport {
        usage: UsageCounts { input: 9, output: 8, reasoning: 7, cached: 6 },
    });
    assert_eq!(engine.reasoning_usage.input, 9);
    assert_eq!(engine.reasoning_usage.output, 8);
    assert_eq!(engine.reasoning_usage.reasoning, 7);
    assert_eq!(engine.reasoning_usage.cached, 6);
}
