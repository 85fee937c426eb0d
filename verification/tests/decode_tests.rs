//! Wire adapter tests: SSE framing, dialect decoding, partial-frame
//! recovery, and byte-boundary robustness.

use deepclaude::events::{Dialect, NormalizedEvent, StreamDecoder};

fn feed_str(d: &mut StreamDecoder, s: &str) -> Vec<NormalizedEvent> {
    d.feed(&s.as_bytes().to_vec())
}

#[test]
fn openai_dialect_decodes_role_reasoning_content_stop() {
    let mut d = StreamDecoder::new(Dialect::OpenAiChat);
    let evs = feed_str(
        &mut d,
        "data: {\"choices\":[{\"delta\":{\"role\":\"assistant\",\"reasoning_content\":\"think\",\"content\":\"say\"},\"finish_reason\":null}]}\n\n",
    );
    assert_eq!(
        evs,
        vec![
            NormalizedEvent::RoleStart { role: b"assistant".to_vec() },
            NormalizedEvent::ReasoningDelta { text: b"think".to_vec() },
            NormalizedEvent::ContentDelta { text: b"say".to_vec() },
        ]
    );
    let evs = feed_str(
        &mut d,
        "data: {\"choices\":[{\"delta\":{},\"finish_reason\":\"length\"}]}\n\n",
    );
    assert_eq!(evs, vec![NormalizedEvent::Stop { reason: b"length".to_vec() }]);
}

#[test]
fn openai_dialect_reads_usage() {
    let mut d = StreamDecoder::new(Dialect::DeepSeekChat);
    let evs = feed_str(
        &mut d,
        "data: {\"usage\":{\"prompt_tokens\":3,\"completion_tokens\":4,\"prompt_cache_hit_tokens\":1,\"completion_tokens_details\":{\"reasoning_tokens\":2}},\"choices\":[]}\n\n",
    );
    match &evs[..] {
        [NormalizedEvent::UsageReport { usage }] => {
            assert_eq!(usage.input, 3);
            assert_eq!(usage.output, 4);
            assert_eq!(usage.reasoning, 2);
            assert_eq!(usage.cached, 1);
        }
        other => panic!("unexpected events {:?}", other),
    }
}

#[test]
fn done_sentinel_becomes_stop() {
    let mut d = StreamDecoder::new(Dialect::OpenAiChat);
    let evs = feed_str(&mut d, "data: [DONE]\n\n");
    assert_eq!(evs, vec![NormalizedEvent::Stop { reason: b"stop".to_vec() }]);
}

#[test]
fn anthropic_dialect_decodes_tagged_events() {
    let mut d = StreamDecoder::new(Dialect::Anthropic);
    let mut text = String::new();
    text.push_str("data: {\"type\":\"message_start\",\"message\":{}}\n\n");
    text.push_str(
        "data: {\"type\":\"content_block_delta\",\"index\":0,\"delta\":{\"type\":\"text_delta\",\"text\":\"Hello\"}}\n\n",
    );
    text.push_str(
        "data: {\"type\":\"message_delta\",\"delta\":{},\"usage\":{\"input_tokens\":5,\"output_tokens\":6}}\n\n",
    );
    text.push_str("data: {\"type\":\"ping\"}\n\n");
    text.push_str("data: {\"type\":\"message_stop\"}\n\n");
    let evs = feed_str(&mut d, &text);
    assert_eq!(evs.len(), 5);
    assert_eq!(evs[0], NormalizedEvent::RoleStart { role: b"assistant".to_vec() });
    assert_eq!(evs[1], NormalizedEvent::ContentDelta { text: b"Hello".to_vec() });
    match &evs[2] {
        NormalizedEvent::UsageReport { usage } => {
            assert_eq!(usage.input, 5);
            assert_eq!(usage.output, 6);
        }
        other => panic!("unexpected event {:?}", other),
    }
    assert_eq!(evs[3], NormalizedEvent::Ping);
    assert_eq!(evs[4], NormalizedEvent::Stop { reason: b"stop".to_vec() });
}

#[test]
fn unknown_anthropic_tags_are_ignored() {
    let mut d = StreamDecoder::new(Dialect::Anthropic);
    let evs = feed_str(&mut d, "data: {\"type\":\"content_block_start\",\"index\":0}\n\n");
    assert!(evs.is_empty());
}

#[test]
fn blank_and_non_data_lines_are_ignored() {
    let mut d = StreamDecoder::new(Dialect::OpenAiChat);
    let evs = feed_str(&mut d, "\n: comment\nevent: ping\n   \n");
    assert!(evs.is_empty());
    assert_eq!(d.dropped, 0);
}

#[test]
fn truncated_json_is_deferred_until_more_bytes_arrive() {
    let mut d = StreamDecoder::new(Dialect::Anthropic);
    // the record's JSON is split over two data lines: the first half
    // alone ends too early, so it must wait, not fail
    let evs = feed_str(&mut d, "data: {\"type\":\"message_stop\"\n");
    assert!(evs.is_empty());
    assert_eq!(d.dropped, 0);
    let evs = feed_str(&mut d, "data: }\n\n");
    assert_eq!(evs, vec![NormalizedEvent::Stop { reason: b"stop".to_vec() }]);
}

#[test]
fn malformed_json_yields_one_ping_and_a_count() {
    let mut d = StreamDecoder::new(Dialect::OpenAiChat);
    let evs = feed_str(&mut d, "data: {nonsense}\n");
    assert_eq!(evs, vec![NormalizedEvent::Ping]);
    assert_eq!(d.dropped, 1);
    // the bad bytes are gone: the next well-formed record decodes clean
    let evs = feed_str(&mut d, "data: [DONE]\n");
    assert_eq!(evs, vec![NormalizedEvent::Stop { reason: b"stop".to_vec() }]);
}

#[test]
fn byte_boundary_split_never_changes_events() {
    let mut text = String::new();
    text.push_str("data: {\"choices\":[{\"delta\":{\"role\":\"assistant\"},\"finish_reason\":null}]}\n\n");
    text.push_str(
        "data: {\"choices\":[{\"delta\":{\"reasoning_content\":\"深い思考\"},\"finish_reason\":null}]}\n\n",
    );
    text.push_str("data: {\"choices\":[{\"delta\":{\"content\":\"Hello\"},\"finish_reason\":null}]}\n\n");
    text.push_str("data: [DONE]\n\n");
    let response = text.as_bytes().to_vec();

    let mut whole = StreamDecoder::new(Dialect::OpenAiChat);
    let expected = whole.feed(&response);
    assert_eq!(expected.len(), 4);

    for cut in 0..response.len() {
        let mut d = StreamDecoder::new(Dialect::OpenAiChat);
        let mut evs = d.feed(&response[..cut].to_vec());
        evs.extend(d.feed(&response[cut..].to_vec()));
        assert_eq!(evs, expected, "split at byte {} changed the events", cut);
    }
}

#[test]
fn empty_deltas_are_not_forwarded() {
    let mut d = StreamDecoder::new(Dialect::OpenAiChat);
    let evs = feed_str(
        &mut d,
        "data: {\"choices\":[{\"delta\":{\"role\":\"\",\"content\":\"\",\"reasoning_content\":\"\"},\"finish_reason\":null}]}\n\n",
    );
    assert!(evs.is_empty());
}
