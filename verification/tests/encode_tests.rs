//! Exact expected wire bytes for the client stream encoder and the
//! upstream request encoder.

use deepclaude::encode::{
    beijing_timestamp, clamp_timestamp, composed_model_name, encode_chunk, fresh_stream_identity,
};
use deepclaude::engine::ChunkKind;
use deepclaude::request::{Message, Role};
use deepclaude::upstream::{build_headers, encode_request, select_endpoint, CredentialKind};
use deepclaude::events::Dialect;

fn bytes(s: &str) -> Vec<u8> {
    s.as_bytes().to_vec()
}

#[test]
fn content_chunk_frame_is_exact() {
    let frame = encode_chunk(
        &ChunkKind::Content { text: bytes("Hi") },
        &bytes("abc"),
        5,
        &bytes("m"),
        0,
        2,
        2,
    );
    let mut expected = String::new();
    expected.push_str("data: {\"id\":\"abc\",\"object\":\"chat.completion.chunk\",\"created\":5,");
    expected.push_str("\"model\":\"m\",\"choices\":[{\"index\":0,\"delta\":{\"content\":\"Hi\",");
    expected.push_str("\"reasoning_content\":null,\"role\":\"assistant\"},\"finish_reason\":null,");
    expected.push_str("\"content_filter_results\":{\"hate\":{\"filtered\":false},");
    expected.push_str("\"self_harm\":{\"filtered\":false},\"sexual\":{\"filtered\":false},");
    expected.push_str("\"violence\":{\"filtered\":false}}}],\"system_fingerprint\":\"\",");
    expected.push_str("\"usage\":{\"prompt_tokens\":0,\"completion_tokens\":2,\"total_tokens\":2}}\n\n");
    assert_eq!(String::from_utf8(frame).unwrap(), expected);
}

#[test]
fn role_and_finish_and_done_frames() {
    let role = encode_chunk(&ChunkKind::Role, &bytes("id1"), 1, &bytes("m"), 0, 0, 0);
    let role_text = String::from_utf8(role).unwrap();
    assert!(role_text.contains("\"delta\":{\"role\":\"assistant\"}"));
    assert!(role_text.contains("\"finish_reason\":null"));

    let finish = encode_chunk(
        &ChunkKind::Finish { reason: bytes("stop") },
        &bytes("id1"),
        1,
        &bytes("m"),
        0,
        3,
        3,
    );
    let finish_text = String::from_utf8(finish).unwrap();
    assert!(finish_text.contains("\"delta\":{}"));
    assert!(finish_text.contains("\"finish_reason\":\"stop\""));

    let done = encode_chunk(&ChunkKind::Done, &bytes("id1"), 1, &bytes("m"), 0, 0, 0);
    assert_eq!(done, bytes("data: [DONE]\n\n"));
}

#[test]
fn heartbeat_frame_carries_truthy_flag_and_empty_delta() {
    let hb = encode_chunk(&ChunkKind::Heartbeat, &bytes("id1"), 1, &bytes("m"), 0, 0, 0);
    let text = String::from_utf8(hb).unwrap();
    assert!(text.contains("\"delta\":{}"));
    assert!(text.ends_with(",\"heartbeat\":true}\n\n"));
}

#[test]
fn error_frame_is_bare_error_object() {
    let e = encode_chunk(
        &ChunkKind::ErrorChunk { message: bytes("boom") },
        &bytes("id1"),
        1,
        &bytes("m"),
        0,
        0,
        0,
    );
    assert_eq!(e, bytes("data: {\"error\":\"boom\"}\n\n"));
}

#[test]
fn json_strings_are_escaped() {
    let frame = encode_chunk(
        &ChunkKind::Content { text: bytes("a\"b\\c\nd") },
        &bytes("i"),
        0,
        &bytes("m"),
        0,
        0,
        0,
    );
    let text = String::from_utf8(frame).unwrap();
    assert!(text.contains("\"content\":\"a\\\"b\\\\c\\u000ad\""));
}

#[test]
fn multibyte_text_passes_through_unescaped() {
    let frame = encode_chunk(
        &ChunkKind::Content { text: "héllo 世界".as_bytes().to_vec() },
        &bytes("i"),
        0,
        &bytes("m"),
        0,
        0,
        0,
    );
    let text = String::from_utf8(frame).unwrap();
    assert!(text.contains("\"content\":\"héllo 世界\""));
}

#[test]
fn request_body_defaults_are_exact() {
    let messages = vec![Message { role: Role::User, content: bytes("Hello") }];
    let body = encode_request(&messages, true, &None, &Vec::new(), &bytes("sonnet-x"), false);
    assert_eq!(
        String::from_utf8(body).unwrap(),
        "{\"messages\":[{\"role\":\"user\",\"content\":\"Hello\"}],\"stream\":true,\
         \"model\":\"sonnet-x\",\"max_tokens\":8192,\"temperature\":0.7,\"top_p\":0.95}"
    );
}

#[test]
fn request_body_opus_gets_smaller_token_default() {
    let messages = vec![Message { role: Role::User, content: bytes("q") }];
    let body = encode_request(&messages, false, &None, &Vec::new(), &bytes("big-opus-x"), false);
    let text = String::from_utf8(body).unwrap();
    assert!(text.contains("\"max_tokens\":4096"));
    assert!(text.contains("\"stream\":false"));
}

#[test]
fn request_body_overrides_and_reserved_keys() {
    let messages = vec![
        Message { role: Role::System, content: bytes("sys inline dropped") },
        Message { role: Role::User, content: bytes("hi") },
        Message { role: Role::Assistant, content: bytes("   ") },
    ];
    let overrides = vec![
        (bytes("model"), bytes("\"deepseek-opus-z\"")),
        (bytes("stream"), bytes("false")),
        (bytes("messages"), bytes("[]")),
        (bytes("top_k"), bytes("40")),
    ];
    let body = encode_request(
        &messages,
        true,
        &Some(bytes("be brief")),
        &overrides,
        &bytes("sonnet-x"),
        false,
    );
    let text = String::from_utf8(body).unwrap();
    // system-role and blank messages are filtered out of the array
    assert!(text.starts_with(
        "{\"messages\":[{\"role\":\"user\",\"content\":\"hi\"}],\"stream\":true,"
    ));
    // the model override is raw JSON and drives the opus default
    assert!(text.contains("\"model\":\"deepseek-opus-z\",\"max_tokens\":4096"));
    // the top-level system prompt is a member of its own
    assert!(text.contains(",\"system\":\"be brief\""));
    // unreserved overrides trail as raw JSON; reserved ones are gone
    assert!(text.ends_with(",\"top_k\":40}"));
    assert_eq!(text.matches("\"stream\"").count(), 1);
    assert_eq!(text.matches("\"messages\"").count(), 1);
}

#[test]
fn inline_system_messages_reach_the_reasoning_dialect() {
    let messages = vec![
        Message { role: Role::System, content: bytes("be terse") },
        Message { role: Role::User, content: bytes("hi") },
    ];
    let body = encode_request(&messages, true, &None, &Vec::new(), &bytes("r1"), true);
    let text = String::from_utf8(body).unwrap();
    assert!(text.starts_with(
        "{\"messages\":[{\"role\":\"system\",\"content\":\"be terse\"},\
         {\"role\":\"user\",\"content\":\"hi\"}],\"stream\":true,"
    ));
}

#[test]
fn headers_for_anthropic_native_dialect() {
    let custom = vec![
        (bytes("Authorization"), bytes("Bearer stolen")),
        (bytes("x-trace"), bytes("1")),
    ];
    let headers = build_headers(true, &bytes("k"), &custom);
    let as_text: Vec<(String, String)> = headers
        .into_iter()
        .map(|(k, v)| (String::from_utf8(k).unwrap(), String::from_utf8(v).unwrap()))
        .collect();
    assert_eq!(
        as_text,
        vec![
            ("x-api-key".to_string(), "k".to_string()),
            ("authorization".to_string(), "Bearer k".to_string()),
            ("anthropic-version".to_string(), "2023-06-01".to_string()),
            ("accept".to_string(), "text/event-stream".to_string()),
            ("content-type".to_string(), "application/json".to_string()),
            // the caller's authorization is discarded; other extras stay
            ("x-trace".to_string(), "1".to_string()),
        ]
    );
}

#[test]
fn headers_for_bearer_dialect() {
    let headers = build_headers(false, &bytes("key9"), &Vec::new());
    assert_eq!(headers.len(), 2);
    assert_eq!(headers[0].0, bytes("authorization"));
    assert_eq!(headers[0].1, bytes("Bearer key9"));
    assert_eq!(headers[1].0, bytes("content-type"));
}

#[test]
fn endpoint_selection_follows_model_and_configuration() {
    let ds = bytes("http://ds");
    let co = bytes("http://openai-style");
    let an = bytes("http://anthropic");
    let blank = bytes("  ");

    let e = select_endpoint(&bytes("deepseek-chat"), &ds, &co, &an);
    assert_eq!(e.url, ds);
    assert_eq!(e.dialect, Dialect::DeepSeekChat);
    assert_eq!(e.credential, CredentialKind::DeepSeek);

    let e = select_endpoint(&bytes("deepclaude"), &ds, &co, &an);
    assert_eq!(e.dialect, Dialect::DeepSeekChat);

    let e = select_endpoint(&bytes("sonnet-3"), &ds, &co, &an);
    assert_eq!(e.url, co);
    assert_eq!(e.dialect, Dialect::OpenAiChat);
    assert_eq!(e.credential, CredentialKind::Caller);

    let e = select_endpoint(&bytes("sonnet-3"), &ds, &blank, &an);
    assert_eq!(e.url, an);
    assert_eq!(e.dialect, Dialect::Anthropic);
    assert_eq!(e.credential, CredentialKind::AnthropicEnv);
}

#[test]
fn composed_model_name_joins_with_underscore() {
    let name = composed_model_name(&bytes("deepseek-reasoner"), &bytes("sonnet-x"));
    assert_eq!(name, bytes("deepseek-reasoner_sonnet-x"));
}

#[test]
fn fresh_stream_identities_are_uuid_sized() {
    let identity = fresh_stream_identity();
    assert_eq!(identity.stream_id.len(), 36);
    let another = fresh_stream_identity();
    assert_eq!(another.stream_id.len(), 36);
}

#[test]
fn timestamps_clamp_and_shift() {
    assert_eq!(clamp_timestamp(-3), 0);
    assert_eq!(clamp_timestamp(17), 17);
    assert_eq!(beijing_timestamp(100), 100 + 8 * 3600);
    assert_eq!(beijing_timestamp(i64::MAX), i64::MAX);
}
