//! Validation, prompt construction and heartbeat timing.

use deepclaude::engine::{sentinel, Mode};
use deepclaude::heartbeat::{fill_heartbeats, heartbeat_due};
use deepclaude::request::{
    answer_messages, answer_system, ChatRequest, Message, ProviderConfig, Role, ValidationOutcome,
};

fn bytes(s: &str) -> Vec<u8> {
    s.as_bytes().to_vec()
}

fn msg(role: Role, content: &str) -> Message {
    Message { role, content: bytes(content) }
}

fn request(messages: Vec<Message>, system: Option<&str>) -> ChatRequest {
    ChatRequest {
        messages,
        stream: true,
        system: system.map(bytes),
        verbose: false,
        deepseek_config: ProviderConfig::empty(),
        anthropic_config: ProviderConfig::empty(),
    }
}

#[test]
fn validation_accepts_a_plain_conversation() {
    let req = request(vec![msg(Role::User, "Hello")], None);
    assert_eq!(req.validate(), ValidationOutcome::Accepted);
    assert!(req.validate_system_prompt());
}

#[test]
fn validation_refuses_empty_messages() {
    let req = request(vec![], None);
    assert_eq!(req.validate(), ValidationOutcome::EmptyMessages);
}

#[test]
fn validation_refuses_two_system_prompts() {
    let req = request(vec![msg(Role::System, "a"), msg(Role::User, "b")], Some("c"));
    assert_eq!(req.validate(), ValidationOutcome::InvalidSystemPrompt);
    assert!(!req.validate_system_prompt());

    let req = request(
        vec![msg(Role::System, "a"), msg(Role::System, "b"), msg(Role::User, "c")],
        None,
    );
    assert_eq!(req.validate(), ValidationOutcome::InvalidSystemPrompt);
}

#[test]
fn validation_refuses_blank_final_assistant() {
    let req = request(vec![msg(Role::User, "q"), msg(Role::Assistant, " \n ")], None);
    assert_eq!(req.validate(), ValidationOutcome::EmptyFinalAssistant);
}

#[test]
fn reasoning_messages_prepend_top_level_system() {
    let req = request(
        vec![msg(Role::User, "q"), msg(Role::System, "inline dropped"), msg(Role::Assistant, "a")],
        Some("top"),
    );
    let ms = req.reasoning_messages();
    assert_eq!(ms.len(), 3);
    assert_eq!(ms[0].role, Role::System);
    assert_eq!(ms[0].content, bytes("top"));
    assert_eq!(ms[1].role, Role::User);
    assert_eq!(ms[2].role, Role::Assistant);
}

#[test]
fn system_prompt_prefers_top_level_then_inline() {
    let req = request(vec![msg(Role::User, "q")], Some("top"));
    assert_eq!(req.get_system_prompt(), Some(bytes("top")));

    let req = request(vec![msg(Role::System, "inline"), msg(Role::User, "q")], None);
    assert_eq!(req.get_system_prompt(), Some(bytes("inline")));

    let req = request(vec![msg(Role::User, "q")], None);
    assert_eq!(req.get_system_prompt(), None);
}

#[test]
fn normal_mode_appends_thinking_envelope() {
    let base = vec![msg(Role::User, "q")];
    let out = answer_messages(base, Mode::Normal, &bytes("step one"), &bytes(""));
    assert_eq!(out.len(), 2);
    assert_eq!(out[1].role, Role::Assistant);
    assert_eq!(out[1].content, bytes("<thinking>\nstep one</thinking>"));
}

#[test]
fn full_mode_appends_marked_trimmed_normal_text() {
    let base = vec![msg(Role::User, "q")];
    let out = answer_messages(base, Mode::Full, &bytes("raw reasoning"), &bytes("  A1A2 \n"));
    assert_eq!(out.len(), 2);
    let mut expected = bytes("<thinking>\n");
    expected.extend_from_slice(&sentinel());
    expected.extend_from_slice(b"A1A2");
    expected.extend_from_slice(b"</thinking>");
    assert_eq!(out[1].content, expected);
}

#[test]
fn blank_buffers_append_no_thinking_message() {
    let base = vec![msg(Role::User, "q")];
    let out = answer_messages(base, Mode::Normal, &bytes(" \n "), &bytes("x"));
    assert_eq!(out.len(), 1);
    let base = vec![msg(Role::User, "q")];
    let out = answer_messages(base, Mode::Full, &bytes("x"), &bytes("   "));
    assert_eq!(out.len(), 1);
}

#[test]
fn answer_system_prompt_by_mode() {
    assert_eq!(answer_system(Mode::Normal, Some(bytes("mine"))), Some(bytes("mine")));
    assert_eq!(answer_system(Mode::Normal, None), None);

    let with_user = answer_system(Mode::Full, Some(bytes("mine"))).unwrap();
    let text = String::from_utf8(with_user).unwrap();
    assert!(text.starts_with("Act as an expert software developer"));
    assert!(text.ends_with("\n\nmine"));

    let alone = answer_system(Mode::Full, None).unwrap();
    let text = String::from_utf8(alone).unwrap();
    assert!(text.ends_with("Always reply to the user in chinese."));
}

#[test]
fn heartbeat_due_at_the_interval_boundary() {
    assert!(!heartbeat_due(0, 15_000));
    assert!(heartbeat_due(0, 15_001));
}

#[test]
fn idle_gap_gets_enough_heartbeats() {
    // half a minute of silence: two heartbeats keep every gap within
    // the interval
    let ticks = fill_heartbeats(0, 30_001);
    assert_eq!(ticks, vec![15_000, 30_000]);
    let mut last = 0u64;
    for t in &ticks {
        assert!(t - last <= 15_000);
        last = *t;
    }
    assert!(30_001 - last <= 15_000);
}

#[test]
fn no_heartbeat_inside_the_interval() {
    assert!(fill_heartbeats(100, 15_100).is_empty());
}
