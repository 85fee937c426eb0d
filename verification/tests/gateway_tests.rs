//! Credential resolution, admission and the pre-stream upstream gate.

use deepclaude::gateway::{
    admit_request, extract_api_tokens, extract_bearer_token, gate_upstream, AdmitOutcome,
    CredentialOutcome, UpstreamGate,
};
use deepclaude::request::{ChatRequest, Message, ProviderConfig, Role, ValidationOutcome};

fn bytes(s: &str) -> Vec<u8> {
    s.as_bytes().to_vec()
}

fn plain_request() -> ChatRequest {
    ChatRequest {
        messages: vec![Message { role: Role::User, content: bytes("Hello") }],
        stream: true,
        system: None,
        verbose: false,
        deepseek_config: ProviderConfig::empty(),
        anthropic_config: ProviderConfig::empty(),
    }
}

#[test]
fn bearer_token_requires_the_scheme() {
    assert_eq!(extract_bearer_token(&Some(bytes("Bearer tok"))), Some(bytes("tok")));
    assert_eq!(extract_bearer_token(&Some(bytes("Basic tok"))), None);
    assert_eq!(extract_bearer_token(&None), None);
}

#[test]
fn header_tokens_win_over_the_store() {
    let r = extract_api_tokens(
        Some(bytes("Bearer d")),
        Some(bytes("a")),
        Some((bytes("env-d"), bytes("env-a"))),
    );
    match r {
        CredentialOutcome::Found { deepseek, anthropic } => {
            assert_eq!(deepseek, bytes("d"));
            assert_eq!(anthropic, bytes("a"));
        }
        _ => panic!("expected header tokens"),
    }
}

#[test]
fn store_tokens_fill_in_for_missing_headers() {
    let r = extract_api_tokens(None, None, Some((bytes("env-d"), bytes("env-a"))));
    match r {
        CredentialOutcome::Found { deepseek, anthropic } => {
            assert_eq!(deepseek, bytes("env-d"));
            assert_eq!(anthropic, bytes("env-a"));
        }
        _ => panic!("expected store tokens"),
    }
}

#[test]
fn missing_credentials_name_both_headers() {
    let r = extract_api_tokens(None, None, None);
    match r {
        CredentialOutcome::Missing { missing } => {
            assert!(missing.authorization);
            assert!(missing.anthropic_token);
        }
        _ => panic!("expected a refusal"),
    }
}

#[test]
fn missing_credentials_name_only_the_absent_header() {
    let r = extract_api_tokens(Some(bytes("Bearer d")), None, None);
    match r {
        CredentialOutcome::Missing { missing } => {
            assert!(!missing.authorization);
            assert!(missing.anthropic_token);
        }
        _ => panic!("expected a refusal"),
    }
}

#[test]
fn admission_validates_before_credentials() {
    let empty = ChatRequest { messages: vec![], ..plain_request() };
    match admit_request(&empty, None, None, None) {
        AdmitOutcome::Rejected { why } => assert_eq!(why, ValidationOutcome::EmptyMessages),
        _ => panic!("expected a validation refusal"),
    }

    match admit_request(&plain_request(), None, None, None) {
        AdmitOutcome::Unauthorized { missing } => {
            assert!(missing.authorization && missing.anthropic_token)
        }
        _ => panic!("expected a credential refusal"),
    }

    match admit_request(&plain_request(), Some(bytes("Bearer d")), Some(bytes("a")), None) {
        AdmitOutcome::Admitted { deepseek, anthropic } => {
            assert_eq!(deepseek, bytes("d"));
            assert_eq!(anthropic, bytes("a"));
        }
        _ => panic!("expected admission"),
    }
}

#[test]
fn failed_upstream_opening_becomes_one_502_reply() {
    match gate_upstream(500, bytes("upstream exploded")) {
        UpstreamGate::Reply { status, body } => {
            assert_eq!(status, 502);
            assert_eq!(body, bytes("upstream exploded"));
        }
        UpstreamGate::Streaming => panic!("a failed opening must not stream"),
    }
}

#[test]
fn successful_upstream_opening_streams() {
    assert!(matches!(gate_upstream(200, vec![]), UpstreamGate::Streaming));
    assert!(matches!(gate_upstream(299, vec![]), UpstreamGate::Streaming));
    assert!(matches!(gate_upstream(301, vec![]), UpstreamGate::Reply { status: 502, .. }));
    assert!(matches!(gate_upstream(404, vec![]), UpstreamGate::Reply { status: 502, .. }));
}
