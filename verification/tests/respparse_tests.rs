//! Parsing of non-streaming upstream bodies, and the response data model.

use deepclaude::anthropic::Usage as WireUsage;
use deepclaude::models::{AnthropicUsage, ApiResponse, Choice, ContentBlock, Message, OpenAICompatibleResponse, Usage};
use deepclaude::respparse::{
    extract_content_from_response, extract_id_from_response, extract_model_from_response,
    extract_reasoning_content, extract_usage_from_response, parse_anthropic_chat_response,
    parse_deepseek_response,
};

fn bytes(s: &str) -> Vec<u8> {
    s.as_bytes().to_vec()
}

#[test]
fn deepseek_body_parses_member_by_member() {
    let body = bytes(
        "{\"id\":\"r-1\",\"model\":\"deepseek-reasoner\",\
         \"choices\":[{\"message\":{\"content\":\"final text\"},\"finish_reason\":\"length\"}],\
         \"usage\":{\"prompt_tokens\":11,\"completion_tokens\":22}}",
    );
    let r = parse_deepseek_response(&body, "fallback-model").unwrap();
    assert_eq!(r.id, "r-1");
    assert_eq!(r.model, "deepseek-reasoner");
    assert_eq!(r.response_type, "message");
    assert_eq!(r.role, "assistant");
    assert_eq!(r.content.len(), 1);
    assert_eq!(r.content[0].text, "final text");
    assert_eq!(r.stop_reason.as_deref(), Some("length"));
    assert_eq!(r.usage.input_tokens, 11);
    assert_eq!(r.usage.output_tokens, 22);
}

#[test]
fn deepseek_body_fills_defaults_for_missing_members() {
    let r = parse_deepseek_response(&bytes("{}"), "fallback-model").unwrap();
    assert_eq!(r.id, "deepseek_generated_id");
    assert_eq!(r.model, "fallback-model");
    assert_eq!(r.content[0].text, "");
    assert_eq!(r.usage.input_tokens, 0);
    assert!(r.stop_reason.is_none());
}

#[test]
fn deepseek_body_that_is_not_json_is_refused() {
    assert!(parse_deepseek_response(&bytes("not json"), "m").is_err());
}

#[test]
fn content_extraction_tries_each_dialect_shape() {
    let blocks = extract_content_from_response(&bytes(
        "{\"content\":[{\"type\":\"text\",\"text\":\"a\"},{\"type\":\"text\",\"text\":\"b\"}]}",
    ))
    .unwrap();
    assert_eq!(blocks[0].text, "ab");

    let blocks =
        extract_content_from_response(&bytes("{\"content\":\"plain\",\"id\":\"x\"}")).unwrap();
    assert_eq!(blocks[0].text, "plain");

    let blocks = extract_content_from_response(&bytes(
        "{\"choices\":[{\"message\":{\"content\":\"from choices\"}}]}",
    ))
    .unwrap();
    assert_eq!(blocks[0].text, "from choices");
}

#[test]
fn reasoning_content_is_read_from_the_message() {
    let body = bytes(
        "{\"choices\":[{\"message\":{\"content\":\"c\",\"reasoning_content\":\"step by step\"}}]}",
    );
    assert_eq!(extract_reasoning_content(&body).as_deref(), Some("step by step"));
    assert_eq!(extract_reasoning_content(&bytes("{}")), None);
}

#[test]
fn an_empty_content_array_yields_empty_text() {
    let blocks = extract_content_from_response(&bytes("{\"content\":[]}")).unwrap();
    assert_eq!(blocks[0].text, "");
}

#[test]
fn unrecognized_shapes_render_back_as_their_json() {
    let blocks = extract_content_from_response(&bytes("{\"foo\":1}")).unwrap();
    assert_eq!(blocks[0].text, "{\"foo\":1}");
}

#[test]
fn member_extractors_read_their_members() {
    let body = bytes(
        "{\"id\":\"m-7\",\"model\":\"sonnet-x\",\
         \"usage\":{\"input_tokens\":2,\"output_tokens\":3,\"cache_read_input_tokens\":1}}",
    );
    assert_eq!(extract_id_from_response(&body).as_deref(), Some("m-7"));
    assert_eq!(extract_model_from_response(&body).as_deref(), Some("sonnet-x"));
    let usage = extract_usage_from_response(&body).unwrap();
    assert_eq!(usage.input_tokens, 2);
    assert_eq!(usage.output_tokens, 3);
    assert_eq!(usage.cache_read_input_tokens, 1);
    assert_eq!(extract_id_from_response(&bytes("{}")), None);
}

#[test]
fn answer_body_recovers_content_or_refuses() {
    let body = bytes(
        "{\"id\":\"a-1\",\"model\":\"sonnet-x\",\
         \"content\":[{\"type\":\"text\",\"text\":\"Hello!\"}],\
         \"usage\":{\"input_tokens\":4,\"output_tokens\":5}}",
    );
    let r = parse_anthropic_chat_response(&body, "fallback").unwrap();
    assert_eq!(r.id, "a-1");
    assert_eq!(r.content[0].text, "Hello!");
    assert_eq!(r.usage.input_tokens, 4);

    assert!(parse_anthropic_chat_response(&bytes("{\"unrelated\":true}"), "m").is_err());
}

#[test]
fn content_blocks_build_and_convert() {
    let b = ContentBlock::text("hi".to_string());
    assert_eq!(b.content_type, "text");
    assert_eq!(b.text, "hi");

    let wire = deepclaude::anthropic::ContentBlock {
        content_type: "text".to_string(),
        text: "w".to_string(),
    };
    let b = ContentBlock::from_anthropic(wire);
    assert_eq!(b.text, "w");
}

#[test]
fn usage_conversion_sums_totals() {
    let u = AnthropicUsage::from_anthropic(WireUsage {
        input_tokens: 10,
        output_tokens: 20,
        cache_creation_input_tokens: 1,
        cache_read_input_tokens: 2,
    });
    assert_eq!(u.total_tokens, 30);
    assert_eq!(u.cached_write_tokens, 1);
    assert_eq!(u.cached_read_tokens, 2);
    assert_eq!(u.total_cost, "$0.00");
}

#[test]
fn api_response_constructors() {
    let r = ApiResponse::new("hello".to_string(), 77);
    assert_eq!(r.created, 77);
    assert_eq!(r.content.len(), 1);
    assert_eq!(r.content[0].text, "hello");
    assert!(r.deepseek_response.is_none());

    let openai = OpenAICompatibleResponse {
        id: "i".to_string(),
        object: "chat.completion".to_string(),
        created: 5,
        model: "m".to_string(),
        choices: vec![Choice {
            index: 0,
            message: Message {
                role: "assistant".to_string(),
                content: "answer".to_string(),
                reasoning_content: Some("why".to_string()),
            },
            finish_reason: "stop".to_string(),
        }],
        usage: Usage { prompt_tokens: 1, completion_tokens: 2, total_tokens: 3 },
    };
    let r = ApiResponse::from_openai_compatible(&openai, 9);
    assert_eq!(r.created, 9);
    assert_eq!(r.content.len(), 2);
    assert_eq!(r.content[0].text, "<thinking>\nwhy\n</thinking>");
    assert_eq!(r.content[1].text, "answer");
}
