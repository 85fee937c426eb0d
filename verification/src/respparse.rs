//! Parsing of non-streaming upstream response bodies.
//!
//! The body is JSON from an outside process, read through the named
//! queries of the trusted serde_json boundary; each function's contract
//! states exactly when it succeeds and which member values its result
//! carries, as functions of the body bytes.

use vstd::prelude::*;

verus! {

use vstd::string::StringExecFns;
use vstd::string::StringSliceAdditionalSpecFns;
use crate::anthropic::{AnthropicResponse, ContentBlock, Usage};
use crate::bytes::{lit, contains_sub, contains_seq};
use crate::json::{
    classify_payload, PayloadClass, json_ok, doc_id, doc_id_of, doc_model, doc_model_of,
    message_content, message_content_of, message_reasoning_content, reasoning_content_of,
    finish_reason, finish_reason_of, usage_openai, usage_openai_of, usage_anthropic,
    usage_anthropic_of, content_present, content_present_of, content_is_array,
    content_is_array_of, content_array_len, content_array_len_of, content_item_text,
    content_item_text_of, content_string, content_string_of, doc_render, doc_render_of,
};

/// Why a response body could not be read.
#[derive(Debug)]
pub struct ParseFailure {
    pub message: String,
}

/// A token count clamped into the 32-bit counters the response carries.
pub open spec fn clamp_u32_spec(n: u64) -> u32 {
    if n <= u32::MAX {
        n as u32
    } else {
        u32::MAX
    }
}

fn clamp_u32(n: u64) -> (r: u32)
    ensures
        r == clamp_u32_spec(n),
{
    if n <= u32::MAX as u64 {
        n as u32
    } else {
        u32::MAX
    }
}

/// The `id` member of a response body, when it is a string.
pub fn extract_id_from_response(raw: &Vec<u8>) -> (r: Option<String>)
    ensures
        match r {
            Some(s) => doc_id_of(raw@) == Some(s@),
            None => doc_id_of(raw@) is None,
        },
{
    doc_id(raw)
}

/// The `model` member of a response body, when it is a string.
pub fn extract_model_from_response(raw: &Vec<u8>) -> (r: Option<String>)
    ensures
        match r {
            Some(s) => doc_model_of(raw@) == Some(s@),
            None => doc_model_of(raw@) is None,
        },
{
    doc_model(raw)
}

/// The reasoning text of a response body, when
/// `choices[0].message.reasoning_content` is a string.
pub fn extract_reasoning_content(raw: &Vec<u8>) -> (r: Option<String>)
    ensures
        match r {
            Some(s) => reasoning_content_of(raw@) == Some(s@),
            None => reasoning_content_of(raw@) is None,
        },
{
    message_reasoning_content(raw)
}

/// The usage the response reports on Ok, with absent counts as zero.
pub open spec fn usage_of_counts(u: (u64, u64, u64, u64)) -> Usage {
    Usage {
        input_tokens: clamp_u32_spec(u.0),
        output_tokens: clamp_u32_spec(u.1),
        cache_creation_input_tokens: clamp_u32_spec(u.2),
        cache_read_input_tokens: clamp_u32_spec(u.3),
    }
}

/// The Anthropic-dialect `usage` member of a response body, clamped to
/// the 32-bit counters.
pub fn extract_usage_from_response(raw: &Vec<u8>) -> (r: Option<Usage>)
    ensures
        match r {
            Some(u) => usage_anthropic_of(raw@) matches Some(c) && u == usage_of_counts(c),
            None => usage_anthropic_of(raw@) is None,
        },
{
    match usage_anthropic(raw) {
        Some(u) => Some(
            Usage {
                input_tokens: clamp_u32(u.0),
                output_tokens: clamp_u32(u.1),
                cache_creation_input_tokens: clamp_u32(u.2),
                cache_read_input_tokens: clamp_u32(u.3),
            },
        ),
        None => None,
    }
}

/// The concatenation of the `content[..n].text` strings.
pub open spec fn content_items_concat(b: Seq<u8>, n: int) -> Seq<char>
    decreases n,
{
    if n <= 0 {
        Seq::empty()
    } else {
        content_items_concat(b, n - 1) + (match content_item_text_of(b, (n - 1) as usize) {
            Some(t) => t,
            None => Seq::<char>::empty(),
        })
    }
}

/// The response text of a parsed body, tried at every place a dialect
/// may put it: a `content` array's text members joined, a `content`
/// string, `choices[0].message.content`, or the whole document rendered
/// back as the JSON it was.
pub open spec fn extract_content_model(b: Seq<u8>) -> Seq<char> {
    if content_present_of(b) {
        if content_is_array_of(b) {
            content_items_concat(b, content_array_len_of(b) as int)
        } else {
            match content_string_of(b) {
                Some(t) => t,
                None => doc_render_of(b),
            }
        }
    } else {
        match message_content_of(b) {
            Some(t) => t,
            None => doc_render_of(b),
        }
    }
}

/// Recovers the response text from a body; refused exactly when the
/// bytes are not one complete JSON document. The result is one text
/// block holding `extract_content_model` of the bytes.
pub fn extract_content_from_response(raw: &Vec<u8>) -> (r: Result<Vec<ContentBlock>, ParseFailure>)
    ensures
        r is Ok <==> json_ok(raw@),
        r matches Ok(blocks) ==> {
            &&& blocks@.len() == 1
            &&& blocks@[0].content_type@ == "text"@
            &&& blocks@[0].text@ == extract_content_model(raw@)
        },
{
    if !matches!(classify_payload(raw), PayloadClass::Parsed) {
        return Err(ParseFailure { message: String::from_str("response body is not JSON") });
    }
    let text: String = if content_present(raw) {
        if content_is_array(raw) {
            let n = content_array_len(raw);
            let mut acc = String::new();
            let mut i: usize = 0;
            proof {
                assert(acc@ =~= content_items_concat(raw@, 0));
            }
            while i < n
                invariant
                    0 <= i <= n,
                    n == content_array_len_of(raw@),
                    acc@ == content_items_concat(raw@, i as int),
                decreases n - i,
            {
                match content_item_text(raw, i) {
                    Some(t) => {
                        acc.append(t.as_str());
                    },
                    None => {
                        proof {
                            assert(acc@ + Seq::<char>::empty() =~= acc@);
                        }
                    },
                }
                i += 1;
            }
            acc
        } else {
            match content_string(raw) {
                Some(t) => t,
                None => doc_render(raw),
            }
        }
    } else {
        match message_content(raw) {
            Some(t) => t,
            None => doc_render(raw),
        }
    };
    let mut blocks: Vec<ContentBlock> = Vec::new();
    blocks.push(ContentBlock { content_type: String::from_str("text"), text });
    Ok(blocks)
}

/// The content text the reasoning response carries, or nothing.
pub open spec fn deepseek_content_model(b: Seq<u8>) -> Seq<char> {
    match message_content_of(b) {
        Some(t) => t,
        None => Seq::<char>::empty(),
    }
}

/// Normalizes a DeepSeek (OpenAI-dialect) non-streaming body; refused
/// exactly when the bytes are not one complete JSON document. Every
/// member of the result is pinned: the text from
/// `choices[0].message.content`, the id and model with their defaults,
/// the finish reason, and the clamped token counts.
pub fn parse_deepseek_response(raw: &Vec<u8>, default_model: &str) -> (r: Result<
    AnthropicResponse,
    ParseFailure,
>)
    ensures
        r is Ok <==> json_ok(raw@),
        r matches Ok(resp) ==> {
            &&& resp.id@ == (match doc_id_of(raw@) {
                Some(s) => s,
                None => "deepseek_generated_id"@,
            })
            &&& resp.model@ == (match doc_model_of(raw@) {
                Some(s) => s,
                None => default_model@,
            })
            &&& resp.response_type@ == "message"@
            &&& resp.role@ == "assistant"@
            &&& resp.content@.len() == 1
            &&& resp.content@[0].content_type@ == "text"@
            &&& resp.content@[0].text@ == deepseek_content_model(raw@)
            &&& (match resp.stop_reason {
                Some(ref s) => finish_reason_of(raw@) == Some(s@),
                None => finish_reason_of(raw@) is None,
            })
            &&& resp.stop_sequence is None
            &&& resp.usage == (match usage_openai_of(raw@) {
                Some(u) => Usage {
                    input_tokens: clamp_u32_spec(u.0),
                    output_tokens: clamp_u32_spec(u.1),
                    cache_creation_input_tokens: 0,
                    cache_read_input_tokens: 0,
                },
                None => Usage {
                    input_tokens: 0,
                    output_tokens: 0,
                    cache_creation_input_tokens: 0,
                    cache_read_input_tokens: 0,
                },
            })
        },
{
    if !matches!(classify_payload(raw), PayloadClass::Parsed) {
        return Err(
            ParseFailure { message: String::from_str("reasoning response body is not JSON") },
        );
    }
    let id = match doc_id(raw) {
        Some(s) => s,
        None => String::from_str("deepseek_generated_id"),
    };
    let model = match doc_model(raw) {
        Some(s) => s,
        None => default_model.to_owned(),
    };
    let content_text = match message_content(raw) {
        Some(t) => t,
        None => String::new(),
    };
    let usage = match usage_openai(raw) {
        Some(u) => Usage {
            input_tokens: clamp_u32(u.0),
            output_tokens: clamp_u32(u.1),
            cache_creation_input_tokens: 0,
            cache_read_input_tokens: 0,
        },
        None => Usage {
            input_tokens: 0,
            output_tokens: 0,
            cache_creation_input_tokens: 0,
            cache_read_input_tokens: 0,
        },
    };
    let stop_reason = finish_reason(raw);
    let mut content: Vec<ContentBlock> = Vec::new();
    content.push(ContentBlock { content_type: String::from_str("text"), text: content_text });
    Ok(
        AnthropicResponse {
            id,
            response_type: String::from_str("message"),
            role: String::from_str("assistant"),
            model,
            content,
            stop_reason,
            stop_sequence: None,
            usage,
        },
    )
}

/// The plausibility gate of the answer-body reader: the raw bytes must
/// mention an id, content, and a message or text member somewhere.
pub open spec fn answer_body_plausible(b: Seq<u8>) -> bool {
    contains_seq(b, "id".spec_bytes()) && contains_seq(b, "content".spec_bytes()) && (contains_seq(
        b,
        "message".spec_bytes(),
    ) || contains_seq(b, "text".spec_bytes()))
}

/// Normalizes an answer-model non-streaming body. It succeeds exactly
/// when the bytes look plausible, parse as JSON, and yield non-empty
/// content; the content, id, model and usage of the result are pinned.
pub fn parse_anthropic_chat_response(raw: &Vec<u8>, default_model: &str) -> (r: Result<
    AnthropicResponse,
    ParseFailure,
>)
    ensures
        r is Ok <==> (answer_body_plausible(raw@) && json_ok(raw@) && extract_content_model(
            raw@,
        ).len() > 0),
        r matches Ok(resp) ==> {
            &&& resp.id@ == (match doc_id_of(raw@) {
                Some(s) => s,
                None => "generated_id"@,
            })
            &&& resp.model@ == (match doc_model_of(raw@) {
                Some(s) => s,
                None => default_model@,
            })
            &&& resp.response_type@ == "message"@
            &&& resp.role@ == "assistant"@
            &&& resp.content@.len() == 1
            &&& resp.content@[0].text@ == extract_content_model(raw@)
            &&& (match resp.stop_reason {
                Some(ref s) => s@ == "stop"@,
                None => false,
            })
            &&& resp.usage == (match usage_anthropic_of(raw@) {
                Some(u) => usage_of_counts(u),
                None => Usage {
                    input_tokens: 0,
                    output_tokens: 0,
                    cache_creation_input_tokens: 0,
                    cache_read_input_tokens: 0,
                },
            })
        },
{
    let id_lit = lit("id");
    let content_lit = lit("content");
    let message_lit = lit("message");
    let text_lit = lit("text");
    let plausible = contains_sub(raw, &id_lit) && contains_sub(raw, &content_lit) && (contains_sub(
        raw,
        &message_lit,
    ) || contains_sub(raw, &text_lit));
    if !plausible {
        return Err(
            ParseFailure { message: String::from_str("answer response carries no content") },
        );
    }
    match extract_content_from_response(raw) {
        Ok(blocks) => {
            let empty = blocks[0].text.as_str().unicode_len() == 0;
            if !empty {
                let id = match extract_id_from_response(raw) {
                    Some(s) => s,
                    None => String::from_str("generated_id"),
                };
                let model = match extract_model_from_response(raw) {
                    Some(s) => s,
                    None => default_model.to_owned(),
                };
                let usage = match extract_usage_from_response(raw) {
                    Some(u) => u,
                    None => Usage {
                        input_tokens: 0,
                        output_tokens: 0,
                        cache_creation_input_tokens: 0,
                        cache_read_input_tokens: 0,
                    },
                };
                Ok(
                    AnthropicResponse {
                        id,
                        response_type: String::from_str("message"),
                        role: String::from_str("assistant"),
                        model,
                        content: blocks,
                        stop_reason: Some(String::from_str("stop")),
                        stop_sequence: None,
                        usage,
                    },
                )
            } else {
                Err(
                    ParseFailure {
                        message: String::from_str("answer response carries no content"),
                    },
                )
            }
        },
        Err(e) => Err(e),
    }
}

} // verus!
