//! The answer-model wire vocabulary: the response shape the gateway
//! reads back from the upstream, and the usage counts it carries.

use vstd::prelude::*;

verus! {

/// A full non-streaming upstream response, normalized across dialects.
#[derive(Debug, Clone)]
pub struct AnthropicResponse {
    pub id: String,
    pub response_type: String,
    pub role: String,
    pub model: String,
    pub content: Vec<ContentBlock>,
    pub stop_reason: Option<String>,
    pub stop_sequence: Option<String>,
    pub usage: Usage,
}

/// One block of response content.
#[derive(Debug, Clone)]
pub struct ContentBlock {
    pub content_type: String,
    pub text: String,
}

/// Token counts an upstream reported.
#[derive(Debug, Clone, Copy, PartialEq, Eq, Structural)]
pub struct Usage {
    pub input_tokens: u32,
    pub output_tokens: u32,
    pub cache_creation_input_tokens: u32,
    pub cache_read_input_tokens: u32,
}

impl Default for Usage {
    /// All counts zero.
    fn default() -> (r: Usage)
        ensures
            r == (Usage {
                input_tokens: 0,
                output_tokens: 0,
                cache_creation_input_tokens: 0,
                cache_read_input_tokens: 0,
            }),
    {
        Usage {
            input_tokens: 0,
            output_tokens: 0,
            cache_creation_input_tokens: 0,
            cache_read_input_tokens: 0,
        }
    }
}

/// A streamed text fragment of the Anthropic-native dialect.
#[derive(Debug, Clone)]
pub struct ContentDelta {
    pub delta_type: String,
    pub text: String,
}

/// The trailing per-message delta of the Anthropic-native dialect.
#[derive(Debug, Clone)]
pub struct MessageDelta {
    pub stop_reason: Option<String>,
    pub stop_sequence: Option<String>,
}

} // verus!
