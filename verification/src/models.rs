//! Response-side data model: the OpenAI-compatible response shape, the
//! combined usage record, and the application's configuration snapshot.

use vstd::prelude::*;

verus! {

use vstd::string::StringExecFns;
use std::collections::HashMap;

/// One block of response content.
#[derive(Debug, Clone)]
pub struct ContentBlock {
    pub content_type: String,
    pub text: String,
}

impl ContentBlock {
    /// A plain text block.
    pub fn text(text: String) -> (r: ContentBlock)
        ensures
            r.content_type@ == "text"@,
            r.text == text,
    {
        ContentBlock { content_type: String::from_str("text"), text }
    }

    /// Carries an upstream content block over unchanged.
    pub fn from_anthropic(block: crate::anthropic::ContentBlock) -> (r: ContentBlock)
        ensures
            r.content_type == block.content_type,
            r.text == block.text,
    {
        ContentBlock { content_type: block.content_type, text: block.text }
    }
}

/// The raw reply of one upstream call, kept for verbose responses; the
/// body is raw JSON text.
#[derive(Debug, Clone)]
pub struct ExternalApiResponse {
    pub status: u16,
    pub headers: HashMap<String, String>,
    pub body: Vec<u8>,
}

/// Usage of the reasoning upstream.
#[derive(Debug, Clone)]
pub struct DeepSeekUsage {
    pub input_tokens: u32,
    pub output_tokens: u32,
    pub reasoning_tokens: u32,
    pub cached_input_tokens: u32,
    pub total_tokens: u32,
    pub total_cost: String,
}

impl Default for DeepSeekUsage {
    /// All counts zero, no cost.
    fn default() -> (r: DeepSeekUsage)
        ensures
            r.input_tokens == 0,
            r.output_tokens == 0,
            r.reasoning_tokens == 0,
            r.cached_input_tokens == 0,
            r.total_tokens == 0,
            r.total_cost@ == "$0.00"@,
    {
        DeepSeekUsage {
            input_tokens: 0,
            output_tokens: 0,
            reasoning_tokens: 0,
            cached_input_tokens: 0,
            total_tokens: 0,
            total_cost: String::from_str("$0.00"),
        }
    }
}

/// Usage of the answer upstream.
#[derive(Debug, Clone)]
pub struct AnthropicUsage {
    pub input_tokens: u32,
    pub output_tokens: u32,
    pub cached_write_tokens: u32,
    pub cached_read_tokens: u32,
    pub total_tokens: u32,
    pub total_cost: String,
}

impl Default for AnthropicUsage {
    /// All counts zero, no cost.
    fn default() -> (r: AnthropicUsage)
        ensures
            r.input_tokens == 0,
            r.output_tokens == 0,
            r.cached_write_tokens == 0,
            r.cached_read_tokens == 0,
            r.total_tokens == 0,
            r.total_cost@ == "$0.00"@,
    {
        AnthropicUsage {
            input_tokens: 0,
            output_tokens: 0,
            cached_write_tokens: 0,
            cached_read_tokens: 0,
            total_tokens: 0,
            total_cost: String::from_str("$0.00"),
        }
    }
}

impl AnthropicUsage {
    /// Carries the upstream counts over; the total is their sum, and
    /// the cost is filled in later by the caller.
    pub fn from_anthropic(usage: crate::anthropic::Usage) -> (r: AnthropicUsage)
        requires
            usage.input_tokens + usage.output_tokens <= u32::MAX,
        ensures
            r.input_tokens == usage.input_tokens,
            r.output_tokens == usage.output_tokens,
            r.cached_write_tokens == usage.cache_creation_input_tokens,
            r.cached_read_tokens == usage.cache_read_input_tokens,
            r.total_tokens == usage.input_tokens + usage.output_tokens,
            r.total_cost@ == "$0.00"@,
    {
        AnthropicUsage {
            input_tokens: usage.input_tokens,
            output_tokens: usage.output_tokens,
            cached_write_tokens: usage.cache_creation_input_tokens,
            cached_read_tokens: usage.cache_read_input_tokens,
            total_tokens: usage.input_tokens + usage.output_tokens,
            total_cost: String::from_str("$0.00"),
        }
    }
}

/// Usage across both phases.
#[derive(Debug, Clone)]
pub struct CombinedUsage {
    pub total_cost: String,
    pub deepseek_usage: DeepSeekUsage,
    pub anthropic_usage: AnthropicUsage,
}

/// The combined response body of both phases; `created` is unix seconds.
#[derive(Debug, Clone)]
pub struct ApiResponse {
    pub created: i64,
    pub content: Vec<ContentBlock>,
    pub deepseek_response: Option<ExternalApiResponse>,
    pub anthropic_response: Option<ExternalApiResponse>,
    pub combined_usage: CombinedUsage,
}

impl ApiResponse {
    /// A bare response carrying one text block and zeroed usage.
    pub fn new(content: String, created: i64) -> (r: ApiResponse)
        ensures
            r.created == created,
            r.content@.len() == 1,
            r.content@[0].content_type@ == "text"@,
            r.content@[0].text == content,
            r.deepseek_response is None,
            r.anthropic_response is None,
            r.combined_usage.total_cost@ == "$0.00"@,
            r.combined_usage.deepseek_usage.total_tokens == 0,
            r.combined_usage.anthropic_usage.total_tokens == 0,
    {
        let block = ContentBlock::text(content);
        let mut blocks: Vec<ContentBlock> = Vec::new();
        blocks.push(block);
        ApiResponse {
            created,
            content: blocks,
            deepseek_response: None,
            anthropic_response: None,
            combined_usage: CombinedUsage {
                total_cost: String::from_str("$0.00"),
                deepseek_usage: DeepSeekUsage::default(),
                anthropic_usage: AnthropicUsage::default(),
            },
        }
    }
}

impl ApiResponse {
    /// Recasts an OpenAI-compatible response as the combined shape: a
    /// thinking block holding the reasoning text, then the answer text,
    /// with usage left zeroed for the caller to fill.
    pub fn from_openai_compatible(resp: &OpenAICompatibleResponse, created: i64) -> (r: ApiResponse)
        requires
            resp.choices@.len() >= 1,
        ensures
            r.created == created,
            r.content@.len() == 2,
            r.content@[0].content_type@ == "text"@,
            r.content@[0].text@ == "<thinking>\n"@ + (match resp.choices@[0].message.reasoning_content {
                Some(s) => s@,
                None => Seq::<char>::empty(),
            }) + "\n</thinking>"@,
            r.content@[1].content_type@ == "text"@,
            r.content@[1].text == resp.choices@[0].message.content,
            r.deepseek_response is None,
            r.anthropic_response is None,
            r.combined_usage.total_cost@ == "$0.00"@,
    {
        let choice = &resp.choices[0];
        let reasoning: String = match &choice.message.reasoning_content {
            Some(s) => s.clone(),
            None => String::new(),
        };
        let mut thinking = String::from_str("<thinking>\n");
        thinking.append(reasoning.as_str());
        thinking.append("\n</thinking>");
        let mut blocks: Vec<ContentBlock> = Vec::new();
        blocks.push(ContentBlock { content_type: String::from_str("text"), text: thinking });
        blocks.push(
            ContentBlock {
                content_type: String::from_str("text"),
                text: choice.message.content.clone(),
            },
        );
        ApiResponse {
            created,
            content: blocks,
            deepseek_response: None,
            anthropic_response: None,
            combined_usage: CombinedUsage {
                total_cost: String::from_str("$0.00"),
                deepseek_usage: DeepSeekUsage::default(),
                anthropic_usage: AnthropicUsage::default(),
            },
        }
    }
}

/// One choice of the OpenAI-compatible response.
#[derive(Debug, Clone)]
pub struct Choice {
    pub index: i32,
    pub message: Message,
    pub finish_reason: String,
}

/// The assistant message of the OpenAI-compatible response.
#[derive(Debug, Clone)]
pub struct Message {
    pub role: String,
    pub content: String,
    pub reasoning_content: Option<String>,
}

/// The usage member of the OpenAI-compatible response.
#[derive(Debug, Clone, Copy, PartialEq, Eq, Structural)]
pub struct Usage {
    pub prompt_tokens: u32,
    pub completion_tokens: u32,
    pub total_tokens: u32,
}

/// The non-streaming OpenAI-compatible response.
#[derive(Debug, Clone)]
pub struct OpenAICompatibleResponse {
    pub id: String,
    pub object: String,
    pub created: i64,
    pub model: String,
    pub choices: Vec<Choice>,
    pub usage: Usage,
}

/// A request to rewrite entries of the variable store.
#[derive(Debug)]
pub struct EnvUpdateRequest {
    pub variables: HashMap<String, String>,
}

/// The configuration snapshot loaded at startup: endpoint URLs and
/// default model names as UTF-8 bytes, and where to listen. The pricing
/// table stays with the process edge, which does the cost arithmetic.
#[derive(Debug, Clone)]
pub struct Config {
    pub anthropic_api_url: Vec<u8>,
    pub claude_openai_type_api_url: Vec<u8>,
    pub deepseek_openai_type_api_url: Vec<u8>,
    pub claude_default_model: Vec<u8>,
    pub deepseek_default_model: Vec<u8>,
    pub host: String,
    pub port: u16,
}

/// State shared across request handlers.
pub struct AppState {
    pub config: Config,
}

impl AppState {
    pub fn new(config: Config) -> (r: AppState)
        ensures
            r.config == config,
    {
        AppState { config }
    }
}

} // verus!
