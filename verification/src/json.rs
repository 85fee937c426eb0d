//! Trusted boundary to the serde_json crate.
//!
//! Every query below takes the raw document bytes and reads one member
//! through serde_json. Each result is a function of the bytes alone, so
//! it carries a name (an uninterpreted spec function) that the query's
//! contract applies; downstream contracts then state exactly which
//! member values a parse yields, and Verus checks the logic over them.

use vstd::prelude::*;

verus! {

/// The bytes parse as one complete JSON document
/// (serde_json::from_slice::<Value> returns Ok).
pub uninterp spec fn json_ok(b: Seq<u8>) -> bool;

/// The bytes fail to parse by ending too early
/// (serde_json::Error::is_eof on the parse error).
pub uninterp spec fn json_incomplete(b: Seq<u8>) -> bool;

/// How a payload classifies: a complete document, one that needs more
/// bytes, or one that is beyond repair.
pub enum PayloadClass {
    Parsed,
    Incomplete,
    Malformed,
}

/// Relies on serde_json::from_slice::<Value> and serde_json::Error::is_eof:
/// whether the bytes are one complete JSON document, end too early, or
/// are malformed; both verdicts depend on the bytes alone.
#[verifier::external_body]
pub(crate) fn classify_payload(b: &Vec<u8>) -> (r: PayloadClass)
    ensures
        r is Parsed <==> json_ok(b@),
        r is Incomplete <==> (!json_ok(b@) && json_incomplete(b@)),
        r is Malformed <==> (!json_ok(b@) && !json_incomplete(b@)),
{
    match serde_json::from_slice::<serde_json::Value>(b) {
        Ok(_) => PayloadClass::Parsed,
        Err(e) => if e.is_eof() {
            PayloadClass::Incomplete
        } else {
            PayloadClass::Malformed
        },
    }
}

/// The UTF-8 bytes of the `choices[0].delta.role` string of the
/// document, when the bytes parse and the member is a string.
pub uninterp spec fn delta_role_of(b: Seq<u8>) -> Option<Seq<u8>>;

/// Relies on serde_json::from_slice, Value::get and Value::as_str:
/// reads `choices[0].delta.role`, a function of the bytes alone.
#[verifier::external_body]
pub(crate) fn delta_role(b: &Vec<u8>) -> (r: Option<Vec<u8>>)
    ensures
        match r {
            Some(v) => delta_role_of(b@) == Some(v@),
            None => delta_role_of(b@) is None,
        },
{
    let v: serde_json::Value = serde_json::from_slice(b).ok()?;
    let s = v.get("choices")?.get(0)?.get("delta")?.get("role")?.as_str()?;
    Some(s.as_bytes().to_vec())
}

/// The UTF-8 bytes of `choices[0].delta.reasoning_content`.
pub uninterp spec fn delta_reasoning_of(b: Seq<u8>) -> Option<Seq<u8>>;

/// Relies on serde_json::from_slice, Value::get and Value::as_str:
/// reads `choices[0].delta.reasoning_content`.
#[verifier::external_body]
pub(crate) fn delta_reasoning(b: &Vec<u8>) -> (r: Option<Vec<u8>>)
    ensures
        match r {
            Some(v) => delta_reasoning_of(b@) == Some(v@),
            None => delta_reasoning_of(b@) is None,
        },
{
    let v: serde_json::Value = serde_json::from_slice(b).ok()?;
    let s = v.get("choices")?.get(0)?.get("delta")?.get("reasoning_content")?.as_str()?;
    Some(s.as_bytes().to_vec())
}

/// The UTF-8 bytes of `choices[0].delta.content`.
pub uninterp spec fn delta_content_of(b: Seq<u8>) -> Option<Seq<u8>>;

/// Relies on serde_json::from_slice, Value::get and Value::as_str:
/// reads `choices[0].delta.content`.
#[verifier::external_body]
pub(crate) fn delta_content(b: &Vec<u8>) -> (r: Option<Vec<u8>>)
    ensures
        match r {
            Some(v) => delta_content_of(b@) == Some(v@),
            None => delta_content_of(b@) is None,
        },
{
    let v: serde_json::Value = serde_json::from_slice(b).ok()?;
    let s = v.get("choices")?.get(0)?.get("delta")?.get("content")?.as_str()?;
    Some(s.as_bytes().to_vec())
}

/// `choices[0].finish_reason` exists and is not JSON null.
pub uninterp spec fn finish_present_of(b: Seq<u8>) -> bool;

/// Relies on serde_json::from_slice, Value::get and Value::is_null:
/// whether the document announces a finish reason.
#[verifier::external_body]
pub(crate) fn finish_present(b: &Vec<u8>) -> (r: bool)
    ensures
        r == finish_present_of(b@),
{
    serde_json::from_slice::<serde_json::Value>(b)
        .ok()
        .and_then(|v| v.get("choices").and_then(|c| c.get(0)).and_then(|c| c.get("finish_reason")).map(|f| !f.is_null()))
        .unwrap_or(false)
}

/// The text of `choices[0].finish_reason`, when it is a string.
pub uninterp spec fn finish_reason_of(b: Seq<u8>) -> Option<Seq<char>>;

/// Relies on serde_json::from_slice, Value::get and Value::as_str:
/// reads `choices[0].finish_reason` as text.
#[verifier::external_body]
pub(crate) fn finish_reason(b: &Vec<u8>) -> (r: Option<String>)
    ensures
        match r {
            Some(s) => finish_reason_of(b@) == Some(s@),
            None => finish_reason_of(b@) is None,
        },
{
    let v: serde_json::Value = serde_json::from_slice(b).ok()?;
    let s = v.get("choices")?.get(0)?.get("finish_reason")?.as_str()?;
    Some(s.to_string())
}

/// The OpenAI-dialect `usage` counts of the document, when the member
/// is present and not null: prompt tokens, completion tokens, the
/// nested reasoning tokens, and the prompt cache hits, each 0 when its
/// member is absent or not an unsigned number.
pub uninterp spec fn usage_openai_of(b: Seq<u8>) -> Option<(u64, u64, u64, u64)>;

/// Relies on serde_json::from_slice, Value::get, Value::is_null and
/// Value::as_u64: reads the OpenAI-dialect usage counts.
#[verifier::external_body]
pub(crate) fn usage_openai(b: &Vec<u8>) -> (r: Option<(u64, u64, u64, u64)>)
    ensures
        r == usage_openai_of(b@),
{
    let v: serde_json::Value = serde_json::from_slice(b).ok()?;
    let u = v.get("usage")?;
    if u.is_null() {
        return None;
    }
    let prompt = u.get("prompt_tokens").and_then(|x| x.as_u64()).unwrap_or(0);
    let completion = u.get("completion_tokens").and_then(|x| x.as_u64()).unwrap_or(0);
    let reasoning = u
        .get("completion_tokens_details")
        .and_then(|d| d.get("reasoning_tokens"))
        .and_then(|x| x.as_u64())
        .unwrap_or(0);
    let cached = u.get("prompt_cache_hit_tokens").and_then(|x| x.as_u64()).unwrap_or(0);
    Some((prompt, completion, reasoning, cached))
}

/// The UTF-8 bytes of the document's top-level `type` tag.
pub uninterp spec fn tag_of(b: Seq<u8>) -> Option<Seq<u8>>;

/// Relies on serde_json::from_slice, Value::get and Value::as_str:
/// reads the Anthropic-native `type` tag.
#[verifier::external_body]
pub(crate) fn tag(b: &Vec<u8>) -> (r: Option<Vec<u8>>)
    ensures
        match r {
            Some(v) => tag_of(b@) == Some(v@),
            None => tag_of(b@) is None,
        },
{
    let v: serde_json::Value = serde_json::from_slice(b).ok()?;
    let s = v.get("type")?.as_str()?;
    Some(s.as_bytes().to_vec())
}

/// The UTF-8 bytes of `delta.type`.
pub uninterp spec fn delta_kind_of(b: Seq<u8>) -> Option<Seq<u8>>;

/// Relies on serde_json::from_slice, Value::get and Value::as_str:
/// reads the Anthropic-native `delta.type`.
#[verifier::external_body]
pub(crate) fn delta_kind(b: &Vec<u8>) -> (r: Option<Vec<u8>>)
    ensures
        match r {
            Some(v) => delta_kind_of(b@) == Some(v@),
            None => delta_kind_of(b@) is None,
        },
{
    let v: serde_json::Value = serde_json::from_slice(b).ok()?;
    let s = v.get("delta")?.get("type")?.as_str()?;
    Some(s.as_bytes().to_vec())
}

/// The UTF-8 bytes of `delta.text`.
pub uninterp spec fn delta_text_of(b: Seq<u8>) -> Option<Seq<u8>>;

/// Relies on serde_json::from_slice, Value::get and Value::as_str:
/// reads the Anthropic-native `delta.text`.
#[verifier::external_body]
pub(crate) fn delta_text(b: &Vec<u8>) -> (r: Option<Vec<u8>>)
    ensures
        match r {
            Some(v) => delta_text_of(b@) == Some(v@),
            None => delta_text_of(b@) is None,
        },
{
    let v: serde_json::Value = serde_json::from_slice(b).ok()?;
    let s = v.get("delta")?.get("text")?.as_str()?;
    Some(s.as_bytes().to_vec())
}

/// The Anthropic-dialect `usage` counts of the document, when the
/// member is present and not null: input tokens, output tokens, cache
/// writes and cache reads, each 0 when absent or not an unsigned number.
pub uninterp spec fn usage_anthropic_of(b: Seq<u8>) -> Option<(u64, u64, u64, u64)>;

/// Relies on serde_json::from_slice, Value::get, Value::is_null and
/// Value::as_u64: reads the Anthropic-dialect usage counts.
#[verifier::external_body]
pub(crate) fn usage_anthropic(b: &Vec<u8>) -> (r: Option<(u64, u64, u64, u64)>)
    ensures
        r == usage_anthropic_of(b@),
{
    let v: serde_json::Value = serde_json::from_slice(b).ok()?;
    let u = v.get("usage")?;
    if u.is_null() {
        return None;
    }
    let input = u.get("input_tokens").and_then(|x| x.as_u64()).unwrap_or(0);
    let output = u.get("output_tokens").and_then(|x| x.as_u64()).unwrap_or(0);
    let cache_w = u.get("cache_creation_input_tokens").and_then(|x| x.as_u64()).unwrap_or(0);
    let cache_r = u.get("cache_read_input_tokens").and_then(|x| x.as_u64()).unwrap_or(0);
    Some((input, output, cache_w, cache_r))
}

/// The text of the document's top-level `id`, when it is a string.
pub uninterp spec fn doc_id_of(b: Seq<u8>) -> Option<Seq<char>>;

/// Relies on serde_json::from_slice, Value::get and Value::as_str:
/// reads the top-level `id`.
#[verifier::external_body]
pub(crate) fn doc_id(b: &Vec<u8>) -> (r: Option<String>)
    ensures
        match r {
            Some(s) => doc_id_of(b@) == Some(s@),
            None => doc_id_of(b@) is None,
        },
{
    let v: serde_json::Value = serde_json::from_slice(b).ok()?;
    Some(v.get("id")?.as_str()?.to_string())
}

/// The text of the document's top-level `model`, when it is a string.
pub uninterp spec fn doc_model_of(b: Seq<u8>) -> Option<Seq<char>>;

/// Relies on serde_json::from_slice, Value::get and Value::as_str:
/// reads the top-level `model`.
#[verifier::external_body]
pub(crate) fn doc_model(b: &Vec<u8>) -> (r: Option<String>)
    ensures
        match r {
            Some(s) => doc_model_of(b@) == Some(s@),
            None => doc_model_of(b@) is None,
        },
{
    let v: serde_json::Value = serde_json::from_slice(b).ok()?;
    Some(v.get("model")?.as_str()?.to_string())
}

/// The text of `choices[0].message.content`, when it is a string.
pub uninterp spec fn message_content_of(b: Seq<u8>) -> Option<Seq<char>>;

/// Relies on serde_json::from_slice, Value::get and Value::as_str:
/// reads `choices[0].message.content`.
#[verifier::external_body]
pub(crate) fn message_content(b: &Vec<u8>) -> (r: Option<String>)
    ensures
        match r {
            Some(s) => message_content_of(b@) == Some(s@),
            None => message_content_of(b@) is None,
        },
{
    let v: serde_json::Value = serde_json::from_slice(b).ok()?;
    Some(v.get("choices")?.get(0)?.get("message")?.get("content")?.as_str()?.to_string())
}

/// The text of `choices[0].message.reasoning_content`, when it is a
/// string.
pub uninterp spec fn reasoning_content_of(b: Seq<u8>) -> Option<Seq<char>>;

/// Relies on serde_json::from_slice, Value::get and Value::as_str:
/// reads `choices[0].message.reasoning_content`.
#[verifier::external_body]
pub(crate) fn message_reasoning_content(b: &Vec<u8>) -> (r: Option<String>)
    ensures
        match r {
            Some(s) => reasoning_content_of(b@) == Some(s@),
            None => reasoning_content_of(b@) is None,
        },
{
    let v: serde_json::Value = serde_json::from_slice(b).ok()?;
    Some(
        v.get("choices")?.get(0)?.get("message")?.get("reasoning_content")?.as_str()?.to_string(),
    )
}

/// The document has a top-level `content` member.
pub uninterp spec fn content_present_of(b: Seq<u8>) -> bool;

/// Relies on serde_json::from_slice and Value::get: whether a top-level
/// `content` member exists.
#[verifier::external_body]
pub(crate) fn content_present(b: &Vec<u8>) -> (r: bool)
    ensures
        r == content_present_of(b@),
{
    serde_json::from_slice::<serde_json::Value>(b)
        .ok()
        .map(|v| v.get("content").is_some())
        .unwrap_or(false)
}

/// The top-level `content` member is a JSON array.
pub uninterp spec fn content_is_array_of(b: Seq<u8>) -> bool;

/// Relies on serde_json::from_slice, Value::get and Value::is_array:
/// whether `content` is an array.
#[verifier::external_body]
pub(crate) fn content_is_array(b: &Vec<u8>) -> (r: bool)
    ensures
        r == content_is_array_of(b@),
{
    serde_json::from_slice::<serde_json::Value>(b)
        .ok()
        .and_then(|v| v.get("content").map(|c| c.is_array()))
        .unwrap_or(false)
}

/// The element count of the `content` array; 0 when it is no array.
pub uninterp spec fn content_array_len_of(b: Seq<u8>) -> usize;

/// Relies on serde_json::from_slice, Value::get, Value::as_array and
/// Vec::len: the `content` array's length.
#[verifier::external_body]
pub(crate) fn content_array_len(b: &Vec<u8>) -> (r: usize)
    ensures
        r == content_array_len_of(b@),
{
    serde_json::from_slice::<serde_json::Value>(b)
        .ok()
        .and_then(|v| v.get("content").and_then(|c| c.as_array().map(|a| a.len())))
        .unwrap_or(0)
}

/// The text of `content[i].text`, when it is a string.
pub uninterp spec fn content_item_text_of(b: Seq<u8>, i: usize) -> Option<Seq<char>>;

/// Relies on serde_json::from_slice, Value::get and Value::as_str:
/// reads `content[i].text`.
#[verifier::external_body]
pub(crate) fn content_item_text(b: &Vec<u8>, i: usize) -> (r: Option<String>)
    ensures
        match r {
            Some(s) => content_item_text_of(b@, i) == Some(s@),
            None => content_item_text_of(b@, i) is None,
        },
{
    let v: serde_json::Value = serde_json::from_slice(b).ok()?;
    Some(v.get("content")?.get(i)?.get("text")?.as_str()?.to_string())
}

/// The text of the top-level `content` member, when it is a string.
pub uninterp spec fn content_string_of(b: Seq<u8>) -> Option<Seq<char>>;

/// Relies on serde_json::from_slice, Value::get and Value::as_str:
/// reads `content` as a string.
#[verifier::external_body]
pub(crate) fn content_string(b: &Vec<u8>) -> (r: Option<String>)
    ensures
        match r {
            Some(s) => content_string_of(b@) == Some(s@),
            None => content_string_of(b@) is None,
        },
{
    let v: serde_json::Value = serde_json::from_slice(b).ok()?;
    Some(v.get("content")?.as_str()?.to_string())
}

/// The whole document rendered back as compact JSON text; meaningful
/// when the bytes parse.
pub uninterp spec fn doc_render_of(b: Seq<u8>) -> Seq<char>;

/// Relies on serde_json::from_slice and Value's Display form: the
/// parsed document rendered back as JSON text (empty text when the
/// bytes do not parse).
#[verifier::external_body]
pub(crate) fn doc_render(b: &Vec<u8>) -> (r: String)
    ensures
        json_ok(b@) ==> r@ == doc_render_of(b@),
{
    serde_json::from_slice::<serde_json::Value>(b)
        .map(|v| v.to_string())
        .unwrap_or_default()
}

} // verus!
