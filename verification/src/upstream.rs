//! Outbound upstream requests: endpoint selection, authentication
//! headers, and the JSON body sent to a provider.

use vstd::prelude::*;

verus! {

use vstd::string::StringSliceAdditionalSpecFns;
use crate::bytes::{lit, trim, trim_spec, subvec, push_all, contains_sub, contains_seq, bytes_eq};
use crate::encode::{push_lit, push_json_string, push_dec, json_string_spec, dec_spec};
use crate::events::Dialect;
use crate::request::{Message, MessageModel, Role, msgs_model};

/// `p` is a prefix of `s`.
pub open spec fn is_prefix(p: Seq<u8>, s: Seq<u8>) -> bool {
    p.len() <= s.len() && s.subrange(0, p.len() as int) == p
}

/// Which credential the selected endpoint is called with.
#[derive(Clone, Copy, Debug, PartialEq, Eq, Structural)]
pub enum CredentialKind {
    /// The DeepSeek key (request header or environment).
    DeepSeek,
    /// The key the caller supplied for the answer model.
    Caller,
    /// The `ANTHROPIC_API_KEY` entry of the environment.
    AnthropicEnv,
}

/// A resolved upstream endpoint.
pub struct Endpoint {
    pub url: Vec<u8>,
    pub dialect: Dialect,
    pub credential: CredentialKind,
}

/// Which endpoint serves a model name: DeepSeek models go to the
/// DeepSeek endpoint; otherwise a configured OpenAI-style endpoint wins;
/// otherwise the Anthropic-native endpoint.
pub open spec fn wants_deepseek(model: Seq<u8>) -> bool {
    is_prefix("deepseek".spec_bytes(), model) || model == "deepclaude".spec_bytes()
}

pub fn select_endpoint(
    model: &Vec<u8>,
    deepseek_url: &Vec<u8>,
    claude_openai_url: &Vec<u8>,
    anthropic_url: &Vec<u8>,
) -> (r: Endpoint)
    ensures
        wants_deepseek(model@) ==> r.url@ == deepseek_url@ && r.dialect == Dialect::DeepSeekChat
            && r.credential == CredentialKind::DeepSeek,
        !wants_deepseek(model@) && trim_spec(claude_openai_url@).len() > 0 ==> r.url@
            == claude_openai_url@ && r.dialect == Dialect::OpenAiChat && r.credential
            == CredentialKind::Caller,
        !wants_deepseek(model@) && trim_spec(claude_openai_url@).len() == 0 ==> r.url@
            == anthropic_url@ && r.dialect == Dialect::Anthropic && r.credential
            == CredentialKind::AnthropicEnv,
{
    let deepseek_prefix = lit("deepseek");
    let deepclaude = lit("deepclaude");
    let is_deepseek = crate::bytes::starts_with(model, &deepseek_prefix) || bytes_eq(
        model,
        &deepclaude,
    );
    if is_deepseek {
        return Endpoint {
            url: subvec(deepseek_url, 0, deepseek_url.len()),
            dialect: Dialect::DeepSeekChat,
            credential: CredentialKind::DeepSeek,
        };
    }
    let t = trim(claude_openai_url);
    proof {
        assert(deepseek_url@.subrange(0, deepseek_url@.len() as int) =~= deepseek_url@);
        assert(claude_openai_url@.subrange(0, claude_openai_url@.len() as int)
            =~= claude_openai_url@);
        assert(anthropic_url@.subrange(0, anthropic_url@.len() as int) =~= anthropic_url@);
    }
    if t.len() > 0 {
        Endpoint {
            url: subvec(claude_openai_url, 0, claude_openai_url.len()),
            dialect: Dialect::OpenAiChat,
            credential: CredentialKind::Caller,
        }
    } else {
        Endpoint {
            url: subvec(anthropic_url, 0, anthropic_url.len()),
            dialect: Dialect::Anthropic,
            credential: CredentialKind::AnthropicEnv,
        }
    }
}

/// Header names that callers may never override.
pub open spec fn is_auth_header(k: Seq<u8>) -> bool {
    k == "authorization".spec_bytes() || k == "x-api-key".spec_bytes()
}

pub open spec fn lower_byte(b: u8) -> u8 {
    if 65 <= b && b <= 90 {
        (b + 32) as u8
    } else {
        b
    }
}

pub open spec fn lower_spec(s: Seq<u8>) -> Seq<u8> {
    s.map_values(|b: u8| lower_byte(b))
}

/// ASCII lower-casing, for case-insensitive header names.
pub fn ascii_lower(s: &Vec<u8>) -> (r: Vec<u8>)
    ensures
        r@ == lower_spec(s@),
{
    let mut r: Vec<u8> = Vec::new();
    let mut i: usize = 0;
    proof {
        assert(r@ =~= lower_spec(s@.subrange(0, 0)));
    }
    while i < s.len()
        invariant
            0 <= i <= s@.len(),
            r@ == lower_spec(s@.subrange(0, i as int)),
        decreases s@.len() - i,
    {
        let b = s[i];
        let ghost pre = r@;
        if 65 <= b && b <= 90 {
            r.push(b + 32);
        } else {
            r.push(b);
        }
        proof {
            assert(r@ =~= lower_spec(s@.subrange(0, i as int + 1)));
        }
        i += 1;
    }
    proof {
        assert(s@.subrange(0, s@.len() as int) =~= s@);
    }
    r
}

pub open spec fn pairs_model(s: Seq<(Vec<u8>, Vec<u8>)>) -> Seq<(Seq<u8>, Seq<u8>)> {
    s.map_values(|kv: (Vec<u8>, Vec<u8>)| (kv.0@, kv.1@))
}

/// The caller's extra headers with the protected ones removed; names are
/// compared case-insensitively.
pub open spec fn keep_non_auth(s: Seq<(Seq<u8>, Seq<u8>)>) -> Seq<(Seq<u8>, Seq<u8>)>
    decreases s.len(),
{
    if s.len() == 0 {
        Seq::empty()
    } else {
        keep_non_auth(s.drop_last()) + (if !is_auth_header(lower_spec(s.last().0)) {
            seq![s.last()]
        } else {
            Seq::<(Seq<u8>, Seq<u8>)>::empty()
        })
    }
}

/// A bearer credential value.
pub open spec fn bearer_of(key: Seq<u8>) -> Seq<u8> {
    "Bearer ".spec_bytes() + key
}

/// The headers owed to an upstream call before the caller's extras:
/// the Anthropic-native dialect authenticates twice and pins its wire
/// version; every other dialect gets one bearer header. The JSON
/// content type is always present.
pub open spec fn base_headers_model(anthropic_native: bool, key: Seq<u8>) -> Seq<(Seq<u8>, Seq<
    u8,
>)> {
    if anthropic_native {
        seq![
            ("x-api-key".spec_bytes(), key),
            ("authorization".spec_bytes(), bearer_of(key)),
            ("anthropic-version".spec_bytes(), "2023-06-01".spec_bytes()),
            ("accept".spec_bytes(), "text/event-stream".spec_bytes()),
            ("content-type".spec_bytes(), "application/json".spec_bytes()),
        ]
    } else {
        seq![
            ("authorization".spec_bytes(), bearer_of(key)),
            ("content-type".spec_bytes(), "application/json".spec_bytes()),
        ]
    }
}

/// The full outbound header list, in insertion order: defaults first,
/// the caller's extras last so they override everything but the
/// authentication headers, which are dropped from the extras.
pub open spec fn headers_model(
    anthropic_native: bool,
    key: Seq<u8>,
    custom: Seq<(Seq<u8>, Seq<u8>)>,
) -> Seq<(Seq<u8>, Seq<u8>)> {
    base_headers_model(anthropic_native, key) + keep_non_auth(custom)
}

/// Assembles the outbound headers for one upstream call.
pub fn build_headers(anthropic_native: bool, key: &Vec<u8>, custom: &Vec<(Vec<u8>, Vec<u8>)>) -> (r:
    Vec<(Vec<u8>, Vec<u8>)>)
    ensures
        pairs_model(r@) == headers_model(anthropic_native, key@, pairs_model(custom@)),
{
    let mut r: Vec<(Vec<u8>, Vec<u8>)> = Vec::new();
    let mut bearer = lit("Bearer ");
    push_all(&mut bearer, key);
    if anthropic_native {
        r.push((lit("x-api-key"), subvec(key, 0, key.len())));
        r.push((lit("authorization"), bearer));
        r.push((lit("anthropic-version"), lit("2023-06-01")));
        r.push((lit("accept"), lit("text/event-stream")));
        r.push((lit("content-type"), lit("application/json")));
    } else {
        r.push((lit("authorization"), bearer));
        r.push((lit("content-type"), lit("application/json")));
    }
    proof {
        assert(key@.subrange(0, key@.len() as int) =~= key@);
        assert(pairs_model(r@) =~= base_headers_model(anthropic_native, key@));
    }
    let ghost base = pairs_model(r@);
    let mut i: usize = 0;
    while i < custom.len()
        invariant
            0 <= i <= custom@.len(),
            pairs_model(r@) == base + keep_non_auth(pairs_model(custom@).subrange(0, i as int)),
        decreases custom@.len() - i,
    {
        let ghost pre = pairs_model(custom@).subrange(0, i as int);
        let ghost post = pairs_model(custom@).subrange(0, i as int + 1);
        proof {
            assert(post.drop_last() =~= pre);
            assert(post.last() == pairs_model(custom@)[i as int]);
        }
        let name = ascii_lower(&custom[i].0);
        let authorization = lit("authorization");
        let x_api_key = lit("x-api-key");
        let keep = !bytes_eq(&name, &authorization) && !bytes_eq(&name, &x_api_key);
        if keep {
            let k = subvec(&custom[i].0, 0, custom[i].0.len());
            let v = subvec(&custom[i].1, 0, custom[i].1.len());
            let ghost r_pre = pairs_model(r@);
            r.push((k, v));
            proof {
                assert(custom@[i as int].0@.subrange(0, custom@[i as int].0@.len() as int)
                    =~= custom@[i as int].0@);
                assert(custom@[i as int].1@.subrange(0, custom@[i as int].1@.len() as int)
                    =~= custom@[i as int].1@);
                assert(pairs_model(r@) =~= r_pre.push(pairs_model(custom@)[i as int]));
                assert(base + keep_non_auth(post) =~= (base + keep_non_auth(pre)).push(
                    pairs_model(custom@)[i as int],
                ));
            }
        } else {
            proof {
                assert(base + keep_non_auth(post) =~= base + keep_non_auth(pre));
            }
        }
        i += 1;
    }
    proof {
        assert(pairs_model(custom@).subrange(0, custom@.len() as int) =~= pairs_model(custom@));
    }
    r
}


/// JSON name of a message role.
pub open spec fn role_name_spec(r: Role) -> Seq<u8> {
    match r {
        Role::User => "user".spec_bytes(),
        Role::Assistant => "assistant".spec_bytes(),
        Role::System => "system".spec_bytes(),
    }
}

/// One message as a JSON object.
pub open spec fn msg_json_spec(m: MessageModel) -> Seq<u8> {
    "{\"role\":".spec_bytes() + json_string_spec(role_name_spec(m.role)) + ",\"content\":".spec_bytes()
        + json_string_spec(m.content) + "}".spec_bytes()
}

/// A message list as the inside of a JSON array.
pub open spec fn msgs_json_spec(ms: Seq<MessageModel>) -> Seq<u8>
    decreases ms.len(),
{
    if ms.len() == 0 {
        Seq::empty()
    } else if ms.len() == 1 {
        msg_json_spec(ms[0])
    } else {
        msgs_json_spec(ms.drop_last()) + ",".spec_bytes() + msg_json_spec(ms.last())
    }
}

/// A message the outbound array accepts: never blank, and a system
/// entry only when the dialect carries the prompt inline as a message.
pub open spec fn eligible_msg(system_inline: bool, m: MessageModel) -> bool {
    (system_inline || m.role != Role::System) && trim_spec(m.content).len() > 0
}

pub open spec fn eligible_msgs(system_inline: bool, ms: Seq<MessageModel>) -> Seq<MessageModel>
    decreases ms.len(),
{
    if ms.len() == 0 {
        Seq::empty()
    } else {
        eligible_msgs(system_inline, ms.drop_last()) + (if eligible_msg(system_inline, ms.last()) {
            seq![ms.last()]
        } else {
            Seq::<MessageModel>::empty()
        })
    }
}

/// First override value for a key, as raw JSON text.
pub open spec fn lookup_spec(ov: Seq<(Seq<u8>, Seq<u8>)>, key: Seq<u8>) -> Option<Seq<u8>>
    decreases ov.len(),
{
    if ov.len() == 0 {
        None
    } else if ov[0].0 == key {
        Some(ov[0].1)
    } else {
        lookup_spec(ov.drop_first(), key)
    }
}

/// First override value for a key.
pub fn lookup_override(ov: &Vec<(Vec<u8>, Vec<u8>)>, key: &Vec<u8>) -> (r: Option<Vec<u8>>)
    ensures
        match r {
            Some(v) => lookup_spec(pairs_model(ov@), key@) == Some(v@),
            None => lookup_spec(pairs_model(ov@), key@) is None,
        },
{
    let mut i: usize = 0;
    proof {
        assert(pairs_model(ov@).subrange(0, ov@.len() as int) =~= pairs_model(ov@));
    }
    while i < ov.len()
        invariant
            0 <= i <= ov@.len(),
            lookup_spec(pairs_model(ov@), key@) == lookup_spec(
                pairs_model(ov@).subrange(i as int, ov@.len() as int),
                key@,
            ),
        decreases ov@.len() - i,
    {
        let ghost rest = pairs_model(ov@).subrange(i as int, ov@.len() as int);
        proof {
            assert(rest[0] == pairs_model(ov@)[i as int]);
            assert(rest.drop_first() =~= pairs_model(ov@).subrange(i as int + 1, ov@.len() as int));
        }
        if bytes_eq(&ov[i].0, key) {
            let v = subvec(&ov[i].1, 0, ov[i].1.len());
            proof {
                assert(ov@[i as int].1@.subrange(0, ov@[i as int].1@.len() as int)
                    =~= ov@[i as int].1@);
            }
            return Some(v);
        }
        i += 1;
    }
    proof {
        assert(pairs_model(ov@).subrange(ov@.len() as int, ov@.len() as int)
            =~= Seq::<(Seq<u8>, Seq<u8>)>::empty());
    }
    None
}

/// The model name inside a raw JSON override: the quotes are stripped
/// when the text is a JSON string literal.
pub open spec fn unquote_spec(s: Seq<u8>) -> Seq<u8> {
    if s.len() >= 2 && s[0] == 34 && s[s.len() - 1] == 34 {
        s.subrange(1, s.len() - 1)
    } else {
        s
    }
}

/// Keys the canonical request owns: overrides to the first three are
/// discarded, the next four take an overridden or a default slot.
pub open spec fn is_reserved_key(k: Seq<u8>) -> bool {
    k == "messages".spec_bytes() || k == "system".spec_bytes() || k == "stream".spec_bytes() || k
        == "model".spec_bytes() || k == "max_tokens".spec_bytes() || k
        == "temperature".spec_bytes() || k == "top_p".spec_bytes()
}

/// The remaining overrides as trailing JSON members.
pub open spec fn extras_json_spec(ov: Seq<(Seq<u8>, Seq<u8>)>) -> Seq<u8>
    decreases ov.len(),
{
    if ov.len() == 0 {
        Seq::empty()
    } else {
        extras_json_spec(ov.drop_last()) + (if !is_reserved_key(ov.last().0) {
            ",".spec_bytes() + json_string_spec(ov.last().0) + ":".spec_bytes() + ov.last().1
        } else {
            Seq::<u8>::empty()
        })
    }
}

/// Largest answer the request asks for when the caller set none: smaller
/// for models whose name holds `opus`.
pub open spec fn default_max_tokens_spec(model_name: Seq<u8>) -> nat {
    if contains_seq(model_name, "opus".spec_bytes()) {
        4096
    } else {
        8192
    }
}

/// The model member and the name used for the token default.
pub open spec fn model_raw_spec(ov: Seq<(Seq<u8>, Seq<u8>)>, default_model: Seq<u8>) -> Seq<u8> {
    match lookup_spec(ov, "model".spec_bytes()) {
        Some(v) => v,
        None => json_string_spec(default_model),
    }
}

pub open spec fn model_name_spec(ov: Seq<(Seq<u8>, Seq<u8>)>, default_model: Seq<u8>) -> Seq<u8> {
    match lookup_spec(ov, "model".spec_bytes()) {
        Some(v) => unquote_spec(v),
        None => default_model,
    }
}

/// The whole upstream request body.
pub open spec fn request_json_spec(
    ms: Seq<MessageModel>,
    stream: bool,
    system: Option<Seq<u8>>,
    ov: Seq<(Seq<u8>, Seq<u8>)>,
    default_model: Seq<u8>,
    system_inline: bool,
) -> Seq<u8> {
    "{\"messages\":[".spec_bytes() + msgs_json_spec(eligible_msgs(system_inline, ms)) + "],\"stream\":".spec_bytes()
        + (if stream {
        "true".spec_bytes()
    } else {
        "false".spec_bytes()
    }) + ",\"model\":".spec_bytes() + model_raw_spec(ov, default_model)
        + ",\"max_tokens\":".spec_bytes() + (match lookup_spec(ov, "max_tokens".spec_bytes()) {
        Some(v) => v,
        None => dec_spec(default_max_tokens_spec(model_name_spec(ov, default_model))),
    }) + ",\"temperature\":".spec_bytes() + (match lookup_spec(ov, "temperature".spec_bytes()) {
        Some(v) => v,
        None => "0.7".spec_bytes(),
    }) + ",\"top_p\":".spec_bytes() + (match lookup_spec(ov, "top_p".spec_bytes()) {
        Some(v) => v,
        None => "0.95".spec_bytes(),
    }) + (match system {
        Some(s) => ",\"system\":".spec_bytes() + json_string_spec(s),
        None => Seq::<u8>::empty(),
    }) + extras_json_spec(ov) + "}".spec_bytes()
}

/// Encodes the canonical request, with the caller's body overrides
/// merged on top: `messages`, `system` and `stream` are protected, the
/// four tunable members take the override or their default, and every
/// other override is passed through as raw JSON. With `system_inline`
/// the system prompt travels as a role entry of the messages array (the
/// reasoning upstream's dialect); without it, system entries are
/// dropped and the prompt rides the top-level `system` member.
#[verifier::rlimit(50)]
pub fn encode_request(
    messages: &Vec<Message>,
    stream: bool,
    system: &Option<Vec<u8>>,
    overrides: &Vec<(Vec<u8>, Vec<u8>)>,
    default_model: &Vec<u8>,
    system_inline: bool,
) -> (r: Vec<u8>)
    ensures
        r@ == request_json_spec(
            msgs_model(messages@),
            stream,
            match system {
                Some(s) => Some(s@),
                None => None,
            },
            pairs_model(overrides@),
            default_model@,
            system_inline,
        ),
{
    let ghost ms = msgs_model(messages@);
    let ghost ov = pairs_model(overrides@);
    let mut out: Vec<u8> = Vec::new();
    push_lit(&mut out, "{\"messages\":[");
    let mut emitted: bool = false;
    let ghost head = "{\"messages\":[".spec_bytes();
    let mut i: usize = 0;
    proof {
        assert(eligible_msgs(system_inline, ms.subrange(0, 0)) =~= Seq::<MessageModel>::empty());
    }
    while i < messages.len()
        invariant
            0 <= i <= messages@.len(),
            ms == msgs_model(messages@),
            head == "{\"messages\":[".spec_bytes(),
            out@ == head + msgs_json_spec(eligible_msgs(system_inline, ms.subrange(0, i as int))),
            emitted == (eligible_msgs(system_inline, ms.subrange(0, i as int)).len() > 0),
        decreases messages@.len() - i,
    {
        let ghost pre = eligible_msgs(system_inline, ms.subrange(0, i as int));
        proof {
            let post_src = ms.subrange(0, i as int + 1);
            assert(post_src.drop_last() =~= ms.subrange(0, i as int));
            assert(post_src.last() == ms[i as int]);
        }
        let m = &messages[i];
        let keep = (system_inline || !matches!(m.role, Role::System)) && {
            let t = trim(&m.content);
            t.len() > 0
        };
        if keep {
            if emitted {
                push_lit(&mut out, ",");
            }
            push_lit(&mut out, "{\"role\":");
            match m.role {
                Role::User => {
                    let name = lit("user");
                    push_json_string(&mut out, &name);
                },
                Role::Assistant => {
                    let name = lit("assistant");
                    push_json_string(&mut out, &name);
                },
                Role::System => {
                    let name = lit("system");
                    push_json_string(&mut out, &name);
                },
            }
            push_lit(&mut out, ",\"content\":");
            push_json_string(&mut out, &m.content);
            push_lit(&mut out, "}");
            proof {
                let post = eligible_msgs(system_inline, ms.subrange(0, i as int + 1));
                assert(post =~= pre + seq![ms[i as int]]);
                if pre.len() == 0 {
                    assert(post =~= seq![ms[i as int]]);
                    assert(msgs_json_spec(post) == msg_json_spec(ms[i as int]));
                    assert(out@ =~= head + msgs_json_spec(post));
                } else {
                    assert(post.drop_last() =~= pre);
                    assert(post.last() == ms[i as int]);
                    assert(msgs_json_spec(post) == msgs_json_spec(pre) + ",".spec_bytes()
                        + msg_json_spec(ms[i as int]));
                    assert(out@ =~= head + msgs_json_spec(post));
                }
            }
            emitted = true;
        } else {
            proof {
                assert(eligible_msgs(system_inline, ms.subrange(0, i as int + 1)) =~= pre);
            }
        }
        i += 1;
    }
    proof {
        assert(ms.subrange(0, ms.len() as int) =~= ms);
    }
    let ghost built_msgs = out@;
    push_lit(&mut out, "],\"stream\":");
    if stream {
        push_lit(&mut out, "true");
    } else {
        push_lit(&mut out, "false");
    }
    push_lit(&mut out, ",\"model\":");
    let model_key = lit("model");
    let model_override = lookup_override(overrides, &model_key);
    let model_name: Vec<u8> = match &model_override {
        Some(v) => {
            push_all(&mut out, v);
            if v.len() >= 2 && v[0] == 34 && v[v.len() - 1] == 34 {
                subvec(v, 1, v.len() - 1)
            } else {
                subvec(v, 0, v.len())
            }
        },
        None => {
            push_json_string(&mut out, default_model);
            subvec(default_model, 0, default_model.len())
        },
    };
    proof {
        match model_override {
            Some(v) => {
                assert(v@.subrange(0, v@.len() as int) =~= v@);
                assert(model_name@ == unquote_spec(v@));
            },
            None => {
                assert(default_model@.subrange(0, default_model@.len() as int) =~= default_model@);
            },
        }
        assert(model_name@ == model_name_spec(ov, default_model@));
    }
    push_lit(&mut out, ",\"max_tokens\":");
    let max_tokens_key = lit("max_tokens");
    match lookup_override(overrides, &max_tokens_key) {
        Some(v) => {
            push_all(&mut out, &v);
        },
        None => {
            let opus = lit("opus");
            if contains_sub(&model_name, &opus) {
                push_dec(&mut out, 4096);
            } else {
                push_dec(&mut out, 8192);
            }
        },
    }
    push_lit(&mut out, ",\"temperature\":");
    let temperature_key = lit("temperature");
    match lookup_override(overrides, &temperature_key) {
        Some(v) => {
            push_all(&mut out, &v);
        },
        None => {
            push_lit(&mut out, "0.7");
        },
    }
    push_lit(&mut out, ",\"top_p\":");
    let top_p_key = lit("top_p");
    match lookup_override(overrides, &top_p_key) {
        Some(v) => {
            push_all(&mut out, &v);
        },
        None => {
            push_lit(&mut out, "0.95");
        },
    }
    match system {
        Some(s) => {
            push_lit(&mut out, ",\"system\":");
            push_json_string(&mut out, s);
        },
        None => {
            proof {
                assert(out@ + Seq::<u8>::empty() =~= out@);
            }
        },
    }
    let ghost before_extras = out@;
    let mut k: usize = 0;
    proof {
        assert(extras_json_spec(ov.subrange(0, 0)) =~= Seq::<u8>::empty());
        assert(out@ =~= before_extras + extras_json_spec(ov.subrange(0, 0)));
    }
    while k < overrides.len()
        invariant
            0 <= k <= overrides@.len(),
            ov == pairs_model(overrides@),
            out@ == before_extras + extras_json_spec(ov.subrange(0, k as int)),
        decreases overrides@.len() - k,
    {
        let ghost pre = ov.subrange(0, k as int);
        proof {
            let post = ov.subrange(0, k as int + 1);
            assert(post.drop_last() =~= pre);
            assert(post.last() == ov[k as int]);
        }
        let key = &overrides[k].0;
        let messages_key = lit("messages");
        let system_key = lit("system");
        let stream_key = lit("stream");
        let model_key2 = lit("model");
        let max_tokens_key2 = lit("max_tokens");
        let temperature_key2 = lit("temperature");
        let top_p_key2 = lit("top_p");
        let reserved = bytes_eq(key, &messages_key) || bytes_eq(key, &system_key) || bytes_eq(
            key,
            &stream_key,
        ) || bytes_eq(key, &model_key2) || bytes_eq(key, &max_tokens_key2) || bytes_eq(
            key,
            &temperature_key2,
        ) || bytes_eq(key, &top_p_key2);
        if !reserved {
            push_lit(&mut out, ",");
            push_json_string(&mut out, key);
            push_lit(&mut out, ":");
            push_all(&mut out, &overrides[k].1);
        }
        proof {
            assert(out@ =~= before_extras + extras_json_spec(ov.subrange(0, k as int + 1)));
        }
        k += 1;
    }
    proof {
        assert(ov.subrange(0, ov.len() as int) =~= ov);
    }
    push_lit(&mut out, "}");
    proof {
        assert(out@ =~= request_json_spec(
            ms,
            stream,
            match system {
                Some(s) => Some(s@),
                None => None,
            },
            ov,
            default_model@,
            system_inline,
        ));
    }
    out
}

} // verus!
