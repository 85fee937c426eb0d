//! Verified core of a two-stage chat-completion gateway.
//!
//! The library composes two upstream language-model providers into a single
//! OpenAI-compatible endpoint: a reasoning phase streams chain-of-thought
//! tokens, an answer phase streams the final text, and the result is emitted
//! as one strictly ordered sequence of outbound chunks.

pub mod bytes;
pub mod sse;
pub mod json;
pub mod events;
pub mod engine;
pub mod laws;
pub mod heartbeat;
pub mod request;
pub mod aggregate;
pub mod encode;
pub mod upstream;
pub mod envfile;
pub mod gateway;
pub mod anthropic;
pub mod models;
pub mod respparse;

use vstd::prelude::*;

verus! {

/// Milliseconds between outbound chunks above which a heartbeat is owed.
pub const HEARTBEAT_INTERVAL_MS: u64 = 15000;

} // verus!
