//! The handler's admission path: request validation, credential
//! resolution, and the pre-stream upstream status gate.

use vstd::prelude::*;

verus! {

use vstd::string::StringSliceAdditionalSpecFns;
use crate::bytes::{lit, subvec};
use crate::request::{ChatRequest, ValidationOutcome, validate_model};
use crate::upstream::is_prefix;

/// Which credential headers a rejected request lacked.
#[derive(Clone, Copy, Debug, PartialEq, Eq, Structural)]
pub struct MissingHeaders {
    /// The reasoning-model bearer header was absent or malformed.
    pub authorization: bool,
    /// The answer-model token header was absent.
    pub anthropic_token: bool,
}

/// The bearer token inside an `Authorization` header value, when the
/// value carries the bearer scheme.
pub open spec fn bearer_token_model(h: Option<Seq<u8>>) -> Option<Seq<u8>> {
    match h {
        Some(v) => if is_prefix("Bearer ".spec_bytes(), v) {
            Some(v.subrange("Bearer ".spec_bytes().len() as int, v.len() as int))
        } else {
            None
        },
        None => None,
    }
}

/// Strips the bearer scheme off an `Authorization` header value.
pub fn extract_bearer_token(h: &Option<Vec<u8>>) -> (r: Option<Vec<u8>>)
    ensures
        match r {
            Some(t) => bearer_token_model(
                match h {
                    Some(v) => Some(v@),
                    None => None,
                },
            ) == Some(t@),
            None => bearer_token_model(
                match h {
                    Some(v) => Some(v@),
                    None => None,
                },
            ) is None,
        },
{
    match h {
        Some(v) => {
            let prefix = lit("Bearer ");
            if crate::bytes::starts_with(v, &prefix) {
                Some(subvec(v, prefix.len(), v.len()))
            } else {
                None
            }
        },
        None => None,
    }
}

/// How the two upstream credentials resolve for one request.
pub enum CredentialOutcome {
    /// Both tokens found: the reasoning token, then the answer token.
    Found { deepseek: Vec<u8>, anthropic: Vec<u8> },
    /// Neither the headers nor the variable store yielded both.
    Missing { missing: MissingHeaders },
}

/// The credential rule: header tokens win when both are present, else
/// the variable store must supply both, else the request is refused
/// naming exactly the headers that were absent.
pub open spec fn credentials_model(
    authorization: Option<Seq<u8>>,
    anthropic_header: Option<Seq<u8>>,
    env_tokens: Option<(Seq<u8>, Seq<u8>)>,
) -> CredentialOutcomeModel {
    let bearer = bearer_token_model(authorization);
    match (bearer, anthropic_header) {
        (Some(d), Some(a)) => CredentialOutcomeModel::Found(d, a),
        _ => match env_tokens {
            Some(t) => CredentialOutcomeModel::Found(t.0, t.1),
            None => CredentialOutcomeModel::Missing(
                MissingHeaders {
                    authorization: bearer is None,
                    anthropic_token: anthropic_header is None,
                },
            ),
        },
    }
}

/// Mathematical image of a `CredentialOutcome`.
pub enum CredentialOutcomeModel {
    Found(Seq<u8>, Seq<u8>),
    Missing(MissingHeaders),
}

impl View for CredentialOutcome {
    type V = CredentialOutcomeModel;

    open spec fn view(&self) -> CredentialOutcomeModel {
        match self {
            CredentialOutcome::Found { deepseek, anthropic } => CredentialOutcomeModel::Found(
                deepseek@,
                anthropic@,
            ),
            CredentialOutcome::Missing { missing } => CredentialOutcomeModel::Missing(*missing),
        }
    }
}

/// Resolves the two credentials from the request headers and the
/// variable store's tokens.
pub fn extract_api_tokens(
    authorization: Option<Vec<u8>>,
    anthropic_header: Option<Vec<u8>>,
    env_tokens: Option<(Vec<u8>, Vec<u8>)>,
) -> (r: CredentialOutcome)
    ensures
        r@ == credentials_model(
            match authorization {
                Some(ref v) => Some(v@),
                None => None,
            },
            match anthropic_header {
                Some(ref v) => Some(v@),
                None => None,
            },
            match env_tokens {
                Some(ref t) => Some((t.0@, t.1@)),
                None => None,
            },
        ),
{
    let bearer = extract_bearer_token(&authorization);
    let bearer_missing = bearer.is_none();
    match (bearer, anthropic_header) {
        (Some(d), Some(a)) => CredentialOutcome::Found { deepseek: d, anthropic: a },
        (b, ah) => {
            match env_tokens {
                Some(t) => CredentialOutcome::Found { deepseek: t.0, anthropic: t.1 },
                None => CredentialOutcome::Missing {
                    missing: MissingHeaders {
                        authorization: bearer_missing,
                        anthropic_token: ah.is_none(),
                    },
                },
            }
        },
    }
}

/// The front door's verdict on one request.
pub enum AdmitOutcome {
    /// Refused with a client error; carries why.
    Rejected { why: ValidationOutcome },
    /// Refused for want of credentials.
    Unauthorized { missing: MissingHeaders },
    /// Admitted, with both upstream credentials resolved.
    Admitted { deepseek: Vec<u8>, anthropic: Vec<u8> },
}

/// Admits or refuses a request before any upstream work: validation
/// first, then credentials.
pub fn admit_request(
    req: &ChatRequest,
    authorization: Option<Vec<u8>>,
    anthropic_header: Option<Vec<u8>>,
    env_tokens: Option<(Vec<u8>, Vec<u8>)>,
) -> (r: AdmitOutcome)
    ensures
        validate_model(req.messages_model(), req.system_model()) != ValidationOutcome::Accepted
            ==> (r matches AdmitOutcome::Rejected { why } && why == validate_model(
            req.messages_model(),
            req.system_model(),
        )),
        validate_model(req.messages_model(), req.system_model()) == ValidationOutcome::Accepted
            ==> match r {
            AdmitOutcome::Rejected { .. } => false,
            AdmitOutcome::Unauthorized { missing } => credentials_model(
                match authorization {
                    Some(ref v) => Some(v@),
                    None => None,
                },
                match anthropic_header {
                    Some(ref v) => Some(v@),
                    None => None,
                },
                match env_tokens {
                    Some(ref t) => Some((t.0@, t.1@)),
                    None => None,
                },
            ) == CredentialOutcomeModel::Missing(missing),
            AdmitOutcome::Admitted { deepseek, anthropic } => credentials_model(
                match authorization {
                    Some(ref v) => Some(v@),
                    None => None,
                },
                match anthropic_header {
                    Some(ref v) => Some(v@),
                    None => None,
                },
                match env_tokens {
                    Some(ref t) => Some((t.0@, t.1@)),
                    None => None,
                },
            ) == CredentialOutcomeModel::Found(deepseek@, anthropic@),
        },
{
    let why = req.validate();
    if !matches!(why, ValidationOutcome::Accepted) {
        return AdmitOutcome::Rejected { why };
    }
    match extract_api_tokens(authorization, anthropic_header, env_tokens) {
        CredentialOutcome::Found { deepseek, anthropic } => AdmitOutcome::Admitted {
            deepseek,
            anthropic,
        },
        CredentialOutcome::Missing { missing } => AdmitOutcome::Unauthorized { missing },
    }
}

/// A 2xx status.
pub open spec fn is_success_status(status: u16) -> bool {
    200 <= status < 300
}

/// What the handler does with an upstream response status seen before
/// any stream data.
pub enum UpstreamGate {
    /// The upstream accepted: the stream may start.
    Streaming,
    /// The upstream refused: reply once with this status and body, and
    /// never emit a stream frame.
    Reply { status: u16, body: Vec<u8> },
}

/// Law: a non-2xx upstream status before the first data frame yields
/// exactly one 502 reply carrying the upstream body, and no stream is
/// opened — the outcome is either the one reply or the stream, never
/// both.
pub fn gate_upstream(status: u16, body: Vec<u8>) -> (r: UpstreamGate)
    ensures
        is_success_status(status) <==> r is Streaming,
        !is_success_status(status) ==> (r matches UpstreamGate::Reply { status: s, body: b } && s
            == 502 && b@ == body@),
{
    if 200 <= status && status < 300 {
        UpstreamGate::Streaming
    } else {
        UpstreamGate::Reply { status: 502, body }
    }
}

} // verus!
