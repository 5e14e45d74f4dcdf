//! What requests need, and how answers are written.

use vstd::prelude::*;
use vstd::string::*;

use crate::json;
use crate::json::Json;
use crate::models::SessionLog;
use crate::protocol;
use crate::protocol::{ActivityQuery, RpcRequest, RpcResponse, MAX_FRAME_BYTES, PROTOCOL_VERSION};
use crate::text;

verus! {

/// The most connections that are served at once.
pub const MAX_RPC_CONNECTIONS: usize = 16;

/// The most subscribers that are served at once.
pub const MAX_EVENT_SUBSCRIPTIONS: usize = 4;

/// The lines of activity that a provider is asked for before those on reliability are picked.
pub const MAX_PROVIDER_LOGS: usize = 2_000;

/// The log line tells of reliability: the service wrote it, it has a condition, or a turn or a
/// provider failed.
pub open spec fn tells_reliability(log: SessionLog) -> bool {
    ||| log.source@ == "watchcat"@
    ||| log.condition is Some
    ||| log.kind@ == "turn.failed"@
    ||| log.kind@ == "provider.error"@
}

/// Whether a log line tells of reliability.
pub fn is_reliability_log(log: &SessionLog) -> (r: bool)
    ensures
        r == tells_reliability(*log),
{
    text::same(log.source.as_str(), "watchcat") || log.condition.is_some() || text::same(
        log.kind.as_str(),
        "turn.failed",
    ) || text::same(log.kind.as_str(), "provider.error")
}

/// How many lines of activity a provider is asked for: what is wanted, or ten times as much up to a
/// limit where only those on reliability are.
pub fn provider_log_limit(query: &ActivityQuery) -> (r: usize)
    ensures
        r == (if query.reliability_only {
            if query.limit * 10 < MAX_PROVIDER_LOGS {
                query.limit * 10
            } else {
                MAX_PROVIDER_LOGS as int
            }
        } else {
            query.limit as int
        }),
{
    if query.reliability_only {
        if query.limit < MAX_PROVIDER_LOGS / 10 {
            query.limit * 10
        } else {
            MAX_PROVIDER_LOGS
        }
    } else {
        query.limit
    }
}

/// The addition of a session is to be checked with its provider.
pub open spec fn wants_validation(params: Json) -> bool {
    match params.member("validate"@) {
        Some(Json::Bool(validate)) => validate,
        _ => true,
    }
}

/// The methods that a provider has to be asked for.
pub open spec fn provider_methods() -> Seq<&'static str> {
    seq!["sessions.list", "sessions.logs", "sessions.send", "sessions.interrupt"]
}

/// A request that has to be served beside the control plane, since a provider is asked.
pub open spec fn needs_provider(method: Seq<char>, params: Json) -> bool {
    text::listed(provider_methods(), method) || (method == "watch.add"@
        && wants_validation(params))
}

/// Whether a request has to be served beside the control plane.
pub fn requires_provider(method: &str, params: &Json) -> (r: bool)
    ensures
        r == needs_provider(method@, *params),
{
    let methods: Vec<&'static str> = vec![
        "sessions.list",
        "sessions.logs",
        "sessions.send",
        "sessions.interrupt",
    ];
    assert(methods@ =~= provider_methods());
    if text::one_of(&methods, method) {
        return true;
    }
    let validate = match params.get("validate") {
        Some(Json::Bool(validate)) => *validate,
        _ => true,
    };
    text::same(method, "watch.add") && validate
}

/// The methods whose success subscribers are told of.
pub open spec fn mutating_methods() -> Seq<&'static str> {
    seq![
        "sessions.send",
        "sessions.interrupt",
        "sessions.retry_now",
        "sessions.add",
        "sessions.remove",
        "watch.add",
        "watch.remove",
        "policies.set",
        "policies.reset",
        "config.policies.set",
        "config.policies.reset",
        "config.set_lifecycle",
    ]
}

/// Whether subscribers are told of the success of a method.
pub fn is_mutation(method: &str) -> (r: bool)
    ensures
        r == text::listed(mutating_methods(), method@),
{
    let methods: Vec<&'static str> = vec![
        "sessions.send",
        "sessions.interrupt",
        "sessions.retry_now",
        "sessions.add",
        "sessions.remove",
        "watch.add",
        "watch.remove",
        "policies.set",
        "policies.reset",
        "config.policies.set",
        "config.policies.reset",
        "config.set_lifecycle",
    ];
    assert(methods@ =~= mutating_methods());
    text::one_of(&methods, method)
}

/// The methods that may revoke a permission or change a policy, so that no continuation may be on
/// its way while they are served.
pub open spec fn boundary_methods() -> Seq<&'static str> {
    seq![
        "sessions.remove",
        "watch.remove",
        "policies.set",
        "policies.reset",
        "config.policies.set",
        "config.policies.reset",
    ]
}

/// Whether a method is served only while no continuation is on its way.
pub fn requires_recovery_boundary(method: &str) -> (r: bool)
    ensures
        r == text::listed(boundary_methods(), method@),
{
    let methods: Vec<&'static str> = vec![
        "sessions.remove",
        "watch.remove",
        "policies.set",
        "policies.reset",
        "config.policies.set",
        "config.policies.reset",
    ];
    assert(methods@ =~= boundary_methods());
    text::one_of(&methods, method)
}

/// The provider that a request is for.
pub open spec fn requested_provider(request: RpcRequest) -> Seq<char> {
    match request.params.member_text("provider"@) {
        Some(provider) => provider,
        None => "codex"@,
    }
}

/// The provider that a request is for.
pub fn request_provider(request: &RpcRequest) -> (r: String)
    ensures
        r@ == requested_provider(*request),
{
    match request.params.get_str("provider") {
        Some(provider) => provider.to_owned(),
        None => protocol::default_provider(),
    }
}

/// What is said of an answer that is too long.
pub open spec fn too_large_message() -> Seq<char> {
    "response exceeds the local RPC limit of "@ + text::decimal_view(MAX_FRAME_BYTES as nat)
        + " bytes; request fewer items"@
}

/// `value` is the short answer in place of one that is too long.
pub open spec fn is_too_large_json(value: Json, id: String, revision: u64) -> bool {
    exists|short: RpcResponse| #[trigger]
        protocol::is_response_json(value, short) && protocol::is_failure(
            short,
            id,
            revision,
            "response_too_large"@,
            too_large_message(),
        )
}

/// Writes an answer, or a short one in its place where it would be too long for a frame.
pub fn encode_response(response: RpcResponse) -> (r: Vec<u8>)
    ensures
        exists|whole: Json| #[trigger]
            protocol::is_response_json(whole, response) && if json::json_bytes(whole).len()
                <= MAX_FRAME_BYTES {
                r@ == json::json_bytes(whole)
            } else {
                exists|short: Json| #[trigger]
                    is_too_large_json(short, response.id, response.revision) && r@
                        == json::json_bytes(short)
            },
{
    let id = response.id.clone();
    let revision: u64 = response.revision;
    let whole = protocol::response_json(response);
    let bytes = json::write_bytes(&whole);
    if bytes.len() <= MAX_FRAME_BYTES {
        return bytes;
    }
    let message = "response exceeds the local RPC limit of ".to_owned().concat(
        text::decimal(MAX_FRAME_BYTES as u64).as_str(),
    ).concat(" bytes; request fewer items");
    let short = protocol::failure(id, revision, "response_too_large", message);
    let value = protocol::response_json(short);
    assert(protocol::is_response_json(value, short));
    assert(is_too_large_json(value, response.id, response.revision));
    json::write_bytes(&value)
}

/// Whether a request speaks the protocol; otherwise the answer that it does not.
pub fn check_protocol(request: &RpcRequest, revision: u64) -> (r: Result<(), RpcResponse>)
    ensures
        match r {
            Ok(()) => request.version == PROTOCOL_VERSION,
            Err(response) => request.version != PROTOCOL_VERSION && protocol::is_failure(
                response,
                request.id,
                revision,
                "protocol_mismatch"@,
                "client protocol "@ + text::decimal_view(request.version as nat)
                    + " is not supported; expected "@ + text::decimal_view(
                    PROTOCOL_VERSION as nat,
                ),
            ),
        },
{
    if request.version == PROTOCOL_VERSION {
        return Ok(());
    }
    let message = "client protocol ".to_owned().concat(
        text::decimal(request.version as u64).as_str(),
    ).concat(" is not supported; expected ").concat(
        text::decimal(PROTOCOL_VERSION as u64).as_str(),
    );
    Err(protocol::failure(request.id.clone(), revision, "protocol_mismatch", message))
}

} // verus!
