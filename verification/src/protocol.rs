//! The messages of the local control protocol.

use vstd::prelude::*;
use vstd::string::*;

use crate::config::PolicyOverride;
use crate::json::{Json, Number};
use crate::time::Timestamp;

verus! {

/// The only protocol version that is spoken.
pub const PROTOCOL_VERSION: u32 = 2;

/// The longest message, in bytes.
pub const MAX_FRAME_BYTES: usize = 8_388_608;

/// The longest request, in bytes.
pub const MAX_RPC_REQUEST_BYTES: usize = 1_048_576;

/// The most lines of activity that are handed out at once.
pub const MAX_ACTIVITY_ITEMS: usize = 500;

/// A request.
#[derive(Debug)]
pub struct RpcRequest {
    pub version: u32,
    pub id: String,
    pub method: String,
    pub params: Json,
    pub expected_revision: Option<u64>,
}

/// What went wrong with a request.
#[derive(Debug)]
pub struct RpcError {
    pub code: String,
    pub message: String,
}

/// The answer to a request.
#[derive(Debug)]
pub struct RpcResponse {
    pub version: u32,
    pub id: String,
    pub revision: u64,
    pub result: Option<Json>,
    pub error: Option<RpcError>,
}

/// What subscribers are told.
#[derive(Debug)]
pub struct RpcNotification {
    pub version: u32,
    pub event: String,
    pub revision: u64,
    pub data: Json,
}

/// A change of a condition's policy.
#[derive(Debug)]
pub struct PolicyUpdate {
    pub condition: String,
    pub policy: PolicyOverride,
}

/// A search for sessions.
#[derive(Debug)]
pub struct SessionQuery {
    pub provider: String,
    pub limit: usize,
    pub query: String,
    pub cursor: Option<String>,
}

/// A session of a provider.
#[derive(Debug)]
pub struct SessionRef {
    pub provider: String,
    pub session_id: String,
}

/// A retry that a user asks for.
#[derive(Debug)]
pub struct RetryRequest {
    pub session: SessionRef,
    pub request_key: String,
}

/// A message to a session.
#[derive(Debug)]
pub struct SessionMessage {
    pub session: SessionRef,
    pub message: String,
}

/// The addition of a session to the watchlist.
#[derive(Debug)]
pub struct WatchAdd {
    pub session: SessionRef,
    pub label: Option<String>,
    pub protected: bool,
    pub validate: bool,
}

/// A change of a watched session.
#[derive(Debug)]
pub struct WatchUpdate {
    pub session: SessionRef,
    pub enabled: Option<bool>,
    pub protected: Option<bool>,
}

/// A question for the activity of a session.
#[derive(Debug)]
pub struct ActivityQuery {
    pub session: SessionRef,
    pub limit: usize,
    pub category: Option<String>,
    pub reliability_only: bool,
}

/// The limit of a question for activity lies outside what is handed out at once.
#[derive(Clone, Copy, Debug, PartialEq, Eq, Structural)]
pub struct ActivityLimitError;

impl ActivityQuery {
    /// Checks the limit.
    pub fn validate(&self) -> (r: Result<(), ActivityLimitError>)
        ensures
            r is Ok <==> 1 <= self.limit <= MAX_ACTIVITY_ITEMS,
    {
        if self.limit == 0 || self.limit > MAX_ACTIVITY_ITEMS {
            Err(ActivityLimitError)
        } else {
            Ok(())
        }
    }
}

/// The state of the service at a glance.
#[derive(Debug)]
pub struct Snapshot {
    pub generated_at: Timestamp,
    pub revision: u64,
    pub service_online: bool,
    pub watched: usize,
    pub attention: usize,
    pub attention_target_keys: Vec<String>,
    pub automatic_recoveries: usize,
    pub hands_free_percent: u8,
}

/// The provider that a request is for unless it names one.
pub fn default_provider() -> (r: String)
    ensures
        r@ == "codex"@,
{
    "codex".to_owned()
}

/// How many sessions a search gives unless it says so.
pub const DEFAULT_SESSION_LIMIT: usize = 100;

/// How many lines of activity are given unless a question says so.
pub const DEFAULT_ACTIVITY_LIMIT: usize = 50;

/// The answer `result` to the request `id`.
pub fn success(id: String, revision: u64, result: Json) -> (r: RpcResponse)
    ensures
        r.version == PROTOCOL_VERSION,
        r.id == id,
        r.revision == revision,
        r.result == Some(result),
        r.error is None,
{
    RpcResponse { version: PROTOCOL_VERSION, id, revision, result: Some(result), error: None }
}

/// The answer that the request `id` failed.
pub fn failure(id: String, revision: u64, code: &str, message: String) -> (r: RpcResponse)
    ensures
        is_failure(r, id, revision, code@, message@),
{
    RpcResponse {
        version: PROTOCOL_VERSION,
        id,
        revision,
        result: None,
        error: Some(RpcError { code: code.to_owned(), message }),
    }
}

/// `response` says that the request `id` failed.
pub open spec fn is_failure(
    response: RpcResponse,
    id: String,
    revision: u64,
    code: Seq<char>,
    message: Seq<char>,
) -> bool {
    &&& response.version == PROTOCOL_VERSION
    &&& response.id == id
    &&& response.revision == revision
    &&& response.result is None
    &&& response.error is Some
    &&& response.error->0.code@ == code
    &&& response.error->0.message@ == message
}

/// The members of a response as they are written: a result or an error only where there is one.
pub open spec fn response_members(response: RpcResponse) -> Set<Seq<char>> {
    let always = set!["version"@, "id"@, "revision"@];
    let with_result = if response.result is Some {
        always.insert("result"@)
    } else {
        always
    };
    if response.error is Some {
        with_result.insert("error"@)
    } else {
        with_result
    }
}

/// `value` is an error as it is written.
pub open spec fn is_error_json(value: Json, error: RpcError) -> bool {
    &&& value is Object
    &&& value->Object_0@.dom() == set!["code"@, "message"@]
    &&& value.member("code"@) == Some(Json::Text(error.code))
    &&& value.member("message"@) == Some(Json::Text(error.message))
}

/// `value` is a response as it is written.
pub open spec fn is_response_json(value: Json, response: RpcResponse) -> bool {
    &&& value is Object
    &&& value->Object_0@.dom() == response_members(response)
    &&& value.member("version"@) == Some(Json::Number(Number::Unsigned(response.version as u64)))
    &&& value.member("id"@) == Some(Json::Text(response.id))
    &&& value.member("revision"@) == Some(Json::Number(Number::Unsigned(response.revision)))
    &&& response.result is Some ==> value.member("result"@) == response.result
    &&& response.error is Some ==> value.member("error"@) is Some && is_error_json(
        value.member("error"@)->0,
        response.error->0,
    )
}

proof fn lemma_response_names_differ()
    ensures
        "version"@ != "id"@,
        "version"@ != "revision"@,
        "version"@ != "result"@,
        "version"@ != "error"@,
        "id"@ != "revision"@,
        "id"@ != "result"@,
        "id"@ != "error"@,
        "revision"@ != "result"@,
        "revision"@ != "error"@,
        "result"@ != "error"@,
        "code"@ != "message"@,
{
    reveal_strlit("version");
    reveal_strlit("id");
    reveal_strlit("revision");
    reveal_strlit("result");
    reveal_strlit("error");
    reveal_strlit("code");
    reveal_strlit("message");
    assert("version"@.len() == 7 && "id"@.len() == 2 && "revision"@.len() == 8);
    assert("result"@.len() == 6 && "error"@.len() == 5);
    assert("code"@.len() == 4 && "message"@.len() == 7);
}

/// Writes an error as a value.
fn error_json(error: RpcError) -> (r: Json)
    ensures
        is_error_json(r, error),
{
    proof {
        lemma_response_names_differ();
    }
    let r = Json::object().with("code", Json::Text(error.code)).with(
        "message",
        Json::Text(error.message),
    ).build();
    assert(r->Object_0@.dom() =~= set!["code"@, "message"@]);
    r
}

/// Writes a response as a value.
pub fn response_json(response: RpcResponse) -> (r: Json)
    ensures
        is_response_json(r, response),
{
    proof {
        lemma_response_names_differ();
    }
    let mut r = Json::object().with(
        "version",
        Json::Number(Number::Unsigned(response.version as u64)),
    ).with("id", Json::Text(response.id)).with(
        "revision",
        Json::Number(Number::Unsigned(response.revision)),
    );
    assert(r@.dom() =~= set!["version"@, "id"@, "revision"@]);
    match response.result {
        Some(result) => {
            r = r.with("result", result);
        },
        None => {},
    }
    match response.error {
        Some(error) => {
            r = r.with("error", error_json(error));
        },
        None => {},
    }
    assert(r@.dom() =~= response_members(response));
    r.build()
}

} // verus!
