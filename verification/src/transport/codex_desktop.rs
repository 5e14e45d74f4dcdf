//! Requests to the Codex Desktop window that owns a thread, over the local router between clients.

use vstd::prelude::*;
use vstd::string::*;

use crate::config;
use crate::ids;
use crate::json;
use crate::json::{Json, Plain};
use crate::text;
use crate::transport::{AcknowledgementUnknown, TransportError};

verus! {

/// What a client is called before the router has named it.
pub const INITIAL_CLIENT_ID: &'static str = "initializing-client";

/// The host whose threads are meant.
pub const LOCAL_HOST_ID: &'static str = "local";

/// The most bytes of a frame's payload.
pub const MAX_FRAME_BYTES: usize = 268_435_456;

/// How long a response is waited for, and a connection.
pub const REQUEST_TIMEOUT_MILLIS: u64 = 10_000;

/// How a message was delivered.
#[derive(Clone, Copy, Debug, PartialEq, Eq, Structural)]
pub enum DesktopMessageDelivery {
    /// A turn was started with it.
    Started,
    /// It was given to the running turn.
    Steered,
}

/// The acknowledgement of a message.
#[derive(Debug, PartialEq, Eq)]
pub struct DesktopMessageReceipt {
    pub turn_id: String,
    pub delivery: DesktopMessageDelivery,
}

/// An error that the owner or the router answered with.
#[derive(Debug)]
pub struct DesktopIpcRemoteError {
    pub method: String,
    pub message: String,
}

/// Why a request to Desktop failed.
#[derive(Debug)]
pub enum DesktopError {
    Remote(DesktopIpcRemoteError),
    /// No response came in time to a request of the method.
    TimedOut(String),
    /// The response to a request of the method says neither success nor error.
    InvalidResponse(String),
    MissingClientId,
    MissingOwnerId,
    MissingSteeredTurn,
    MissingStartedTurn,
    MissingInterruptedTurn,
    /// Frames could not be exchanged.
    Stream(String),
}

impl DesktopError {
    /// What the error says.
    pub open spec fn message_view(self) -> Seq<char> {
        match self {
            DesktopError::Remote(error) => "Codex Desktop IPC "@ + error.method@ + " failed: "@
                + error.message@,
            DesktopError::TimedOut(method) => "Codex Desktop IPC request timed out: "@ + method@,
            DesktopError::InvalidResponse(method) =>
                "Codex Desktop IPC returned an invalid response for "@ + method@,
            DesktopError::MissingClientId => "Codex Desktop IPC initialize returned no client id"@,
            DesktopError::MissingOwnerId => "Codex Desktop owner discovery returned no owner id"@,
            DesktopError::MissingSteeredTurn => "Codex Desktop accepted steer without a turn id"@,
            DesktopError::MissingStartedTurn =>
                "Codex Desktop accepted turn start without a turn id"@,
            DesktopError::MissingInterruptedTurn =>
                "Codex Desktop accepted interrupt without a turn id"@,
            DesktopError::Stream(message) => message@,
        }
    }

    /// What the error says.
    pub fn message(&self) -> (r: String)
        ensures
            r@ == self.message_view(),
    {
        match self {
            DesktopError::Remote(error) => "Codex Desktop IPC ".to_owned().concat(
                error.method.as_str(),
            ).concat(" failed: ").concat(error.message.as_str()),
            DesktopError::TimedOut(method) => "Codex Desktop IPC request timed out: ".to_owned().concat(
            method.as_str()),
            DesktopError::InvalidResponse(method) =>
                "Codex Desktop IPC returned an invalid response for ".to_owned().concat(
                method.as_str(),
            ),
            DesktopError::MissingClientId =>
                "Codex Desktop IPC initialize returned no client id".to_owned(),
            DesktopError::MissingOwnerId =>
                "Codex Desktop owner discovery returned no owner id".to_owned(),
            DesktopError::MissingSteeredTurn =>
                "Codex Desktop accepted steer without a turn id".to_owned(),
            DesktopError::MissingStartedTurn =>
                "Codex Desktop accepted turn start without a turn id".to_owned(),
            DesktopError::MissingInterruptedTurn =>
                "Codex Desktop accepted interrupt without a turn id".to_owned(),
            DesktopError::Stream(message) => message.clone(),
        }
    }
}

/// What a refused message says of the thread.
#[derive(Clone, Copy, Debug, PartialEq, Eq, Structural)]
pub enum TurnStateConflict {
    /// No turn is running.
    Inactive,
    /// A turn is running.
    Active,
}

/// What is said where no turn is running.
pub open spec fn inactive_phrases() -> Seq<&'static str> {
    seq![
        "no active turn",
        "without an active turn",
        "not being streamed",
        "not currently active",
        "is not active",
        "active turn already ended",
    ]
}

/// What is said where a turn is running.
pub open spec fn active_phrases() -> Seq<&'static str> {
    seq!["active turn", "already active", "already in progress"]
}

/// The text holds one of the phrases.
pub open spec fn holds_phrase(s: Seq<char>, phrases: Seq<&'static str>) -> bool {
    exists|i: int| 0 <= i < phrases.len() && text::contains_text(s, (#[trigger] phrases[i])@)
}

/// What an error's text says of the thread.
pub open spec fn conflict_in(message: Seq<char>) -> Option<TurnStateConflict> {
    let lowered = text::ascii_lowered(message);
    if holds_phrase(lowered, inactive_phrases()) {
        Some(TurnStateConflict::Inactive)
    } else if holds_phrase(lowered, active_phrases()) {
        Some(TurnStateConflict::Active)
    } else {
        None
    }
}

/// What an error says of the thread: only what the other side answered counts.
pub open spec fn conflict_of(error: DesktopError) -> Option<TurnStateConflict> {
    match error {
        DesktopError::Remote(remote) => conflict_in(remote.message@),
        _ => None,
    }
}

fn holds_one_of(s: &str, phrases: &Vec<&'static str>) -> (r: bool)
    ensures
        r == holds_phrase(s@, phrases@),
{
    let mut i: usize = 0;
    while i < phrases.len()
        invariant
            i <= phrases@.len(),
            forall|k: int|
                0 <= k < i ==> !text::contains_text(s@, (#[trigger] phrases@[k])@),
        decreases phrases@.len() - i,
    {
        if text::contains(s, phrases[i]) {
            assert(text::contains_text(s@, phrases@[i as int]@));
            return true;
        }
        i += 1;
    }
    false
}

/// What an error says of the thread.
pub fn turn_state_conflict(error: &DesktopError) -> (r: Option<TurnStateConflict>)
    ensures
        r == conflict_of(*error),
{
    let message = match error {
        DesktopError::Remote(remote) => text::to_ascii_lowercase(remote.message.as_str()),
        _ => {
            return None;
        },
    };
    let inactive: Vec<&'static str> = vec![
        "no active turn",
        "without an active turn",
        "not being streamed",
        "not currently active",
        "is not active",
        "active turn already ended",
    ];
    assert(inactive@ =~= inactive_phrases());
    if holds_one_of(message.as_str(), &inactive) {
        return Some(TurnStateConflict::Inactive);
    }
    let active: Vec<&'static str> = vec!["active turn", "already active", "already in progress"];
    assert(active@ =~= active_phrases());
    if holds_one_of(message.as_str(), &active) {
        return Some(TurnStateConflict::Active);
    }
    None
}

/// A request to the router or to the owner of a thread.
#[derive(Debug)]
pub enum DesktopRequest {
    /// Introduces this client to the router.
    Initialize,
    /// Asks which client owns a thread.
    DiscoverOwner { session_id: String },
    /// Gives a message to the running turn of a thread.
    Steer {
        owner: String,
        session_id: String,
        message_id: String,
        message: String,
        cwd: String,
        /// When the message was written, in milliseconds of the Unix epoch.
        created_at: u64,
    },
    /// Starts a turn of a thread with a message.
    StartTurn { owner: String, session_id: String, message_id: String, message: String },
    /// Stops a turn, if it is the one that is running.
    Interrupt { owner: String, session_id: String, turn_id: String },
}

/// A message as a turn's input.
pub open spec fn text_input_view(message: Seq<char>) -> Plain {
    Plain::Array(
        seq![
            Plain::Object(map![
                "type"@ => Plain::Text("text"@),
                "text"@ => Plain::Text(message),
                "text_elements"@ => Plain::Array(Seq::empty()),
            ]),
        ],
    )
}

/// A message as a turn's input.
pub fn text_input(message: &str) -> (r: Json)
    ensures
        json::shows(r, text_input_view(message@)),
{
    let mut input: Vec<Json> = Vec::new();
    input.push(
        Json::object().with("type", json::text_value("text")).with(
            "text",
            json::text_value(message),
        ).with("text_elements", Json::array(Vec::new())).build(),
    );
    Json::array(input)
}

/// What lets a window put a message back into its composer.
pub open spec fn restore_view(
    message_id: Seq<char>,
    message: Seq<char>,
    cwd: Seq<char>,
    created_at: u64,
) -> Plain {
    Plain::Object(
        map![
            "id"@ => Plain::Text(message_id),
            "text"@ => Plain::Text(message),
            "cwd"@ => Plain::Text(cwd),
            "createdAt"@ => Plain::Unsigned(created_at),
            "context"@ => Plain::Object(map![
                "prompt"@ => Plain::Text(message),
                "addedFiles"@ => Plain::Array(Seq::empty()),
                "fileAttachments"@ => Plain::Array(Seq::empty()),
                "pastedTextAttachments"@ => Plain::Array(Seq::empty()),
                "generatedPastedTextAttachmentPaths"@ => Plain::Array(Seq::empty()),
                "ideContext"@ => Plain::Null,
                "imageAttachments"@ => Plain::Array(Seq::empty()),
                "commentAttachments"@ => Plain::Array(Seq::empty()),
                "mcpAppModelContextAttachments"@ => Plain::Array(Seq::empty()),
                "appshotContexts"@ => Plain::Array(Seq::empty()),
                "workspaceRoots"@ => Plain::Array(seq![Plain::Text(cwd)]),
            ]),
        ],
    )
}

/// What lets a window put a message back into its composer.
pub fn restore_message(message_id: &str, message: &str, cwd: &str, created_at: u64) -> (r: Json)
    ensures
        json::shows(r, restore_view(message_id@, message@, cwd@, created_at)),
{
    let mut roots: Vec<Json> = Vec::new();
    roots.push(json::text_value(cwd));
    let context = Json::object().with("prompt", json::text_value(message)).with(
        "addedFiles",
        Json::array(Vec::new()),
    ).with("fileAttachments", Json::array(Vec::new())).with(
        "pastedTextAttachments",
        Json::array(Vec::new()),
    ).with("generatedPastedTextAttachmentPaths", Json::array(Vec::new())).with(
        "ideContext",
        Json::Null,
    ).with("imageAttachments", Json::array(Vec::new())).with(
        "commentAttachments",
        Json::array(Vec::new()),
    ).with("mcpAppModelContextAttachments", Json::array(Vec::new())).with(
        "appshotContexts",
        Json::array(Vec::new()),
    ).with("workspaceRoots", Json::array(roots)).build();
    Json::object().with("id", json::text_value(message_id)).with(
        "text",
        json::text_value(message),
    ).with("cwd", json::text_value(cwd)).with("createdAt", json::unsigned_value(created_at)).with(
        "context",
        context,
    ).build()
}

impl DesktopRequest {
    /// The method that is called.
    pub open spec fn method_view(self) -> Seq<char> {
        match self {
            DesktopRequest::Initialize => "initialize"@,
            DesktopRequest::DiscoverOwner { .. } => "thread-owner-discovery"@,
            DesktopRequest::Steer { .. } => "thread-follower-steer-turn"@,
            DesktopRequest::StartTurn { .. } => "thread-follower-start-turn"@,
            DesktopRequest::Interrupt { .. } => "thread-follower-interrupt-turn"@,
        }
    }

    /// The method that is called.
    pub fn method(&self) -> (r: &'static str)
        ensures
            r@ == self.method_view(),
    {
        match self {
            DesktopRequest::Initialize => "initialize",
            DesktopRequest::DiscoverOwner { .. } => "thread-owner-discovery",
            DesktopRequest::Steer { .. } => "thread-follower-steer-turn",
            DesktopRequest::StartTurn { .. } => "thread-follower-start-turn",
            DesktopRequest::Interrupt { .. } => "thread-follower-interrupt-turn",
        }
    }

    /// The version of the method.
    pub open spec fn version_view(self) -> u64 {
        match self {
            DesktopRequest::Initialize => 0,
            DesktopRequest::Interrupt { .. } => 4,
            _ => 1,
        }
    }

    /// The version of the method.
    pub fn version(&self) -> (r: u64)
        ensures
            r == self.version_view(),
    {
        match self {
            DesktopRequest::Initialize => 0,
            DesktopRequest::Interrupt { .. } => 4,
            _ => 1,
        }
    }

    /// The client that the request is for, where it is not the router.
    pub open spec fn target_view(self) -> Option<Seq<char>> {
        match self {
            DesktopRequest::Initialize => None,
            DesktopRequest::DiscoverOwner { .. } => None,
            DesktopRequest::Steer { owner, .. } => Some(owner@),
            DesktopRequest::StartTurn { owner, .. } => Some(owner@),
            DesktopRequest::Interrupt { owner, .. } => Some(owner@),
        }
    }

    /// The client that the request is for, where it is not the router.
    pub fn target(&self) -> (r: Option<&str>)
        ensures
            match r {
                Some(owner) => self.target_view() == Some(owner@),
                None => self.target_view() is None,
            },
    {
        match self {
            DesktopRequest::Initialize => None,
            DesktopRequest::DiscoverOwner { .. } => None,
            DesktopRequest::Steer { owner, .. } => Some(owner.as_str()),
            DesktopRequest::StartTurn { owner, .. } => Some(owner.as_str()),
            DesktopRequest::Interrupt { owner, .. } => Some(owner.as_str()),
        }
    }

    /// What the method is called with.
    pub open spec fn params_view(self) -> Plain {
        match self {
            DesktopRequest::Initialize => Plain::Object(
                map!["clientType"@ => Plain::Text("watchcat"@)],
            ),
            DesktopRequest::DiscoverOwner { session_id } => Plain::Object(
                map![
                    "hostId"@ => Plain::Text(LOCAL_HOST_ID@),
                    "conversationId"@ => Plain::Text(session_id@),
                ],
            ),
            DesktopRequest::Steer { session_id, message_id, message, cwd, created_at, .. } =>
                Plain::Object(
                map![
                    "conversationId"@ => Plain::Text(session_id@),
                    "clientUserMessageId"@ => Plain::Text(message_id@),
                    "input"@ => text_input_view(message@),
                    "serviceTier"@ => Plain::Null,
                    "attachments"@ => Plain::Array(Seq::empty()),
                    "additionalContext"@ => Plain::Object(Map::empty()),
                    "restoreMessage"@ => restore_view(message_id@, message@, cwd@, created_at),
                ],
            ),
            DesktopRequest::StartTurn { session_id, message_id, message, .. } => Plain::Object(
                map![
                    "conversationId"@ => Plain::Text(session_id@),
                    "turnStartParams"@ => Plain::Object(map![
                        "clientUserMessageId"@ => Plain::Text(message_id@),
                        "input"@ => text_input_view(message@),
                        "attachments"@ => Plain::Array(Seq::empty()),
                        "useAppServerPermissionDefault"@ => Plain::Bool(true),
                    ]),
                    "mcpAppModelContextAttachments"@ => Plain::Array(Seq::empty()),
                ],
            ),
            DesktopRequest::Interrupt { session_id, turn_id, .. } => Plain::Object(
                map![
                    "conversationId"@ => Plain::Text(session_id@),
                    "mode"@ => Plain::Text("user-stop"@),
                    "expectedTurnId"@ => Plain::Text(turn_id@),
                ],
            ),
        }
    }

    /// What the method is called with.
    pub fn params(&self) -> (r: Json)
        ensures
            json::shows(r, self.params_view()),
    {
        match self {
            DesktopRequest::Initialize => {
                Json::object().with("clientType", json::text_value("watchcat")).build()
            },
            DesktopRequest::DiscoverOwner { session_id } => {
                Json::object().with("hostId", json::text_value(LOCAL_HOST_ID)).with(
                    "conversationId",
                    json::text_value(session_id.as_str()),
                ).build()
            },
            DesktopRequest::Steer { session_id, message_id, message, cwd, created_at, .. } => {
                Json::object().with("conversationId", json::text_value(session_id.as_str())).with(
                    "clientUserMessageId",
                    json::text_value(message_id.as_str()),
                ).with("input", text_input(message.as_str())).with("serviceTier", Json::Null).with(
                    "attachments",
                    Json::array(Vec::new()),
                ).with("additionalContext", Json::object().build()).with(
                    "restoreMessage",
                    restore_message(
                        message_id.as_str(),
                        message.as_str(),
                        cwd.as_str(),
                        *created_at,
                    ),
                ).build()
            },
            DesktopRequest::StartTurn { session_id, message_id, message, .. } => {
                let start = Json::object().with(
                    "clientUserMessageId",
                    json::text_value(message_id.as_str()),
                ).with("input", text_input(message.as_str())).with(
                    "attachments",
                    Json::array(Vec::new()),
                ).with("useAppServerPermissionDefault", Json::Bool(true)).build();
                Json::object().with("conversationId", json::text_value(session_id.as_str())).with(
                    "turnStartParams",
                    start,
                ).with("mcpAppModelContextAttachments", Json::array(Vec::new())).build()
            },
            DesktopRequest::Interrupt { session_id, turn_id, .. } => {
                Json::object().with("conversationId", json::text_value(session_id.as_str())).with(
                    "mode",
                    json::text_value("user-stop"),
                ).with("expectedTurnId", json::text_value(turn_id.as_str())).build()
            },
        }
    }
}

/// This client at the router.
#[derive(Debug)]
pub struct CodexDesktopIpc {
    pub client_id: String,
    pub timeout_millis: u64,
}

impl CodexDesktopIpc {
    /// A client that the router has not named yet.
    pub fn new() -> (r: Self)
        ensures
            r.client_id@ == INITIAL_CLIENT_ID@,
            r.timeout_millis == REQUEST_TIMEOUT_MILLIS,
    {
        CodexDesktopIpc {
            client_id: INITIAL_CLIENT_ID.to_owned(),
            timeout_millis: REQUEST_TIMEOUT_MILLIS,
        }
    }

    /// A request as it is sent, under an identifier.
    pub open spec fn message_view(self, request_id: Seq<char>, request: DesktopRequest) -> Map<
        Seq<char>,
        Plain,
    > {
        let message = map![
            "type"@ => Plain::Text("request"@),
            "requestId"@ => Plain::Text(request_id),
            "sourceClientId"@ => Plain::Text(self.client_id@),
            "version"@ => Plain::Unsigned(request.version_view()),
            "method"@ => Plain::Text(request.method_view()),
            "params"@ => request.params_view(),
            "timeoutMs"@ => Plain::Unsigned(self.timeout_millis),
        ];
        match request.target_view() {
            Some(owner) => message.insert("targetClientId"@, Plain::Text(owner)),
            None => message,
        }
    }

    /// A request as it is sent, under an identifier.
    pub fn request_message(&self, request_id: &str, request: &DesktopRequest) -> (r: Json)
        ensures
            json::shows(r, Plain::Object(self.message_view(request_id@, *request))),
    {
        let message = Json::object().with("type", json::text_value("request")).with(
            "requestId",
            json::text_value(request_id),
        ).with("sourceClientId", json::text_value(self.client_id.as_str())).with(
            "version",
            json::unsigned_value(request.version()),
        ).with("method", json::text_value(request.method())).with("params", request.params()).with(
            "timeoutMs",
            json::unsigned_value(self.timeout_millis),
        );
        match request.target() {
            Some(owner) => message.with("targetClientId", json::text_value(owner)).build(),
            None => message.build(),
        }
    }

    /// A request as it is sent, under an identifier of its own.
    pub fn new_request(&self, request: &DesktopRequest) -> (r: (String, Json))
        ensures
            r.0@.len() == 36,
            json::shows(r.1, Plain::Object(self.message_view(r.0@, *request))),
    {
        let request_id = ids::random_id();
        let message = self.request_message(request_id.as_str(), request);
        (request_id, message)
    }

    /// Takes the name that the router gave this client.
    pub fn initialize(&mut self, response: &Json) -> (r: Result<(), DesktopError>)
        ensures
            final(self).timeout_millis == old(self).timeout_millis,
            match response.nested("result"@, "clientId"@) {
                Some(Json::Text(id)) => r is Ok && final(self).client_id == id,
                _ => r == Err::<(), DesktopError>(DesktopError::MissingClientId) && *final(self)
                    == *old(self),
            },
    {
        match response.get_nested("result", "clientId") {
            Some(Json::Text(id)) => {
                self.client_id = id.clone();
                Ok(())
            },
            _ => Err(DesktopError::MissingClientId),
        }
    }
}

/// What a message that came in is to a client that waits for a response.
#[derive(Debug)]
pub enum Routed {
    /// The response.
    Response,
    /// A question whether this client can handle something, and the answer to it.
    Discovery(Json),
    /// Nothing that matters to it.
    Unrelated,
}

/// The answer to a question whether this client can handle something: it cannot.
pub open spec fn discovery_view(request_id: Seq<char>) -> Plain {
    Plain::Object(
        map![
            "type"@ => Plain::Text("client-discovery-response"@),
            "requestId"@ => Plain::Text(request_id),
            "response"@ => Plain::Object(map!["canHandle"@ => Plain::Bool(false)]),
        ],
    )
}

/// The message is the response to a request.
pub open spec fn responds_to(message: Json, request_id: Seq<char>) -> bool {
    message.member_text("type"@) == Some("response"@) && message.member_text("requestId"@) == Some(
        request_id,
    )
}

/// What a message that came in is to a client that waits for the response to a request.
pub fn route(message: &Json, request_id: &str) -> (r: Routed)
    ensures
        if responds_to(*message, request_id@) {
            r is Response
        } else if message.member_text("type"@) == Some("client-discovery-request"@)
            && message.member_text("requestId"@) is Some {
            r matches Routed::Discovery(answer) && json::shows(
                answer,
                discovery_view(message.member_text("requestId"@)->0),
            )
        } else {
            r is Unrelated
        },
{
    proof {
        reveal_strlit("response");
        reveal_strlit("client-discovery-request");
        assert("response"@.len() == 8 && "client-discovery-request"@.len() == 24);
    }
    let kind: &str = match message.get_str("type") {
        Some(kind) => kind,
        None => {
            return Routed::Unrelated;
        },
    };
    let id: &str = match message.get_str("requestId") {
        Some(id) => id,
        None => {
            return Routed::Unrelated;
        },
    };
    if text::same(kind, "response") && text::same(id, request_id) {
        return Routed::Response;
    }
    if text::same(kind, "client-discovery-request") {
        let response = Json::object().with("canHandle", Json::Bool(false)).build();
        let answer = Json::object().with(
            "type",
            json::text_value("client-discovery-response"),
        ).with("requestId", json::text_value(id)).with("response", response).build();
        return Routed::Discovery(answer);
    }
    Routed::Unrelated
}

/// `error` is why the response to a request of the method gives no result.
pub open spec fn is_refusal(error: DesktopError, method: Seq<char>, response: Json) -> bool {
    if response.member_text("resultType"@) == Some("error"@) {
        error matches DesktopError::Remote(remote) && remote.method@ == method && remote.message@
            == (match response.member_text("error"@) {
            Some(message) => message,
            None => "unknown-error"@,
        })
    } else {
        error matches DesktopError::InvalidResponse(refused) && refused@ == method
    }
}

/// The response says success.
pub open spec fn succeeded(response: Json) -> bool {
    response.member_text("resultType"@) == Some("success"@)
}

/// Checks what the response to a request of the method says.
pub fn check_response(method: &str, response: &Json) -> (r: Result<(), DesktopError>)
    ensures
        match r {
            Ok(()) => succeeded(*response),
            Err(error) => !succeeded(*response) && is_refusal(error, method@, *response),
        },
{
    proof {
        reveal_strlit("error");
        reveal_strlit("success");
        assert("error"@.len() == 5 && "success"@.len() == 7);
    }
    match response.get_str("resultType") {
        Some(kind) => {
            if text::same(kind, "error") {
                let message = match response.get_str("error") {
                    Some(message) => message.to_owned(),
                    None => "unknown-error".to_owned(),
                };
                return Err(
                    DesktopError::Remote(
                        DesktopIpcRemoteError { method: method.to_owned(), message },
                    ),
                );
            }
            if text::same(kind, "success") {
                return Ok(());
            }
        },
        None => {},
    }
    Err(DesktopError::InvalidResponse(method.to_owned()))
}

/// What stands at a path of the result of the result, else of the result, else of the response.
pub open spec fn result_at(response: Json, path: Seq<&'static str>) -> Option<Json> {
    let inner = response.pointed(seq!["result", "result"] + path);
    let outer = response.pointed(seq!["result"] + path);
    if inner is Some {
        inner
    } else if outer is Some {
        outer
    } else {
        response.pointed(path)
    }
}

/// The text at a path of the result, where it is one.
pub open spec fn result_text(response: Json, path: Seq<&'static str>) -> Option<Seq<char>> {
    match result_at(response, path) {
        Some(value) => value.text(),
        None => None,
    }
}

fn read_result_text(
    response: &Json,
    inner: Vec<&'static str>,
    outer: Vec<&'static str>,
    path: Vec<&'static str>,
) -> (r: Option<String>)
    requires
        inner@ == seq!["result", "result"] + path@,
        outer@ == seq!["result"] + path@,
    ensures
        text::option_view(r) == result_text(*response, path@),
{
    let found: Option<&Json> = match response.pointer(&inner) {
        Some(value) => Some(value),
        None => match response.pointer(&outer) {
            Some(value) => Some(value),
            None => response.pointer(&path),
        },
    };
    match found {
        Some(value) => match value.as_str() {
            Some(s) => Some(s.to_owned()),
            None => None,
        },
        None => None,
    }
}

/// The turn that took a message.
pub open spec fn steered_turn(response: Json) -> Option<Seq<char>> {
    result_text(response, seq!["turnId"])
}

fn read_steered_turn(response: &Json) -> (r: Option<String>)
    ensures
        text::option_view(r) == steered_turn(*response),
{
    let inner: Vec<&'static str> = vec!["result", "result", "turnId"];
    let outer: Vec<&'static str> = vec!["result", "turnId"];
    let path: Vec<&'static str> = vec!["turnId"];
    assert(path@ =~= seq!["turnId"]);
    assert(inner@ =~= seq!["result", "result"] + path@);
    assert(outer@ =~= seq!["result"] + path@);
    read_result_text(response, inner, outer, path)
}

/// The turn that was started.
pub open spec fn started_turn(response: Json) -> Option<Seq<char>> {
    result_text(response, seq!["turn", "id"])
}

fn read_started_turn(response: &Json) -> (r: Option<String>)
    ensures
        text::option_view(r) == started_turn(*response),
{
    let inner: Vec<&'static str> = vec!["result", "result", "turn", "id"];
    let outer: Vec<&'static str> = vec!["result", "turn", "id"];
    let path: Vec<&'static str> = vec!["turn", "id"];
    assert(path@ =~= seq!["turn", "id"]);
    assert(inner@ =~= seq!["result", "result"] + path@);
    assert(outer@ =~= seq!["result"] + path@);
    read_result_text(response, inner, outer, path)
}

/// The turn that was stopped.
pub open spec fn interrupted_turn(response: Json) -> Option<Seq<char>> {
    result_text(response, seq!["interruptedTurnId"])
}

fn read_interrupted_turn(response: &Json) -> (r: Option<String>)
    ensures
        text::option_view(r) == interrupted_turn(*response),
{
    let inner: Vec<&'static str> = vec!["result", "result", "interruptedTurnId"];
    let outer: Vec<&'static str> = vec!["result", "interruptedTurnId"];
    let path: Vec<&'static str> = vec!["interruptedTurnId"];
    assert(path@ =~= seq!["interruptedTurnId"]);
    assert(inner@ =~= seq!["result", "result"] + path@);
    assert(outer@ =~= seq!["result"] + path@);
    read_result_text(response, inner, outer, path)
}

/// The client that owns a thread.
pub open spec fn owner_in(response: Json) -> Option<Seq<char>> {
    match response.nested("result"@, "handledByClientId"@) {
        Some(value) => value.text(),
        None => response.member_text("handledByClientId"@),
    }
}

fn read_owner(response: &Json) -> (r: Option<String>)
    ensures
        text::option_view(r) == owner_in(*response),
{
    let found: Option<&str> = match response.get_nested("result", "handledByClientId") {
        Some(value) => value.as_str(),
        None => response.get_str("handledByClientId"),
    };
    match found {
        Some(owner) => Some(owner.to_owned()),
        None => None,
    }
}

/// What is to be done with a thread through its owner.
#[derive(Debug)]
pub enum DesktopGoal {
    /// A message of the user is delivered, to the running turn or by starting one.
    Message { session_id: String, message: String, cwd: String },
    /// A turn is started, and none that is running is disturbed.
    Recovery { session_id: String, message: String },
    /// A turn is stopped.
    Interrupt { session_id: String, turn_id: String },
}

impl DesktopGoal {
    /// The thread.
    pub open spec fn session_view(self) -> Seq<char> {
        match self {
            DesktopGoal::Message { session_id, .. } => session_id@,
            DesktopGoal::Recovery { session_id, .. } => session_id@,
            DesktopGoal::Interrupt { session_id, .. } => session_id@,
        }
    }
}

/// The request whose response is waited for.
#[derive(Clone, Copy, Debug, PartialEq, Eq, Structural)]
pub enum Stage {
    Discovering,
    /// The message was given to the running turn, once more after a turn could not be started.
    Steering { again: bool },
    Starting,
    Interrupting,
}

/// A goal on its way.
#[derive(Debug)]
pub struct DesktopCall {
    pub goal: DesktopGoal,
    pub stage: Stage,
    pub owner: String,
    /// Under this identifier the message is sent, however often.
    pub message_id: String,
}

/// What comes next.
#[derive(Debug)]
pub enum DesktopStep {
    /// A request is sent.
    Send(DesktopRequest),
    /// No client owns the thread.
    NoOwner,
    /// The message was taken.
    Delivered(DesktopMessageReceipt),
    /// The turn was stopped.
    Interrupted(String),
    Failed(DesktopError),
}

/// No client owns the thread.
pub open spec fn says_no_owner(error: DesktopError) -> bool {
    error matches DesktopError::Remote(remote) && remote.message@ == "no-client-found"@
}

impl DesktopCall {
    /// `request` gives the call's message to the running turn.
    pub open spec fn steers(self, request: DesktopRequest, now: u64) -> bool {
        &&& self.goal matches DesktopGoal::Message { session_id, message, cwd }
        &&& request matches DesktopRequest::Steer {
            owner,
            session_id: thread,
            message_id,
            message: sent,
            cwd: directory,
            created_at,
        }
        &&& owner == self.owner
        &&& thread == session_id
        &&& message_id == self.message_id
        &&& sent == message
        &&& directory == cwd
        &&& created_at == now
    }

    /// `request` starts a turn with the call's message.
    pub open spec fn starts(self, request: DesktopRequest) -> bool {
        &&& request matches DesktopRequest::StartTurn { owner, session_id, message_id, message }
        &&& owner == self.owner
        &&& message_id == self.message_id
        &&& match self.goal {
            DesktopGoal::Message { session_id: thread, message: text, .. } => session_id == thread
                && message == text,
            DesktopGoal::Recovery { session_id: thread, message: text } => session_id == thread
                && message == text,
            DesktopGoal::Interrupt { .. } => false,
        }
    }

    /// `request` stops the call's turn.
    pub open spec fn interrupts(self, request: DesktopRequest) -> bool {
        &&& self.goal matches DesktopGoal::Interrupt { session_id, turn_id }
        &&& request matches DesktopRequest::Interrupt {
            owner,
            session_id: thread,
            turn_id: turn,
        }
        &&& owner == self.owner
        &&& thread == session_id
        &&& turn == turn_id
    }

    /// The stage fits the goal.
    pub open spec fn well_formed(self) -> bool {
        match self.goal {
            DesktopGoal::Message { .. } => !(self.stage is Interrupting),
            DesktopGoal::Recovery { .. } => self.stage is Discovering || self.stage is Starting,
            DesktopGoal::Interrupt { .. } => self.stage is Discovering || self.stage
                is Interrupting,
        }
    }

    /// What follows the discovery of an owner: a message is first given to the running turn, a
    /// recovery only ever starts one.
    pub open spec fn after_discovery(self, step: DesktopStep, now: u64) -> bool {
        match self.goal {
            DesktopGoal::Message { .. } => self.stage == (Stage::Steering { again: false })
                && (step matches DesktopStep::Send(request) && self.steers(request, now)),
            DesktopGoal::Recovery { .. } => self.stage == Stage::Starting
                && (step matches DesktopStep::Send(request) && self.starts(request)),
            DesktopGoal::Interrupt { .. } => self.stage == Stage::Interrupting
                && (step matches DesktopStep::Send(request) && self.interrupts(request)),
        }
    }

    /// `after` and `step` are what follows an answer.
    pub open spec fn follows(
        self,
        answer: Result<Json, DesktopError>,
        now: u64,
        after: DesktopCall,
        step: DesktopStep,
    ) -> bool {
        &&& after.goal == self.goal
        &&& after.message_id == self.message_id
        &&& !(self.stage is Discovering) ==> after.owner == self.owner
        &&& match (self.stage, answer) {
            (Stage::Discovering, Ok(response)) => match owner_in(response) {
                Some(owner) => after.owner@ == owner && after.after_discovery(step, now),
                None => step == DesktopStep::Failed(DesktopError::MissingOwnerId),
            },
            (Stage::Discovering, Err(error)) => if says_no_owner(error) {
                step is NoOwner
            } else {
                step == DesktopStep::Failed(error)
            },
            (Stage::Steering { .. }, Ok(response)) => match steered_turn(response) {
                Some(turn) => {
                    &&& step matches DesktopStep::Delivered(receipt)
                    &&& receipt.turn_id@ == turn
                    &&& receipt.delivery == DesktopMessageDelivery::Steered
                },
                None => step == DesktopStep::Failed(DesktopError::MissingSteeredTurn),
            },
            (Stage::Steering { again }, Err(error)) => if !again && conflict_of(error) == Some(
                TurnStateConflict::Inactive,
            ) {
                after.stage == Stage::Starting && (step matches DesktopStep::Send(request)
                    && after.starts(request))
            } else {
                step == DesktopStep::Failed(error)
            },
            (Stage::Starting, Ok(response)) => match started_turn(response) {
                Some(turn) => {
                    &&& step matches DesktopStep::Delivered(receipt)
                    &&& receipt.turn_id@ == turn
                    &&& receipt.delivery == DesktopMessageDelivery::Started
                },
                None => step == DesktopStep::Failed(DesktopError::MissingStartedTurn),
            },
            (Stage::Starting, Err(error)) => if self.goal is Message && conflict_of(error) == Some(
                TurnStateConflict::Active,
            ) {
                after.stage == (Stage::Steering { again: true }) && (step
                    matches DesktopStep::Send(request) && after.steers(request, now))
            } else {
                step == DesktopStep::Failed(error)
            },
            (Stage::Interrupting, Ok(response)) => match interrupted_turn(response) {
                Some(turn) => step matches DesktopStep::Interrupted(stopped) && stopped@ == turn,
                None => step == DesktopStep::Failed(DesktopError::MissingInterruptedTurn),
            },
            (Stage::Interrupting, Err(error)) => step == DesktopStep::Failed(error),
        }
    }

    /// How many requests may follow at most.
    pub open spec fn requests_left(self) -> nat {
        match self.stage {
            Stage::Discovering => 3,
            Stage::Steering { again: false } => 2,
            Stage::Starting => if self.goal is Message {
                1
            } else {
                0
            },
            Stage::Steering { again: true } => 0,
            Stage::Interrupting => 0,
        }
    }

    /// Starts on a goal under a message identifier: the owner is asked for.
    pub fn begin_as(goal: DesktopGoal, message_id: String) -> (r: (Self, DesktopRequest))
        ensures
            r.0.goal == goal,
            r.0.message_id == message_id,
            r.0.stage == Stage::Discovering,
            r.0.well_formed(),
            r.1 matches DesktopRequest::DiscoverOwner { session_id } && session_id@
                == goal.session_view(),
    {
        let session_id: String = match &goal {
            DesktopGoal::Message { session_id, .. } => session_id.clone(),
            DesktopGoal::Recovery { session_id, .. } => session_id.clone(),
            DesktopGoal::Interrupt { session_id, .. } => session_id.clone(),
        };
        (
            DesktopCall { goal, stage: Stage::Discovering, owner: String::new(), message_id },
            DesktopRequest::DiscoverOwner { session_id },
        )
    }

    /// Starts on a goal: the owner is asked for. A message gets a random identifier.
    pub fn begin(goal: DesktopGoal) -> (r: (Self, DesktopRequest))
        ensures
            r.0.goal == goal,
            r.0.message_id@.len() == 36,
            r.0.stage == Stage::Discovering,
            r.0.well_formed(),
            r.1 matches DesktopRequest::DiscoverOwner { session_id } && session_id@
                == goal.session_view(),
    {
        Self::begin_as(goal, ids::random_id())
    }

    fn steer(&self, now: u64) -> (r: DesktopRequest)
        requires
            self.goal is Message,
        ensures
            self.steers(r, now),
    {
        match &self.goal {
            DesktopGoal::Message { session_id, message, cwd } => DesktopRequest::Steer {
                owner: self.owner.clone(),
                session_id: session_id.clone(),
                message_id: self.message_id.clone(),
                message: message.clone(),
                cwd: cwd.clone(),
                created_at: now,
            },
            DesktopGoal::Recovery { session_id, .. } => DesktopRequest::DiscoverOwner {
                session_id: session_id.clone(),
            },
            DesktopGoal::Interrupt { session_id, .. } => DesktopRequest::DiscoverOwner {
                session_id: session_id.clone(),
            },
        }
    }

    fn start(&self) -> (r: DesktopRequest)
        requires
            !(self.goal is Interrupt),
        ensures
            self.starts(r),
    {
        match &self.goal {
            DesktopGoal::Message { session_id, message, .. } => DesktopRequest::StartTurn {
                owner: self.owner.clone(),
                session_id: session_id.clone(),
                message_id: self.message_id.clone(),
                message: message.clone(),
            },
            DesktopGoal::Recovery { session_id, message } => DesktopRequest::StartTurn {
                owner: self.owner.clone(),
                session_id: session_id.clone(),
                message_id: self.message_id.clone(),
                message: message.clone(),
            },
            DesktopGoal::Interrupt { session_id, .. } => DesktopRequest::DiscoverOwner {
                session_id: session_id.clone(),
            },
        }
    }

    fn own(&mut self, response: &Json, now: u64) -> (r: DesktopStep)
        requires
            old(self).stage is Discovering,
        ensures
            old(self).follows(Ok(*response), now, *final(self), r),
            final(self).well_formed(),
    {
        match read_owner(response) {
            Some(owner) => {
                self.owner = owner;
            },
            None => {
                return DesktopStep::Failed(DesktopError::MissingOwnerId);
            },
        }
        let stop: Option<DesktopRequest> = match &self.goal {
            DesktopGoal::Interrupt { session_id, turn_id } => Some(
                DesktopRequest::Interrupt {
                    owner: self.owner.clone(),
                    session_id: session_id.clone(),
                    turn_id: turn_id.clone(),
                },
            ),
            _ => None,
        };
        match stop {
            Some(request) => {
                self.stage = Stage::Interrupting;
                return DesktopStep::Send(request);
            },
            None => {},
        }
        let message = match &self.goal {
            DesktopGoal::Message { .. } => true,
            _ => false,
        };
        if message {
            self.stage = Stage::Steering { again: false };
            let request = self.steer(now);
            DesktopStep::Send(request)
        } else {
            self.stage = Stage::Starting;
            let request = self.start();
            DesktopStep::Send(request)
        }
    }

    fn refuse(&mut self, error: DesktopError, now: u64) -> (r: DesktopStep)
        requires
            old(self).well_formed(),
        ensures
            old(self).follows(Err(error), now, *final(self), r),
            final(self).well_formed(),
    {
        match self.stage {
            Stage::Discovering => {
                let unowned = match &error {
                    DesktopError::Remote(remote) => text::same(
                        remote.message.as_str(),
                        "no-client-found",
                    ),
                    _ => false,
                };
                if unowned {
                    return DesktopStep::NoOwner;
                }
            },
            Stage::Steering { again } => {
                if !again {
                    match turn_state_conflict(&error) {
                        Some(TurnStateConflict::Inactive) => {
                            self.stage = Stage::Starting;
                            let request = self.start();
                            return DesktopStep::Send(request);
                        },
                        _ => {},
                    }
                }
            },
            Stage::Starting => {
                let message = match &self.goal {
                    DesktopGoal::Message { .. } => true,
                    _ => false,
                };
                if message {
                    match turn_state_conflict(&error) {
                        Some(TurnStateConflict::Active) => {
                            self.stage = Stage::Steering { again: true };
                            let request = self.steer(now);
                            return DesktopStep::Send(request);
                        },
                        _ => {},
                    }
                }
            },
            Stage::Interrupting => {},
        }
        DesktopStep::Failed(error)
    }

    /// Takes the answer to the request that was sent last. `now` is the time in milliseconds of the
    /// Unix epoch.
    pub fn answer(&mut self, answer: Result<Json, DesktopError>, now: u64) -> (r: DesktopStep)
        requires
            old(self).well_formed(),
        ensures
            old(self).follows(answer, now, *final(self), r),
            final(self).well_formed(),
    {
        let response = match answer {
            Err(error) => {
                return self.refuse(error, now);
            },
            Ok(response) => response,
        };
        match self.stage {
            Stage::Discovering => self.own(&response, now),
            Stage::Steering { .. } => match read_steered_turn(&response) {
                Some(turn_id) => DesktopStep::Delivered(
                    DesktopMessageReceipt { turn_id, delivery: DesktopMessageDelivery::Steered },
                ),
                None => DesktopStep::Failed(DesktopError::MissingSteeredTurn),
            },
            Stage::Starting => match read_started_turn(&response) {
                Some(turn_id) => DesktopStep::Delivered(
                    DesktopMessageReceipt { turn_id, delivery: DesktopMessageDelivery::Started },
                ),
                None => DesktopStep::Failed(DesktopError::MissingStartedTurn),
            },
            Stage::Interrupting => match read_interrupted_turn(&response) {
                Some(turn_id) => DesktopStep::Interrupted(turn_id),
                None => DesktopStep::Failed(DesktopError::MissingInterruptedTurn),
            },
        }
    }
}

/// A recovery never gives its message to a running turn: whatever is answered, the only request
/// that it sends to the owner starts a turn.
pub proof fn recovery_never_steers(
    before: DesktopCall,
    answer: Result<Json, DesktopError>,
    now: u64,
    after: DesktopCall,
    step: DesktopStep,
)
    requires
        before.well_formed(),
        before.goal is Recovery,
        before.follows(answer, now, after, step),
    ensures
        !(step matches DesktopStep::Send(DesktopRequest::Steer { .. })),
        !(step matches DesktopStep::Delivered(receipt) && receipt.delivery
            == DesktopMessageDelivery::Steered),
        step is Send ==> before.stage is Discovering && after.stage is Starting,
{
}

/// However often a message is sent, it is sent under one identifier, so that what was taken once
/// is not taken twice.
pub proof fn messages_keep_their_identifier(
    before: DesktopCall,
    answer: Result<Json, DesktopError>,
    now: u64,
    after: DesktopCall,
    step: DesktopStep,
)
    requires
        before.well_formed(),
        before.follows(answer, now, after, step),
    ensures
        after.message_id == before.message_id,
        match step {
            DesktopStep::Send(DesktopRequest::Steer { message_id, .. }) => message_id
                == before.message_id,
            DesktopStep::Send(DesktopRequest::StartTurn { message_id, .. }) => message_id
                == before.message_id,
            _ => true,
        },
{
}

/// A call ends: each request leaves fewer that may follow.
pub proof fn calls_are_bounded(
    before: DesktopCall,
    answer: Result<Json, DesktopError>,
    now: u64,
    after: DesktopCall,
    step: DesktopStep,
)
    requires
        before.well_formed(),
        before.follows(answer, now, after, step),
        step is Send,
    ensures
        after.requests_left() < before.requests_left() <= 3,
{
}

/// The owner may have carried a request out although it failed: it reached the owner, and what came
/// back was lost, or does not say which turn it was.
pub open spec fn may_have_effect(request: DesktopRequest, error: DesktopError) -> bool {
    &&& request is Steer || request is StartTurn || request is Interrupt
    &&& error is TimedOut || error is Stream || error is MissingSteeredTurn
        || error is MissingStartedTurn || error is MissingInterruptedTurn
}

/// What is made of the error that a request ended with.
pub fn delivery_error(request: &DesktopRequest, error: &DesktopError) -> (r: TransportError)
    ensures
        if may_have_effect(*request, *error) {
            r matches TransportError::AcknowledgementUnknown(unknown) && unknown.0@
                == error.message_view()
        } else {
            r matches TransportError::Failed(message) && message@ == error.message_view()
        },
{
    let effective = match request {
        DesktopRequest::Steer { .. } => true,
        DesktopRequest::StartTurn { .. } => true,
        DesktopRequest::Interrupt { .. } => true,
        _ => false,
    };
    let lost = match error {
        DesktopError::TimedOut(_) => true,
        DesktopError::Stream(_) => true,
        DesktopError::MissingSteeredTurn => true,
        DesktopError::MissingStartedTurn => true,
        DesktopError::MissingInterruptedTurn => true,
        _ => false,
    };
    if effective && lost {
        TransportError::AcknowledgementUnknown(AcknowledgementUnknown(error.message()))
    } else {
        TransportError::Failed(error.message())
    }
}

/// An error that says nothing of the thread's turns is not followed by another request.
pub proof fn unrelated_errors_are_final(
    before: DesktopCall,
    error: DesktopError,
    now: u64,
    after: DesktopCall,
    step: DesktopStep,
)
    requires
        before.well_formed(),
        conflict_of(error) is None,
        before.follows(Err(error), now, after, step),
    ensures
        step == DesktopStep::Failed(error) || (step is NoOwner && before.stage is Discovering
            && says_no_owner(error)),
{
}

/// A length in four bytes, the least significant first.
pub open spec fn length_bytes(n: nat) -> Seq<u8> {
    seq![
        (n % 256) as u8,
        (n / 256 % 256) as u8,
        (n / 65_536 % 256) as u8,
        (n / 16_777_216) as u8,
    ]
}

/// The length that four bytes stand for.
pub open spec fn bytes_length(bytes: Seq<u8>) -> nat {
    (bytes[0] + bytes[1] * 256 + bytes[2] * 65_536 + bytes[3] * 16_777_216) as nat
}

/// A payload can be of this length.
pub open spec fn valid_length(n: nat) -> bool {
    0 < n <= MAX_FRAME_BYTES
}

/// A frame: the length of the payload, then the payload.
pub open spec fn framed(payload: Seq<u8>) -> Seq<u8> {
    length_bytes(payload.len()) + payload
}

/// The payload of a frame cannot be of this length.
#[derive(Clone, Copy, Debug, PartialEq, Eq, Structural)]
pub struct InvalidFrameSize(pub usize);

impl InvalidFrameSize {
    /// What is said of it.
    pub fn message(self) -> (r: String)
        ensures
            r@ == "Codex Desktop IPC frame has invalid size: "@ + text::decimal_view(self.0 as nat),
    {
        "Codex Desktop IPC frame has invalid size: ".to_owned().concat(
            text::decimal(self.0 as u64).as_str(),
        )
    }
}

/// Writes a message as a frame.
pub fn write_frame(message: &Json) -> (r: Result<Vec<u8>, InvalidFrameSize>)
    ensures
        ({
            let payload = json::json_bytes(*message);
            match r {
                Ok(frame) => valid_length(payload.len()) && frame@ == framed(payload),
                Err(error) => !valid_length(payload.len()) && error.0 == payload.len(),
            }
        }),
{
    let payload = json::write_bytes(message);
    let length: usize = payload.len();
    if length == 0 || length > MAX_FRAME_BYTES {
        return Err(InvalidFrameSize(length));
    }
    let mut frame: Vec<u8> = Vec::new();
    frame.push((length % 256) as u8);
    frame.push((length / 256 % 256) as u8);
    frame.push((length / 65_536 % 256) as u8);
    frame.push((length / 16_777_216) as u8);
    assert(frame@ =~= length_bytes(payload@.len()));
    let mut i: usize = 0;
    while i < payload.len()
        invariant
            i <= payload@.len(),
            length == payload@.len(),
            frame@ == length_bytes(payload@.len()) + payload@.take(i as int),
        decreases payload@.len() - i,
    {
        frame.push(payload[i]);
        i += 1;
        assert(frame@ =~= length_bytes(payload@.len()) + payload@.take(i as int));
    }
    assert(payload@.take(i as int) =~= payload@);
    Ok(frame)
}

/// Reads the length of a payload.
pub fn read_frame_length(bytes: [u8; 4]) -> (r: Result<usize, InvalidFrameSize>)
    ensures
        match r {
            Ok(length) => valid_length(bytes_length(bytes@)) && length == bytes_length(bytes@),
            Err(error) => !valid_length(bytes_length(bytes@)) && error.0 == bytes_length(bytes@),
        },
{
    let length: u64 = bytes[0] as u64 + bytes[1] as u64 * 256 + bytes[2] as u64 * 65_536
        + bytes[3] as u64 * 16_777_216;
    let length: usize = length as usize;
    if length == 0 || length > MAX_FRAME_BYTES {
        return Err(InvalidFrameSize(length));
    }
    Ok(length)
}

/// Reads the payload of a frame, if it is a message.
pub fn read_payload(payload: &Vec<u8>) -> (r: Option<Json>)
    ensures
        r == json::json_in(payload@),
{
    json::parse_bytes(payload)
}

/// A frame that was written is read back: its first four bytes give the length of its payload, and
/// the payload follows them.
pub proof fn frames_round_trip(payload: Seq<u8>, rest: Seq<u8>)
    requires
        valid_length(payload.len()),
    ensures
        ({
            let stream = framed(payload) + rest;
            &&& bytes_length(stream.take(4)) == payload.len()
            &&& stream.subrange(4, 4 + payload.len() as int) == payload
            &&& stream.skip(4 + payload.len() as int) == rest
        }),
{
    let stream = framed(payload) + rest;
    assert(stream.take(4) =~= length_bytes(payload.len()));
    assert(stream.subrange(4, 4 + payload.len() as int) =~= payload);
    assert(stream.skip(4 + payload.len() as int) =~= rest);
}

/// What is known of a path before it is connected to.
#[derive(Clone, Copy, Debug, PartialEq, Eq, Structural)]
pub struct EndpointFacts {
    pub directory_is_directory: bool,
    pub directory_owner: u32,
    pub directory_mode: u32,
    pub is_socket: bool,
    pub owner: u32,
}

/// Why an endpoint is not connected to.
#[derive(Clone, Copy, Debug, PartialEq, Eq, Structural)]
pub enum EndpointRefusal {
    /// Others could replace what is in the directory.
    InsecureDirectory,
    /// It is no socket of the user.
    UntrustedEndpoint,
}

/// The mode lets the group or others write: the bit of the value two, or that of sixteen.
pub open spec fn others_write(mode: u32) -> bool {
    mode / 2 % 2 == 1 || mode / 16 % 2 == 1
}

/// Whether the endpoint belongs to the user alone.
pub fn check_endpoint(facts: EndpointFacts, user: u32) -> (r: Result<(), EndpointRefusal>)
    ensures
        ({
            let secure = facts.directory_is_directory && facts.directory_owner == user
                && !others_write(facts.directory_mode);
            match r {
                Ok(()) => secure && facts.is_socket && facts.owner == user,
                Err(EndpointRefusal::InsecureDirectory) => !secure,
                Err(EndpointRefusal::UntrustedEndpoint) => secure && !(facts.is_socket
                    && facts.owner == user),
            }
        }),
{
    if !facts.directory_is_directory || facts.directory_owner != user || facts.directory_mode / 2
        % 2 == 1 || facts.directory_mode / 16 % 2 == 1 {
        return Err(EndpointRefusal::InsecureDirectory);
    }
    if !facts.is_socket || facts.owner != user {
        return Err(EndpointRefusal::UntrustedEndpoint);
    }
    Ok(())
}

/// The endpoint under the directory of Codex, where that is absolute.
pub fn endpoint_path(codex_home: &str) -> (r: Option<String>)
    ensures
        match r {
            Some(path) => text::occurs_at(codex_home@, "/"@, 0) && path@ == config::joined(
                config::joined(codex_home@, "ipc"@),
                "ipc.sock"@,
            ),
            None => !text::occurs_at(codex_home@, "/"@, 0),
        },
{
    if !text::starts_with(codex_home, "/") {
        return None;
    }
    let directory = config::join(codex_home, "ipc");
    Some(config::join(directory.as_str(), "ipc.sock"))
}

} // verus!
