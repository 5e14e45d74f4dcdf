//! The requests that are sent to Codex's app server.

use vstd::prelude::*;
use vstd::string::*;

use crate::json;
use crate::json::{Json, Plain};

verus! {

/// The kinds of source whose threads are listed.
pub open spec fn source_kind_names() -> Seq<&'static str> {
    seq![
        "cli",
        "vscode",
        "exec",
        "appServer",
        "subAgent",
        "subAgentReview",
        "subAgentCompact",
        "subAgentThreadSpawn",
        "subAgentOther",
        "unknown",
    ]
}

/// A request to Codex's app server.
#[derive(Debug)]
pub enum CodexRequest {
    /// Introduces this client, of the version.
    Initialize(String),
    /// Lists threads, newest first, from a cursor on.
    ListThreads { cursor: Option<String>, limit: usize },
    /// Lists the newest turn of a thread.
    ListTurns(String),
    /// Reads a thread with its turns.
    ReadThread(String),
    /// Loads a thread.
    ResumeThread(String),
    /// Starts a turn of a thread with a prompt.
    StartTurn { session_id: String, prompt: String },
    /// Watches a path.
    Watch { watch_id: String, path: String },
    /// Ends a watch.
    Unwatch(String),
}

impl CodexRequest {
    /// The method that is called.
    pub open spec fn method_view(self) -> Seq<char> {
        match self {
            CodexRequest::Initialize(_) => "initialize"@,
            CodexRequest::ListThreads { .. } => "thread/list"@,
            CodexRequest::ListTurns(_) => "thread/turns/list"@,
            CodexRequest::ReadThread(_) => "thread/read"@,
            CodexRequest::ResumeThread(_) => "thread/resume"@,
            CodexRequest::StartTurn { .. } => "turn/start"@,
            CodexRequest::Watch { .. } => "fs/watch"@,
            CodexRequest::Unwatch(_) => "fs/unwatch"@,
        }
    }

    /// The method that is called.
    pub fn method(&self) -> (r: &'static str)
        ensures
            r@ == self.method_view(),
    {
        match self {
            CodexRequest::Initialize(_) => "initialize",
            CodexRequest::ListThreads { .. } => "thread/list",
            CodexRequest::ListTurns(_) => "thread/turns/list",
            CodexRequest::ReadThread(_) => "thread/read",
            CodexRequest::ResumeThread(_) => "thread/resume",
            CodexRequest::StartTurn { .. } => "turn/start",
            CodexRequest::Watch { .. } => "fs/watch",
            CodexRequest::Unwatch(_) => "fs/unwatch",
        }
    }

    /// What the method is called with.
    pub open spec fn params_view(self) -> Plain {
        match self {
            CodexRequest::Initialize(version) => Plain::Object(
                map![
                    "clientInfo"@ => Plain::Object(map![
                        "name"@ => Plain::Text("watchcat"@),
                        "title"@ => Plain::Text("Watchcat"@),
                        "version"@ => Plain::Text(version@),
                    ]),
                    "capabilities"@ => Plain::Object(map![
                        "experimentalApi"@ => Plain::Bool(true),
                    ]),
                ],
            ),
            CodexRequest::ListThreads { cursor, limit } => Plain::Object(
                map![
                    "cursor"@ => match cursor {
                        Some(cursor) => Plain::Text(cursor@),
                        None => Plain::Null,
                    },
                    "limit"@ => Plain::Unsigned(limit as u64),
                    "sortKey"@ => Plain::Text("updated_at"@),
                    "sortDirection"@ => Plain::Text("desc"@),
                    "sourceKinds"@ => Plain::Array(
                        source_kind_names().map_values(|kind: &'static str| Plain::Text(kind@)),
                    ),
                ],
            ),
            CodexRequest::ListTurns(session_id) => Plain::Object(
                map![
                    "threadId"@ => Plain::Text(session_id@),
                    "limit"@ => Plain::Unsigned(1),
                    "sortDirection"@ => Plain::Text("desc"@),
                    "itemsView"@ => Plain::Text("summary"@),
                ],
            ),
            CodexRequest::ReadThread(session_id) => Plain::Object(
                map![
                    "threadId"@ => Plain::Text(session_id@),
                    "includeTurns"@ => Plain::Bool(true),
                ],
            ),
            CodexRequest::ResumeThread(session_id) => Plain::Object(
                map!["threadId"@ => Plain::Text(session_id@)],
            ),
            CodexRequest::StartTurn { session_id, prompt } => Plain::Object(
                map![
                    "threadId"@ => Plain::Text(session_id@),
                    "input"@ => Plain::Array(seq![
                        Plain::Object(map![
                            "type"@ => Plain::Text("text"@),
                            "text"@ => Plain::Text(prompt@),
                        ]),
                    ]),
                ],
            ),
            CodexRequest::Watch { watch_id, path } => Plain::Object(
                map![
                    "watchId"@ => Plain::Text(watch_id@),
                    "path"@ => Plain::Text(path@),
                ],
            ),
            CodexRequest::Unwatch(watch_id) => Plain::Object(
                map!["watchId"@ => Plain::Text(watch_id@)],
            ),
        }
    }

    /// What the method is called with.
    pub fn params(&self) -> (r: Json)
        ensures
            json::shows(r, self.params_view()),
    {
        match self {
            CodexRequest::Initialize(version) => {
                let client = Json::object().with("name", json::text_value("watchcat")).with(
                    "title",
                    json::text_value("Watchcat"),
                ).with("version", json::text_value(version.as_str())).build();
                let capabilities = Json::object().with("experimentalApi", Json::Bool(true)).build();
                Json::object().with("clientInfo", client).with("capabilities", capabilities).build()
            },
            CodexRequest::ListThreads { cursor, limit } => {
                Json::object().with("cursor", json::optional_text(cursor)).with(
                    "limit",
                    json::unsigned_value(*limit as u64),
                ).with("sortKey", json::text_value("updated_at")).with(
                    "sortDirection",
                    json::text_value("desc"),
                ).with("sourceKinds", source_kinds()).build()
            },
            CodexRequest::ListTurns(session_id) => {
                Json::object().with("threadId", json::text_value(session_id.as_str())).with(
                    "limit",
                    json::unsigned_value(1),
                ).with("sortDirection", json::text_value("desc")).with(
                    "itemsView",
                    json::text_value("summary"),
                ).build()
            },
            CodexRequest::ReadThread(session_id) => {
                Json::object().with("threadId", json::text_value(session_id.as_str())).with(
                    "includeTurns",
                    Json::Bool(true),
                ).build()
            },
            CodexRequest::ResumeThread(session_id) => {
                Json::object().with("threadId", json::text_value(session_id.as_str())).build()
            },
            CodexRequest::StartTurn { session_id, prompt } => {
                let mut input: Vec<Json> = Vec::new();
                input.push(
                    Json::object().with("type", json::text_value("text")).with(
                        "text",
                        json::text_value(prompt.as_str()),
                    ).build(),
                );
                Json::object().with("threadId", json::text_value(session_id.as_str())).with(
                    "input",
                    Json::array(input),
                ).build()
            },
            CodexRequest::Watch { watch_id, path } => {
                Json::object().with("watchId", json::text_value(watch_id.as_str())).with(
                    "path",
                    json::text_value(path.as_str()),
                ).build()
            },
            CodexRequest::Unwatch(watch_id) => {
                Json::object().with("watchId", json::text_value(watch_id.as_str())).build()
            },
        }
    }
}

fn source_kinds() -> (r: Json)
    ensures
        json::shows(
            r,
            Plain::Array(
                source_kind_names().map_values(|kind: &'static str| Plain::Text(kind@)),
            ),
        ),
{
    let names: Vec<&'static str> = vec![
        "cli",
        "vscode",
        "exec",
        "appServer",
        "subAgent",
        "subAgentReview",
        "subAgentCompact",
        "subAgentThreadSpawn",
        "subAgentOther",
        "unknown",
    ];
    assert(names@ =~= source_kind_names());
    let mut kinds: Vec<Json> = Vec::new();
    let mut i: usize = 0;
    while i < names.len()
        invariant
            i <= names@.len(),
            kinds@.len() == i,
            forall|k: int| 0 <= k < i ==> json::shows(#[trigger] kinds@[k], Plain::Text(names@[k]@)),
        decreases names@.len() - i,
    {
        kinds.push(json::text_value(names[i]));
        i += 1;
    }
    let ghost items = source_kind_names().map_values(|kind: &'static str| Plain::Text(kind@));
    assert forall|k: int| 0 <= k < items.len() implies json::shows(kinds@[k], #[trigger] items[k]) by {
        assert(json::shows(kinds@[k], Plain::Text(names@[k]@)));
    }
    Json::array(kinds)
}

} // verus!
