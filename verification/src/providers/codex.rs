//! What the Codex provider's answers mean.

use vstd::prelude::*;
use vstd::string::*;

use crate::json::{Json, Number};
use crate::models::{Failure, Session, SessionState};
use crate::providers::requests::CodexRequest;
use crate::text;
use crate::textmap::TextMap;
use crate::time;
use crate::time::Timestamp;
use crate::transport::{AcknowledgementUnknown, TransportError};

verus! {

/// The kinds of error that Codex names.
#[derive(Clone, Copy, Debug, PartialEq, Eq, Structural)]
pub enum CodexCode {
    HttpConnectionFailed,
    ResponseStreamConnectionFailed,
    ResponseStreamDisconnected,
    ResponseTooManyFailedAttempts,
    Other,
}

impl CodexCode {
    /// The name of the kind.
    pub open spec fn name_view(self) -> Seq<char> {
        match self {
            CodexCode::HttpConnectionFailed => "HttpConnectionFailed"@,
            CodexCode::ResponseStreamConnectionFailed => "ResponseStreamConnectionFailed"@,
            CodexCode::ResponseStreamDisconnected => "ResponseStreamDisconnected"@,
            CodexCode::ResponseTooManyFailedAttempts => "ResponseTooManyFailedAttempts"@,
            CodexCode::Other => "Other"@,
        }
    }

    /// The name of the kind.
    pub fn name(self) -> (r: &'static str)
        ensures
            r@ == self.name_view(),
    {
        match self {
            CodexCode::HttpConnectionFailed => "HttpConnectionFailed",
            CodexCode::ResponseStreamConnectionFailed => "ResponseStreamConnectionFailed",
            CodexCode::ResponseStreamDisconnected => "ResponseStreamDisconnected",
            CodexCode::ResponseTooManyFailedAttempts => "ResponseTooManyFailedAttempts",
            CodexCode::Other => "Other",
        }
    }
}

/// The kind that a name stands for, with a small or a capital first letter.
pub open spec fn canonical(name: Seq<char>) -> CodexCode {
    if name == "httpConnectionFailed"@ || name == "HttpConnectionFailed"@ {
        CodexCode::HttpConnectionFailed
    } else if name == "responseStreamConnectionFailed"@ || name
        == "ResponseStreamConnectionFailed"@ {
        CodexCode::ResponseStreamConnectionFailed
    } else if name == "responseStreamDisconnected"@ || name == "ResponseStreamDisconnected"@ {
        CodexCode::ResponseStreamDisconnected
    } else if name == "responseTooManyFailedAttempts"@ || name
        == "ResponseTooManyFailedAttempts"@ {
        CodexCode::ResponseTooManyFailedAttempts
    } else {
        CodexCode::Other
    }
}

/// The kind that a name stands for.
pub fn canonical_error_code(name: &str) -> (r: CodexCode)
    ensures
        r == canonical(name@),
{
    if text::same(name, "httpConnectionFailed") || text::same(name, "HttpConnectionFailed") {
        CodexCode::HttpConnectionFailed
    } else if text::same(name, "responseStreamConnectionFailed") || text::same(
        name,
        "ResponseStreamConnectionFailed",
    ) {
        CodexCode::ResponseStreamConnectionFailed
    } else if text::same(name, "responseStreamDisconnected") || text::same(
        name,
        "ResponseStreamDisconnected",
    ) {
        CodexCode::ResponseStreamDisconnected
    } else if text::same(name, "responseTooManyFailedAttempts") || text::same(
        name,
        "ResponseTooManyFailedAttempts",
    ) {
        CodexCode::ResponseTooManyFailedAttempts
    } else {
        CodexCode::Other
    }
}

/// The kinds other than the unknown one that the names of members stand for, in their order.
pub open spec fn named_kinds(entries: Seq<(String, Json)>) -> Seq<CodexCode>
    decreases entries.len(),
{
    if entries.len() == 0 {
        Seq::empty()
    } else {
        let rest = named_kinds(entries.drop_last());
        let kind = canonical(entries.last().0@);
        if kind == CodexCode::Other {
            rest
        } else {
            rest.push(kind)
        }
    }
}

/// The kind of an error: what a text names, what an object says in one of three members, or the one
/// kind that the names of its members stand for.
pub open spec fn error_code(info: Option<Json>) -> CodexCode {
    match info {
        Some(Json::Text(name)) => canonical(name@),
        Some(Json::Object(members)) => {
            let value = Json::Object(members);
            if value.member_text("type"@) is Some {
                canonical(value.member_text("type"@)->0)
            } else if value.member_text("kind"@) is Some {
                canonical(value.member_text("kind"@)->0)
            } else if value.member_text("code"@) is Some {
                canonical(value.member_text("code"@)->0)
            } else {
                let kinds = named_kinds(members.entries());
                if kinds.len() == 1 {
                    kinds[0]
                } else {
                    CodexCode::Other
                }
            }
        },
        _ => CodexCode::Other,
    }
}

/// The value that an optional reference refers to.
pub open spec fn owned(value: Option<&Json>) -> Option<Json> {
    match value {
        Some(value) => Some(*value),
        None => None,
    }
}

/// The kind of an error.
pub fn codex_error_code(info: Option<&Json>) -> (r: CodexCode)
    ensures
        r == error_code(owned(info)),
{
    let value = match info {
        Some(value) => value,
        None => {
            return CodexCode::Other;
        },
    };
    match value {
        Json::Text(name) => canonical_error_code(name.as_str()),
        Json::Object(members) => {
            if let Some(name) = value.get_str("type") {
                return canonical_error_code(name);
            }
            if let Some(name) = value.get_str("kind") {
                return canonical_error_code(name);
            }
            if let Some(name) = value.get_str("code") {
                return canonical_error_code(name);
            }
            let count: usize = members.len();
            let ghost entries = members.entries();
            let mut kinds: Vec<CodexCode> = Vec::new();
            let mut i: usize = 0;
            while i < count
                invariant
                    i <= count,
                    count == entries.len(),
                    entries == members.entries(),
                    kinds@ == named_kinds(entries.take(i as int)),
                decreases count - i,
            {
                let kind = canonical_error_code(members.key_at(i).as_str());
                assert(entries.take(i + 1).drop_last() =~= entries.take(i as int));
                if kind != CodexCode::Other {
                    kinds.push(kind);
                }
                i += 1;
            }
            assert(entries.take(i as int) =~= entries);
            if kinds.len() == 1 {
                kinds[0]
            } else {
                CodexCode::Other
            }
        },
        _ => CodexCode::Other,
    }
}

/// The first status that a nested object gives.
pub open spec fn nested_status(entries: Seq<(String, Json)>) -> Option<u64>
    decreases entries.len(),
{
    if entries.len() == 0 {
        None
    } else {
        let here = match entries[0].1.member("httpStatusCode"@) {
            Some(status) => status.unsigned(),
            None => None,
        };
        if here is Some {
            here
        } else {
            nested_status(entries.skip(1))
        }
    }
}

/// The HTTP status of an error: its own, or the first that a nested object gives.
pub open spec fn status_of(info: Option<Json>) -> Option<u64> {
    match info {
        Some(Json::Object(members)) => {
            let value = Json::Object(members);
            if value.member("httpStatusCode"@) is Some && value.member(
                "httpStatusCode"@,
            )->0.unsigned() is Some {
                value.member("httpStatusCode"@)->0.unsigned()
            } else {
                nested_status(members.entries())
            }
        },
        _ => None,
    }
}

/// The HTTP status of an error, if there is one.
pub fn http_status(info: Option<&Json>) -> (r: Option<u64>)
    ensures
        r == status_of(owned(info)),
{
    let value = match info {
        Some(value) => value,
        None => {
            return None;
        },
    };
    match value {
        Json::Object(members) => {
            if let Some(status) = value.get("httpStatusCode") {
                if let Some(status) = status.as_u64() {
                    return Some(status);
                }
            }
            let count: usize = members.len();
            let ghost entries = members.entries();
            let mut i: usize = 0;
            assert(entries.skip(0) =~= entries);
            while i < count
                invariant
                    i <= count,
                    count == entries.len(),
                    entries == members.entries(),
                    nested_status(entries.skip(i as int)) == status_of(owned(info)),
                decreases count - i,
            {
                assert(entries.skip(i as int)[0] == entries[i as int]);
                assert(entries.skip(i as int).skip(1) =~= entries.skip(i + 1));
                if let Some(status) = members.value_at(i).get("httpStatusCode") {
                    if let Some(status) = status.as_u64() {
                        return Some(status);
                    }
                }
                i += 1;
            }
            None
        },
        _ => None,
    }
}

/// A status that may pass: a timeout, a conflict, too early, too many, or an error of the server.
pub open spec fn transient_status(status: u64) -> bool {
    status == 408 || status == 409 || status == 425 || status == 429 || status >= 500
}

/// The message of an error in small letters.
pub open spec fn lowered_message(error: Json) -> Seq<char> {
    match error.member_text("message"@) {
        Some(message) => text::ascii_lowered(message),
        None => Seq::empty(),
    }
}

/// The kind of an error, taken from its message where nothing else names one.
pub open spec fn classified_code(error: Json) -> CodexCode {
    let code = error_code(error.member("codexErrorInfo"@));
    if code == CodexCode::Other && text::contains_text(
        lowered_message(error),
        "too many failed attempts"@,
    ) {
        CodexCode::ResponseTooManyFailedAttempts
    } else if code == CodexCode::Other && text::contains_text(
        lowered_message(error),
        "stream disconnected"@,
    ) {
        CodexCode::ResponseStreamDisconnected
    } else {
        code
    }
}

/// An error may pass: its kind is a known one, and a failed connection has no lasting status.
pub open spec fn may_pass(error: Json) -> bool {
    let code = classified_code(error);
    let status = status_of(error.member("codexErrorInfo"@));
    if code == CodexCode::HttpConnectionFailed && status is Some {
        transient_status(status->0)
    } else {
        code != CodexCode::Other
    }
}

/// The kind of an error and whether it may pass.
pub fn classify(error: &Json) -> (r: (CodexCode, bool))
    ensures
        r.0 == classified_code(*error),
        r.1 == may_pass(*error),
{
    let info = error.get("codexErrorInfo");
    let mut code = codex_error_code(info);
    let message = match error.get_str("message") {
        Some(message) => text::to_ascii_lowercase(message),
        None => String::new(),
    };
    if code == CodexCode::Other {
        if text::contains(message.as_str(), "too many failed attempts") {
            code = CodexCode::ResponseTooManyFailedAttempts;
        } else if text::contains(message.as_str(), "stream disconnected") {
            code = CodexCode::ResponseStreamDisconnected;
        }
    }
    let mut retryable = code != CodexCode::Other;
    if code == CodexCode::HttpConnectionFailed {
        if let Some(status) = http_status(info) {
            retryable = status == 408 || status == 409 || status == 425 || status == 429 || status
                >= 500;
        }
    }
    (code, retryable)
}

/// The name of an error's kind and whether it may pass.
pub fn classify_codex_error(error: &Json) -> (r: (String, bool))
    ensures
        r.0@ == classified_code(*error).name_view(),
        r.1 == may_pass(*error),
{
    let (code, retryable) = classify(error);
    (code.name().to_owned(), retryable)
}

/// The condition of an error: what passes is sorted by its kind, and nothing else is known.
pub open spec fn condition_for(code: CodexCode, retryable: bool) -> Seq<char> {
    if !retryable {
        "failure.unknown"@
    } else {
        match code {
            CodexCode::HttpConnectionFailed => "network.connection_failed"@,
            CodexCode::ResponseStreamConnectionFailed => "network.stream_failed"@,
            CodexCode::ResponseStreamDisconnected => "network.stream_failed"@,
            CodexCode::ResponseTooManyFailedAttempts => "retry.provider_exhausted"@,
            CodexCode::Other => "failure.unknown"@,
        }
    }
}

fn condition_name(code: CodexCode, retryable: bool) -> (r: &'static str)
    ensures
        r@ == condition_for(code, retryable),
{
    if !retryable {
        "failure.unknown"
    } else {
        match code {
            CodexCode::HttpConnectionFailed => "network.connection_failed",
            CodexCode::ResponseStreamConnectionFailed => "network.stream_failed",
            CodexCode::ResponseStreamDisconnected => "network.stream_failed",
            CodexCode::ResponseTooManyFailedAttempts => "retry.provider_exhausted",
            CodexCode::Other => "failure.unknown",
        }
    }
}

/// The time that a value stands for: whole seconds, or an RFC 3339 text.
pub open spec fn timestamp_in(value: Option<Json>) -> Option<Timestamp> {
    match value {
        Some(Json::Number(_)) => match value->0.signed() {
            Some(seconds) => if time::FIRST_SECOND <= seconds <= time::LAST_SECOND {
                Some(Timestamp { seconds, nanos: 0 })
            } else {
                None
            },
            None => None,
        },
        Some(Json::Text(s)) => time::rfc3339_time(s@),
        _ => None,
    }
}

/// The time that a value stands for, if it does.
pub fn parse_timestamp(value: Option<&Json>) -> (r: Option<Timestamp>)
    ensures
        r == timestamp_in(owned(value)),
{
    match value {
        None => None,
        Some(value) => match value {
            Json::Number(_) => match value.as_i64() {
                Some(seconds) => time::from_unix_seconds(seconds),
                None => None,
            },
            Json::Text(s) => time::parse_rfc3339(s.as_str()),
            _ => None,
        },
    }
}

/// The longest title that is taken from a preview.
pub const MAX_PREVIEW_TITLE: usize = 80;

/// The title of a thread: its name, or the start of its preview on one line, or its identifier.
pub open spec fn title_of(raw: Json, id: Seq<char>) -> Seq<char> {
    if raw.member_text("name"@) is Some && !text::blank(raw.member_text("name"@)->0) {
        raw.member_text("name"@)->0
    } else if raw.member_text("preview"@) is Some {
        text::first_chars(
            text::replaced(raw.member_text("preview"@)->0, "\n"@, " "@),
            MAX_PREVIEW_TITLE as nat,
        )
    } else {
        id
    }
}

/// The state of a thread.
pub open spec fn state_of(raw: Json) -> SessionState {
    match raw.nested("status"@, "type"@) {
        Some(kind) => {
            let name = kind.text();
            if name == Some("active"@) {
                SessionState::Active
            } else if name == Some("idle"@) || name == Some("notLoaded"@) {
                SessionState::Idle
            } else if name == Some("systemError"@) {
                SessionState::Failed
            } else {
                SessionState::Unknown
            }
        },
        None => SessionState::Unknown,
    }
}

/// A member, or null where there is none.
pub open spec fn member_or_null(raw: Json, key: Seq<char>) -> Json {
    match raw.member(key) {
        Some(value) => value,
        None => Json::Null,
    }
}

/// `session` is the session that a thread stands for.
pub open spec fn is_session_of(session: Session, raw: Json, id: Seq<char>) -> bool {
    &&& session.provider@ == "codex"@
    &&& session.id@ == id
    &&& session.title@ == title_of(raw, id)
    &&& session.state == state_of(raw)
    &&& session.updated_at == timestamp_in(raw.member("updatedAt"@))
    &&& session.metadata is Object
    &&& session.metadata->Object_0@.dom() == set!["path"@, "is_pinned"@, "source"@]
    &&& session.metadata.member("path"@) == Some(member_or_null(raw, "path"@))
    &&& session.metadata.member("source"@) == Some(member_or_null(raw, "source"@))
    &&& session.metadata.member("is_pinned"@) == Some(
        Json::Bool(raw.member("isPinned"@) == Some(Json::Bool(true))),
    )
}

/// An answer lacks what every answer has.
#[derive(Clone, Copy, Debug, PartialEq, Eq, Structural)]
pub enum CodexAnswerError {
    SessionWithoutId,
    TurnWithoutId,
    InvalidList,
}

impl CodexAnswerError {
    /// The error in words.
    pub open spec fn message_view(self) -> Seq<char> {
        match self {
            CodexAnswerError::SessionWithoutId =>
                "Codex thread/list returned a session without an id"@,
            CodexAnswerError::TurnWithoutId => "Codex returned a failed turn without an id"@,
            CodexAnswerError::InvalidList => "Codex thread/list returned invalid data"@,
        }
    }

    /// The error in words.
    pub fn message(self) -> (r: &'static str)
        ensures
            r@ == self.message_view(),
    {
        match self {
            CodexAnswerError::SessionWithoutId =>
                "Codex thread/list returned a session without an id",
            CodexAnswerError::TurnWithoutId => "Codex returned a failed turn without an id",
            CodexAnswerError::InvalidList => "Codex thread/list returned invalid data",
        }
    }
}

/// Reads the session that a thread stands for.
pub fn parse_session(raw: &Json) -> (r: Result<Session, CodexAnswerError>)
    ensures
        match r {
            Ok(session) => raw.member_text("id"@) is Some && is_session_of(
                session,
                *raw,
                raw.member_text("id"@)->0,
            ),
            Err(error) => error is SessionWithoutId && raw.member_text("id"@) is None,
        },
{
    let id: &str = match raw.get_str("id") {
        Some(id) => id,
        None => {
            return Err(CodexAnswerError::SessionWithoutId);
        },
    };
    let name = match raw.get_str("name") {
        Some(name) => if text::is_blank(name) {
            None
        } else {
            Some(name.to_owned())
        },
        None => None,
    };
    let title = match name {
        Some(name) => name,
        None => match raw.get_str("preview") {
            Some(preview) => {
                proof {
                    reveal_strlit("\n");
                }
                text::take_chars(text::replace(preview, "\n", " ").as_str(), MAX_PREVIEW_TITLE)
            },
            None => id.to_owned(),
        },
    };
    let state = match raw.get_nested("status", "type") {
        Some(kind) => match kind.as_str() {
            Some(kind) => {
                if text::same(kind, "active") {
                    SessionState::Active
                } else if text::same(kind, "idle") || text::same(kind, "notLoaded") {
                    SessionState::Idle
                } else if text::same(kind, "systemError") {
                    SessionState::Failed
                } else {
                    SessionState::Unknown
                }
            },
            None => SessionState::Unknown,
        },
        None => SessionState::Unknown,
    };
    let path = match raw.get("path") {
        Some(value) => value.clone(),
        None => Json::Null,
    };
    let source = match raw.get("source") {
        Some(value) => value.clone(),
        None => Json::Null,
    };
    proof {
        reveal_strlit("path");
        reveal_strlit("is_pinned");
        reveal_strlit("source");
        assert("path"@.len() == 4 && "is_pinned"@.len() == 9 && "source"@.len() == 6);
    }
    let metadata = Json::object().with("path", path).with(
        "is_pinned",
        Json::Bool(raw.is_true("isPinned")),
    ).with("source", source);
    assert(metadata@.dom() =~= set!["path"@, "is_pinned"@, "source"@]);
    Ok(
        Session {
            provider: "codex".to_owned(),
            id: id.to_owned(),
            title,
            state,
            updated_at: parse_timestamp(raw.get("updatedAt")),
            metadata: metadata.build(),
        },
    )
}

/// What is asked for the next page of a list.
pub open spec fn page_size(limit: int, collected: int) -> int {
    if limit - collected < 100 {
        limit - collected
    } else {
        100
    }
}

/// How many sessions the next page of a list is asked for.
pub fn next_page_size(limit: usize, collected: usize) -> (r: usize)
    requires
        collected < limit,
    ensures
        r == page_size(limit as int, collected as int),
{
    if limit - collected < 100 {
        limit - collected
    } else {
        100
    }
}

/// The threads of a page.
pub open spec fn page_threads(page: Json) -> Option<Seq<Json>> {
    match page.member("data"@) {
        Some(data) => data.elements(),
        None => None,
    }
}

/// Every thread of a page has an identifier.
pub open spec fn all_identified(threads: Seq<Json>) -> bool {
    forall|i: int| 0 <= i < threads.len() ==> (#[trigger] threads[i]).member_text("id"@) is Some
}

/// `sessions` are the sessions that threads stand for.
pub open spec fn are_sessions_of(sessions: Seq<Session>, threads: Seq<Json>) -> bool {
    &&& sessions.len() == threads.len()
    &&& forall|i: int|
        0 <= i < sessions.len() ==> is_session_of(
            #[trigger] sessions[i],
            threads[i],
            threads[i].member_text("id"@)->0,
        )
}

/// Why a page cannot be read: it lists nothing, or a session without an identifier.
pub open spec fn is_unreadable(page: Json, error: CodexAnswerError) -> bool {
    match error {
        CodexAnswerError::InvalidList => page_threads(page) is None,
        CodexAnswerError::SessionWithoutId => page_threads(page) is Some && !all_identified(
            page_threads(page)->0,
        ),
        _ => false,
    }
}

/// A page can be read, and these are its sessions.
pub open spec fn reads_as(page: Json, sessions: Seq<Session>) -> bool {
    &&& page_threads(page) is Some
    &&& all_identified(page_threads(page)->0)
    &&& are_sessions_of(sessions, page_threads(page)->0)
}

/// The cursor of the page that follows a page: none follows one that is empty or names none.
pub open spec fn following(page: Json) -> Option<Seq<char>> {
    if page_threads(page)->0.len() == 0 {
        None
    } else {
        page.member_text("nextCursor"@)
    }
}

/// Reads a page of a list: its sessions, and the cursor of the page that follows.
pub fn read_page(page: &Json) -> (r: Result<(Vec<Session>, Option<String>), CodexAnswerError>)
    ensures
        match r {
            Err(error) => is_unreadable(*page, error),
            Ok((sessions, cursor)) => reads_as(*page, sessions@) && text::option_view(cursor)
                == following(*page),
        },
{
    let threads = match page.get("data") {
        Some(data) => match data.as_array() {
            Some(threads) => threads,
            None => {
                return Err(CodexAnswerError::InvalidList);
            },
        },
        None => {
            return Err(CodexAnswerError::InvalidList);
        },
    };
    let mut sessions: Vec<Session> = Vec::new();
    let mut i: usize = 0;
    while i < threads.len()
        invariant
            i <= threads@.len(),
            page_threads(*page) == Some(threads@),
            sessions@.len() == i,
            forall|k: int|
                0 <= k < i ==> (#[trigger] threads@[k]).member_text("id"@) is Some,
            forall|k: int|
                0 <= k < i ==> is_session_of(
                    #[trigger] sessions@[k],
                    threads@[k],
                    threads@[k].member_text("id"@)->0,
                ),
        decreases threads@.len() - i,
    {
        match parse_session(&threads[i]) {
            Ok(session) => {
                sessions.push(session);
            },
            Err(error) => {
                assert(threads@[i as int].member_text("id"@) is None);
                return Err(error);
            },
        }
        i += 1;
    }
    if threads.len() == 0 {
        return Ok((sessions, None));
    }
    match page.get_str("nextCursor") {
        None => Ok((sessions, None)),
        Some(cursor) => Ok((sessions, Some(cursor.to_owned()))),
    }
}

/// The first turn of a list that starts with the latest.
pub open spec fn first_turn(page: Json) -> Option<Json> {
    match page.member("data"@) {
        Some(data) => match data.elements() {
            Some(turns) => if turns.len() > 0 {
                Some(turns[0])
            } else {
                None
            },
            None => None,
        },
        None => None,
    }
}

/// The latest turn of a list that starts with it.
pub fn latest_listed_turn(page: &Json) -> (r: Option<&Json>)
    ensures
        owned(r) == first_turn(*page),
{
    match page.get("data") {
        Some(data) => match data.as_array() {
            Some(turns) => if turns.len() > 0 {
                Some(&turns[0])
            } else {
                None
            },
            None => None,
        },
        None => None,
    }
}

/// The last turn of a thread.
pub open spec fn last_turn(answer: Json) -> Option<Json> {
    match answer.nested("thread"@, "turns"@) {
        Some(turns) => match turns.elements() {
            Some(turns) => if turns.len() > 0 {
                Some(turns.last())
            } else {
                None
            },
            None => None,
        },
        None => None,
    }
}

/// The latest turn of a thread that was read whole.
pub fn latest_read_turn(answer: &Json) -> (r: Option<&Json>)
    ensures
        owned(r) == last_turn(*answer),
{
    match answer.get_nested("thread", "turns") {
        Some(turns) => match turns.as_array() {
            Some(turns) => if turns.len() > 0 {
                Some(&turns[turns.len() - 1])
            } else {
                None
            },
            None => None,
        },
        None => None,
    }
}

/// The turn failed.
pub open spec fn turn_failed(turn: Option<Json>) -> bool {
    turn is Some && turn->0.member_text("status"@) == Some("failed"@)
}

/// The kind of a turn's error and whether it may pass; a turn without an error has the unknown one.
pub open spec fn turn_error(turn: Json) -> (CodexCode, bool) {
    match turn.member("error"@) {
        Some(error) => (classified_code(error), may_pass(error)),
        None => (CodexCode::Other, false),
    }
}

/// The message of a turn's error.
pub open spec fn turn_message(turn: Json) -> Seq<char> {
    match turn.member("error"@) {
        Some(error) => match error.member_text("message"@) {
            Some(message) => message,
            None => "Codex turn failed"@,
        },
        None => "Codex turn failed without structured error details"@,
    }
}

/// `failure` is the failure of a turn.
pub open spec fn is_failure_of(failure: Failure, turn: Json, session_id: Seq<char>) -> bool {
    let (code, retryable) = turn_error(turn);
    &&& failure.provider@ == "codex"@
    &&& failure.session_id@ == session_id
    &&& Some(failure.turn_id@) == turn.member_text("id"@)
    &&& failure.condition@ == condition_for(code, retryable)
    &&& failure.provider_code@ == code.name_view()
    &&& failure.message@ == turn_message(turn)
    &&& failure.occurred_at == timestamp_in(turn.member("completedAt"@))
    &&& failure.retry_after_seconds is None
    &&& failure.model is None
    &&& failure.scope is None
    &&& failure.metadata == Json::Null
}

/// Reads the failure of a turn, where it failed.
pub fn read_failure(turn: Option<&Json>, session_id: &str) -> (r: Result<
    Option<Failure>,
    CodexAnswerError,
>)
    ensures
        match r {
            Ok(None) => !turn_failed(owned(turn)),
            Ok(Some(failure)) => turn_failed(owned(turn)) && is_failure_of(
                failure,
                *turn->0,
                session_id@,
            ),
            Err(error) => error is TurnWithoutId && turn_failed(owned(turn))
                && turn->0.member_text("id"@) is None,
        },
{
    let turn = match turn {
        Some(turn) => turn,
        None => {
            return Ok(None);
        },
    };
    let failed = match turn.get_str("status") {
        Some(status) => text::same(status, "failed"),
        None => false,
    };
    if !failed {
        return Ok(None);
    }
    let turn_id: &str = match turn.get_str("id") {
        Some(id) => id,
        None => {
            return Err(CodexAnswerError::TurnWithoutId);
        },
    };
    let (code, retryable, message): (CodexCode, bool, &str) = match turn.get("error") {
        Some(error) => {
            let (code, retryable) = classify(error);
            let message: &str = match error.get_str("message") {
                Some(message) => message,
                None => "Codex turn failed",
            };
            (code, retryable, message)
        },
        None => (
            CodexCode::Other,
            false,
            "Codex turn failed without structured error details",
        ),
    };
    Ok(
        Some(
            Failure {
                provider: "codex".to_owned(),
                session_id: session_id.to_owned(),
                turn_id: turn_id.to_owned(),
                condition: condition_name(code, retryable).to_owned(),
                provider_code: code.name().to_owned(),
                message: message.to_owned(),
                occurred_at: parse_timestamp(turn.get("completedAt")),
                retry_after_seconds: None,
                model: None,
                scope: None,
                metadata: Json::Null,
            },
        ),
    )
}

/// The identifier of a turn that was started.
pub open spec fn started_turn(answer: Json) -> Option<Seq<char>> {
    match answer.nested("turn"@, "id"@) {
        Some(id) => id.text(),
        None => None,
    }
}

/// Reads the identifier of a turn that was started. An answer without one leaves open which turn
/// that is.
pub fn read_started_turn(answer: &Json) -> (r: Result<String, TransportError>)
    ensures
        match r {
            Ok(id) => started_turn(*answer) == Some(id@),
            Err(TransportError::AcknowledgementUnknown(unknown)) => started_turn(*answer) is None
                && unknown.0@ == "Codex accepted turn/start without returning a turn id"@,
            Err(_) => false,
        },
{
    let id = match answer.get_nested("turn", "id") {
        Some(id) => id.as_str(),
        None => None,
    };
    match id {
        Some(id) => Ok(id.to_owned()),
        None => Err(
            TransportError::AcknowledgementUnknown(
                AcknowledgementUnknown(
                    "Codex accepted turn/start without returning a turn id".to_owned(),
                ),
            ),
        ),
    }
}

/// A provider does not know a method, or not its parameters.
pub fn is_unsupported_method(code: i64) -> (r: bool)
    ensures
        r == (code == -32601 || code == -32602),
{
    code == -32601 || code == -32602
}

/// The absolute path of a session's transcript.
pub open spec fn transcript_path(session: Session) -> Option<Seq<char>> {
    match session.metadata.member_text("path"@) {
        Some(path) => if text::occurs_at(path, "/"@, 0) {
            Some(path)
        } else {
            None
        },
        None => None,
    }
}

/// The path that is watched for changes of a session, where there is one.
pub fn watched_path(session: &Session) -> (r: Option<&str>)
    ensures
        match r {
            Some(path) => transcript_path(*session) == Some(path@),
            None => transcript_path(*session) is None,
        },
{
    match session.metadata.get_str("path") {
        Some(path) => if text::starts_with(path, "/") {
            Some(path)
        } else {
            None
        },
        None => None,
    }
}

/// The name-based UUID of a URL, in its hyphenated form.
pub uninterp spec fn url_uuid(url: Seq<char>) -> Seq<char>;

/// `uuid::Uuid::new_v5` in the URL namespace and `to_string` of what it gives: a function of the
/// URL alone.
#[verifier::external_body]
fn uuid_of_url(url: &str) -> (r: String)
    ensures
        r@ == url_uuid(url@),
{
    uuid::Uuid::new_v5(&uuid::Uuid::NAMESPACE_URL, url.as_bytes()).to_string()
}

/// The name of the watch for changes of a session.
pub open spec fn watch_name(session_id: Seq<char>) -> Seq<char> {
    url_uuid("watchcat:codex:"@ + session_id)
}

/// The name of the watch for changes of a session.
pub fn watch_id(session_id: &str) -> (r: String)
    ensures
        r@ == watch_name(session_id@),
{
    let url = "watchcat:codex:".to_owned().concat(session_id);
    uuid_of_url(url.as_str())
}

/// The watch that is opened for changes of a session: its name and the path that is watched. There
/// is none where one is open, or where the session is not known or has no absolute path.
pub fn watch_to_open(
    session_id: &str,
    session: Option<&Session>,
    watches: &TextMap<String>,
) -> (r: Option<(String, String)>)
    ensures
        match r {
            Some((id, path)) => {
                &&& !watches@.contains_key(session_id@)
                &&& session is Some
                &&& id@ == watch_name(session_id@)
                &&& transcript_path(*session->0) == Some(path@)
            },
            None => watches@.contains_key(session_id@) || session is None || transcript_path(
                *session->0,
            ) is None,
        },
{
    if watches.contains_key(session_id) {
        return None;
    }
    match session {
        Some(session) => match watched_path(session) {
            Some(path) => Some((watch_id(session_id), path.to_owned())),
            None => None,
        },
        None => None,
    }
}

/// The watch that a notification is about.
pub open spec fn changed_watch(notification: Json) -> Option<Seq<char>> {
    if notification.member_text("method"@) == Some("fs/changed"@) {
        match notification.nested("params"@, "watchId"@) {
            Some(id) => id.text(),
            None => None,
        }
    } else {
        None
    }
}

/// The sessions whose watch is `watch`, in the order of their identifiers.
pub open spec fn sessions_watched_as(
    watches: Seq<(String, String)>,
    watch: Option<Seq<char>>,
) -> Seq<Seq<char>>
    decreases watches.len(),
{
    if watches.len() == 0 {
        Seq::empty()
    } else {
        let rest = sessions_watched_as(watches.drop_last(), watch);
        if Some(watches.last().1@) == watch {
            rest.push(watches.last().0@)
        } else {
            rest
        }
    }
}

/// The sessions that a notification says have changed.
pub fn changed_sessions(watches: &TextMap<String>, notification: &Json) -> (r: Vec<String>)
    ensures
        text::views(r@) == sessions_watched_as(watches.entries(), changed_watch(*notification)),
{
    let about_changes = match notification.get_str("method") {
        Some(method) => text::same(method, "fs/changed"),
        None => false,
    };
    let watch: Option<&str> = if !about_changes {
        None
    } else {
        match notification.get_nested("params", "watchId") {
            Some(id) => id.as_str(),
            None => None,
        }
    };
    let count: usize = watches.len();
    let ghost entries = watches.entries();
    let ghost wanted = changed_watch(*notification);
    let mut r: Vec<String> = Vec::new();
    let mut i: usize = 0;
    assert(text::views(r@) =~= sessions_watched_as(entries.take(0), wanted));
    while i < count
        invariant
            i <= count,
            count == entries.len(),
            entries == watches.entries(),
            match watch {
                Some(id) => wanted == Some(id@),
                None => wanted is None,
            },
            text::views(r@) == sessions_watched_as(entries.take(i as int), wanted),
        decreases count - i,
    {
        assert(entries.take(i + 1).drop_last() =~= entries.take(i as int));
        let ghost before = r@;
        let matches_watch = match watch {
            Some(id) => text::same(watches.value_at(i).as_str(), id),
            None => false,
        };
        if matches_watch {
            r.push(watches.key_at(i).clone());
            assert(text::views(r@) =~= text::views(before).push(entries[i as int].0@));
        }
        i += 1;
    }
    assert(entries.take(i as int) =~= entries);
    r
}

/// The provider was asked before it was started.
#[derive(Clone, Copy, Debug, PartialEq, Eq, Structural)]
pub struct NotStarted;

impl NotStarted {
    /// The error in words.
    pub fn message(self) -> (r: &'static str)
        ensures
            r@ == "Codex provider has not been started"@,
    {
        "Codex provider has not been started"
    }
}

/// How changes of sessions are waited for.
#[derive(Clone, Copy, Debug, PartialEq, Eq, Structural)]
pub enum Waiting {
    /// The time passes, and nothing has changed.
    Idle,
    /// The time passes, and every session may have changed.
    Poll,
    /// A notification names what has changed.
    Watch,
}

/// What is known of Codex's sessions, and the watches for their changes.
#[derive(Debug)]
pub struct CodexProvider {
    pub started: bool,
    /// The sessions that were listed, by their identifiers.
    pub sessions: TextMap<Session>,
    /// The names of the open watches, by the sessions that they are for.
    pub watches: TextMap<String>,
    /// Whether watches can be opened.
    pub watch_supported: bool,
}

/// What is known once sessions were listed: each as it was listed last.
pub open spec fn remembered(known: Map<Seq<char>, Session>, found: Seq<Session>) -> Map<
    Seq<char>,
    Session,
>
    decreases found.len(),
{
    if found.len() == 0 {
        known
    } else {
        remembered(known, found.drop_last()).insert(found.last().id@, found.last())
    }
}

/// The request opens the watch for changes of a session whose transcript has this path.
pub open spec fn opens_watch(
    request: CodexRequest,
    session_id: Seq<char>,
    path: Option<Seq<char>>,
) -> bool {
    match request {
        CodexRequest::Watch { watch_id, path: watched } => watch_id@ == watch_name(session_id)
            && Some(watched@) == path,
        _ => false,
    }
}

impl CodexProvider {
    /// A provider that was not started and of which nothing is known.
    pub fn new() -> (r: Self)
        ensures
            !r.started,
            r.sessions@ == Map::<Seq<char>, Session>::empty(),
            r.watches@ == Map::<Seq<char>, String>::empty(),
            r.watch_supported,
    {
        CodexProvider {
            started: false,
            sessions: TextMap::new(),
            watches: TextMap::new(),
            watch_supported: true,
        }
    }

    /// Whether the provider can be asked.
    pub fn require_started(&self) -> (r: Result<(), NotStarted>)
        ensures
            r is Ok == self.started,
    {
        if self.started {
            Ok(())
        } else {
            Err(NotStarted)
        }
    }

    /// Takes up that the provider was started.
    pub fn start(&mut self)
        ensures
            *final(self) == (CodexProvider { started: true, ..*old(self) }),
    {
        self.started = true;
    }

    /// Takes up that the provider was closed, and with it every watch.
    pub fn close(&mut self)
        ensures
            !final(self).started,
            final(self).watches@ == Map::<Seq<char>, String>::empty(),
            final(self).sessions == old(self).sessions,
            final(self).watch_supported == old(self).watch_supported,
    {
        self.watches = TextMap::new();
        self.started = false;
    }

    /// Takes up sessions that were listed.
    pub fn remember(&mut self, found: &Vec<Session>)
        ensures
            final(self).sessions@ == remembered(old(self).sessions@, found@),
            final(self).started == old(self).started,
            final(self).watches == old(self).watches,
            final(self).watch_supported == old(self).watch_supported,
    {
        let ghost known = self.sessions@;
        let mut i: usize = 0;
        assert(found@.take(0) =~= Seq::<Session>::empty());
        while i < found.len()
            invariant
                i <= found@.len(),
                self.sessions@ == remembered(known, found@.take(i as int)),
                self.started == old(self).started,
                self.watches == old(self).watches,
                self.watch_supported == old(self).watch_supported,
            decreases found@.len() - i,
        {
            assert(found@.take(i + 1).drop_last() =~= found@.take(i as int));
            let session = found[i].clone();
            let _ = self.sessions.insert(session.id.clone(), session);
            i += 1;
        }
        assert(found@.take(i as int) =~= found@);
    }

    /// Whether one of the sessions was never listed.
    pub fn has_unlisted(&self, session_ids: &Vec<String>) -> (r: bool)
        ensures
            r == exists|i: int|
                0 <= i < session_ids@.len() && !self.sessions@.contains_key(
                    (#[trigger] session_ids@[i])@,
                ),
    {
        let mut i: usize = 0;
        while i < session_ids.len()
            invariant
                i <= session_ids@.len(),
                forall|k: int|
                    0 <= k < i ==> self.sessions@.contains_key((#[trigger] session_ids@[k])@),
            decreases session_ids@.len() - i,
        {
            if !self.sessions.contains_key(session_ids[i].as_str()) {
                assert(!self.sessions@.contains_key(session_ids@[i as int]@));
                return true;
            }
            i += 1;
        }
        false
    }

    /// A watch is to be opened for changes of a session: there is none, and the session is known
    /// with the absolute path of its transcript.
    pub open spec fn wants_watch(self, session_id: Seq<char>) -> bool {
        &&& self.watch_supported
        &&& !self.watches@.contains_key(session_id)
        &&& self.sessions@.contains_key(session_id)
        &&& transcript_path(self.sessions@[session_id]) is Some
    }

    /// The first of the sessions for which a watch is to be opened, and the request that opens it.
    pub fn next_watch(&self, session_ids: &Vec<String>) -> (r: Option<(usize, CodexRequest)>)
        ensures
            match r {
                Some((at, request)) => {
                    &&& at < session_ids@.len()
                    &&& self.wants_watch(session_ids@[at as int]@)
                    &&& opens_watch(
                        request,
                        session_ids@[at as int]@,
                        transcript_path(self.sessions@[session_ids@[at as int]@]),
                    )
                    &&& forall|k: int|
                        0 <= k < at ==> !self.wants_watch((#[trigger] session_ids@[k])@)
                },
                None => forall|k: int|
                    0 <= k < session_ids@.len() ==> !self.wants_watch(
                        (#[trigger] session_ids@[k])@,
                    ),
            },
    {
        if !self.watch_supported {
            return None;
        }
        let mut i: usize = 0;
        while i < session_ids.len()
            invariant
                i <= session_ids@.len(),
                self.watch_supported,
                forall|k: int| 0 <= k < i ==> !self.wants_watch((#[trigger] session_ids@[k])@),
            decreases session_ids@.len() - i,
        {
            let session_id = session_ids[i].as_str();
            let opened = watch_to_open(session_id, self.sessions.get(session_id), &self.watches);
            if let Some((watch_id, path)) = opened {
                return Some((i, CodexRequest::Watch { watch_id, path }));
            }
            i += 1;
        }
        None
    }

    /// What is known once the watch for changes of a session was opened.
    pub open spec fn watching(self, session_id: Seq<char>, after: Self) -> bool {
        &&& after.watches@.dom() == self.watches@.dom().insert(session_id)
        &&& after.watches@[session_id]@ == watch_name(session_id)
        &&& forall|other: Seq<char>|
            other != session_id && self.watches@.contains_key(other) ==> #[trigger] after.watches@[other]
                == self.watches@[other]
        &&& after.started == self.started
        &&& after.sessions == self.sessions
        &&& after.watch_supported == self.watch_supported
    }

    /// What is known once a watch could not be opened: watches are given up.
    pub open spec fn not_watching(self, after: Self) -> bool {
        &&& after.watches@ == Map::<Seq<char>, String>::empty()
        &&& !after.watch_supported
        &&& after.started == self.started
        &&& after.sessions == self.sessions
    }

    /// Takes up whether the watch for changes of a session was opened.
    pub fn watch_answered(&mut self, session_id: &str, opened: bool)
        ensures
            opened ==> old(self).watching(session_id@, *final(self)),
            !opened ==> old(self).not_watching(*final(self)),
    {
        if opened {
            let _ = self.watches.insert(session_id.to_owned(), watch_id(session_id));
        } else {
            self.watch_supported = false;
            self.watches = TextMap::new();
        }
    }

    /// The requests that end the open watches, in the order of the sessions.
    pub fn unwatches(&self) -> (r: Vec<CodexRequest>)
        ensures
            r@.len() == (if self.watch_supported {
                self.watches.entries().len()
            } else {
                0
            }),
            forall|i: int|
                0 <= i < r@.len() ==> (#[trigger] r@[i]) == CodexRequest::Unwatch(
                    self.watches.entries()[i].1,
                ),
    {
        let mut r: Vec<CodexRequest> = Vec::new();
        if !self.watch_supported {
            return r;
        }
        let count: usize = self.watches.len();
        let mut i: usize = 0;
        while i < count
            invariant
                i <= count,
                count == self.watches.entries().len(),
                r@.len() == i,
                forall|k: int|
                    0 <= k < i ==> (#[trigger] r@[k]) == CodexRequest::Unwatch(
                        self.watches.entries()[k].1,
                    ),
            decreases count - i,
        {
            r.push(CodexRequest::Unwatch(self.watches.value_at(i).clone()));
            i += 1;
        }
        r
    }

    /// How changes of these sessions are waited for.
    pub open spec fn waits_by(self, sessions: nat) -> Waiting {
        if sessions == 0 {
            Waiting::Idle
        } else if self.watch_supported {
            Waiting::Watch
        } else {
            Waiting::Poll
        }
    }

    /// How changes of these sessions are waited for.
    pub fn waiting(&self, session_ids: &Vec<String>) -> (r: Waiting)
        ensures
            r == self.waits_by(session_ids@.len()),
    {
        if session_ids.len() == 0 {
            Waiting::Idle
        } else if self.watch_supported {
            Waiting::Watch
        } else {
            Waiting::Poll
        }
    }
}

/// A watch is opened once: from then on none is wanted for that session, and what is wanted for
/// every other session stays as it was.
pub proof fn watches_are_opened_once(
    before: CodexProvider,
    after: CodexProvider,
    session_id: Seq<char>,
    other: Seq<char>,
)
    requires
        before.watching(session_id, after),
    ensures
        !after.wants_watch(session_id),
        other != session_id ==> after.wants_watch(other) == before.wants_watch(other),
{
}

/// Where a watch cannot be opened, no other is asked for, and changes of sessions are polled for.
pub proof fn refused_watches_are_polled_for(
    before: CodexProvider,
    after: CodexProvider,
    session_id: Seq<char>,
    sessions: nat,
)
    requires
        before.not_watching(after),
        sessions > 0,
    ensures
        !after.wants_watch(session_id),
        after.waits_by(sessions) == Waiting::Poll,
{
}

} // verus!
