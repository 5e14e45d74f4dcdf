//! The records that sessions, failures and recoveries are described by.

use vstd::prelude::*;
use vstd::string::*;

use crate::json;
use crate::json::{Json, Number};
use crate::text;
use crate::time::Timestamp;

verus! {

/// What a policy does about a failure.
#[derive(Clone, Copy, Debug, PartialEq, Eq, Structural)]
pub enum PolicyAction {
    Retry,
    Skip,
}

/// How the delay before a retry grows.
#[derive(Clone, Copy, Debug, PartialEq, Eq, Structural)]
pub enum BackoffKind {
    Fixed,
    Exponential,
}

/// What a session is doing.
#[derive(Clone, Copy, Debug, Default, PartialEq, Eq, Structural)]
pub enum SessionState {
    #[default]
    Unknown,
    Idle,
    Active,
    Failed,
}

/// How a recovery turn ended, as far as its provider tells.
#[derive(Clone, Copy, Debug, PartialEq, Eq, Structural)]
pub enum TurnOutcome {
    Completed,
    Failed,
    InProgress,
    Unknown,
}

/// How a session came onto the watchlist.
#[derive(Clone, Copy, Debug, PartialEq, Eq, Structural)]
pub enum TrackingSource {
    Manual,
    Automatic,
}

/// How a message reached a session.
#[derive(Clone, Copy, Debug, Default, PartialEq, Eq, Structural)]
pub enum MessageDelivery {
    #[default]
    Started,
    Steered,
}

/// The way a message took to a session.
#[derive(Clone, Copy, Debug, Default, PartialEq, Eq, Structural)]
pub enum MessageTransport {
    #[default]
    AppServer,
    DesktopIpc,
}

/// The key of a session: its provider and its identifier around a colon.
pub open spec fn session_key(provider: Seq<char>, id: Seq<char>) -> Seq<char> {
    provider + ":"@ + id
}

/// The key of a session.
pub fn make_key(provider: &str, id: &str) -> (r: String)
    ensures
        r@ == session_key(provider@, id@),
{
    provider.to_owned().concat(":").concat(id)
}

/// A session as its provider lists it.
#[derive(Debug)]
pub struct Session {
    pub provider: String,
    pub id: String,
    pub title: String,
    pub state: SessionState,
    pub updated_at: Option<Timestamp>,
    pub metadata: Json,
}

impl Clone for Session {
    fn clone(&self) -> (r: Self)
        ensures
            r == *self,
    {
        Session {
            provider: self.provider.clone(),
            id: self.id.clone(),
            title: self.title.clone(),
            state: self.state,
            updated_at: self.updated_at,
            metadata: self.metadata.clone(),
        }
    }
}

impl Session {
    /// The key of the session.
    pub open spec fn key_view(self) -> Seq<char> {
        session_key(self.provider@, self.id@)
    }

    /// The key of the session.
    pub fn key(&self) -> (r: String)
        ensures
            r@ == self.key_view(),
    {
        make_key(self.provider.as_str(), self.id.as_str())
    }
}

/// A failed turn of a session.
#[derive(Debug)]
pub struct Failure {
    pub provider: String,
    pub session_id: String,
    pub turn_id: String,
    pub condition: String,
    pub provider_code: String,
    pub message: String,
    pub occurred_at: Option<Timestamp>,
    pub retry_after_seconds: Option<u64>,
    pub model: Option<String>,
    pub scope: Option<String>,
    pub metadata: Json,
}

impl Clone for Failure {
    fn clone(&self) -> (r: Self)
        ensures
            r == *self,
    {
        Failure {
            provider: self.provider.clone(),
            session_id: self.session_id.clone(),
            turn_id: self.turn_id.clone(),
            condition: self.condition.clone(),
            provider_code: self.provider_code.clone(),
            message: self.message.clone(),
            occurred_at: self.occurred_at,
            retry_after_seconds: self.retry_after_seconds,
            model: self.model.clone(),
            scope: self.scope.clone(),
            metadata: self.metadata.clone(),
        }
    }
}

impl Failure {
    /// The key of the failed turn: the key of its session, a colon and the turn.
    pub open spec fn key_view(self) -> Seq<char> {
        session_key(self.provider@, self.session_id@) + ":"@ + self.turn_id@
    }

    /// The key of the failed turn.
    pub fn key(&self) -> (r: String)
        ensures
            r@ == self.key_view(),
    {
        make_key(self.provider.as_str(), self.session_id.as_str()).concat(":").concat(
            self.turn_id.as_str(),
        )
    }
}

/// The acknowledgement of a started recovery turn.
#[derive(Debug)]
pub struct ResumeReceipt {
    pub provider: String,
    pub session_id: String,
    pub turn_id: String,
    pub transport: MessageTransport,
}

impl Clone for ResumeReceipt {
    fn clone(&self) -> (r: Self)
        ensures
            r == *self,
    {
        ResumeReceipt {
            provider: self.provider.clone(),
            session_id: self.session_id.clone(),
            turn_id: self.turn_id.clone(),
            transport: self.transport,
        }
    }
}

/// The acknowledgement of a delivered message.
#[derive(Debug)]
pub struct MessageReceipt {
    pub provider: String,
    pub session_id: String,
    pub turn_id: String,
    pub delivery: MessageDelivery,
    pub transport: MessageTransport,
}

/// The acknowledgement of an interrupted turn.
#[derive(Debug)]
pub struct InterruptReceipt {
    pub provider: String,
    pub session_id: String,
    pub turn_id: String,
    pub transport: MessageTransport,
}

/// A session that may be recovered.
#[derive(Debug)]
pub struct WatchTarget {
    pub source: TrackingSource,
    pub provider: String,
    pub session_id: String,
    pub label: Option<String>,
    pub title: Option<String>,
    pub added_at: Timestamp,
    pub last_activity_at: Option<Timestamp>,
}

impl Clone for WatchTarget {
    fn clone(&self) -> (r: Self)
        ensures
            r == *self,
    {
        WatchTarget {
            source: self.source,
            provider: self.provider.clone(),
            session_id: self.session_id.clone(),
            label: self.label.clone(),
            title: self.title.clone(),
            added_at: self.added_at,
            last_activity_at: self.last_activity_at,
        }
    }
}

impl WatchTarget {
    /// The key of the watched session.
    pub open spec fn key_view(self) -> Seq<char> {
        session_key(self.provider@, self.session_id@)
    }

    /// The moment from which the session counts as inactive. What a manual addition grants starts
    /// at the addition; otherwise the provider's activity decides, and the addition only where
    /// there is none.
    pub open spec fn inactive_from(self) -> Timestamp {
        match self.last_activity_at {
            Some(activity) => if self.source == TrackingSource::Manual && !activity.is_not_before(
                self.added_at,
                0,
            ) {
                self.added_at
            } else {
                activity
            },
            None => self.added_at,
        }
    }

    /// The key of the watched session.
    pub fn key(&self) -> (r: String)
        ensures
            r@ == self.key_view(),
    {
        make_key(self.provider.as_str(), self.session_id.as_str())
    }

    /// The moment from which the session counts as inactive.
    pub fn inactivity_since(&self) -> (r: Timestamp)
        ensures
            r == self.inactive_from(),
    {
        match self.last_activity_at {
            Some(activity) => {
                if self.source == TrackingSource::Manual && !activity.not_before(self.added_at, 0) {
                    self.added_at
                } else {
                    activity
                }
            },
            None => self.added_at,
        }
    }
}

/// Something that the engine did or saw.
#[derive(Debug)]
pub struct EngineEvent {
    pub timestamp: Timestamp,
    pub kind: String,
    pub target: String,
    pub message: String,
    pub condition: Option<String>,
    pub attempt: Option<usize>,
    pub max_attempts: Option<usize>,
    pub prompt: Option<String>,
    pub failure: Option<Failure>,
    pub receipt: Option<ResumeReceipt>,
}

/// One line of a session's activity.
#[derive(Debug)]
pub struct SessionLog {
    pub timestamp: Option<Timestamp>,
    pub provider: String,
    pub session_id: String,
    pub source: String,
    pub kind: String,
    pub role: Option<String>,
    pub turn_id: Option<String>,
    pub condition: Option<String>,
    pub message: String,
    pub metadata: Json,
}

impl Clone for SessionLog {
    fn clone(&self) -> (r: Self)
        ensures
            r == *self,
    {
        SessionLog {
            timestamp: self.timestamp,
            provider: self.provider.clone(),
            session_id: self.session_id.clone(),
            source: self.source.clone(),
            kind: self.kind.clone(),
            role: self.role.clone(),
            turn_id: self.turn_id.clone(),
            condition: self.condition.clone(),
            message: self.message.clone(),
            metadata: self.metadata.clone(),
        }
    }
}

/// The name of a transport.
pub open spec fn transport_name(transport: MessageTransport) -> Seq<char> {
    match transport {
        MessageTransport::AppServer => "app_server"@,
        MessageTransport::DesktopIpc => "desktop_ipc"@,
    }
}

/// `value` is the number `n`, or null where there is none.
pub open spec fn is_optional_number(value: Option<Json>, n: Option<usize>) -> bool {
    value == Some(match n {
        Some(n) => Json::Number(Number::Unsigned(n as u64)),
        None => Json::Null,
    })
}

/// `value` is the text `s`, or null where there is none.
pub open spec fn is_optional_text(value: Option<Json>, s: Option<String>) -> bool {
    value == Some(match s {
        Some(s) => Json::Text(s),
        None => Json::Null,
    })
}

/// `value` describes `receipt`, or is null where there is none.
pub open spec fn is_optional_receipt(value: Option<Json>, receipt: Option<ResumeReceipt>) -> bool {
    match receipt {
        None => value == Some(Json::Null),
        Some(receipt) => match value {
            Some(Json::Object(members)) => {
                &&& members@.dom() == set!["provider"@, "session_id"@, "turn_id"@, "transport"@]
                &&& members@["provider"@] == Json::Text(receipt.provider)
                &&& members@["session_id"@] == Json::Text(receipt.session_id)
                &&& members@["turn_id"@] == Json::Text(receipt.turn_id)
                &&& members@["transport"@].text() == Some(transport_name(receipt.transport))
            },
            _ => false,
        },
    }
}

/// The turn that an event is about: the failed one, or else the one that a receipt names.
pub open spec fn event_turn(event: EngineEvent) -> Option<String> {
    match event.failure {
        Some(failure) => Some(failure.turn_id),
        None => match event.receipt {
            Some(receipt) => Some(receipt.turn_id),
            None => None,
        },
    }
}

/// `log` is the activity line for `event`, whose target is `provider`, a colon and `session`.
pub open spec fn is_event_log(
    log: SessionLog,
    event: EngineEvent,
    provider: Seq<char>,
    session: Seq<char>,
) -> bool {
    &&& log.timestamp == Some(event.timestamp)
    &&& log.provider@ == provider
    &&& log.session_id@ == session
    &&& log.source@ == "watchcat"@
    &&& log.kind == event.kind
    &&& log.role is None
    &&& log.turn_id == event_turn(event)
    &&& log.condition == event.condition
    &&& log.message == event.message
    &&& log.metadata is Object
    &&& log.metadata->Object_0@.dom()
        == set!["attempt"@, "max_attempts"@, "prompt"@, "receipt"@, "provider_code"@]
    &&& is_optional_number(log.metadata.member("attempt"@), event.attempt)
    &&& is_optional_number(log.metadata.member("max_attempts"@), event.max_attempts)
    &&& is_optional_text(log.metadata.member("prompt"@), event.prompt)
    &&& is_optional_receipt(log.metadata.member("receipt"@), event.receipt)
    &&& log.metadata.member("provider_code"@) == Some(match event.failure {
        Some(failure) => Json::Text(failure.provider_code),
        None => Json::Null,
    })
}

fn optional_number(n: Option<usize>) -> (r: Json)
    ensures
        is_optional_number(Some(r), n),
{
    match n {
        Some(n) => Json::Number(Number::Unsigned(n as u64)),
        None => Json::Null,
    }
}

fn optional_text(s: &Option<String>) -> (r: Json)
    ensures
        is_optional_text(Some(r), *s),
{
    match s {
        Some(s) => Json::Text(s.clone()),
        None => Json::Null,
    }
}

fn transport_text(transport: MessageTransport) -> (r: Json)
    ensures
        r.text() == Some(transport_name(transport)),
{
    match transport {
        MessageTransport::AppServer => json::text_value("app_server"),
        MessageTransport::DesktopIpc => json::text_value("desktop_ipc"),
    }
}

fn optional_receipt(receipt: &Option<ResumeReceipt>) -> (r: Json)
    ensures
        is_optional_receipt(Some(r), *receipt),
{
    match receipt {
        None => Json::Null,
        Some(receipt) => {
            proof {
                reveal_strlit("provider");
                reveal_strlit("session_id");
                reveal_strlit("turn_id");
                reveal_strlit("transport");
                assert("provider"@[0] == 'p' && "session_id"@[0] == 's');
                assert("turn_id"@[1] == 'u' && "transport"@[1] == 'r');
            }
            let r = Json::object().with("provider", Json::Text(receipt.provider.clone())).with(
                "session_id",
                Json::Text(receipt.session_id.clone()),
            ).with("turn_id", Json::Text(receipt.turn_id.clone())).with(
                "transport",
                transport_text(receipt.transport),
            ).build();
            assert(r->Object_0@.dom() =~= set![
                "provider"@,
                "session_id"@,
                "turn_id"@,
                "transport"@,
            ]);
            r
        },
    }
}

impl EngineEvent {
    /// The event as a line of its session's activity. A target without a colon names no session.
    pub fn as_session_log(&self) -> (r: Option<SessionLog>)
        ensures
            match text::split_once_view(self.target@, ":"@) {
                Some((provider, session)) => r is Some && is_event_log(
                    r->0,
                    *self,
                    provider,
                    session,
                ),
                None => r is None,
            },
    {
        let (provider, session_id) = match text::split_once(self.target.as_str(), ":") {
            Some(parts) => parts,
            None => {
                return None;
            },
        };
        proof {
            reveal_strlit("attempt");
            reveal_strlit("max_attempts");
            reveal_strlit("prompt");
            reveal_strlit("receipt");
            reveal_strlit("provider_code");
            assert("attempt"@[0] == 'a' && "max_attempts"@[0] == 'm' && "prompt"@[0] == 'p');
            assert("receipt"@[0] == 'r' && "provider_code"@[0] == 'p');
            assert("prompt"@.len() != "provider_code"@.len());
        }
        let metadata = Json::object().with("attempt", optional_number(self.attempt)).with(
            "max_attempts",
            optional_number(self.max_attempts),
        ).with("prompt", optional_text(&self.prompt)).with(
            "receipt",
            optional_receipt(&self.receipt),
        ).with(
            "provider_code",
            match &self.failure {
                Some(failure) => Json::Text(failure.provider_code.clone()),
                None => Json::Null,
            },
        ).build();
        assert(metadata->Object_0@.dom() =~= set![
            "attempt"@,
            "max_attempts"@,
            "prompt"@,
            "receipt"@,
            "provider_code"@,
        ]);
        let turn_id = match &self.failure {
            Some(failure) => Some(failure.turn_id.clone()),
            None => match &self.receipt {
                Some(receipt) => Some(receipt.turn_id.clone()),
                None => None,
            },
        };
        Some(
            SessionLog {
                timestamp: Some(self.timestamp),
                provider,
                session_id,
                source: "watchcat".to_owned(),
                kind: self.kind.clone(),
                role: None,
                turn_id,
                condition: self.condition.clone(),
                message: self.message.clone(),
                metadata,
            },
        )
    }
}

/// Sessions with the same key are the same where no provider's name holds a colon.
pub proof fn lemma_key_determines_session(
    provider: Seq<char>,
    id: Seq<char>,
    other_provider: Seq<char>,
    other_id: Seq<char>,
)
    requires
        !provider.contains(':'),
        !other_provider.contains(':'),
        session_key(provider, id) == session_key(other_provider, other_id),
    ensures
        provider == other_provider,
        id == other_id,
{
    reveal_strlit(":");
    let a = session_key(provider, id);
    let b = session_key(other_provider, other_id);
    assert(a[provider.len() as int] == ':');
    assert(b[other_provider.len() as int] == ':');
    if provider.len() < other_provider.len() {
        assert(b[provider.len() as int] == other_provider[provider.len() as int]);
        assert(false);
    }
    if other_provider.len() < provider.len() {
        assert(a[other_provider.len() as int] == provider[other_provider.len() as int]);
        assert(false);
    }
    assert(provider =~= other_provider) by {
        assert(a.take(provider.len() as int) =~= provider);
        assert(b.take(provider.len() as int) =~= other_provider);
    }
    assert(id =~= other_id) by {
        assert(a.skip(provider.len() as int + 1) =~= id);
        assert(b.skip(provider.len() as int + 1) =~= other_id);
    }
}

} // verus!
