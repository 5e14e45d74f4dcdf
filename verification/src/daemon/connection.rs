//! How a connection of a client is served.

use vstd::prelude::*;
use vstd::string::*;

use crate::daemon::control;
use crate::daemon::control::{ControlMethod, RetryNotPrepared};
use crate::daemon::methods;
use crate::daemon::retries;
use crate::daemon::retries::{AcceptError, RetryOperationRegistry};
use crate::json;
use crate::json::{Json, Plain};
use crate::models::{Session, WatchTarget};
use crate::protocol;
use crate::protocol::{RpcNotification, RpcRequest, RpcResponse, PROTOCOL_VERSION};
use crate::state::watchlist;
use crate::text;

verus! {

/// How long a request may take to arrive.
pub const FRAME_TIMEOUT_SECONDS: u64 = 10;

/// How often a quiet subscription is told that the service is there.
pub const HEARTBEAT_SECONDS: u64 = 20;

/// Whether a connection is served: only one of the service's own user is.
pub fn accepts_peer(peer: Option<u32>, user: u32) -> (r: bool)
    ensures
        r == (peer == Some(user)),
{
    match peer {
        Some(peer) => peer == user,
        None => false,
    }
}

/// How a request is served.
#[derive(Clone, Copy, Debug, PartialEq, Eq, Structural)]
pub enum Route {
    /// The connection stays open and is told what happens.
    Subscribe,
    /// The state of a retry is asked for.
    RetryStatus,
    /// A retry is asked for.
    RetryNow,
    /// A provider is asked.
    Provider,
    /// A provider is asked whether there is the session, before it is added.
    ValidatedAdd,
    /// The service answers, while no continuation is on its way.
    Boundary,
    /// The service answers.
    Control,
    /// The connection is closed: the request does not speak the protocol.
    Refused,
}

/// The request adds a session and wants it checked.
pub open spec fn adds_validated(method: Seq<char>, params: Json) -> bool {
    text::listed(control::method_names(ControlMethod::AddSession), method)
        && methods::wants_validation(params)
}

/// The request is about what a provider has; the managed sessions are listed without it.
pub open spec fn asks_provider(method: Seq<char>, params: Json) -> bool {
    &&& !text::listed(control::method_names(ControlMethod::ListSessions), method)
    &&& methods::needs_provider(method, params) || method == "sessions.search"@
}

/// How a request is served.
pub open spec fn route_of(request: RpcRequest) -> Route {
    let method = request.method@;
    let spoken = request.version == PROTOCOL_VERSION;
    if method == "events.subscribe"@ {
        if spoken {
            Route::Subscribe
        } else {
            Route::Refused
        }
    } else if method == "sessions.retry_status"@ {
        if spoken {
            Route::RetryStatus
        } else {
            Route::Refused
        }
    } else if method == "sessions.retry_now"@ {
        if spoken {
            Route::RetryNow
        } else {
            Route::Refused
        }
    } else if adds_validated(method, request.params) {
        Route::ValidatedAdd
    } else if asks_provider(method, request.params) {
        Route::Provider
    } else if text::listed(methods::boundary_methods(), method) {
        Route::Boundary
    } else {
        Route::Control
    }
}

fn names_method(method: &str, wanted: ControlMethod) -> (r: bool)
    ensures
        r == text::listed(control::method_names(wanted), method@),
{
    match control::find_method(method) {
        Some(found) => {
            let same = found == wanted;
            proof {
                if !same {
                    control::lemma_method_names_differ(found, wanted, method@);
                }
            }
            same
        },
        None => false,
    }
}

/// What a provider is asked for.
#[derive(Clone, Copy, Debug, PartialEq, Eq, Structural)]
pub enum ProviderMethod {
    Search,
    Logs,
    Send,
    Interrupt,
    /// Whether there is the session that is to be added.
    Validate,
}

/// What a provider is asked for by a method, if it is asked.
pub open spec fn provider_method_of(method: Seq<char>) -> Option<ProviderMethod> {
    if method == "sessions.search"@ {
        Some(ProviderMethod::Search)
    } else if method == "sessions.logs"@ {
        Some(ProviderMethod::Logs)
    } else if method == "sessions.send"@ {
        Some(ProviderMethod::Send)
    } else if method == "sessions.interrupt"@ {
        Some(ProviderMethod::Interrupt)
    } else if text::listed(control::method_names(ControlMethod::AddSession), method) {
        Some(ProviderMethod::Validate)
    } else {
        None
    }
}

/// What a provider is asked for by a method, if it is asked.
pub fn provider_method(method: &str) -> (r: Option<ProviderMethod>)
    ensures
        r == provider_method_of(method@),
{
    if text::same(method, "sessions.search") {
        Some(ProviderMethod::Search)
    } else if text::same(method, "sessions.logs") {
        Some(ProviderMethod::Logs)
    } else if text::same(method, "sessions.send") {
        Some(ProviderMethod::Send)
    } else if text::same(method, "sessions.interrupt") {
        Some(ProviderMethod::Interrupt)
    } else if names_method(method, ControlMethod::AddSession) {
        Some(ProviderMethod::Validate)
    } else {
        None
    }
}

/// A request for which a provider is started asks it for something.
pub proof fn started_providers_are_asked(request: RpcRequest)
    requires
        route_of(request) == Route::Provider || route_of(request) == Route::ValidatedAdd,
    ensures
        provider_method_of(request.method@) is Some,
{
    let method = request.method@;
    if route_of(request) == Route::Provider && method != "sessions.search"@ && !text::listed(
        control::method_names(ControlMethod::AddSession),
        method,
    ) {
        let names = methods::provider_methods();
        let lists = control::method_names(ControlMethod::ListSessions);
        let additions = control::method_names(ControlMethod::AddSession);
        if method == "watch.add"@ {
            assert(additions[1]@ == method);
        } else {
            let i = choose|i: int| 0 <= i < names.len() && (#[trigger] names[i])@ == method;
            if i == 0 {
                assert(lists[0]@ == method);
            }
        }
    }
}

/// How a request is served.
pub fn route(request: &RpcRequest) -> (r: Route)
    ensures
        r == route_of(*request),
{
    let method: &str = request.method.as_str();
    let spoken = request.version == PROTOCOL_VERSION;
    if text::same(method, "events.subscribe") {
        return if spoken {
            Route::Subscribe
        } else {
            Route::Refused
        };
    }
    if text::same(method, "sessions.retry_status") {
        return if spoken {
            Route::RetryStatus
        } else {
            Route::Refused
        };
    }
    if text::same(method, "sessions.retry_now") {
        return if spoken {
            Route::RetryNow
        } else {
            Route::Refused
        };
    }
    let validate = match request.params.get("validate") {
        Some(Json::Bool(validate)) => *validate,
        _ => true,
    };
    if names_method(method, ControlMethod::AddSession) && validate {
        return Route::ValidatedAdd;
    }
    if !names_method(method, ControlMethod::ListSessions) && (methods::requires_provider(
        method,
        &request.params,
    ) || text::same(method, "sessions.search")) {
        return Route::Provider;
    }
    if methods::requires_recovery_boundary(method) {
        return Route::Boundary;
    }
    Route::Control
}

/// `response` tells a subscriber that it is one, or that there are too many.
pub open spec fn is_subscription_response(
    response: RpcResponse,
    request: RpcRequest,
    revision: u64,
    free: bool,
) -> bool {
    if free {
        &&& response.version == PROTOCOL_VERSION
        &&& response.id == request.id
        &&& response.revision == revision
        &&& response.error is None
        &&& response.result is Some
        &&& json::shows(
            response.result->0,
            Plain::Object(map!["subscribed"@ => Plain::Bool(true)]),
        )
    } else {
        protocol::is_failure(
            response,
            request.id,
            revision,
            "too_many_subscribers"@,
            "Watchcat supports at most "@ + text::decimal_view(
                methods::MAX_EVENT_SUBSCRIPTIONS as nat,
            ) + " local event subscribers"@,
        )
    }
}

/// What a subscriber is told at first: that it is one, or that there are too many.
pub fn subscription_response(request: &RpcRequest, revision: u64, free: bool) -> (r: RpcResponse)
    ensures
        is_subscription_response(r, *request, revision, free),
{
    if free {
        let subscribed = Json::object().with("subscribed", Json::Bool(true)).build();
        protocol::success(request.id.clone(), revision, subscribed)
    } else {
        let message = "Watchcat supports at most ".to_owned().concat(
            text::decimal(methods::MAX_EVENT_SUBSCRIPTIONS as u64).as_str(),
        ).concat(" local event subscribers");
        protocol::failure(request.id.clone(), revision, "too_many_subscribers", message)
    }
}

/// The connections and the subscriptions that are open. Their numbers are bounded apart from each
/// other.
#[derive(Clone, Copy, Debug, PartialEq, Eq, Structural)]
pub struct Capacity {
    pub connections: usize,
    pub subscriptions: usize,
}

/// A client that comes or goes.
#[derive(Clone, Copy, Debug, PartialEq, Eq, Structural)]
pub enum Passage {
    Comes,
    Goes,
}

/// How many of at most `limit` are in when another one comes, or one goes.
pub open spec fn passed(taken: nat, limit: nat, passage: Passage) -> nat {
    match passage {
        Passage::Comes => if taken < limit {
            taken + 1
        } else {
            taken
        },
        Passage::Goes => if taken > 0 {
            (taken - 1) as nat
        } else {
            0
        },
    }
}

/// How many of at most `limit` are in after all that came and went.
pub open spec fn passed_all(passages: Seq<Passage>, limit: nat) -> nat
    decreases passages.len(),
{
    if passages.len() == 0 {
        0
    } else {
        passed(passed_all(passages.drop_last(), limit), limit, passages.last())
    }
}

impl Capacity {
    /// There are no more than there may be.
    pub open spec fn well_formed(self) -> bool {
        &&& self.connections <= methods::MAX_RPC_CONNECTIONS
        &&& self.subscriptions <= methods::MAX_EVENT_SUBSCRIPTIONS
    }

    /// Nothing is open.
    pub fn new() -> (r: Self)
        ensures
            r.connections == 0,
            r.subscriptions == 0,
            r.well_formed(),
    {
        Capacity { connections: 0, subscriptions: 0 }
    }

    /// Whether a connection may be opened, which it then is.
    pub fn connect(&mut self) -> (opened: bool)
        requires
            old(self).well_formed(),
        ensures
            final(self).well_formed(),
            opened == (old(self).connections < methods::MAX_RPC_CONNECTIONS),
            final(self).connections == passed(
                old(self).connections as nat,
                methods::MAX_RPC_CONNECTIONS as nat,
                Passage::Comes,
            ),
            final(self).subscriptions == old(self).subscriptions,
    {
        if self.connections < methods::MAX_RPC_CONNECTIONS {
            self.connections += 1;
            true
        } else {
            false
        }
    }

    /// Takes up that a connection was closed.
    pub fn disconnect(&mut self)
        requires
            old(self).well_formed(),
        ensures
            final(self).well_formed(),
            final(self).connections == passed(
                old(self).connections as nat,
                methods::MAX_RPC_CONNECTIONS as nat,
                Passage::Goes,
            ),
            final(self).subscriptions == old(self).subscriptions,
    {
        if self.connections > 0 {
            self.connections -= 1;
        }
    }

    /// Answers a request to subscribe, and takes up the subscription where there is room for it.
    pub fn subscribe(&mut self, request: &RpcRequest, revision: u64) -> (r: (RpcResponse, bool))
        requires
            old(self).well_formed(),
        ensures
            final(self).well_formed(),
            r.1 == (old(self).subscriptions < methods::MAX_EVENT_SUBSCRIPTIONS),
            is_subscription_response(r.0, *request, revision, r.1),
            final(self).subscriptions == passed(
                old(self).subscriptions as nat,
                methods::MAX_EVENT_SUBSCRIPTIONS as nat,
                Passage::Comes,
            ),
            final(self).connections == old(self).connections,
    {
        let free = self.subscriptions < methods::MAX_EVENT_SUBSCRIPTIONS;
        if free {
            self.subscriptions += 1;
        }
        (subscription_response(request, revision, free), free)
    }

    /// Takes up that a subscriber has left.
    pub fn unsubscribe(&mut self)
        requires
            old(self).well_formed(),
        ensures
            final(self).well_formed(),
            final(self).subscriptions == passed(
                old(self).subscriptions as nat,
                methods::MAX_EVENT_SUBSCRIPTIONS as nat,
                Passage::Goes,
            ),
            final(self).connections == old(self).connections,
    {
        if self.subscriptions > 0 {
            self.subscriptions -= 1;
        }
    }
}

/// Whoever comes and goes, there are never more subscriptions than there may be. Where there are as
/// many, another subscriber finds no room, and as soon as one has left, the next one does.
pub proof fn subscriptions_are_bounded(passages: Seq<Passage>)
    ensures
        ({
            let limit = methods::MAX_EVENT_SUBSCRIPTIONS as nat;
            let open = passed_all(passages, limit);
            &&& open <= limit
            &&& open == limit ==> passed_all(passages.push(Passage::Comes), limit) == open
            &&& open == limit ==> passed_all(
                passages.push(Passage::Goes).push(Passage::Comes),
                limit,
            ) == limit
            &&& open == limit ==> passed_all(passages.push(Passage::Goes), limit) < limit
        }),
    decreases passages.len(),
{
    let limit = methods::MAX_EVENT_SUBSCRIPTIONS as nat;
    if passages.len() > 0 {
        subscriptions_are_bounded(passages.drop_last());
    }
    let gone = passages.push(Passage::Goes);
    assert(passages.push(Passage::Comes).drop_last() =~= passages);
    assert(gone.drop_last() =~= passages);
    assert(gone.push(Passage::Comes).drop_last() =~= gone);
    assert(passed_all(gone, limit) == passed(passed_all(passages, limit), limit, Passage::Goes));
}

/// `notification` tells subscribers of an event.
pub open spec fn tells(
    notification: RpcNotification,
    event: Seq<char>,
    revision: u64,
    data: Plain,
) -> bool {
    &&& notification.version == PROTOCOL_VERSION
    &&& notification.event@ == event
    &&& notification.revision == revision
    &&& json::shows(notification.data, data)
}

/// What a subscriber is told where nothing happens.
pub fn heartbeat(revision: u64) -> (r: RpcNotification)
    ensures
        tells(r, "service.heartbeat"@, revision, Plain::Null),
{
    RpcNotification {
        version: PROTOCOL_VERSION,
        event: "service.heartbeat".to_owned(),
        revision,
        data: Json::Null,
    }
}

/// What a subscriber is told that missed something.
pub fn resync_required(revision: u64) -> (r: RpcNotification)
    ensures
        tells(r, "state.resync_required"@, revision, Plain::Null),
{
    RpcNotification {
        version: PROTOCOL_VERSION,
        event: "state.resync_required".to_owned(),
        revision,
        data: Json::Null,
    }
}

/// What happens on a subscription.
#[derive(Debug)]
pub enum SubscriberEvent {
    /// The subscriber closed the connection.
    Disconnected,
    /// The subscriber sent something.
    Data,
    /// Subscribers are told something.
    Told(RpcNotification),
    /// So much was told that some of it is lost.
    Lagged,
    /// Nothing will be told any longer.
    Closed,
    /// Nothing was told for a while.
    Quiet,
}

/// What is done on a subscription.
#[derive(Debug)]
pub enum SubscriberStep {
    Send(RpcNotification),
    /// The connection is closed.
    End,
    /// The connection is closed, since a subscriber has nothing to send.
    Refuse,
}

/// What is done about what happens on a subscription: what is told is passed on as it is, and a
/// subscriber that missed something is told so.
pub fn subscriber_step(event: SubscriberEvent, revision: u64) -> (r: SubscriberStep)
    ensures
        match event {
            SubscriberEvent::Disconnected => r is End,
            SubscriberEvent::Data => r is Refuse,
            SubscriberEvent::Told(told) => r == SubscriberStep::Send(told),
            SubscriberEvent::Lagged => r is Send && tells(
                r->Send_0,
                "state.resync_required"@,
                revision,
                Plain::Null,
            ),
            SubscriberEvent::Closed => r is End,
            SubscriberEvent::Quiet => r is Send && tells(
                r->Send_0,
                "service.heartbeat"@,
                revision,
                Plain::Null,
            ),
        },
{
    match event {
        SubscriberEvent::Disconnected => SubscriberStep::End,
        SubscriberEvent::Data => SubscriberStep::Refuse,
        SubscriberEvent::Told(told) => SubscriberStep::Send(told),
        SubscriberEvent::Lagged => SubscriberStep::Send(resync_required(revision)),
        SubscriberEvent::Closed => SubscriberStep::End,
        SubscriberEvent::Quiet => SubscriberStep::Send(heartbeat(revision)),
    }
}

fn state_changed(method: &str, revision: u64) -> (r: RpcNotification)
    ensures
        tells(
            r,
            "state.changed"@,
            revision,
            Plain::Object(map!["method"@ => Plain::Text(method@)]),
        ),
{
    let data = Json::object().with("method", json::text_value(method)).build();
    RpcNotification {
        version: PROTOCOL_VERSION,
        event: "state.changed".to_owned(),
        revision,
        data,
    }
}

/// What subscribers are told once a request was answered: that something changed, where the
/// request changes something and succeeded.
pub fn announcement(method: &str, response: &RpcResponse) -> (r: Option<RpcNotification>)
    ensures
        match r {
            Some(told) => {
                &&& response.error is None
                &&& text::listed(methods::mutating_methods(), method@)
                &&& tells(
                    told,
                    "state.changed"@,
                    response.revision,
                    Plain::Object(map!["method"@ => Plain::Text(method@)]),
                )
            },
            None => response.error is Some || !text::listed(methods::mutating_methods(), method@),
        },
{
    if response.error.is_none() && methods::is_mutation(method) {
        Some(state_changed(method, response.revision))
    } else {
        None
    }
}

/// What subscribers are told of what the engine did, where it did something.
pub fn engine_announcement(events: Json, empty: bool, revision: u64) -> (r: Option<RpcNotification>)
    ensures
        match r {
            Some(told) => !empty && tells(
                told,
                "engine.events"@,
                revision,
                Plain::Given(events),
            ),
            None => empty,
        },
{
    if empty {
        return None;
    }
    Some(
        RpcNotification {
            version: PROTOCOL_VERSION,
            event: "engine.events".to_owned(),
            revision,
            data: events,
        },
    )
}

/// What subscribers are told after a poll that changed something.
pub fn reconcile_announcement(before: u64, revision: u64) -> (r: Option<RpcNotification>)
    ensures
        match r {
            Some(told) => before != revision && tells(
                told,
                "state.changed"@,
                revision,
                Plain::Object(map!["method"@ => Plain::Text("service.reconcile"@)]),
            ),
            None => before == revision,
        },
{
    if before == revision {
        None
    } else {
        Some(state_changed("service.reconcile", revision))
    }
}

/// What subscribers are told of a retry that ended.
pub fn retry_announcement(operation: Json, revision: u64) -> (r: RpcNotification)
    ensures
        tells(r, "retry.operation_changed"@, revision, Plain::Given(operation)),
{
    RpcNotification {
        version: PROTOCOL_VERSION,
        event: "retry.operation_changed".to_owned(),
        revision,
        data: operation,
    }
}

/// The answer to a request that a provider was asked for.
pub fn provider_response(request: &RpcRequest, revision: u64, answer: Result<Json, String>) -> (r:
    RpcResponse)
    ensures
        match answer {
            Ok(result) => {
                &&& r.version == PROTOCOL_VERSION
                &&& r.id == request.id
                &&& r.revision == revision
                &&& r.result == Some(result)
                &&& r.error is None
            },
            Err(message) => protocol::is_failure(
                r,
                request.id,
                revision,
                "request_failed"@,
                message@,
            ),
        },
{
    match answer {
        Ok(result) => protocol::success(request.id.clone(), revision, result),
        Err(message) => protocol::failure(request.id.clone(), revision, "request_failed", message),
    }
}

/// The answer to a retry that is not accepted.
pub fn retry_refused(request: &RpcRequest, revision: u64, message: String) -> (r: RpcResponse)
    ensures
        protocol::is_failure(r, request.id, revision, "retry_not_accepted"@, message@),
{
    protocol::failure(request.id.clone(), revision, "retry_not_accepted", message)
}

/// The answer to a retry that cannot be prepared.
pub fn retry_unprepared(request: &RpcRequest, revision: u64, error: RetryNotPrepared) -> (r:
    RpcResponse)
    ensures
        protocol::is_failure(
            r,
            request.id,
            revision,
            "retry_not_accepted"@,
            error.message_view(),
        ),
{
    retry_refused(request, revision, error.message())
}

/// The answer to a retry that the registry does not take.
pub fn retry_unaccepted(request: &RpcRequest, revision: u64, error: AcceptError) -> (r: RpcResponse)
    ensures
        protocol::is_failure(
            r,
            request.id,
            revision,
            "retry_not_accepted"@,
            error.message_view(),
        ),
{
    retry_refused(request, revision, error.message())
}

/// Why the state of a retry cannot be told.
#[derive(Clone, Copy, Debug, PartialEq, Eq, Structural)]
pub enum StatusRefusal {
    /// The request names no operation.
    NoOperation,
    /// The time of the operation cannot be written.
    UnwritableTime,
}

/// The state of the retry that a request names, or that there is none any longer.
pub fn retry_status(
    request: &RpcRequest,
    registry: &RetryOperationRegistry,
    revision: u64,
) -> (r: Result<RpcResponse, StatusRefusal>)
    ensures
        match request.params.member_text("operation_id"@) {
            None => r == Err::<RpcResponse, StatusRefusal>(StatusRefusal::NoOperation),
            Some(id) => if !registry.operations@.contains_key(id) {
                r is Ok && protocol::is_failure(
                    r->Ok_0,
                    request.id,
                    revision,
                    "operation_not_found"@,
                    "manual retry operation is no longer available"@,
                )
            } else if !registry.operations@[id].updated_at.writable() {
                r == Err::<RpcResponse, StatusRefusal>(StatusRefusal::UnwritableTime)
            } else {
                &&& r is Ok
                &&& r->Ok_0.version == PROTOCOL_VERSION
                &&& r->Ok_0.id == request.id
                &&& r->Ok_0.revision == revision
                &&& r->Ok_0.error is None
                &&& r->Ok_0.result is Some
                &&& retries::is_operation_json(r->Ok_0.result->0, registry.operations@[id])
            },
        },
{
    let id: &str = match request.params.get_str("operation_id") {
        Some(id) => id,
        None => {
            return Err(StatusRefusal::NoOperation);
        },
    };
    match registry.operations.get(id) {
        None => Ok(
            protocol::failure(
                request.id.clone(),
                revision,
                "operation_not_found",
                "manual retry operation is no longer available".to_owned(),
            ),
        ),
        Some(operation) => match operation.value() {
            Some(value) => Ok(protocol::success(request.id.clone(), revision, value)),
            None => Err(StatusRefusal::UnwritableTime),
        },
    }
}

/// The targets of a provider, where one is asked for, and of these the first `limit`.
pub open spec fn listed(
    targets: Seq<WatchTarget>,
    provider: Option<Seq<char>>,
    limit: Option<usize>,
) -> Seq<WatchTarget> {
    let found = targets.filter(
        |target: WatchTarget| provider is None || target.provider@ == provider->0,
    );
    match limit {
        Some(limit) if limit < found.len() => found.take(limit as int),
        _ => found,
    }
}

/// Lists targets: those of a provider, where one is asked for, and of these the first `limit`.
pub fn list_targets(
    targets: &Vec<WatchTarget>,
    provider: Option<&str>,
    limit: Option<usize>,
) -> (r: Vec<WatchTarget>)
    ensures
        r@ == listed(
            targets@,
            match provider {
                Some(provider) => Some(provider@),
                None => None,
            },
            limit,
        ),
{
    let ghost wanted = match provider {
        Some(provider) => Some(provider@),
        None => None,
    };
    let ghost keep = |target: WatchTarget| wanted is None || target.provider@ == wanted->0;
    let mut r: Vec<WatchTarget> = Vec::new();
    let mut i: usize = 0;
    assert(targets@.take(0).filter(keep) =~= Seq::empty()) by {
        reveal(Seq::filter);
    }
    while i < targets.len()
        invariant
            i <= targets@.len(),
            wanted == (match provider {
                Some(provider) => Some(provider@),
                None => None,
            }),
            keep == (|target: WatchTarget| wanted is None || target.provider@ == wanted->0),
            r@ == targets@.take(i as int).filter(keep),
        decreases targets@.len() - i,
    {
        let kept = match provider {
            Some(provider) => text::same(targets[i].provider.as_str(), provider),
            None => true,
        };
        proof {
            let next = targets@.take(i + 1);
            assert(next.drop_last() =~= targets@.take(i as int));
            assert(next.last() == targets@[i as int]);
            reveal(Seq::filter);
        }
        if kept {
            r.push(targets[i].clone());
        }
        i += 1;
    }
    assert(targets@.take(i as int) =~= targets@);
    match limit {
        Some(limit) => {
            if limit < r.len() {
                r.truncate(limit);
            }
        },
        None => {},
    }
    r
}

/// Which of the sessions are watched.
pub fn watched_sessions(sessions: &Vec<Session>, targets: &Vec<WatchTarget>) -> (r: Vec<bool>)
    ensures
        r@.len() == sessions@.len(),
        forall|i: int|
            0 <= i < r@.len() ==> (#[trigger] r@[i]) == watchlist::watches(
                targets@,
                sessions@[i].key_view(),
            ),
{
    let mut r: Vec<bool> = Vec::new();
    let mut i: usize = 0;
    while i < sessions.len()
        invariant
            i <= sessions@.len(),
            r@.len() == i,
            forall|k: int|
                0 <= k < i ==> (#[trigger] r@[k]) == watchlist::watches(
                    targets@,
                    sessions@[k].key_view(),
                ),
        decreases sessions@.len() - i,
    {
        let key = sessions[i].key();
        let mut watched = false;
        let mut j: usize = 0;
        while j < targets.len()
            invariant
                j <= targets@.len(),
                key@ == sessions@[i as int].key_view(),
                watched == exists|k: int|
                    0 <= k < j && (#[trigger] targets@[k]).key_view() == key@,
            decreases targets@.len() - j,
        {
            if text::same(targets[j].key().as_str(), key.as_str()) {
                assert(targets@[j as int].key_view() == key@);
                watched = true;
            }
            j += 1;
        }
        r.push(watched);
        i += 1;
    }
    r
}

/// What a search for sessions is answered; `sessions` are the sessions as they are written.
pub open spec fn search_plain(
    sessions: Seq<Json>,
    watched: Seq<bool>,
    next_cursor: Option<String>,
) -> Plain {
    Plain::Object(
        map![
            "items"@ => Plain::Array(
                Seq::new(
                    sessions.len(),
                    |i: int|
                        Plain::Object(
                            map![
                                "watched"@ => Plain::Bool(watched[i]),
                                "session"@ => Plain::Given(sessions[i]),
                            ],
                        ),
                ),
            ),
            "next_cursor"@ => match next_cursor {
                Some(cursor) => Plain::Text(cursor@),
                None => Plain::Null,
            },
            "has_more"@ => Plain::Bool(next_cursor is Some),
        ],
    )
}

/// What a search for sessions is answered: each with whether it is watched, and where the search
/// goes on.
pub fn search_answer(
    sessions: &Vec<Json>,
    watched: &Vec<bool>,
    next_cursor: &Option<String>,
) -> (r: Json)
    requires
        sessions@.len() == watched@.len(),
    ensures
        json::shows(r, search_plain(sessions@, watched@, *next_cursor)),
{
    let ghost plain = Seq::new(
        sessions@.len(),
        |i: int|
            Plain::Object(
                map![
                    "watched"@ => Plain::Bool(watched@[i]),
                    "session"@ => Plain::Given(sessions@[i]),
                ],
            ),
    );
    let mut items: Vec<Json> = Vec::new();
    let mut i: usize = 0;
    while i < sessions.len()
        invariant
            i <= sessions@.len(),
            sessions@.len() == watched@.len(),
            items@.len() == i,
            plain == Seq::new(
                sessions@.len(),
                |i: int|
                    Plain::Object(
                        map![
                            "watched"@ => Plain::Bool(watched@[i]),
                            "session"@ => Plain::Given(sessions@[i]),
                        ],
                    ),
            ),
            forall|k: int| 0 <= k < i ==> json::shows(#[trigger] items@[k], plain[k]),
        decreases sessions@.len() - i,
    {
        let session = sessions[i].clone();
        assert(json::shows(session, Plain::Given(sessions@[i as int])));
        let item = Json::object().with("watched", Json::Bool(watched[i])).with(
            "session",
            session,
        ).build();
        assert(json::shows(item, plain[i as int]));
        items.push(item);
        i += 1;
    }
    assert forall|k: int| 0 <= k < plain.len() implies json::shows(items@[k], #[trigger] plain[k]) by {
        assert(json::shows(items@[k], plain[k]));
    }
    Json::object().with("items", Json::array(items)).with(
        "next_cursor",
        json::optional_text(next_cursor),
    ).with("has_more", Json::Bool(next_cursor.is_some())).build()
}

} // verus!
