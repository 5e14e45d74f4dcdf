use watchcat::client::{
    accept_response, new_request, read_frame, read_frame_with_limit, validate_response_version, write_frame,
    ClientError, FrameRead, WatchcatClient,
};
use watchcat::config::{PolicyOverride, Settings};
use watchcat::daemon::activity::{
    merge_activity, message_to_send, provider_failure_log, search_limit,
};
use watchcat::daemon::connection::{
    accepts_peer, announcement, engine_announcement, heartbeat, provider_method,
    provider_response,
    reconcile_announcement, resync_required, retry_announcement, retry_status, retry_unaccepted,
    retry_unprepared, route, search_answer, subscriber_step, subscription_response, Capacity,
    watched_sessions, ProviderMethod, Route, StatusRefusal, SubscriberEvent, SubscriberStep,
};
use watchcat::daemon::control::{
    check_change, find_method, reset_policies, set_policy, Change, ControlError, ControlMethod,
    ControlRequest, Reply, RetryNotPrepared, WatchcatDaemon,
};
use watchcat::daemon::methods::{
    check_protocol, encode_response, is_mutation, is_reliability_log, provider_log_limit,
    request_provider, requires_provider, requires_recovery_boundary, MAX_EVENT_SUBSCRIPTIONS,
    MAX_RPC_CONNECTIONS,
};
use watchcat::daemon::reconcile::{
    activity_cutoff, is_sweep_due, monthly_metrics, protected_keys, ProviderScan,
};
use watchcat::daemon::retries::{
    cancelled, AcceptError, Accepted, RetryOperation, RetryOperationRegistry, RetryResult,
};
use watchcat::engine::RecoveryPermit;
use watchcat::json::{text_value, Json};
use watchcat::models::{
    PolicyAction, Session, SessionLog, SessionState, TrackingSource, WatchTarget,
};
use watchcat::protocol::{
    default_provider, failure, response_json, success, ActivityQuery, PolicyUpdate, RpcRequest,
    RpcResponse, SessionQuery, SessionRef, WatchAdd, MAX_ACTIVITY_ITEMS, MAX_FRAME_BYTES,
    PROTOCOL_VERSION,
};
use watchcat::state::{
    ControlDocument, ControlStateStore, RecoveryMetrics, RecoveryOutcome, RuntimeState,
    WatchlistStore,
};
use watchcat::textmap::TextMap;
use watchcat::time::{start_of_month, Timestamp};

fn json(text: &str) -> Json {
    Json::from_bytes(&text.as_bytes().to_vec()).unwrap()
}

fn at(seconds: i64) -> Timestamp {
    Timestamp { seconds: 1_789_000_000 + seconds, nanos: 0 }
}

fn session_ref(id: &str) -> SessionRef {
    SessionRef { provider: "codex".into(), session_id: id.into() }
}

fn request(method: &str, params: &str) -> RpcRequest {
    RpcRequest {
        version: PROTOCOL_VERSION,
        id: "request".into(),
        method: method.into(),
        params: json(params),
        expected_revision: None,
    }
}

fn log(seconds: Option<i64>, kind: &str, source: &str) -> SessionLog {
    SessionLog {
        timestamp: seconds.map(at),
        provider: "codex".into(),
        session_id: "one".into(),
        source: source.into(),
        kind: kind.into(),
        role: None,
        turn_id: None,
        condition: None,
        message: kind.into(),
        metadata: Json::Null,
    }
}

fn target(id: &str) -> WatchTarget {
    WatchTarget {
        source: TrackingSource::Manual,
        provider: "codex".into(),
        session_id: id.into(),
        label: None,
        title: None,
        added_at: at(0),
        last_activity_at: None,
    }
}

fn session(id: &str, updated: Option<i64>, state: SessionState) -> Session {
    Session {
        provider: "codex".into(),
        id: id.into(),
        title: id.into(),
        state,
        updated_at: updated.map(at),
        metadata: Json::Null,
    }
}

fn daemon() -> WatchcatDaemon {
    WatchcatDaemon {
        settings: Settings::default(),
        watchlist: WatchlistStore::new("/s/watchlist.json".into()),
        control: ControlStateStore::load("/s/control.json".into(), None).unwrap(),
        attention_target_keys: Vec::new(),
        metrics: RecoveryMetrics::default(),
        last_sweep_at: None,
        config_modified: None,
    }
}

fn policy_override() -> PolicyOverride {
    PolicyOverride {
        action: None,
        backoff: None,
        initial_delay_seconds: None,
        max_delay_seconds: None,
        max_attempts: None,
        prompt: None,
    }
}

#[test]
fn frames_round_trip() {
    let mut stream = write_frame(&b"watchcat".to_vec()).unwrap();
    assert_eq!(stream[..4], [0, 0, 0, 8]);
    stream.extend_from_slice(b"rest");
    match read_frame(&stream) {
        FrameRead::Frame { payload, taken } => {
            assert_eq!(payload, b"watchcat");
            assert_eq!(taken, 12);
        }
        other => panic!("{other:?}"),
    }
    assert!(matches!(read_frame(&stream[..11].to_vec()), FrameRead::Incomplete));
    assert!(matches!(read_frame(&stream[..3].to_vec()), FrameRead::Incomplete));
}

#[test]
fn request_frame_limit_is_checked_before_allocation() {
    let stream = 1_025_u32.to_be_bytes().to_vec();
    match read_frame_with_limit(&stream, 1_024) {
        FrameRead::TooLarge(error) => assert!(error.message().contains("exceeds 1024 bytes")),
        other => panic!("{other:?}"),
    }
    let error = write_frame(&vec![0; MAX_FRAME_BYTES + 1]).unwrap_err();
    assert_eq!(error.limit, MAX_FRAME_BYTES);
}

#[test]
fn rejects_an_incompatible_response_protocol() {
    let error = validate_response_version(PROTOCOL_VERSION + 1).unwrap_err();
    assert!(error.message().contains("is not supported"));
}

#[test]
fn requests_are_made_under_identifiers_of_their_own() {
    let first = new_request("service.ping", Json::Null, None);
    let second = new_request("policies.set", text_value("x"), Some(3));
    assert_eq!(second.version, PROTOCOL_VERSION);
    assert_eq!(second.method, "policies.set");
    assert_eq!(second.params.as_str(), Some("x"));
    assert_eq!((first.expected_revision, second.expected_revision), (None, Some(3)));
    assert_eq!(first.id.len(), 36);
    assert_ne!(first.id, second.id);
    assert!(accept_response(&first.id, success(first.id.clone(), 1, Json::Null)).is_ok());
    assert!(accept_response(&first.id, success(second.id, 1, Json::Null)).is_err());
}

#[test]
fn answers_are_accepted_for_their_request_only() {
    let client = WatchcatClient::new("/s/watchcat.sock".into());
    assert_eq!(client.socket_path(), "/s/watchcat.sock");
    let (result, revision) =
        accept_response("a", success("a".into(), 7, text_value("done"))).unwrap();
    assert_eq!(result.as_str(), Some("done"));
    assert_eq!(revision, 7);
    assert!(matches!(
        accept_response("b", success("a".into(), 7, Json::Null)),
        Err(ClientError::WrongRequest)
    ));
    let refused = failure("a".into(), 7, "request_failed", "no".into());
    match accept_response("a", refused).unwrap_err() {
        ClientError::Failed { code, message } => {
            assert_eq!(code, "request_failed");
            assert_eq!(message, "no");
        }
        other => panic!("{other:?}"),
    }
    let mut old = success("a".into(), 7, Json::Null);
    old.version = 1;
    assert!(matches!(accept_response("a", old), Err(ClientError::ProtocolMismatch(1))));
}

#[test]
fn reliability_activity_reads_a_larger_provider_window_before_filtering() {
    let query = ActivityQuery {
        session: SessionRef { provider: "codex".into(), session_id: "session".into() },
        limit: 100,
        category: None,
        reliability_only: true,
    };

    assert_eq!(provider_log_limit(&query), 1_000);
}

#[test]
fn full_activity_keeps_the_requested_provider_window() {
    let query = ActivityQuery {
        session: SessionRef { provider: "codex".into(), session_id: "session".into() },
        limit: 100,
        category: None,
        reliability_only: false,
    };

    assert_eq!(provider_log_limit(&query), 100);
}

#[test]
fn provider_methods_are_kept_off_the_control_plane() {
    for method in ["sessions.list", "sessions.logs", "sessions.send", "sessions.interrupt"] {
        assert!(requires_provider(method, &json("{}")), "{method}");
    }
    assert!(requires_provider("watch.add", &json("{\"validate\": true}")));
    assert!(!requires_provider("watch.add", &json("{\"validate\": false}")));
    for method in [
        "snapshot.get",
        "guard.set",
        "guard.pause",
        "watch.list",
        "watch.update",
        "watch.remove",
        "policies.list",
        "policies.set",
        "config.get",
        "config.set_lifecycle",
    ] {
        assert!(!requires_provider(method, &json("{}")), "{method}");
    }
}

#[test]
fn failed_business_commit_still_invalidates_the_old_revision() {
    let mut daemon = daemon();
    let old_revision = daemon.revision();
    let update = PolicyUpdate {
        condition: "network.timeout".into(),
        policy: PolicyOverride { action: Some(PolicyAction::Skip), ..policy_override() },
    };
    let plan = daemon
        .plan(ControlRequest::SetPolicy(update), Some(old_revision), at(0))
        .unwrap();
    let change = plan.change.unwrap();
    assert!(check_change(&change).is_ok());
    let next = daemon.bump_revision(true).unwrap();
    daemon.commit(change, false);
    assert!(daemon.settings.policies.is_empty());
    assert!(daemon.revision() > old_revision);
    assert_eq!(daemon.revision(), next);
    let stored = ControlDocument { version: 2, revision: next };
    let reopened = ControlStateStore::load("/s/control.json".into(), Some(stored)).unwrap();
    assert!(reopened.revision() > old_revision);
}

fn accept(registry: &mut RetryOperationRegistry, session: &SessionRef, key: &str) -> (String, bool) {
    match registry.accept(session, key, at(0)).unwrap() {
        Accepted::Existing(id) => (id, false),
        Accepted::Started { operation_id, .. } => (operation_id, true),
    }
}

#[test]
fn retry_operations_are_bounded_and_deduplicated_per_session() {
    let session = session_ref("session");
    let mut registry = RetryOperationRegistry::new("/s/retry-operations.json".into());
    let (operation, should_start) = accept(&mut registry, &session, "request-1");
    assert_eq!(registry.operations.get(&operation).unwrap().status, "accepted");
    assert!(should_start);
    let (duplicate, duplicate_should_start) = accept(&mut registry, &session, "request-1");
    assert_eq!(duplicate, operation);
    assert!(!duplicate_should_start);

    assert!(registry.set_running(&operation, at(1)).is_some());
    registry.finish(
        &operation,
        RetryResult::Succeeded(json("{\"turn_id\": \"continued\"}")),
        at(2),
    );
    let finished = registry.operations.get(&operation).unwrap();
    assert_eq!(finished.status, "succeeded");
    assert_eq!(finished.result.as_ref().unwrap().get_str("turn_id"), Some("continued"));
    assert!(accept(&mut registry, &session, "request-2").1);

    let stored: Vec<RetryOperation> = (0..registry.operations.len())
        .map(|index| registry.operations.value_at(index).clone())
        .collect();
    let mut reopened =
        RetryOperationRegistry::load("/s/retry-operations.json".into(), 1, stored, at(3)).unwrap();
    let restored = accept(&mut reopened, &session, "request-1");
    assert_eq!(restored.0, operation);
    assert!(!restored.1);
}

#[test]
fn request_keys_belong_to_one_operation_in_every_later_state() {
    let session = session_ref("session");
    let other = session_ref("other");
    let mut registry = RetryOperationRegistry::new("/s/retry-operations.json".into());
    let (operation, _) = accept(&mut registry, &session, "first");
    assert_eq!(accept(&mut registry, &session, "second"), (operation.clone(), false));
    let (another, started) = accept(&mut registry, &other, "third");
    assert!(started);
    registry.set_running(&operation, at(1));
    assert_eq!(accept(&mut registry, &session, "first"), (operation.clone(), false));
    registry.finish(&operation, RetryResult::Failed("no".into()), at(2));
    assert_eq!(accept(&mut registry, &session, "first"), (operation.clone(), false));
    let stored = registry.stored();
    let mut reopened =
        RetryOperationRegistry::load("/s/retry-operations.json".into(), 1, stored, at(3)).unwrap();
    assert_eq!(accept(&mut reopened, &session, "first"), (operation, false));
    assert_eq!(accept(&mut reopened, &other, "third"), (another, false));
    assert!(matches!(
        reopened.accept(&other, "first", at(4)),
        Err(AcceptError::KeyTaken)
    ));
    assert_eq!(reopened.operations.len(), 2);
}

#[test]
fn unfinished_retry_operation_becomes_unknown_after_restart() {
    let session = session_ref("session");
    let mut registry = RetryOperationRegistry::new("/s/retry-operations.json".into());
    let (accepted, _) = accept(&mut registry, &session, "request");
    registry.set_running(&accepted, at(1));

    let stored = vec![registry.operations.get(&accepted).unwrap().clone()];
    let reopened =
        RetryOperationRegistry::load("/s/retry-operations.json".into(), 1, stored, at(2)).unwrap();
    let restored = reopened.operations.get(&accepted).unwrap();
    assert_eq!(restored.status, "unknown");
    assert!(restored.error.as_deref().unwrap().contains("restarted"));
}

#[test]
fn accepted_retry_can_be_found_after_the_control_revision_changes() {
    let session = session_ref("session");
    let mut registry = RetryOperationRegistry::new("/s/retry-operations.json".into());
    let (accepted, _) = accept(&mut registry, &session, "stable-request-key");

    let recovered = registry.find_request(&session, "stable-request-key").unwrap().unwrap();
    assert_eq!(recovered.operation_id, accepted);
    assert_eq!(recovered.status, "accepted");
}

#[test]
fn retries_that_are_not_accepted_say_why() {
    let mut registry = RetryOperationRegistry::new("/s/retry-operations.json".into());
    let blank = registry.accept(&session_ref("a"), " ", at(0));
    assert_eq!(blank.unwrap_err(), AcceptError::KeyRequired);
    accept(&mut registry, &session_ref("a"), "key");
    let taken = registry.accept(&session_ref("b"), "key", at(0));
    assert_eq!(taken.unwrap_err(), AcceptError::KeyTaken);
    assert_eq!(
        registry.find_request(&session_ref("b"), "key").unwrap_err(),
        AcceptError::KeyTaken
    );
    let mut refused = None;
    for index in 0..200 {
        let outcome = registry
            .accept(&session_ref(&format!("s{index}")), &format!("k{index}"), at(0));
        if let Err(error) = outcome {
            refused = Some(error);
            break;
        }
    }
    assert_eq!(refused, Some(AcceptError::TooManyPending));
}

#[test]
fn unsaved_acceptances_are_taken_back() {
    let mut registry = RetryOperationRegistry::new("/s/retry-operations.json".into());
    match registry.accept(&session_ref("a"), "key", at(0)).unwrap() {
        Accepted::Started { operation_id, undo } => {
            assert!(registry.operations.contains_key(&operation_id));
            registry.undo(undo);
            assert!(registry.operations.is_empty());
        }
        other => panic!("{other:?}"),
    }
    assert_eq!(
        RetryOperationRegistry::load("/s/r.json".into(), 9, Vec::new(), at(0)).unwrap_err().found,
        9
    );
}

#[test]
fn repeated_identifiers_replace_an_operation_until_taken_back() {
    let mut registry = RetryOperationRegistry::new("/s/retry-operations.json".into());
    let first = registry.accept_as(&session_ref("a"), "one", "same".into(), at(0));
    assert!(matches!(first, Ok(Accepted::Started { .. })));
    match registry.accept_as(&session_ref("b"), "two", "same".into(), at(1)).unwrap() {
        Accepted::Started { operation_id, undo } => {
            assert_eq!(operation_id, "same");
            assert_eq!(registry.operations.len(), 1);
            assert_eq!(registry.operations.get("same").unwrap().request_key, "two");
            registry.undo(undo);
        }
        other => panic!("{other:?}"),
    }
    assert_eq!(registry.operations.len(), 1);
    assert_eq!(registry.operations.get("same").unwrap().request_key, "one");
}

#[test]
fn sessions_have_one_operation_that_waits() {
    let mut registry = RetryOperationRegistry::new("/s/retry-operations.json".into());
    let session = session_ref("a");
    let waiting = |registry: &RetryOperationRegistry| {
        (0..registry.operations.len())
            .filter(|at| {
                let status = &registry.operations.value_at(*at).status;
                status == "accepted" || status == "running"
            })
            .count()
    };
    let first = accept(&mut registry, &session, "one").0;
    assert!(!accept(&mut registry, &session, "two").1);
    registry.set_running(&first, at(1));
    assert!(!accept(&mut registry, &session, "three").1);
    assert_eq!(waiting(&registry), 1);
    registry.finish(&first, RetryResult::Failed("no".into()), at(2));
    assert_eq!(waiting(&registry), 0);
    assert!(accept(&mut registry, &session, "four").1);
    assert_eq!(waiting(&registry), 1);
    let stored = registry.stored();
    let reopened =
        RetryOperationRegistry::load("/s/retry-operations.json".into(), 1, stored, at(3)).unwrap();
    assert_eq!(reopened.operations.len(), 2);
    assert_eq!(waiting(&reopened), 0);
}

#[test]
fn forgotten_operations_can_be_put_back() {
    let mut registry = RetryOperationRegistry::new("/s/retry-operations.json".into());
    let id = accept(&mut registry, &session_ref("a"), "one").0;
    let kept = accept(&mut registry, &session_ref("b"), "two").0;
    assert!(registry.forget("nothing").is_none());
    let undo = registry.forget(&id).unwrap();
    assert!(registry.operations.get(&id).is_none());
    assert!(registry.operations.contains_key(&kept));
    registry.undo(undo);
    assert_eq!(registry.operations.get(&id).unwrap().request_key, "one");
    assert_eq!(registry.operations.len(), 2);
}

#[test]
fn random_operation_identifiers_differ() {
    let mut registry = RetryOperationRegistry::new("/s/retry-operations.json".into());
    let first = accept(&mut registry, &session_ref("a"), "one").0;
    let second = accept(&mut registry, &session_ref("b"), "two").0;
    assert_ne!(first, second);
    assert_eq!(first.len(), 36);
}

#[test]
fn lost_acknowledgements_leave_an_operation_unknown() {
    let mut registry = RetryOperationRegistry::new("/s/retry-operations.json".into());
    let id = accept(&mut registry, &session_ref("a"), "one").0;
    registry.finish(&id, RetryResult::Unknown("lost".into()), at(1));
    assert_eq!(registry.operations.get(&id).unwrap().status, "unknown");
    let id = accept(&mut registry, &session_ref("b"), "two").0;
    registry.finish(&id, RetryResult::Failed("refused".into()), at(1));
    let failed = registry.operations.get(&id).unwrap();
    assert_eq!(failed.status, "failed");
    assert_eq!(failed.error.as_deref(), Some("refused"));
    let value = failed.value().unwrap();
    assert_eq!(value.get_str("operation_id"), Some(id.as_str()));
    assert_eq!(value.get_str("updated_at"), Some("2026-09-10T00:26:41Z"));
    assert!(registry.set_running("nothing", at(1)).is_none());
}

#[test]
fn oversized_response_becomes_a_structured_error() {
    let response = RpcResponse {
        version: PROTOCOL_VERSION,
        id: "request".into(),
        revision: 4,
        result: Some(Json::Text("x".repeat(MAX_FRAME_BYTES))),
        error: None,
    };
    let encoded = encode_response(response);
    assert!(encoded.len() < MAX_FRAME_BYTES);
    let fallback = Json::from_bytes(&encoded).unwrap();
    assert_eq!(fallback.get_str("id"), Some("request"));
    assert_eq!(fallback.get("revision").unwrap().as_u64(), Some(4));
    assert_eq!(
        fallback.get_nested("error", "code").unwrap().as_str(),
        Some("response_too_large")
    );
}

#[test]
fn responses_are_written_as_json() {
    let encoded = encode_response(success("r".into(), 3, Json::Bool(true)));
    assert_eq!(
        String::from_utf8(encoded).unwrap(),
        format!("{{\"id\":\"r\",\"result\":true,\"revision\":3,\"version\":{PROTOCOL_VERSION}}}")
    );
    let value = response_json(failure("r".into(), 3, "c", "m".into()));
    assert_eq!(value.get_nested("error", "message").unwrap().as_str(), Some("m"));
    assert!(value.get("result").is_none());
    assert_eq!(default_provider(), "codex");
}

#[test]
fn other_protocol_versions_are_answered_with_an_error() {
    let mut old = request("snapshot.get", "{}");
    assert!(check_protocol(&old, 5).is_ok());
    old.version = 1;
    let response = check_protocol(&old, 5).unwrap_err();
    assert_eq!(response.revision, 5);
    let error = response.error.unwrap();
    assert_eq!(error.code, "protocol_mismatch");
    assert_eq!(error.message, "client protocol 1 is not supported; expected 2");
}

#[test]
fn requests_are_routed_by_what_they_need() {
    assert_eq!(route(&request("events.subscribe", "{}")), Route::Subscribe);
    assert_eq!(route(&request("sessions.retry_status", "{}")), Route::RetryStatus);
    assert_eq!(route(&request("sessions.retry_now", "{}")), Route::RetryNow);
    assert_eq!(route(&request("sessions.search", "{}")), Route::Provider);
    assert_eq!(provider_method("sessions.search"), Some(ProviderMethod::Search));
    assert_eq!(provider_method("sessions.logs"), Some(ProviderMethod::Logs));
    assert_eq!(provider_method("sessions.send"), Some(ProviderMethod::Send));
    assert_eq!(provider_method("sessions.interrupt"), Some(ProviderMethod::Interrupt));
    assert_eq!(provider_method("watch.add"), Some(ProviderMethod::Validate));
    assert_eq!(provider_method("sessions.add"), Some(ProviderMethod::Validate));
    assert_eq!(provider_method("sessions.list"), None);
    assert_eq!(route(&request("sessions.logs", "{}")), Route::Provider);
    assert_eq!(route(&request("sessions.list", "{}")), Route::Control);
    assert_eq!(route(&request("watch.list", "{}")), Route::Control);
    assert_eq!(route(&request("sessions.add", "{}")), Route::ValidatedAdd);
    assert_eq!(route(&request("watch.add", "{\"validate\":false}")), Route::Control);
    assert_eq!(route(&request("sessions.remove", "{}")), Route::Boundary);
    assert_eq!(route(&request("config.policies.set", "{}")), Route::Boundary);
    assert_eq!(route(&request("snapshot.get", "{}")), Route::Control);
    let mut old = request("events.subscribe", "{}");
    old.version = 1;
    assert_eq!(route(&old), Route::Refused);
    assert!(requires_recovery_boundary("policies.set"));
    assert!(!requires_recovery_boundary("snapshot.get"));
}

#[test]
fn only_peers_of_the_same_user_are_served() {
    assert!(accepts_peer(Some(501), 501));
    assert!(!accepts_peer(Some(0), 501));
    assert!(!accepts_peer(None, 501));
}

#[test]
fn subscribers_are_bounded() {
    let accepted = subscription_response(&request("events.subscribe", "{}"), 2, true);
    assert!(accepted.result.unwrap().is_true("subscribed"));
    let refused = subscription_response(&request("events.subscribe", "{}"), 2, false);
    let error = refused.error.unwrap();
    assert_eq!(error.code, "too_many_subscribers");
    assert_eq!(error.message, "Watchcat supports at most 4 local event subscribers");
}

#[test]
fn subscribers_are_told_of_changes() {
    assert_eq!(heartbeat(3).event, "service.heartbeat");
    assert_eq!(resync_required(3).event, "state.resync_required");
    assert!(is_mutation("policies.set"));
    assert!(!is_mutation("policies.list"));
    let done = success("r".into(), 9, Json::Null);
    let told = announcement("watch.remove", &done).unwrap();
    assert_eq!(told.event, "state.changed");
    assert_eq!(told.revision, 9);
    assert_eq!(told.data.get_str("method"), Some("watch.remove"));
    assert!(announcement("watch.list", &done).is_none());
    let failed = failure("r".into(), 9, "c", "m".into());
    assert!(announcement("watch.remove", &failed).is_none());
    assert!(reconcile_announcement(4, 4).is_none());
    let told = reconcile_announcement(4, 5).unwrap();
    assert_eq!(told.data.get_str("method"), Some("service.reconcile"));
    assert!(engine_announcement(Json::array(Vec::new()), true, 1).is_none());
    assert_eq!(engine_announcement(Json::Null, false, 1).unwrap().event, "engine.events");
    assert_eq!(retry_announcement(Json::Null, 1).event, "retry.operation_changed");
}

#[test]
fn retry_states_are_told() {
    let mut registry = RetryOperationRegistry::new("/s/retry-operations.json".into());
    let id = accept(&mut registry, &session_ref("a"), "one").0;
    let asked = request("sessions.retry_status", &format!("{{\"operation_id\":\"{id}\"}}"));
    let told = retry_status(&asked, &registry, 6).unwrap();
    assert_eq!(told.result.unwrap().get_str("status"), Some("accepted"));
    let asked = request("sessions.retry_status", "{\"operation_id\":\"gone\"}");
    let told = retry_status(&asked, &registry, 6).unwrap();
    assert_eq!(told.error.unwrap().code, "operation_not_found");
    assert_eq!(
        retry_status(&request("sessions.retry_status", "{}"), &registry, 6).unwrap_err(),
        StatusRefusal::NoOperation
    );
    let mut strange = registry.operations.get(&id).unwrap().clone();
    strange.updated_at = Timestamp { seconds: i64::MAX, nanos: 0 };
    registry.operations.insert(id.clone(), strange);
    let asked = request("sessions.retry_status", &format!("{{\"operation_id\":\"{id}\"}}"));
    assert_eq!(
        retry_status(&asked, &registry, 6).unwrap_err(),
        StatusRefusal::UnwritableTime
    );
}

#[test]
fn refused_retries_are_answered() {
    let asked = request("sessions.retry_now", "{}");
    let response = retry_unprepared(&asked, 3, RetryNotPrepared::ShuttingDown);
    assert_eq!(response.error.unwrap().message, "Watchcat is shutting down");
    let response = retry_unaccepted(&asked, 3, AcceptError::TooManyPending);
    assert_eq!(response.error.unwrap().code, "retry_not_accepted");
    let response = provider_response(&asked, 3, Err("offline".into()));
    assert_eq!(response.error.unwrap().code, "request_failed");
    let response = provider_response(&asked, 3, Ok(Json::Bool(true)));
    assert_eq!(response.result.unwrap().as_bool(), Some(true));
}

#[test]
fn retries_are_prepared_at_the_current_revision() {
    let daemon = daemon();
    let revision = daemon.revision();
    assert_eq!(daemon.prepare_retry(Some(revision), false).unwrap(), revision);
    assert_eq!(daemon.prepare_retry(None, false).unwrap_err(), RetryNotPrepared::RevisionRequired);
    assert_eq!(
        daemon.prepare_retry(Some(revision), true).unwrap_err(),
        RetryNotPrepared::ShuttingDown
    );
    let error = daemon.prepare_retry(Some(revision + 4), false).unwrap_err();
    assert_eq!(
        error.message(),
        format!("revision conflict: client has {}, server has {revision}", revision + 4)
    );
}

#[test]
fn found_sessions_are_marked_where_they_are_watched() {
    let sessions =
        vec![session("a", None, SessionState::Idle), session("b", None, SessionState::Idle)];
    assert_eq!(watched_sessions(&sessions, &vec![target("b")]), vec![false, true]);
}

#[test]
fn stale_clients_are_refused() {
    let daemon = daemon();
    let revision = daemon.revision();
    let add = WatchAdd {
        session: session_ref("a"),
        label: None,
        protected: false,
        validate: false,
    };
    let error =
        daemon.plan(ControlRequest::AddSession(add), Some(revision + 1), at(0)).unwrap_err();
    assert!(matches!(error, ControlError::RevisionConflict { .. }));
    assert!(error.message().contains("revision conflict"));
    assert!(daemon.check_revision(None).is_ok());
    assert!(daemon.check_revision(Some(revision)).is_ok());
}

#[test]
fn sessions_are_added_listed_and_removed() {
    let mut daemon = daemon();
    let add = WatchAdd {
        session: session_ref("a"),
        label: Some("release".into()),
        protected: false,
        validate: false,
    };
    let plan = daemon.plan(ControlRequest::AddSession(add), None, at(0)).unwrap();
    assert!(matches!(plan.reply, Reply::Added { added: true, .. }));
    daemon.bump_revision(true);
    daemon.commit(plan.change.unwrap(), true);
    match daemon.plan(ControlRequest::ListSessions, None, at(0)).unwrap().reply {
        Reply::Sessions(sessions) => {
            assert_eq!(sessions.len(), 1);
            assert_eq!(sessions[0].label.as_deref(), Some("release"));
        }
        other => panic!("{other:?}"),
    }
    let plan = daemon
        .plan(ControlRequest::RemoveSession(session_ref("a")), None, at(0))
        .unwrap();
    assert!(matches!(plan.reply, Reply::Removed(true)));
    daemon.commit(plan.change.unwrap(), true);
    assert!(daemon.watchlist.list().is_empty());
    assert!(daemon.watchlist.document.excluded.contains_key("codex:a"));
    let again = daemon
        .plan(ControlRequest::RemoveSession(session_ref("a")), None, at(0))
        .unwrap();
    assert!(matches!(again.reply, Reply::Removed(false)));
    assert!(again.change.is_none());
    let unseen = daemon
        .plan(ControlRequest::RemoveSession(session_ref("b")), None, at(0))
        .unwrap();
    assert!(matches!(unseen.reply, Reply::Removed(false)));
    assert!(unseen.change.is_some());
    let unchecked = WatchAdd {
        session: session_ref("a"),
        label: None,
        protected: false,
        validate: true,
    };
    assert!(matches!(
        daemon.plan(ControlRequest::AddSession(unchecked), None, at(0)).unwrap_err(),
        ControlError::NeedsValidation
    ));
}

#[test]
fn policies_are_set_and_reset() {
    let settings = Settings::default();
    let update = PolicyUpdate {
        condition: "network.timeout".into(),
        policy: PolicyOverride { max_attempts: Some(9), ..policy_override() },
    };
    let changed = set_policy(&settings, update).unwrap();
    assert_eq!(changed.policy("network.timeout").max_attempts, 9);
    assert_eq!(changed.policy("network.stream_failed").max_attempts, 5);
    let reset = reset_policies(&changed, Some("network.timeout".into())).unwrap();
    assert!(reset.policies.is_empty());
    assert!(reset_policies(&changed, None).unwrap().policies.is_empty());
    let unknown = PolicyUpdate { condition: "no.such".into(), policy: policy_override() };
    assert!(matches!(set_policy(&settings, unknown), Err(ControlError::UnknownCondition(_))));
    let invalid = PolicyUpdate {
        condition: "network.timeout".into(),
        policy: PolicyOverride { max_attempts: Some(0), ..policy_override() },
    };
    let changed = set_policy(&settings, invalid).unwrap();
    assert!(check_change(&Change::Settings(changed)).is_err());
}

#[test]
fn methods_go_by_their_names() {
    assert_eq!(find_method("service.ping"), Some(ControlMethod::Ping));
    assert_eq!(find_method("sessions.list"), Some(ControlMethod::ListSessions));
    assert_eq!(find_method("watch.list"), Some(ControlMethod::ListSessions));
    assert_eq!(find_method("policies.set"), Some(ControlMethod::SetPolicy));
    assert_eq!(find_method("guard.set"), None);
    assert_eq!(request_provider(&request("x", "{\"provider\":\"other\"}")), "other");
    assert_eq!(request_provider(&request("x", "{}")), "codex");
}

#[test]
fn snapshots_count_sessions_and_recoveries() {
    let mut daemon = daemon();
    daemon.watchlist.add(target("a"));
    daemon.attention_target_keys = vec!["codex:a".into()];
    daemon.metrics = RecoveryMetrics {
        automatic_recoveries: 3,
        manual_recoveries: 1,
        failed_recoveries: 2,
        hands_free_percent: 75,
    };
    let snapshot = daemon.snapshot(at(5));
    assert_eq!(snapshot.watched, 1);
    assert_eq!(snapshot.attention, 1);
    assert_eq!(snapshot.automatic_recoveries, 3);
    assert_eq!(snapshot.hands_free_percent, 75);
    assert!(snapshot.service_online);
}

#[test]
fn activity_is_merged_by_time() {
    let query = ActivityQuery {
        session: session_ref("one"),
        limit: 3,
        category: None,
        reliability_only: false,
    };
    let provider = vec![log(Some(1), "a", "codex"), log(Some(5), "b", "codex"), log(None, "c", "codex")];
    let local = vec![log(Some(3), "d", "watchcat"), log(Some(5), "e", "watchcat")];
    let merged = merge_activity(provider, local, &query);
    let kinds: Vec<&str> = merged.iter().map(|entry| entry.kind.as_str()).collect();
    assert_eq!(kinds, ["d", "b", "e"]);
    let reliable = ActivityQuery { reliability_only: true, ..query };
    let merged = merge_activity(
        vec![log(Some(1), "turn.failed", "codex"), log(Some(2), "message", "codex")],
        vec![log(Some(0), "x", "watchcat")],
        &reliable,
    );
    let kinds: Vec<&str> = merged.iter().map(|entry| entry.kind.as_str()).collect();
    assert_eq!(kinds, ["x", "turn.failed"]);
    assert!(is_reliability_log(&log(None, "provider.error", "provider")));
    let failed = provider_failure_log(&session_ref("one"), "offline".into(), at(0));
    assert_eq!(failed.kind, "provider.error");
    assert_eq!(failed.message, "offline");
}

#[test]
fn queries_are_bounded() {
    let query = |limit| SessionQuery {
        provider: "codex".into(),
        limit,
        query: String::new(),
        cursor: None,
    };
    assert_eq!(search_limit(&query(0)), 1);
    assert_eq!(search_limit(&query(50)), 50);
    assert_eq!(search_limit(&query(9_000)), 500);
    let activity = |limit| ActivityQuery {
        session: session_ref("one"),
        limit,
        category: None,
        reliability_only: false,
    };
    assert!(activity(MAX_ACTIVITY_ITEMS).validate().is_ok());
    assert!(activity(MAX_ACTIVITY_ITEMS + 1).validate().is_err());
    assert!(activity(0).validate().is_err());
    assert_eq!(message_to_send("  go on \n").as_deref(), Some("go on"));
    assert_eq!(message_to_send(" \n\t"), None);
}

#[test]
fn uncertain_sessions_are_protected_from_cleanup() {
    let targets = vec![target("seen"), target("missing"), target("active")];
    let offline = ProviderScan { provider: "codex".into(), sessions: None, complete: false };
    let keys = protected_keys(&targets, &vec![offline]);
    assert_eq!(keys.len(), 3);
    let partial = ProviderScan {
        provider: "codex".into(),
        sessions: Some(vec![
            session("seen", Some(0), SessionState::Idle),
            session("active", Some(0), SessionState::Active),
        ]),
        complete: false,
    };
    let keys = protected_keys(&targets, &vec![partial]);
    assert!(!keys.contains_key("codex:seen"));
    assert!(keys.contains_key("codex:missing"));
    assert!(keys.contains_key("codex:active"));
}

#[test]
fn providers_that_cannot_be_asked_lose_no_session() {
    let mut daemon = daemon();
    daemon.watchlist.add(target("old"));
    let unreachable = ProviderScan {
        provider: "codex".into(),
        sessions: None,
        complete: true,
    };
    assert!(daemon
        .plan_sweep(&vec![unreachable], &TextMap::new(), at(40 * 86_400))
        .is_none());
}

#[test]
fn the_cutoff_lies_one_window_back() {
    let lifecycle = Settings::default().lifecycle;
    let now = at(0);
    let cutoff = activity_cutoff(now, &lifecycle);
    assert_eq!(cutoff, at(-lifecycle.stale_after_seconds));
    let first = Timestamp { seconds: i64::MIN, nanos: 7 };
    let cutoff = activity_cutoff(first, &lifecycle);
    assert_eq!(cutoff, Timestamp { seconds: i64::MIN, nanos: 0 });
}

#[test]
fn polls_plan_what_expires() {
    let mut daemon = daemon();
    daemon.watchlist.add(target("old"));
    let later = at(4 * 86_400);
    let change = daemon.plan_sweep(&Vec::new(), &TextMap::new(), later).unwrap();
    match change {
        Change::Watchlist(document) => assert!(document.targets.is_empty()),
        other => panic!("{other:?}"),
    }
    assert_eq!(daemon.last_sweep_at, Some(later));
    assert_eq!(daemon.watchlist.list().len(), 1);
    let settings = Settings::default();
    assert!(is_sweep_due(None, at(0), &settings.lifecycle));
    assert!(!is_sweep_due(Some(at(0)), at(59), &settings.lifecycle));
    assert!(is_sweep_due(Some(at(0)), at(60), &settings.lifecycle));
}

#[test]
fn scans_commit_only_at_their_revision() {
    let daemon = daemon();
    let revision = daemon.revision();
    assert!(daemon.is_current(revision, revision));
    assert!(!daemon.is_current(revision + 1, revision + 1));
    assert!(!daemon.is_current(revision, revision + 1));
}

#[test]
fn invalid_external_edits_leave_the_last_good_settings() {
    let mut daemon = daemon();
    let revision = daemon.revision();
    let mut edited = Settings::default();
    edited.engine.poll_interval_seconds = 33;
    assert!(daemon.reload_external_config(Some(at(1)), Some(edited), true));
    assert_eq!(daemon.settings.engine.poll_interval_seconds, 33);
    assert!(daemon.revision() > revision);
    let mut broken = Settings::default();
    broken.engine.poll_interval_seconds = 0;
    assert!(broken.validate().is_err());
    let revision = daemon.revision();
    assert!(!daemon.reload_external_config(Some(at(2)), None, true));
    assert_eq!(daemon.settings.engine.poll_interval_seconds, 33);
    assert_eq!(daemon.revision(), revision);
}

#[test]
fn untouched_settings_files_change_nothing() {
    let mut daemon = daemon();
    let revision = daemon.revision();
    let mut edited = Settings::default();
    edited.engine.poll_interval_seconds = 33;
    assert!(daemon.is_config_changed(Some(at(1))));
    assert!(!daemon.reload_external_config(Some(at(1)), Some(edited.clone()), false));
    assert!(daemon.is_config_changed(Some(at(1))));
    assert_eq!(daemon.revision(), revision);
    assert!(daemon.reload_external_config(Some(at(1)), Some(edited), true));
    let revision = daemon.revision();
    assert!(!daemon.is_config_changed(Some(at(1))));
    assert!(!daemon.reload_external_config(Some(at(1)), Some(Settings::default()), true));
    assert_eq!(daemon.settings.engine.poll_interval_seconds, 33);
    assert_eq!(daemon.revision(), revision);
    assert!(!daemon.reload_external_config(Some(at(2)), None, true));
    assert!(!daemon.is_config_changed(Some(at(2))));
    daemon.note_config(None);
    assert!(!daemon.is_config_changed(None));
    assert!(daemon.is_config_changed(Some(at(2))));
}

#[test]
fn subscriptions_are_bounded_and_released() {
    let mut capacity = Capacity::new();
    let asked = request("events.subscribe", "{}");
    for _ in 0..MAX_EVENT_SUBSCRIPTIONS {
        let (response, subscribed) = capacity.subscribe(&asked, 2);
        assert!(subscribed);
        assert!(response.error.is_none());
    }
    let (response, subscribed) = capacity.subscribe(&asked, 2);
    assert!(!subscribed);
    assert!(response.result.is_none());
    assert_eq!(response.error.unwrap().code, "too_many_subscribers");
    assert!(capacity.connect());
    capacity.unsubscribe();
    assert!(capacity.subscribe(&asked, 2).1);
    for _ in 1..MAX_RPC_CONNECTIONS {
        assert!(capacity.connect());
    }
    assert!(!capacity.connect());
    capacity.disconnect();
    assert!(capacity.connect());
    assert_eq!(capacity.subscriptions, MAX_EVENT_SUBSCRIPTIONS);
}

#[test]
fn metrics_start_with_the_month() {
    let state = RuntimeState::new("/s/state.json".into());
    let metrics = monthly_metrics(&state, at(0));
    assert_eq!(metrics.automatic_recoveries, 0);
    assert_eq!(metrics.hands_free_percent, 100);
    let start = Timestamp { seconds: 1_788_220_800, nanos: 0 };
    let before = Timestamp { seconds: 1_788_220_799, nanos: 999_999_999 };
    let mut state = state;
    for (completed_at, automatic) in [(before, true), (start, true), (at(0), false)] {
        state.recovery_outcomes.push(RecoveryOutcome { completed_at, automatic, success: true });
    }
    let metrics = monthly_metrics(&state, at(0));
    assert_eq!(metrics.automatic_recoveries, 1);
    assert_eq!(metrics.manual_recoveries, 1);
    assert_eq!(metrics.hands_free_percent, 50);
}

#[test]
fn months_start_at_midnight_of_their_first_day() {
    let starts = [
        (0, 0),
        (-1, -2_678_400),
        (951_782_400, 949_363_200),
        (1_789_000_000, 1_788_220_800),
    ];
    for (seconds, start) in starts {
        assert_eq!(
            start_of_month(Timestamp { seconds, nanos: 5 }),
            Timestamp { seconds: start, nanos: 0 }
        );
    }
}

#[test]
fn subscriptions_pass_on_what_is_told() {
    let told = heartbeat(3);
    match subscriber_step(SubscriberEvent::Told(told), 9) {
        SubscriberStep::Send(told) => assert_eq!(told.revision, 3),
        other => panic!("{other:?}"),
    }
    match subscriber_step(SubscriberEvent::Lagged, 9) {
        SubscriberStep::Send(told) => {
            assert_eq!(told.event, "state.resync_required");
            assert_eq!(told.revision, 9);
        }
        other => panic!("{other:?}"),
    }
    match subscriber_step(SubscriberEvent::Quiet, 9) {
        SubscriberStep::Send(told) => assert_eq!(told.event, "service.heartbeat"),
        other => panic!("{other:?}"),
    }
    assert!(matches!(subscriber_step(SubscriberEvent::Data, 9), SubscriberStep::Refuse));
    assert!(matches!(subscriber_step(SubscriberEvent::Closed, 9), SubscriberStep::End));
    assert!(matches!(subscriber_step(SubscriberEvent::Disconnected, 9), SubscriberStep::End));
}

#[test]
fn searches_are_answered_with_what_is_watched() {
    let sessions = vec![json(r#"{"id":"a"}"#), json(r#"{"id":"b"}"#)];
    let answer = search_answer(&sessions, &vec![true, false], &Some("2".into()));
    assert_eq!(
        answer.to_bytes(),
        br#"{"has_more":true,"items":[{"session":{"id":"a"},"watched":true},{"session":{"id":"b"},"watched":false}],"next_cursor":"2"}"#
    );
    let last = search_answer(&Vec::new(), &Vec::new(), &None);
    assert_eq!(last.to_bytes(), br#"{"has_more":false,"items":[],"next_cursor":null}"#);
}

#[test]
fn ending_the_service_forbids_recoveries() {
    let mut daemon = daemon();
    daemon.watchlist.add(target("one"));
    let mut permit = RecoveryPermit::new(false, &Vec::new(), 0);
    daemon.grant(&mut permit);
    let planned = daemon.revision();
    assert!(permit.allows(&target("one"), planned));
    daemon.bump_revision(true);
    daemon.grant(&mut permit);
    assert!(!permit.allows(&target("one"), planned));
    daemon.revoke(&mut permit);
    assert_eq!(permit.generation(), daemon.revision() + 1);
    assert!(!permit.allows(&target("one"), permit.generation()));
    assert!(cancelled(false).is_none());
    match cancelled(true) {
        Some(RetryResult::Failed(message)) => assert!(message.contains("shutting down")),
        _ => panic!("a retry is cancelled when the service ends"),
    }
}

#[test]
fn operations_are_stored_in_the_order_of_their_changes() {
    let mut registry = RetryOperationRegistry::new("/s/retry-operations.json".into());
    for (key, seconds) in [("c", 3), ("a", 1), ("b", 2)] {
        registry
            .accept_as(&session_ref(key), key, format!("id-{key}"), at(seconds))
            .unwrap();
    }
    let stored = registry.stored();
    let keys: Vec<&str> = stored.iter().map(|operation| operation.request_key.as_str()).collect();
    assert_eq!(keys, ["a", "b", "c"]);
    let reopened =
        RetryOperationRegistry::load("/s/retry-operations.json".into(), 1, stored, at(9)).unwrap();
    assert_eq!(reopened.operations.len(), 3);
    assert_eq!(reopened.operations.get("id-b").unwrap().status, "unknown");
}
