use watchcat::json::Json;
use watchcat::transport::codex_desktop::{
    check_endpoint, check_response, delivery_error, endpoint_path, read_frame_length, read_payload,
    restore_message, route, turn_state_conflict, write_frame, CodexDesktopIpc, DesktopCall,
    DesktopError, DesktopGoal, DesktopIpcRemoteError, DesktopMessageDelivery, DesktopRequest,
    DesktopStep, EndpointFacts, EndpointRefusal, Routed, TurnStateConflict, INITIAL_CLIENT_ID,
    LOCAL_HOST_ID, MAX_FRAME_BYTES,
};
use watchcat::transport::jsonrpc::{
    end_request, executable_candidates, parse_rpc_error, write_line, Incoming, JsonRpcClient,
    JsonRpcError, RequestEnd,
};
use watchcat::transport::{acknowledgement_is_unknown, AcknowledgementUnknown, TransportError};

fn json(text: &str) -> Json {
    Json::from_bytes(&text.as_bytes().to_vec()).unwrap()
}

fn text_at<'a>(value: &'a Json, path: &[&'static str]) -> Option<&'a str> {
    value.pointer(&path.to_vec()).and_then(Json::as_str)
}

/// A client whose peer has accepted it.
fn connected() -> CodexDesktopIpc {
    let mut client = CodexDesktopIpc::new();
    let (id, request) = client.new_request(&DesktopRequest::Initialize);
    assert_eq!(request.get_str("type"), Some("request"));
    assert_eq!(request.get_str("requestId"), Some(id.as_str()));
    assert_eq!(request.get_str("method"), Some("initialize"));
    assert_eq!(request.get_str("sourceClientId"), Some(INITIAL_CLIENT_ID));
    assert_eq!(request.get("version").unwrap().as_u64(), Some(0));
    assert_eq!(text_at(&request, &["params", "clientType"]), Some("watchcat"));
    client.initialize(&json(r#"{"result":{"clientId":"watchcat-client"}}"#)).unwrap();
    client
}

fn success(client: &CodexDesktopIpc, request: &DesktopRequest, result: &str) -> Result<Json, DesktopError> {
    let (id, message) = client.new_request(request);
    assert_eq!(message.get_str("sourceClientId"), Some("watchcat-client"));
    let response = json(&format!(
        r#"{{"type":"response","requestId":"{id}","resultType":"success","result":{result}}}"#
    ));
    assert!(matches!(route(&response, &id), Routed::Response));
    check_response(request.method(), &response).map(|()| response)
}

fn error(request: &DesktopRequest, message: &str) -> Result<Json, DesktopError> {
    let response = json(&format!(
        r#"{{"type":"response","resultType":"error","error":"{message}"}}"#
    ));
    check_response(request.method(), &response).map(|()| response)
}

fn sent(step: DesktopStep) -> DesktopRequest {
    match step {
        DesktopStep::Send(request) => request,
        other => panic!("{other:?}"),
    }
}

fn delivered(step: DesktopStep) -> (String, DesktopMessageDelivery) {
    match step {
        DesktopStep::Delivered(receipt) => (receipt.turn_id, receipt.delivery),
        other => panic!("{other:?}"),
    }
}

/// Begins a call and answers the discovery of the session's owner.
fn discovered(client: &CodexDesktopIpc, goal: DesktopGoal) -> (DesktopCall, DesktopRequest) {
    let (mut call, request) = DesktopCall::begin(goal);
    assert_eq!(request.method(), "thread-owner-discovery");
    assert_eq!(request.version(), 1);
    assert_eq!(request.params().get_str("hostId"), Some(LOCAL_HOST_ID));
    let answer = success(client, &request, r#"{"handledByClientId":"desktop-owner"}"#);
    let next = sent(call.answer(answer, 5));
    assert_eq!(next.target(), Some("desktop-owner"));
    (call, next)
}

fn message_goal(message: &str) -> DesktopGoal {
    DesktopGoal::Message {
        session_id: "session-1".into(),
        message: message.into(),
        cwd: "/workspace".into(),
    }
}

#[test]
fn frame_reader_accepts_fragmented_payloads() {
    let payload = br#"{"kind":"fragmented"}"#.to_vec();
    let length = u32::try_from(payload.len()).unwrap().to_le_bytes();
    assert_eq!(read_frame_length(length).unwrap(), payload.len());
    assert_eq!(read_payload(&payload).unwrap().get_str("kind"), Some("fragmented"));
    let frame = write_frame(&json(r#"{"kind":"fragmented"}"#)).unwrap();
    assert_eq!(frame[..4], length);
    assert_eq!(frame[4..], payload[..]);
    assert!(read_payload(&b"{".to_vec()).is_none());
}

#[test]
fn frame_reader_rejects_zero_and_oversized_lengths() {
    for length in [0_u32, u32::try_from(MAX_FRAME_BYTES + 1).unwrap()] {
        let error = read_frame_length(length.to_le_bytes()).unwrap_err();
        assert!(error.message().contains("invalid size"));
        assert_eq!(
            error.message(),
            format!("Codex Desktop IPC frame has invalid size: {length}")
        );
    }
    let largest = u32::try_from(MAX_FRAME_BYTES).unwrap();
    assert_eq!(read_frame_length(largest.to_le_bytes()).unwrap(), MAX_FRAME_BYTES);
}

#[test]
fn restore_message_has_the_minimum_desktop_context() {
    let message = restore_message("message-1", "guide", "/workspace", 17);
    assert_eq!(message.get_str("id"), Some("message-1"));
    assert_eq!(text_at(&message, &["context", "prompt"]), Some("guide"));
    let roots = message.get_nested("context", "workspaceRoots").unwrap().as_array().unwrap();
    assert_eq!(roots[0].as_str(), Some("/workspace"));
    assert!(message.get_nested("context", "imageAttachments").unwrap().as_array().is_some());
    assert_eq!(message.get("createdAt").unwrap().as_u64(), Some(17));
}

#[test]
fn message_steers_the_desktop_owner() {
    let client = connected();
    let (mut call, request) = discovered(&client, message_goal("continue"));
    assert_eq!(request.method(), "thread-follower-steer-turn");
    assert_eq!(request.version(), 1);
    let params = request.params();
    assert_eq!(params.get_str("conversationId"), Some("session-1"));
    assert_eq!(params.get("input").unwrap().as_array().unwrap()[0].get_str("text"), Some("continue"));
    let context = params.get_nested("restoreMessage", "context").unwrap();
    assert_eq!(
        context.get("workspaceRoots").unwrap().as_array().unwrap()[0].as_str(),
        Some("/workspace")
    );

    let discovery = json(r#"{"type":"client-discovery-request","requestId":"discovery-1"}"#);
    match route(&discovery, "any") {
        Routed::Discovery(response) => {
            assert_eq!(response.get_str("type"), Some("client-discovery-response"));
            assert_eq!(response.get_str("requestId"), Some("discovery-1"));
            let can_handle = response.get_nested("response", "canHandle").unwrap();
            assert_eq!(can_handle.as_bool(), Some(false));
        }
        _ => panic!("a discovery is answered"),
    }

    let answer = success(
        &client,
        &request,
        r#"{"method":"thread-follower-steer-turn","result":{"turnId":"turn-steered"}}"#,
    );
    let (turn_id, delivery) = delivered(call.answer(answer, 6));
    assert_eq!(turn_id, "turn-steered");
    assert_eq!(delivery, DesktopMessageDelivery::Steered);
}

#[test]
fn idle_message_starts_a_new_turn() {
    let client = connected();
    let (mut call, steer) = discovered(&client, message_goal("hello"));
    let message_id = steer.params().get_str("clientUserMessageId").unwrap().to_owned();
    assert_eq!(text_at(&steer.params(), &["restoreMessage", "id"]), Some(message_id.as_str()));
    let start = sent(call.answer(error(&steer, "no active turn to steer"), 6));
    assert_eq!(start.method(), "thread-follower-start-turn");
    assert_eq!(start.target(), Some("desktop-owner"));
    let params = start.params();
    assert_eq!(
        text_at(&params, &["turnStartParams", "clientUserMessageId"]),
        Some(message_id.as_str())
    );
    let input = params.get_nested("turnStartParams", "input").unwrap();
    assert_eq!(input.as_array().unwrap()[0].get_str("text"), Some("hello"));
    let answer = success(
        &client,
        &start,
        r#"{"method":"thread-follower-start-turn","result":{"turn":{"id":"turn-started"}}}"#,
    );
    let (turn_id, delivery) = delivered(call.answer(answer, 7));
    assert_eq!(turn_id, "turn-started");
    assert_eq!(delivery, DesktopMessageDelivery::Started);
}

#[test]
fn ended_turn_race_starts_a_new_turn_with_the_same_message_id() {
    let client = connected();
    let (mut call, steer) = discovered(&client, message_goal("hello"));
    let message_id = steer.params().get_str("clientUserMessageId").unwrap().to_owned();
    let ended = "Cannot steer conversation session-1 because its active turn already ended";
    let start = sent(call.answer(error(&steer, ended), 6));
    assert_eq!(
        text_at(&start.params(), &["turnStartParams", "clientUserMessageId"]),
        Some(message_id.as_str())
    );
    let answer = success(&client, &start, r#"{"result":{"turn":{"id":"turn-after-race"}}}"#);
    let (turn_id, delivery) = delivered(call.answer(answer, 7));
    assert_eq!(turn_id, "turn-after-race");
    assert_eq!(delivery, DesktopMessageDelivery::Started);
}

#[test]
fn idle_to_active_race_resteers_with_the_same_message_id() {
    let client = connected();
    let (mut call, first) = discovered(&client, message_goal("hello"));
    let message_id = first.params().get_str("clientUserMessageId").unwrap().to_owned();
    let start = sent(call.answer(error(&first, "no active turn to steer"), 6));
    assert_eq!(
        text_at(&start.params(), &["turnStartParams", "clientUserMessageId"]),
        Some(message_id.as_str())
    );
    let second = sent(call.answer(error(&start, "thread already has an active turn"), 7));
    assert_eq!(second.method(), "thread-follower-steer-turn");
    assert_eq!(second.params().get_str("clientUserMessageId"), Some(message_id.as_str()));
    assert_eq!(text_at(&second.params(), &["restoreMessage", "id"]), Some(message_id.as_str()));
    let answer = success(&client, &second, r#"{"result":{"turnId":"turn-after-reverse-race"}}"#);
    let (turn_id, delivery) = delivered(call.answer(answer, 8));
    assert_eq!(turn_id, "turn-after-reverse-race");
    assert_eq!(delivery, DesktopMessageDelivery::Steered);
}

#[test]
fn a_second_refusal_to_steer_is_final() {
    let client = connected();
    let (mut call, first) = discovered(&client, message_goal("hello"));
    let start = sent(call.answer(error(&first, "no active turn"), 6));
    let second = sent(call.answer(error(&start, "already active"), 7));
    assert!(matches!(call.answer(error(&second, "no active turn"), 8), DesktopStep::Failed(_)));
}

#[test]
fn unrelated_steer_error_is_not_retried() {
    let client = connected();
    let (mut call, steer) = discovered(&client, message_goal("hello"));
    match call.answer(error(&steer, "permission denied"), 6) {
        DesktopStep::Failed(error) => assert!(error.message().contains("permission denied")),
        other => panic!("{other:?}"),
    }
}

#[test]
fn recovery_never_steers_an_active_turn() {
    let client = connected();
    let goal = DesktopGoal::Recovery { session_id: "session-1".into(), message: "continue".into() };
    let (mut call, request) = discovered(&client, goal);
    assert_eq!(request.method(), "thread-follower-start-turn");
    match call.answer(error(&request, "thread already has an active turn"), 6) {
        DesktopStep::Failed(error) => assert!(error.message().contains("active turn")),
        other => panic!("{other:?}"),
    }
}

#[test]
fn interrupt_targets_the_expected_active_turn() {
    let client = connected();
    let goal =
        DesktopGoal::Interrupt { session_id: "session-1".into(), turn_id: "turn-active".into() };
    let (mut call, request) = discovered(&client, goal);
    assert_eq!(request.method(), "thread-follower-interrupt-turn");
    assert_eq!(request.version(), 4);
    assert_eq!(request.params().get_str("mode"), Some("user-stop"));
    assert_eq!(request.params().get_str("expectedTurnId"), Some("turn-active"));
    let answer = success(
        &client,
        &request,
        r#"{"method":"thread-follower-interrupt-turn","result":{"interruptedTurnId":"turn-active"}}"#,
    );
    match call.answer(answer, 6) {
        DesktopStep::Interrupted(turn_id) => assert_eq!(turn_id, "turn-active"),
        other => panic!("{other:?}"),
    }
}

#[test]
fn missing_owner_is_a_supported_fallback() {
    let (mut call, request) = DesktopCall::begin(message_goal("hello"));
    assert!(matches!(call.answer(error(&request, "no-client-found"), 5), DesktopStep::NoOwner));
}

#[test]
fn protocol_version_mismatch_fails_closed() {
    let (mut call, request) = DesktopCall::begin(message_goal("hello"));
    match call.answer(error(&request, "request-version-mismatch"), 5) {
        DesktopStep::Failed(error) => {
            assert!(error.message().contains("request-version-mismatch"));
        }
        other => panic!("{other:?}"),
    }
}

#[test]
fn malformed_owner_discovery_fails_closed() {
    let client = connected();
    let (mut call, request) = DesktopCall::begin(message_goal("hello"));
    let answer = success(&client, &request, "{}");
    match call.answer(answer, 5) {
        DesktopStep::Failed(error) => assert!(error.message().contains("returned no owner id")),
        other => panic!("{other:?}"),
    }
}

#[test]
fn message_identifiers_are_new_for_each_call() {
    let (first, _) = DesktopCall::begin(message_goal("hello"));
    let (second, _) = DesktopCall::begin(message_goal("hello"));
    assert_eq!(first.message_id.len(), 36);
    assert_ne!(first.message_id, second.message_id);
    let (named, _) = DesktopCall::begin_as(message_goal("hello"), "m".into());
    assert_eq!(named.message_id, "m");
}

#[test]
fn responses_are_checked() {
    let silent = check_response("m", &json(r#"{"resultType":"error"}"#)).unwrap_err();
    assert_eq!(silent.message(), "Codex Desktop IPC m failed: unknown-error");
    let invalid = check_response("m", &json("{}")).unwrap_err();
    assert_eq!(invalid.message(), "Codex Desktop IPC returned an invalid response for m");
    let timeout = DesktopError::TimedOut("m".into());
    assert_eq!(timeout.message(), "Codex Desktop IPC request timed out: m");
    let mut client = CodexDesktopIpc::new();
    let missing = client.initialize(&json("{}")).unwrap_err();
    assert_eq!(missing.message(), "Codex Desktop IPC initialize returned no client id");
    assert!(matches!(route(&json(r#"{"type":"response","requestId":"b"}"#), "a"), Routed::Unrelated));
    assert!(matches!(route(&json(r#"{"type":"client-discovery-request"}"#), "a"), Routed::Unrelated));
}

#[test]
fn conflicts_are_told_from_messages() {
    let remote = |message: &str| {
        DesktopError::Remote(DesktopIpcRemoteError { method: "m".into(), message: message.into() })
    };
    assert_eq!(
        turn_state_conflict(&remote("Turn IS NOT ACTIVE")),
        Some(TurnStateConflict::Inactive)
    );
    assert_eq!(
        turn_state_conflict(&remote("already in progress")),
        Some(TurnStateConflict::Active)
    );
    assert_eq!(turn_state_conflict(&remote("denied")), None);
    assert_eq!(turn_state_conflict(&DesktopError::TimedOut("no active turn".into())), None);
}

#[test]
fn lost_acknowledgements_of_messages_are_unknown() {
    let start = DesktopRequest::StartTurn {
        owner: "o".into(),
        session_id: "s".into(),
        message_id: "m".into(),
        message: "go".into(),
    };
    let timeout = DesktopError::TimedOut(start.method().into());
    assert!(acknowledgement_is_unknown(&delivery_error(&start, &timeout)));
    assert!(acknowledgement_is_unknown(&delivery_error(&start, &DesktopError::MissingStartedTurn)));
    assert!(!acknowledgement_is_unknown(&delivery_error(&start, &DesktopError::MissingOwnerId)));
    let discover = DesktopRequest::DiscoverOwner { session_id: "s".into() };
    assert!(!acknowledgement_is_unknown(&delivery_error(&discover, &timeout)));
}

#[test]
fn endpoints_of_others_are_refused() {
    let good = EndpointFacts {
        directory_is_directory: true,
        directory_owner: 501,
        directory_mode: 0o40_700,
        is_socket: true,
        owner: 501,
    };
    assert_eq!(check_endpoint(good, 501), Ok(()));
    assert_eq!(check_endpoint(good, 502), Err(EndpointRefusal::InsecureDirectory));
    for mode in [0o40_720, 0o40_702] {
        let facts = EndpointFacts { directory_mode: mode, ..good };
        assert_eq!(check_endpoint(facts, 501), Err(EndpointRefusal::InsecureDirectory));
    }
    let facts = EndpointFacts { owner: 0, ..good };
    assert_eq!(check_endpoint(facts, 501), Err(EndpointRefusal::UntrustedEndpoint));
    let facts = EndpointFacts { is_socket: false, ..good };
    assert_eq!(check_endpoint(facts, 501), Err(EndpointRefusal::UntrustedEndpoint));
    assert_eq!(endpoint_path("/home/u/.codex").as_deref(), Some("/home/u/.codex/ipc/ipc.sock"));
    assert_eq!(endpoint_path("codex"), None);
}

#[test]
fn side_effect_timeout_is_reported_as_unknown_acknowledgement() {
    let (answer, discard) = end_request("turn/start", RequestEnd::TimedOut, true);
    let error = answer.unwrap_err();
    assert!(acknowledgement_is_unknown(&error));
    assert!(discard);
    match error {
        TransportError::AcknowledgementUnknown(unknown) => assert_eq!(
            unknown.message(),
            "provider acknowledgement is unknown: app-server request timed out: turn/start"
        ),
        other => panic!("{other:?}"),
    }
}

#[test]
fn other_losses_are_plain_failures() {
    let (answer, discard) = end_request("thread/list", RequestEnd::Closed, false);
    match answer.unwrap_err() {
        TransportError::Failed(message) => {
            assert_eq!(message, "app-server closed while waiting for thread/list");
        }
        other => panic!("{other:?}"),
    }
    assert!(discard);
    let ended = || RequestEnd::Ended("app-server stdout closed".into());
    let (answer, discard) = end_request("turn/start", ended(), true);
    assert!(!discard);
    match answer.unwrap_err() {
        TransportError::AcknowledgementUnknown(unknown) => {
            assert_eq!(unknown.0, "app-server stdout closed");
        }
        other => panic!("{other:?}"),
    }
    let (answer, _) = end_request("thread/list", ended(), false);
    assert!(matches!(
        answer.unwrap_err(),
        TransportError::Failed(message) if message == "app-server stdout closed"
    ));
    let (answer, discard) = end_request("m", RequestEnd::NotSent("broken pipe".into()), true);
    assert!(matches!(answer, Err(TransportError::Failed(_))));
    assert!(discard);
    let refused = JsonRpcError { code: -1, message: "no".into(), data: None };
    let (answer, discard) = end_request("m", RequestEnd::Answered(Err(refused)), true);
    assert!(matches!(answer, Err(TransportError::Rpc(_))));
    assert!(!discard);
    let (answer, _) = end_request("m", RequestEnd::Answered(Ok(Json::Null)), true);
    assert!(matches!(answer, Ok(Json::Null)));
    assert!(!acknowledgement_is_unknown(&TransportError::Failed("x".into())));
    let unknown = AcknowledgementUnknown("x".into());
    assert!(acknowledgement_is_unknown(&TransportError::AcknowledgementUnknown(unknown)));
}

#[test]
fn answers_find_their_requests() {
    let mut client = JsonRpcClient::new(vec!["codex".into()], Some("/bin/codex".into())).unwrap();
    assert_eq!(client.command[0], "/bin/codex");
    let (first, message) = client.request("thread/list", json("{}"));
    let (second, _) = client.request("thread/read", json("{}"));
    assert_ne!(first, second);
    assert_eq!(
        write_line(&message),
        format!("{{\"id\":{first},\"method\":\"thread/list\",\"params\":{{}}}}\n").into_bytes()
    );
    match client.receive(&format!("{{\"id\":{second},\"result\":7}}")) {
        Incoming::Answer { id, result } => {
            assert_eq!(id, second);
            assert_eq!(result.unwrap().as_u64(), Some(7));
        }
        _ => panic!("the second request is answered"),
    }
    assert!(matches!(client.receive(&format!("{{\"id\":{second}}}")), Incoming::Ignored));
    assert!(matches!(client.receive("not json"), Incoming::Ignored));
    let notification = client.receive(&format!("{{\"method\":\"fs/changed\",\"id\":{first}}}"));
    assert!(matches!(notification, Incoming::Notification(_)));
    match client.receive(&format!("{{\"id\":{first},\"error\":{{\"code\":-32601}}}}")) {
        Incoming::Answer { result, .. } => {
            let error = result.unwrap_err();
            assert_eq!(error.describe(), "JSON-RPC error -32601: unknown error");
        }
        _ => panic!("the first request is answered"),
    }
    let (third, _) = client.request("m", Json::Null);
    assert!(client.forget(third));
    assert!(!client.forget(third));
    client.request("m", Json::Null);
    client.abandon();
    assert!(client.pending.is_empty());
    assert!(JsonRpcClient::new(Vec::new(), None).is_none());
}

#[test]
fn errors_without_members_have_defaults() {
    let error = parse_rpc_error(&Json::Null);
    assert_eq!(error.code, -32_000);
    assert_eq!(error.message, "unknown error");
    assert!(error.data.is_none());
}

#[test]
fn executables_are_looked_for_in_order() {
    let path = vec!["/a".to_owned(), "/b".to_owned()];
    assert_eq!(
        executable_candidates("codex", false, &path, Some("/home/u")),
        vec![
            "/a/codex",
            "/b/codex",
            "/opt/homebrew/bin/codex",
            "/usr/local/bin/codex",
            "/home/u/.local/bin/codex",
            "/home/u/.cargo/bin/codex",
        ]
    );
    assert_eq!(executable_candidates("bin/codex", true, &path, None), vec!["bin/codex"]);
}
