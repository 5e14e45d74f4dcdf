use watchcat::config::Settings;
use watchcat::json::{Json, Number};
use watchcat::models::{MessageDelivery, MessageTransport, ResumeReceipt, Session, SessionState};
use watchcat::providers::catalog::{list_sessions, recent_sessions, search_sessions};
use watchcat::providers::claude::{
    classify_claude_error, classify_claude_hook, is_transcript, message_text, record_time,
    session_logs, sessions_of, transcript_of, ClaudeProvider, Transcript,
};
use watchcat::providers::codex::{
    changed_sessions, classify_codex_error, is_unsupported_method, latest_listed_turn,
    latest_read_turn, next_page_size, parse_session, parse_timestamp, read_failure, read_page,
    read_started_turn, watch_id, watch_to_open, watched_path, CodexAnswerError,
    CodexProvider, Waiting,
};
use watchcat::providers::listing::{Listing, Search, SEARCH_PAGES};
use watchcat::providers::requests::CodexRequest;
use watchcat::providers::{
    build_providers, choose_provider, started_message, supports_recovery, Discovery,
    DiscoveryStep, ProviderKind, ProviderRefusal, SessionSearchPage,
};
use watchcat::textmap::TextMap;
use watchcat::time::Timestamp;
use watchcat::transport::TransportError;

/// 2026-09-09 00:00:00 UTC.
const NOW: i64 = 1_788_912_000;

fn at(seconds: i64) -> Timestamp {
    Timestamp { seconds: NOW + seconds, nanos: 0 }
}

fn json(text: &str) -> Json {
    Json::from_bytes(&text.as_bytes().to_vec()).unwrap()
}

fn transcript_provider() -> String {
    format!("{:?}", ProviderKind::Claude).to_lowercase()
}

fn session(id: &str, title: &str, updated: Option<i64>) -> Session {
    Session {
        provider: "codex".into(),
        id: id.into(),
        title: title.into(),
        state: SessionState::Idle,
        updated_at: updated.map(at),
        metadata: Json::Null,
    }
}

fn ids(sessions: &[Session]) -> Vec<&str> {
    sessions.iter().map(|session| session.id.as_str()).collect()
}

#[test]
fn classifies_structured_network_failures() {
    let (code, retryable) = classify_codex_error(&json(
        r#"{"message": "failed",
            "codexErrorInfo": {"responseStreamDisconnected": {"httpStatusCode": null}}}"#,
    ));
    assert_eq!(code, "ResponseStreamDisconnected");
    assert!(retryable);
}

#[test]
fn refuses_non_transient_http_failures() {
    let (_, retryable) = classify_codex_error(&json(
        r#"{"message": "unauthorized",
            "codexErrorInfo": {"httpConnectionFailed": {"httpStatusCode": 401}}}"#,
    ));
    assert!(!retryable);
}

#[test]
fn accepts_legacy_pascal_case_structured_code() {
    let (code, retryable) = classify_codex_error(&json(
        r#"{"message": "failed",
            "codexErrorInfo": {"type": "ResponseStreamConnectionFailed"}}"#,
    ));
    assert_eq!(code, "ResponseStreamConnectionFailed");
    assert!(retryable);
}

#[test]
fn recognizes_legacy_disconnect_message() {
    let (code, retryable) = classify_codex_error(&json(
        r#"{"message": "stream disconnected before completion: error sending request"}"#,
    ));
    assert_eq!(code, "ResponseStreamDisconnected");
    assert!(retryable);
}

#[test]
fn unknown_error_fails_closed() {
    let (code, retryable) = classify_codex_error(&json(r#"{"message": "sandbox exploded"}"#));
    assert_eq!(code, "Other");
    assert!(!retryable);
}

#[test]
fn transient_statuses_are_retried() {
    for (status, expected) in
        [(407, false), (408, true), (409, true), (425, true), (429, true), (499, false), (500, true)]
    {
        let error = json(&format!(
            r#"{{"codexErrorInfo": {{"type": "httpConnectionFailed", "httpStatusCode": {status}}}}}"#
        ));
        assert_eq!(classify_codex_error(&error).1, expected, "{status}");
    }
}

#[test]
fn several_named_kinds_are_no_kind() {
    let error = json(
        r#"{"codexErrorInfo": {"responseStreamDisconnected": {}, "httpConnectionFailed": {}}}"#,
    );
    assert_eq!(classify_codex_error(&error).0, "Other");
    let exhausted = json(r#"{"message": "TOO MANY failed attempts"}"#);
    assert_eq!(classify_codex_error(&exhausted).0, "ResponseTooManyFailedAttempts");
}

#[test]
fn maps_every_official_stop_failure_code() {
    let cases = [
        ("overloaded", "capacity.service_overloaded"),
        ("rate_limit", "capacity.rate_limited"),
        ("authentication_failed", "auth.invalid"),
        ("oauth_org_not_allowed", "capability.access_denied"),
        ("billing_error", "billing.required"),
        ("invalid_request", "request.invalid"),
        ("model_not_found", "capability.model_unavailable"),
        ("server_error", "service.server_error"),
        ("max_output_tokens", "context.output_limit"),
        ("unknown", "failure.unknown"),
    ];
    for (code, expected) in cases {
        assert_eq!(classify_claude_error(code, None).condition, expected);
    }
}

#[test]
fn uses_structured_details_without_guessing_from_messages() {
    let error = classify_claude_error(
        "overloaded",
        Some(&json(r#"{"type": "model_overloaded", "retry_after_seconds": 17}"#)),
    );
    assert_eq!(error.condition, "capacity.model_overloaded");
    assert_eq!(error.retry_after_seconds, Some(17));
    assert_eq!(error.scope.as_deref(), Some("model"));
}

#[test]
fn hook_payload_keeps_free_form_details_conservative() {
    let classified = classify_claude_hook(&json(
        r#"{"error": "rate_limit", "error_details": "429 Too Many Requests"}"#,
    ));
    assert_eq!(classified.condition, "capacity.rate_limited");
    assert_eq!(classified.retry_after_seconds, None);
}

#[test]
fn hook_payload_scopes_overload_when_the_provider_identifies_a_model() {
    let payload = format!(
        r#"{{"error": "overloaded", "model": "{}-opus"}}"#,
        transcript_provider()
    );
    let classified = classify_claude_hook(&json(&payload));
    assert_eq!(classified.condition, "capacity.model_overloaded");
    assert_eq!(classified.scope.as_deref(), Some("model"));
}

#[test]
fn details_refine_conditions() {
    let cases = [
        ("rate_limit", "server_throttled", "capacity.server_throttled"),
        ("rate_limit", "usage_limit", "quota.usage_exhausted"),
        ("invalid_request", "feature_unsupported", "capability.feature_unsupported"),
        ("model_not_found", "access_denied", "capability.access_denied"),
    ];
    for (error, detail, expected) in cases {
        let details = json(&format!(r#"{{"code": "{detail}", "retryAfterSeconds": 3}}"#));
        let classified = classify_claude_error(error, Some(&details));
        assert_eq!(classified.condition, expected);
        assert_eq!(classified.retry_after_seconds, Some(3));
    }
    assert_eq!(classify_claude_hook(&json("{}")).provider_code, "unknown");
}

fn transcript(id: &str, content: &str) -> Transcript {
    let mut transcript = Transcript::new(id, &format!("/projects/one/{id}.jsonl"), (1, 2));
    assert_eq!(transcript.resume_at((1, 2), Some(at(0)), content.len() as u64), Some(0));
    transcript.read_appended(content);
    transcript.finish(Some(at(0)), true);
    transcript
}

const BROKEN: &str = "f9c5cbea-3f8e-4d0d-9a63-8c7812c81fa5";
const VALID: &str = "c61e6439-6107-4a88-970f-94d548564049";

#[test]
fn recent_discovery_keeps_uncertain_sessions_beyond_an_old_page() {
    let old = "{\"type\":\"user\",\"timestamp\":\"2026-01-01T00:00:00Z\",\"message\":{\"content\":\"Old work\"}}\n";
    let mut transcripts: Vec<Transcript> = (1..=501)
        .map(|index| transcript(&format!("00000000-0000-0000-0000-{index:012x}"), old))
        .collect();
    transcripts.push(transcript(BROKEN, "broken record\n"));
    let sessions = recent_sessions(
        &sessions_of(&transcripts, &transcript_provider()),
        at(-3 * 86_400),
    );
    assert!(sessions.iter().any(|s| s.id == BROKEN && s.updated_at.is_none()));
    assert_eq!(sessions.len(), 1);
}

#[test]
fn malformed_transcript_does_not_block_other_sessions() {
    let content = "{\"message\":{\"content\":\"Check build\"},\"timestamp\":\"2026-09-09T02:00:00Z\",\"type\":\"user\"}\n";
    let transcripts =
        vec![transcript(BROKEN, "broken record\n"), transcript(VALID, content)];
    let sessions = sessions_of(&transcripts, &transcript_provider());
    assert!(list_sessions(&sessions, 10).iter().any(|s| s.id == VALID));
    assert_eq!(transcript_of(&transcripts, VALID), Some(1));
    assert_eq!(transcript_of(&transcripts, "missing"), None);
    let lines: Vec<String> = content.lines().map(str::to_owned).collect();
    let logs = session_logs(&lines, &transcript_provider(), VALID, 1);
    assert_eq!(logs[0].message, "Check build");
}

#[test]
fn follows_native_transcript_appends_and_ignores_metadata_activity() {
    let id = BROKEN;
    let provider = transcript_provider();
    let mut file = format!("{{\"type\":\"user\",\"sessionId\":\"{id}\",\"timestamp\":\"2026-09-08T01:00:00Z\",\"message\":{{\"role\":\"user\",\"content\":\"Check the build\"}}}}\n");
    let mut known = transcript(id, &file);
    let first = known.session(&provider);
    assert_eq!(first.updated_at, Some(at(-23 * 3_600)));
    let mut read = |file: &str, modified: i64| {
        let start = known.resume_at((1, 2), Some(at(modified)), file.len() as u64).unwrap();
        known.read_appended(&file[start as usize..]);
        known.finish(Some(at(modified)), true);
        known.session(&provider)
    };
    file.push_str("{\"type\":\"system\",\"timestamp\":\"2026-09-09T10:00:00Z\"}\n");
    file.push_str(&format!(
        "{{\"type\":\"ai-title\",\"aiTitle\":\"Build check\",\"sessionId\":\"{id}\"}}\n"
    ));
    let metadata = read(&file, 1);
    assert_eq!(metadata.updated_at, first.updated_at);
    assert_eq!(metadata.title, "Build check");
    file.push_str("{\"type\":\"assistant\",");
    assert_eq!(read(&file, 2).updated_at, first.updated_at);
    file.push_str("\"timestamp\":\"2026-09-09T02:00:00Z\",\"message\":{\"content\":[{\"type\":\"text\",\"text\":\"Build passed\"}]}}\n");
    assert_eq!(read(&file, 3).updated_at, Some(at(2 * 3_600)));
    assert_eq!(known.resume_at((1, 2), Some(at(3)), file.len() as u64), None);
    let lines: Vec<String> = file.lines().map(str::to_owned).collect();
    let logs = session_logs(&lines, &provider, id, 1);
    assert_eq!(logs[0].message, "Build passed");
    assert_eq!(logs[0].timestamp, Some(at(2 * 3_600)));
    assert!(!supports_recovery(&provider));
}

#[test]
fn replaced_transcripts_are_read_again() {
    let content = "{\"type\":\"user\",\"timestamp\":\"2026-09-09T02:00:00Z\"}\n";
    let mut known = transcript(VALID, content);
    assert_eq!(known.resume_at((1, 3), Some(at(0)), 500), Some(0));
    assert_eq!(known.updated_at, None);
    assert_eq!(known.identity, (1, 3));
    let mut shorter = transcript(VALID, content);
    assert_eq!(shorter.resume_at((1, 2), Some(at(9)), 5), Some(0));
    shorter.finish(Some(at(9)), false);
    assert!(shorter.uncertain);
    assert_eq!(shorter.modified, None);
}

#[test]
fn sidechains_are_not_read() {
    let content = "{\"type\":\"user\",\"isSidechain\":true,\"timestamp\":\"2026-09-09T02:00:00Z\",\"customTitle\":\"Side\"}\n";
    let known = transcript(VALID, content);
    assert_eq!(known.updated_at, None);
    assert_eq!(known.title, VALID);
    let lines = vec![content.to_owned(), "{\"type\":\"system\"}".to_owned()];
    assert!(session_logs(&lines, "p", VALID, 9).is_empty());
}

#[test]
fn transcripts_are_named_by_uuids() {
    assert!(is_transcript(Some("jsonl"), Some(VALID)));
    assert!(!is_transcript(Some("jsonl"), Some("notes")));
    assert!(!is_transcript(Some("json"), Some(VALID)));
    assert!(!is_transcript(None, Some(VALID)));
}

#[test]
fn message_blocks_are_joined() {
    let record = json(r#"{"message":{"content":[{"text":"a"},{"image":1},{"text":"b"}]}}"#);
    assert_eq!(message_text(&record), "a\nb");
    assert_eq!(message_text(&json("{}")), "");
    assert_eq!(record_time(&json(r#"{"timestamp":"2026-09-09T02:00:00.5+02:00"}"#)),
        Some(Timestamp { seconds: NOW, nanos: 500_000_000 }));
    assert_eq!(record_time(&json(r#"{"timestamp":"soon"}"#)), None);
}

#[test]
fn session_search_finds_matches_beyond_the_first_page() {
    let sessions: Vec<Session> = (0..500)
        .map(|index| Session {
            provider: "search".into(),
            id: format!("session-{index}"),
            title: if index == 125 { "Needle".into() } else { "Ordinary".into() },
            state: SessionState::Idle,
            updated_at: None,
            metadata: Json::Null,
        })
        .collect();
    let page = search_sessions(&sessions, "needle", None, 100).unwrap();
    assert_eq!(page.sessions[0].id, "session-125");
    assert_eq!(page.sessions.len(), 1);
    assert_eq!(page.next_cursor, None);
}

#[test]
fn searches_match_titles_and_identifiers_of_every_page() {
    let sessions: Vec<Session> = (0..=600)
        .map(|n| session(&format!("id-{n:04}"), "Work", Some(-n)))
        .chain([session("id-last", "Needle in ÄPFEL", Some(-9_000))])
        .collect();
    let page = search_sessions(&sessions, "äpfel", None, 100).unwrap();
    assert_eq!(ids(&page.sessions), ["id-last"]);
    assert_eq!(page.next_cursor, None);
    let page = search_sessions(&sessions, "WORK", None, 500).unwrap();
    assert_eq!(page.sessions.len(), 500);
    assert_eq!(page.next_cursor.as_deref(), Some("500"));
    let rest = search_sessions(&sessions, "WORK", page.next_cursor.as_deref(), 500).unwrap();
    assert_eq!(rest.sessions.len(), 101);
    assert_eq!(rest.next_cursor, None);
    assert_eq!(ids(&search_sessions(&sessions, "ID-0007", None, 9).unwrap().sessions), ["id-0007"]);
    assert!(search_sessions(&sessions, "", Some("next"), 9).is_none());
}

#[test]
fn sessions_are_listed_newest_first() {
    let sessions = vec![
        session("d", "", None),
        session("b", "", Some(1)),
        session("a", "", Some(1)),
        session("c", "", Some(2)),
    ];
    assert_eq!(ids(&list_sessions(&sessions, 9)), ["c", "a", "b", "d"]);
    assert_eq!(ids(&list_sessions(&sessions, 2)), ["c", "a"]);
    assert_eq!(ids(&recent_sessions(&sessions, at(2))), ["c", "d"]);
}

fn page(sessions: Vec<Session>, next: Option<&str>) -> SessionSearchPage {
    SessionSearchPage { sessions, next_cursor: next.map(str::to_owned) }
}

#[test]
fn discovery_follows_pages_to_the_cutoff() {
    let mut discovery = Discovery::new();
    let step = discovery.take_page(page(vec![session("a", "", Some(5))], Some("1")), at(0));
    assert!(matches!(step, DiscoveryStep::Search(cursor) if cursor == "1"));
    let step = discovery.take_page(page(vec![session("b", "", Some(0))], Some("2")), at(0));
    assert!(matches!(step, DiscoveryStep::Search(cursor) if cursor == "2"));
    let step = discovery.take_page(page(vec![session("c", "", Some(-1))], Some("3")), at(0));
    assert!(matches!(step, DiscoveryStep::Done));
    assert_eq!(ids(&discovery.sessions), ["a", "b", "c"]);
}

#[test]
fn discovery_refuses_repeated_cursors() {
    let mut discovery = Discovery::new();
    discovery.take_page(page(Vec::new(), Some("1")), at(0));
    let step = discovery.take_page(page(Vec::new(), Some("1")), at(0));
    assert!(matches!(step, DiscoveryStep::RepeatedCursor));
    assert!(matches!(Discovery::new().take_page(page(Vec::new(), None), at(0)), DiscoveryStep::Done));
}

#[test]
fn providers_are_built_once_and_only_when_enabled() {
    let transcripts = transcript_provider();
    let mut settings = Settings::default();
    let names: Vec<String> = vec!["codex".into(), transcripts.clone(), "codex".into()];
    assert_eq!(
        build_providers(&settings, &names, &transcripts).unwrap(),
        vec![ProviderKind::Codex, ProviderKind::Claude]
    );
    settings.providers.codex.enabled = false;
    let refusal = build_providers(&settings, &names, &transcripts).unwrap_err();
    assert_eq!(refusal.message(), "provider is disabled: codex");
    settings.providers.claude.enabled = false;
    let refusal = choose_provider(&settings, &transcripts, &transcripts).unwrap_err();
    assert_eq!(refusal.message(), format!("provider is disabled: {transcripts}"));
    let refusal = choose_provider(&settings, "other", &transcripts).unwrap_err();
    assert!(matches!(refusal, ProviderRefusal::Unknown(_)));
    assert_eq!(refusal.message(), "unknown provider: other");
}

#[test]
fn messages_without_steering_start_turns() {
    let receipt = started_message(ResumeReceipt {
        provider: "codex".into(),
        session_id: "s".into(),
        turn_id: "t".into(),
        transport: MessageTransport::DesktopIpc,
    });
    assert_eq!(receipt.delivery, MessageDelivery::Started);
    assert_eq!(receipt.transport, MessageTransport::DesktopIpc);
    assert_eq!(receipt.turn_id, "t");
    assert!(supports_recovery("codex"));
}

#[test]
fn threads_are_read_as_sessions() {
    let raw = json(
        r#"{"id":"one","name":" ","preview":"first\nsecond","status":{"type":"notLoaded"},
            "updatedAt":1788912000,"path":"/p","isPinned":true}"#,
    );
    let session = parse_session(&raw).unwrap();
    assert_eq!(session.title, "first second");
    assert_eq!(session.state, SessionState::Idle);
    assert_eq!(session.updated_at, Some(at(0)));
    assert_eq!(session.metadata.get("is_pinned").unwrap().as_bool(), Some(true));
    assert!(matches!(session.metadata.get("source"), Some(Json::Null)));
    assert_eq!(watched_path(&session), Some("/p"));
    let long = json(&format!(r#"{{"id":"one","preview":"{}"}}"#, "x".repeat(90)));
    assert_eq!(parse_session(&long).unwrap().title.len(), 80);
    assert_eq!(parse_session(&json(r#"{"id":"one"}"#)).unwrap().title, "one");
    let error = parse_session(&json("{}")).unwrap_err();
    assert_eq!(error, CodexAnswerError::SessionWithoutId);
    assert_eq!(error.message(), "Codex thread/list returned a session without an id");
}

#[test]
fn timestamps_are_seconds_or_text() {
    assert_eq!(parse_timestamp(Some(&Json::Number(Number::Unsigned(0)))).unwrap().seconds, 0);
    assert_eq!(parse_timestamp(Some(&json("-62135596800"))).unwrap().seconds, -62_135_596_800);
    assert_eq!(parse_timestamp(Some(&json("8210266876799"))).unwrap().seconds, 8_210_266_876_799);
    assert_eq!(parse_timestamp(Some(&json("8210266876800"))), None);
    assert_eq!(parse_timestamp(Some(&json("-8334601228800"))).unwrap().seconds, -8_334_601_228_800);
    assert_eq!(parse_timestamp(Some(&json("-8334601228801"))), None);
    assert_eq!(parse_timestamp(Some(&json("1.5"))), None);
    assert_eq!(parse_timestamp(Some(&json("18446744073709551615"))), None);
    assert_eq!(parse_timestamp(Some(&json(r#""2026-09-09T01:00:00+01:00""#))), Some(at(0)));
    assert_eq!(parse_timestamp(Some(&json(r#""yesterday""#))), None);
    assert_eq!(parse_timestamp(None), None);
}

#[test]
fn pages_end_without_a_cursor() {
    let text = r#"{"data":[{"id":"a"},{"id":"b"}],"nextCursor":"n"}"#;
    let (sessions, cursor) = read_page(&json(text)).unwrap();
    assert_eq!(ids(&sessions), ["a", "b"]);
    assert_eq!(cursor.as_deref(), Some("n"));
    assert_eq!(read_page(&json(r#"{"data":[{"id":"a"}]}"#)).unwrap().1, None);
    assert_eq!(read_page(&json(r#"{"data":[],"nextCursor":"n"}"#)).unwrap().1, None);
    assert_eq!(read_page(&json("{}")).unwrap_err(), CodexAnswerError::InvalidList);
    assert_eq!(
        read_page(&json(r#"{"data":[{}]}"#)).unwrap_err(),
        CodexAnswerError::SessionWithoutId
    );
    assert_eq!(next_page_size(500, 0), 100);
    assert_eq!(next_page_size(500, 450), 50);
}

fn asked(request: Option<CodexRequest>) -> Option<(Option<String>, usize)> {
    match request? {
        CodexRequest::ListThreads { cursor, limit } => Some((cursor, limit)),
        other => panic!("{other:?}"),
    }
}

#[test]
fn lists_are_read_page_by_page() {
    let mut listing = Listing::new(3);
    assert_eq!(asked(listing.request()), Some((None, 3)));
    let page = json(r#"{"data":[{"id":"a"},{"id":"b"}],"nextCursor":"n"}"#);
    assert_eq!(ids(&listing.take_page(&page).unwrap()), ["a", "b"]);
    assert_eq!(asked(listing.request()), Some((Some("n".into()), 1)));
    assert_eq!(listing.take_page(&json("{}")).unwrap_err(), CodexAnswerError::InvalidList);
    assert_eq!(asked(listing.request()), Some((Some("n".into()), 1)));
    let page = json(r#"{"data":[{"id":"c"},{"id":"d"}],"nextCursor":"m"}"#);
    assert_eq!(ids(&listing.take_page(&page).unwrap()), ["c", "d"]);
    assert_eq!(asked(listing.request()), None);
    assert_eq!(ids(&listing.finish()), ["a", "b", "c"]);

    let mut listing = Listing::new(500);
    assert_eq!(asked(listing.request()), Some((None, 100)));
    listing.take_page(&json(r#"{"data":[{"id":"a"}]}"#)).unwrap();
    assert_eq!(asked(listing.request()), None);
    assert_eq!(ids(&listing.finish()), ["a"]);
    assert_eq!(asked(Listing::new(0).request()), None);
}

#[test]
fn sparse_searches_scan_a_bounded_number_of_pages() {
    let mut search = Search::new("CHECKOUT", Some("from"), 10);
    assert_eq!(asked(search.request()), Some((Some("from".into()), 10)));
    let page = json(
        r#"{"data":[{"id":"a","name":"Checkout"},{"id":"b","name":"Other"}],"nextCursor":"n"}"#,
    );
    assert_eq!(ids(&search.take_page(&page).unwrap()), ["a", "b"]);
    assert_eq!(asked(search.request()), Some((Some("n".into()), 9)));
    let none = json(r#"{"data":[{"id":"b","name":"Other"}],"nextCursor":"n"}"#);
    for _ in 1..SEARCH_PAGES {
        assert!(search.request().is_some());
        search.take_page(&none).unwrap();
    }
    assert_eq!(asked(search.request()), None);
    let found = search.finish();
    assert_eq!(ids(&found.sessions), ["a"]);
    assert_eq!(found.next_cursor.as_deref(), Some("n"));

    let mut search = Search::new("", None, 10);
    search.take_page(&json(r#"{"data":[{"id":"a"}]}"#)).unwrap();
    assert_eq!(asked(search.request()), None);
    let found = search.finish();
    assert_eq!(ids(&found.sessions), ["a"]);
    assert_eq!(found.next_cursor, None);
}

#[test]
fn watches_are_opened_once_and_given_up_together() {
    let mut provider = CodexProvider::new();
    assert_eq!(
        provider.require_started().unwrap_err().message(),
        "Codex provider has not been started"
    );
    provider.start();
    assert!(provider.require_started().is_ok());

    let sessions = vec!["plain".to_owned(), "a".to_owned(), "b".to_owned()];
    assert!(provider.has_unlisted(&sessions));
    assert!(provider.next_watch(&sessions).is_none());
    let raw = r#"{"data":[{"id":"plain"},{"id":"a","path":"/tmp/a"},{"id":"b","path":"/tmp/b"}]}"#;
    let (found, _) = read_page(&json(raw)).unwrap();
    provider.remember(&found);
    assert!(!provider.has_unlisted(&sessions));
    assert_eq!(provider.sessions.get("a").unwrap().id, "a");

    let (at, request) = provider.next_watch(&sessions).unwrap();
    assert_eq!(at, 1);
    assert!(matches!(
        request,
        CodexRequest::Watch { watch_id: id, path } if id == watch_id("a") && path == "/tmp/a"
    ));
    provider.watch_answered("a", true);
    assert_eq!(provider.watches.get("a"), Some(&watch_id("a")));
    assert_eq!(provider.next_watch(&sessions).unwrap().0, 2);
    assert_eq!(provider.waiting(&sessions), Waiting::Watch);
    assert_eq!(provider.waiting(&Vec::new()), Waiting::Idle);
    let unwatches = provider.unwatches();
    assert_eq!(unwatches.len(), 1);
    assert!(matches!(&unwatches[0], CodexRequest::Unwatch(id) if *id == watch_id("a")));

    provider.watch_answered("b", false);
    assert!(provider.watches.is_empty());
    assert!(provider.unwatches().is_empty());
    assert!(provider.next_watch(&sessions).is_none());
    assert_eq!(provider.waiting(&sessions), Waiting::Poll);

    let mut provider = CodexProvider::new();
    provider.start();
    provider.watch_answered("a", true);
    provider.close();
    assert!(!provider.started);
    assert!(provider.watches.is_empty());
    assert!(provider.watch_supported);
}

#[test]
fn transcripts_are_read_on_and_forgotten() {
    let mut provider = ClaudeProvider::new("transcripts");
    assert_eq!(provider.visit("a", "/p/a.jsonl", (1, 2), Some(at(0)), 10), (0, Some(0)));
    provider.transcripts[0].read_appended("{}\n");
    provider.transcripts[0].finish(Some(at(0)), true);
    assert_eq!(provider.visit("a", "/p/a.jsonl", (1, 2), Some(at(0)), 3), (0, None));
    assert_eq!(provider.visit("a", "/p/a.jsonl", (1, 2), Some(at(1)), 9), (0, Some(3)));
    assert_eq!(provider.visit("a", "/p/a.jsonl", (1, 3), Some(at(1)), 9), (0, Some(0)));
    assert_eq!(provider.visit("b", "/p/b.jsonl", (1, 4), None, 0), (1, None));
    assert_eq!(provider.visit("c", "/p/c.jsonl", (1, 5), None, 1), (2, Some(0)));
    assert_eq!(provider.entry("b", "/p/b.jsonl", (9, 9)), 1);
    provider.keep_seen(&vec!["/p/c.jsonl".to_owned(), "/p/a.jsonl".to_owned()]);
    let kept: Vec<&str> = provider.transcripts.iter().map(|known| known.id.as_str()).collect();
    assert_eq!(kept, ["a", "c"]);
    provider.keep_seen(&Vec::new());
    assert!(provider.transcripts.is_empty());
}

#[test]
fn failed_turns_are_read_as_failures() {
    let page = json(
        r#"{"data":[{"id":"t","status":"failed","completedAt":1788912000,
            "error":{"message":"stream disconnected"}},{"id":"u"}]}"#,
    );
    let failure = read_failure(latest_listed_turn(&page), "s").unwrap().unwrap();
    assert_eq!(failure.turn_id, "t");
    assert_eq!(failure.condition, "network.stream_failed");
    assert_eq!(failure.provider_code, "ResponseStreamDisconnected");
    assert_eq!(failure.message, "stream disconnected");
    assert_eq!(failure.occurred_at, Some(at(0)));
    let whole = json(r#"{"thread":{"turns":[{"id":"u"},{"id":"t","status":"failed"}]}}"#);
    let failure = read_failure(latest_read_turn(&whole), "s").unwrap().unwrap();
    assert_eq!(failure.message, "Codex turn failed without structured error details");
    assert_eq!(failure.condition, "failure.unknown");
    assert!(read_failure(Some(&json(r#"{"id":"t","status":"completed"}"#)), "s").unwrap().is_none());
    assert!(read_failure(None, "s").unwrap().is_none());
    assert_eq!(
        read_failure(Some(&json(r#"{"status":"failed"}"#)), "s").unwrap_err(),
        CodexAnswerError::TurnWithoutId
    );
}

#[test]
fn started_turns_are_named() {
    assert_eq!(read_started_turn(&json(r#"{"turn":{"id":"t"}}"#)).unwrap(), "t");
    match read_started_turn(&json(r#"{"turn":{}}"#)).unwrap_err() {
        TransportError::AcknowledgementUnknown(unknown) => assert_eq!(
            unknown.message(),
            "provider acknowledgement is unknown: \
             Codex accepted turn/start without returning a turn id"
        ),
        other => panic!("{other:?}"),
    }
    assert!(is_unsupported_method(-32601));
    assert!(is_unsupported_method(-32602));
    assert!(!is_unsupported_method(-32000));
}

#[test]
fn watches_are_named_by_their_session() {
    let id = watch_id("session-1");
    assert_eq!(id, "f55916c3-f685-5089-a36d-874015784843");
    let mut raw = session("session-1", "", None);
    raw.metadata = json(r#"{"path":"/work"}"#);
    let mut watches: TextMap<String> = TextMap::new();
    assert_eq!(
        watch_to_open("session-1", Some(&raw), &watches),
        Some((id.clone(), "/work".to_owned()))
    );
    raw.metadata = json(r#"{"path":"work"}"#);
    assert_eq!(watch_to_open("session-1", Some(&raw), &watches), None);
    assert_eq!(watch_to_open("session-1", None, &watches), None);
    watches.insert("session-1".into(), id.clone());
    raw.metadata = json(r#"{"path":"/work"}"#);
    assert_eq!(watch_to_open("session-1", Some(&raw), &watches), None);
    let changed = json(&format!(r#"{{"method":"fs/changed","params":{{"watchId":"{id}"}}}}"#));
    assert_eq!(changed_sessions(&watches, &changed), vec!["session-1".to_owned()]);
    let other = json(r#"{"method":"fs/changed","params":{"watchId":"x"}}"#);
    assert!(changed_sessions(&watches, &other).is_empty());
    let unrelated = json(&format!(r#"{{"method":"other","params":{{"watchId":"{id}"}}}}"#));
    assert!(changed_sessions(&watches, &unrelated).is_empty());
}

#[test]
fn requests_carry_their_parameters() {
    let request = CodexRequest::ListThreads { cursor: None, limit: 7 };
    assert_eq!(request.method(), "thread/list");
    let params = request.params();
    assert!(matches!(params.get("cursor"), Some(Json::Null)));
    assert_eq!(params.get("limit").unwrap().as_u64(), Some(7));
    assert_eq!(params.get("sourceKinds").unwrap().as_array().unwrap().len(), 10);
    let request = CodexRequest::StartTurn { session_id: "s".into(), prompt: "go".into() };
    assert_eq!(request.method(), "turn/start");
    let input = request.params();
    assert_eq!(input.get("input").unwrap().as_array().unwrap()[0].get_str("text"), Some("go"));
    let request = CodexRequest::Watch { watch_id: "w".into(), path: "/p".into() };
    assert_eq!(request.method(), "fs/watch");
    assert_eq!(request.params().get_str("watchId"), Some("w"));
    assert_eq!(CodexRequest::ListTurns("s".into()).params().get("limit").unwrap().as_u64(), Some(1));
    assert_eq!(CodexRequest::Unwatch("w".into()).method(), "fs/unwatch");
    assert_eq!(CodexRequest::ResumeThread("s".into()).method(), "thread/resume");
    assert!(CodexRequest::ReadThread("s".into()).params().is_true("includeTurns"));
    let initialize = CodexRequest::Initialize("0.7.0".into()).params();
    assert_eq!(
        initialize.pointer(&vec!["clientInfo", "version"]).and_then(Json::as_str),
        Some("0.7.0")
    );
}
