use watchcat::json::Json;
use watchcat::models::{
    make_key, EngineEvent, Failure, Session, SessionState, TrackingSource, WatchTarget,
};
use watchcat::state::events::LogWrite;
use watchcat::state::{
    ControlDocument, ControlStateStore, EventLogStore, RuntimeState, WatchlistDocument,
    WatchlistStore,
};
use watchcat::textmap::TextMap;
use watchcat::time::Timestamp;

const HOUR: i64 = 3_600;
const DAY: i64 = 86_400;

fn at(seconds: i64) -> Timestamp {
    Timestamp { seconds: 1_789_000_000 + seconds, nanos: 0 }
}

fn target(id: &str) -> WatchTarget {
    WatchTarget {
        source: TrackingSource::Manual,
        provider: "codex".into(),
        session_id: id.into(),
        label: None,
        title: None,
        added_at: at(0),
        last_activity_at: None,
    }
}

fn session(id: &str, title: &str, updated: i64) -> Session {
    Session {
        provider: "codex".into(),
        id: id.into(),
        title: title.into(),
        state: SessionState::Idle,
        updated_at: Some(at(updated)),
        metadata: Json::Null,
    }
}

fn failure(turn: &str) -> Failure {
    Failure {
        provider: "codex".into(),
        session_id: "one".into(),
        turn_id: turn.into(),
        condition: "network.timeout".into(),
        provider_code: "test".into(),
        message: "failed".into(),
        occurred_at: None,
        retry_after_seconds: None,
        model: None,
        scope: None,
        metadata: Json::Null,
    }
}

fn nothing() -> TextMap<()> {
    TextMap::new()
}

fn reconcile(store: &mut WatchlistStore, session: &Session, now: Timestamp) -> usize {
    store.reconcile(&vec![session.clone()], now, 259_200, &nothing());
    store.list().len()
}

#[test]
fn discovering_recent_history_does_not_extend_its_inactivity_window() {
    let mut store = WatchlistStore::new("/s/watchlist.json".into());
    let session = session("recent-history", "Old work", -71 * HOUR);
    assert_eq!(reconcile(&mut store, &session, at(0)), 1);
    assert_eq!(reconcile(&mut store, &session, at(2 * HOUR)), 0);
}

#[test]
fn discovery_expiry_reactivation_and_manual_exclusion() {
    let mut store = WatchlistStore::new("/s/watchlist.json".into());
    let mut session = session("new", "New work", 0);
    assert_eq!(reconcile(&mut store, &session, at(0)), 1);
    assert_eq!(reconcile(&mut store, &session, at(4 * DAY)), 0);
    session.updated_at = Some(at(4 * DAY));
    assert_eq!(reconcile(&mut store, &session, at(4 * DAY)), 1);
    store.remove(&session.key());
    let mut reopened = WatchlistStore::load("/s/watchlist.json".into(), store.document).unwrap();
    assert_eq!(reconcile(&mut reopened, &session, at(4 * DAY)), 0);
    let mut manual = target("new");
    manual.added_at = at(4 * DAY);
    reopened.add(manual);
    assert_eq!(reconcile(&mut reopened, &session, at(4 * DAY)), 1);
}

#[test]
fn failed_discovery_preserves_membership_without_extending_activity() {
    let mut store = WatchlistStore::new("/s/watchlist.json".into());
    let mut old = target("offline");
    old.added_at = at(-4 * DAY);
    old.last_activity_at = Some(old.added_at);
    store.add(old.clone());
    let mut protected = nothing();
    protected.insert(old.key(), ());
    store.reconcile(&Vec::new(), at(0), 259_200, &protected);
    assert_eq!(format!("{:?}", store.list()), format!("{:?}", vec![old]));
    store.reconcile(&Vec::new(), at(0), 259_200, &nothing());
    assert!(store.list().is_empty());
}

#[test]
fn old_watchlist_version_is_rejected() {
    let document = WatchlistDocument { version: 1, targets: Vec::new(), excluded: nothing() };
    assert!(WatchlistStore::load("/s/watchlist.json".into(), document).is_err());
}

#[test]
fn obsolete_state_is_rejected_without_rewriting() {
    for version in [1, 2, 5] {
        let document = WatchlistDocument { version, targets: Vec::new(), excluded: nothing() };
        let error = WatchlistStore::load("/s/state.json".into(), document).unwrap_err();
        assert_eq!(error.found, version);
        assert_eq!(error.required, 4);
        let mut state = RuntimeState::new("/s/state.json".into());
        state.version = version;
        let error = RuntimeState::load("/s/state.json".into(), Some(state)).unwrap_err();
        assert_eq!(error.required, 3);
    }
}

#[test]
fn control_state_persists_monotonic_revision() {
    let mut first = ControlStateStore::load("/s/control.json".into(), None).unwrap();
    assert_eq!(first.revision(), 1);
    assert_eq!(first.next_revision(true), Some(2));
    let stored = first.document();
    assert_eq!(stored.version, 2);
    drop(first);

    let mut reopened = ControlStateStore::load("/s/control.json".into(), Some(stored)).unwrap();
    assert_eq!(reopened.revision(), 3);
    assert_eq!(reopened.next_revision(true), Some(4));
}

#[test]
fn control_state_rolls_back_memory_when_persistence_fails() {
    let mut state = ControlStateStore::load("/s/control.json".into(), None).unwrap();
    let revision = state.revision();
    assert_eq!(state.proposed().revision, revision + 1);

    assert!(state.next_revision(false).is_none());
    assert_eq!(state.revision(), revision);
    assert_eq!(state.revision(), revision);
    let old = ControlDocument { version: 1, revision: 5 };
    assert!(ControlStateStore::load("/s/control.json".into(), Some(old)).is_err());
}

#[test]
fn event_log_filters_session_category_and_limit() {
    let store = EventLogStore::new("/s/events.jsonl".into(), 10);
    let event = |condition: &str, seconds: i64| EngineEvent {
        timestamp: at(seconds),
        kind: "failure.observed".into(),
        target: "codex:one".into(),
        message: condition.into(),
        condition: Some(condition.into()),
        attempt: None,
        max_attempts: None,
        prompt: None,
        failure: None,
        receipt: None,
    };
    let events = vec![
        event("network.timeout", 0),
        event("capacity.model_overloaded", 1),
        event("capacity.service_overloaded", 2),
    ];
    let logs = store.session_logs(&events, "codex", "one", Some("capacity"), 1);
    assert_eq!(logs.len(), 1);
    assert_eq!(logs[0].condition.as_deref(), Some("capacity.service_overloaded"));
    assert!(store.session_logs(&events, "codex", "two", None, 9).is_empty());
    assert_eq!(store.session_logs(&events, "codex", "one", Some("failure"), 9).len(), 3);
}

#[test]
fn long_logs_are_shortened() {
    let mut store = EventLogStore::new("/s/events.jsonl".into(), 2);
    assert_eq!(store.path(), "/s/events.jsonl");
    assert!(!store.needs_compaction(4));
    assert!(store.needs_compaction(5));
    let lines: Vec<String> = ["a", "b", "c"].iter().map(|line| line.to_string()).collect();
    assert_eq!(store.compact(&lines), "b\nc\n");
    store.set_retention(1);
    assert!(store.needs_compaction(3));
}

fn lines(texts: &[&str]) -> Vec<String> {
    texts.iter().map(|text| text.to_string()).collect()
}

#[test]
fn appending_drops_only_the_oldest_lines() {
    let store = EventLogStore::new("/s/events.jsonl".into(), 2);
    assert!(matches!(store.append(&lines(&["a"; 9]), &Vec::new()), LogWrite::Nothing));
    match store.append(&lines(&["a", "b"]), &lines(&["c", "d"])) {
        LogWrite::Append(appended) => assert_eq!(appended, "c\nd\n"),
        other => panic!("{other:?}"),
    }
    match store.append(&lines(&["a", "b", "c", "d"]), &lines(&["e"])) {
        LogWrite::Shorten { appended, content } => {
            assert_eq!(appended, "e\n");
            assert_eq!(content, "d\ne\n");
        }
        other => panic!("{other:?}"),
    }
}

#[test]
fn adding_again_keeps_a_label_and_renews_the_window() {
    let mut store = WatchlistStore::new("/s/watchlist.json".into());
    let mut labelled = target("one");
    labelled.label = Some("release".into());
    assert!(store.add(labelled));
    let mut again = target("one");
    again.added_at = at(DAY);
    assert!(!store.add(again));
    let kept = store.list();
    assert_eq!(kept.len(), 1);
    assert_eq!(kept[0].label.as_deref(), Some("release"));
    assert_eq!(kept[0].added_at, at(DAY));
    assert!(store.remove("codex:one"));
    assert!(!store.remove("codex:one"));
}

#[test]
fn discovery_takes_over_titles_and_later_activity() {
    let mut store = WatchlistStore::new("/s/watchlist.json".into());
    let first = session("one", "First title", -HOUR);
    assert!(store.reconcile(&vec![first], at(0), 259_200, &nothing()));
    let renamed = session("one", "Second title", -2 * HOUR);
    assert!(store.reconcile(&vec![renamed.clone()], at(0), 259_200, &nothing()));
    assert_eq!(store.list()[0].title.as_deref(), Some("Second title"));
    assert_eq!(store.list()[0].last_activity_at, Some(at(-HOUR)));
    assert!(!store.reconcile(&vec![renamed], at(0), 259_200, &nothing()));
}

#[test]
fn failures_are_handled_once_and_forgotten_in_time() {
    let mut state = RuntimeState::new("/s/state.json".into());
    let current = failure("turn");
    assert_eq!(state.handled_action(&current), None);
    state.mark_handled(&current, "resumed", at(0));
    assert_eq!(state.handled_action(&current), Some("resumed"));
    assert_eq!(state.first_seen(&current, at(5)), at(5));
    assert_eq!(state.first_seen(&current, at(9)), at(5));
    state.prune(at(400 * DAY));
    assert_eq!(state.handled_action(&current), None);
}

#[test]
fn attempts_are_counted_within_their_window() {
    let mut state = RuntimeState::new("/s/state.json".into());
    state.record_attempt(&target("one"), at(0));
    state.record_attempt(&target("one"), at(100));
    assert_eq!(state.latest_attempt(&target("one")), Some(at(100)));
    assert_eq!(state.recent_attempts(&target("one"), at(3_650), 3_600), 1);
    state.clear_attempts(&target("one"));
    assert_eq!(state.latest_attempt(&target("one")), None);
}

#[test]
fn recoveries_are_counted_once_they_end() {
    let mut state = RuntimeState::new("/s/state.json".into());
    let key = failure("turn").key();
    state.begin_recovery(&failure("turn"), "next".into(), at(0), true);
    assert!(state.has_pending_for(&target("one")));
    assert!(state.pending_target_keys().contains_key("codex:one"));
    assert_eq!(state.pending_recoveries().len(), 1);
    assert_eq!(state.metrics_since(at(-1)).automatic_recoveries, 0);
    assert!(state.finish_recovery(&key, true, at(1)).is_some());
    state.begin_recovery(&failure("turn"), "next".into(), at(2), false);
    assert!(state.finish_recovery(&key, true, at(3)).is_some());
    state.begin_recovery(&failure("turn"), "next".into(), at(4), true);
    assert!(state.finish_recovery(&key, false, at(5)).is_some());
    let metrics = state.metrics_since(at(-1));
    assert_eq!(metrics.automatic_recoveries, 1);
    assert_eq!(metrics.manual_recoveries, 1);
    assert_eq!(metrics.failed_recoveries, 1);
    assert_eq!(metrics.hands_free_percent, 50);
    assert!(state.finish_recovery(&key, true, at(6)).is_none());
    state.begin_recovery(&failure("turn"), "next".into(), at(7), true);
    assert_eq!(state.record_recovery_observation_failure(&key, at(8)), Some(1));
    assert!(state.abandon_recovery(&key).is_some());
    assert!(state.abandon_recovery(&key).is_none());
}

#[test]
fn keys_join_provider_and_identifier() {
    assert_eq!(make_key("codex", "one"), "codex:one");
    assert_eq!(target("one").key(), "codex:one");
    assert_eq!(failure("turn").key(), "codex:one:turn");
    let mut manual = target("one");
    manual.last_activity_at = Some(at(-5));
    assert_eq!(manual.inactivity_since(), at(0));
    manual.source = TrackingSource::Automatic;
    assert_eq!(manual.inactivity_since(), at(-5));
}
