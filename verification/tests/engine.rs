use std::collections::VecDeque;

use watchcat::config::{PolicyOverride, Settings};
use watchcat::engine::upkeep::is_warning;
use watchcat::engine::{
    render_prompt, retry_delay_seconds, Candidate, Decision, Look, Observation,
    RecoveryPermit, RetryRefusal, SendOutcome, WatchEngine,
};
use watchcat::json::Json;
use watchcat::models::{
    EngineEvent, Failure, MessageTransport, PolicyAction, ResumeReceipt, TrackingSource,
    TurnOutcome, WatchTarget,
};
use watchcat::state::RuntimeState;
use watchcat::time::Timestamp;

fn at(seconds: i64) -> Timestamp {
    Timestamp { seconds: 1_789_000_000 + seconds, nanos: 0 }
}

fn failure(condition: &str) -> Failure {
    Failure {
        provider: "fake".into(),
        session_id: "session".into(),
        turn_id: "turn".into(),
        condition: condition.into(),
        provider_code: "test".into(),
        message: "failed".into(),
        occurred_at: None,
        retry_after_seconds: None,
        model: Some("model".into()),
        scope: None,
        metadata: Json::Null,
    }
}

fn target() -> WatchTarget {
    WatchTarget {
        source: TrackingSource::Manual,
        provider: "fake".into(),
        session_id: "session".into(),
        label: None,
        title: None,
        added_at: at(0),
        last_activity_at: None,
    }
}

/// An engine with a provider that answers from lists.
struct Run {
    engine: WatchEngine,
    permit: RecoveryPermit,
    failures: VecDeque<Option<Failure>>,
    outcomes: VecDeque<TurnOutcome>,
    resumes: Vec<String>,
    ack_unknown: bool,
}

impl Run {
    fn new(failures: Vec<Option<Failure>>, dry_run: bool) -> Self {
        let state = RuntimeState::new("/s/state.json".into());
        Run {
            engine: WatchEngine::new(Settings::default(), vec![target()], state, dry_run),
            permit: RecoveryPermit::new(true, &vec![target()], 0),
            failures: failures.into(),
            outcomes: VecDeque::new(),
            resumes: Vec::new(),
            ack_unknown: false,
        }
    }

    fn observe_pending(&mut self, now: Timestamp) -> Vec<EngineEvent> {
        let mut events = Vec::new();
        for pending in self.engine.state.pending_recoveries() {
            let outcome = self.outcomes.pop_front().unwrap_or(TurnOutcome::InProgress);
            if let Some(event) =
                self.engine.observe_recovery(&pending, Look::Seen(outcome), now)
            {
                events.push(event);
            }
        }
        events
    }

    fn once(&mut self, now: Timestamp) -> Vec<EngineEvent> {
        self.engine.state.prune(now);
        let mut events = self.observe_pending(now);
        for target in self.engine.targets.clone() {
            if !self.permit.allows(&target, 0) {
                continue;
            }
            let observation = match self.failures.pop_front().unwrap_or(None) {
                Some(failure) => Observation::Failed(failure),
                None => Observation::Healthy,
            };
            match self.engine.consider(&target, observation, now) {
                Decision::Nothing => {}
                Decision::Report(event) => events.push(event),
                Decision::BeyondCalendar(failure) => panic!("{failure:?}"),
                Decision::Attempt(candidate) => events.push(self.send(candidate, now)),
            }
        }
        events
    }

    fn send(&mut self, candidate: Candidate, now: Timestamp) -> EngineEvent {
        let target = candidate.target.clone();
        let candidate = match candidate.recheck(self.permit.allows(&target, 0), now) {
            Ok(candidate) => candidate,
            Err(event) => return event,
        };
        let latest = self.failures.pop_front().unwrap_or(None);
        let confirmed = match candidate.confirm(self.permit.allows(&target, 0), &latest, now) {
            Ok(confirmed) => confirmed,
            Err(event) => return event,
        };
        let allowed = self.permit.allows(&target, 0);
        let cleared = match self.engine.clear(confirmed, allowed, now) {
            Ok(cleared) => cleared,
            Err(event) => return event,
        };
        self.resumes.push(cleared.candidate().prompt.clone());
        let outcome = if self.ack_unknown {
            SendOutcome::AcknowledgementUnknown
        } else {
            SendOutcome::Sent(ResumeReceipt {
                provider: "fake".into(),
                session_id: "session".into(),
                turn_id: "continued".into(),
                transport: MessageTransport::AppServer,
            })
        };
        self.engine.conclude(cleared, outcome, true, now)
    }
}

#[test]
fn later_attempts_wait_from_the_previous_attempt() {
    let policy = Settings::default().policy("network.connection_failed");
    assert_eq!(retry_delay_seconds(&policy, 0, None), 5);
    assert_eq!(retry_delay_seconds(&policy, 1, None), 10);
    assert_eq!(retry_delay_seconds(&policy, 9, None), 120);
    assert_eq!(retry_delay_seconds(&policy, 0, Some(45)), 45);
}

#[test]
fn manual_retry_requires_current_guard_authorization() {
    let mut run = Run::new(vec![Some(failure("network.timeout"))], false);
    let generation = run.permit.generation();
    run.permit.update(false, &Vec::new(), generation + 1);

    let error = run
        .engine
        .start_manual("fake", "session", &run.permit, generation)
        .unwrap_err();

    assert!(error.message().contains("guard state changed"));
    assert!(run.resumes.is_empty());
}

#[test]
fn direct_reload_authorizes_a_newly_watched_session() {
    let current = failure("network.timeout");
    let mut run =
        Run::new(vec![Some(current.clone()), Some(current.clone()), Some(current)], false);
    run.engine.replace_watch_targets(Vec::new());
    run.permit.update(true, &Vec::new(), 0);
    run.engine.apply_direct_reload(&mut run.permit, Some(vec![target()]), None, true);

    assert_eq!(run.once(at(0))[0].kind, "retry.waiting");
    assert_eq!(run.once(at(10))[0].kind, "retry.sent");
    assert_eq!(run.resumes.len(), 1);
}

#[test]
fn retries_with_exponential_policy_and_rendered_prompt() {
    let current = failure("capacity.model_overloaded");
    let mut run =
        Run::new(vec![Some(current.clone()), Some(current.clone()), Some(current)], false);
    assert_eq!(run.once(at(0))[0].kind, "retry.waiting");
    assert_eq!(run.once(at(15))[0].kind, "retry.sent");
    assert_eq!(run.resumes.len(), 1);
}

#[test]
fn unknown_provider_ack_is_audited_and_not_retried() {
    let current = failure("network.timeout");
    let mut run = Run::new(vec![Some(current); 5], false);
    run.ack_unknown = true;

    assert_eq!(run.once(at(0))[0].kind, "retry.waiting");
    assert_eq!(run.once(at(10))[0].kind, "retry.unconfirmed");
    assert!(run.once(at(30)).is_empty());
    assert_eq!(run.resumes.len(), 1);
}

#[test]
fn capability_failures_are_skipped_once() {
    let current = failure("capability.model_unavailable");
    let mut run = Run::new(vec![Some(current.clone()), Some(current)], false);
    assert_eq!(run.once(at(0))[0].kind, "failure.skipped");
    assert!(run.once(at(0)).is_empty());
    assert!(run.resumes.is_empty());
}

#[test]
fn changing_a_skip_policy_to_retry_reconsiders_the_failure() {
    let current = failure("capability.model_unavailable");
    let mut run = Run::new(vec![Some(current.clone()), Some(current)], false);
    assert_eq!(run.once(at(0))[0].kind, "failure.skipped");
    run.engine.settings.policies.insert(
        "capability.model_unavailable".into(),
        PolicyOverride {
            action: Some(PolicyAction::Retry),
            backoff: None,
            initial_delay_seconds: None,
            max_delay_seconds: None,
            max_attempts: None,
            prompt: None,
        },
    );
    assert_eq!(run.once(at(0))[0].kind, "retry.waiting");
    assert!(run.resumes.is_empty());
}

#[test]
fn dry_run_logs_prompt_without_sending() {
    let current = failure("network.timeout");
    let mut run = Run::new(vec![Some(current.clone()), Some(current)], true);
    run.once(at(0));
    let events = run.once(at(10));
    assert_eq!(events[0].kind, "retry.dry_run");
    assert!(events[0].prompt.is_some());
    assert!(run.resumes.is_empty());
}

#[test]
fn an_in_progress_recovery_keeps_the_session_attempt_budget() {
    let current = failure("network.timeout");
    let mut run =
        Run::new(vec![Some(current.clone()), Some(current.clone()), Some(current), None], false);
    run.once(at(0));
    run.once(at(10));
    assert_eq!(run.engine.state.recent_attempts(&target(), at(0), 3_600), 1);
    assert!(run.once(at(11)).is_empty());
    assert_eq!(run.engine.state.recent_attempts(&target(), at(0), 3_600), 1);
    assert_eq!(run.engine.state.metrics_since(at(-1)).automatic_recoveries, 0);
}

#[test]
fn only_a_completed_recovery_counts_as_success() {
    let current = failure("network.timeout");
    let mut run =
        Run::new(vec![Some(current.clone()), Some(current.clone()), Some(current), None], false);
    run.outcomes = vec![TurnOutcome::Completed].into();
    run.once(at(0));
    run.once(at(10));
    let events = run.once(at(11));

    assert_eq!(events.len(), 1);
    assert_eq!(events[0].kind, "recovery.completed");
    assert_eq!(run.engine.state.recent_attempts(&target(), at(0), 3_600), 0);
    let metrics = run.engine.state.metrics_since(at(-1));
    assert_eq!(metrics.automatic_recoveries, 1);
    assert_eq!(metrics.manual_recoveries, 0);
    assert_eq!(metrics.hands_free_percent, 100);
}

#[test]
fn pending_recovery_is_reconciled_after_its_watch_target_is_removed() {
    let current = failure("network.timeout");
    let mut run = Run::new(Vec::new(), false);
    run.engine.replace_watch_targets(Vec::new());
    run.engine.state.begin_recovery(&current, "continued".into(), at(0), true);
    run.outcomes = vec![TurnOutcome::Completed].into();

    assert!(run.engine.pending_provider_names().contains_key("fake"));
    let events = run.observe_pending(at(1));
    assert_eq!(events.len(), 1);
    assert_eq!(events[0].kind, "recovery.completed");
    assert_eq!(run.engine.state.metrics_since(at(0)).automatic_recoveries, 1);
    assert!(run.engine.pending_provider_names().is_empty());
}

#[test]
fn orphaned_unknown_recovery_is_abandoned_after_bounded_observation() {
    let current = failure("network.timeout");
    let mut run = Run::new(Vec::new(), false);
    run.engine.replace_watch_targets(Vec::new());
    run.engine.state.begin_recovery(&current, "missing-turn".into(), at(-86_400), true);
    for _ in 0..20 - 1 {
        run.engine.state.record_recovery_observation_failure(&current.key(), at(0));
    }
    run.outcomes = vec![TurnOutcome::Unknown].into();

    let events = run.observe_pending(at(0));

    assert_eq!(events.len(), 1);
    assert_eq!(events[0].kind, "recovery.unconfirmed");
    assert!(run.engine.pending_provider_names().is_empty());
}

#[test]
fn a_changed_session_cancels_the_continuation() {
    let current = failure("network.timeout");
    let mut changed = failure("network.timeout");
    changed.turn_id = "another".into();
    let mut run = Run::new(vec![Some(current.clone()), Some(current), Some(changed)], false);
    run.once(at(0));
    let events = run.once(at(10));
    assert_eq!(events[0].kind, "retry.cancelled");
    assert_eq!(events[0].message, "session changed before resume; no message sent");
    assert!(run.resumes.is_empty());
}

#[test]
fn attempts_are_limited() {
    let current = failure("network.timeout");
    let mut run = Run::new(vec![Some(current)], false);
    for second in 0..5 {
        run.engine.state.record_attempt(&target(), at(second));
    }
    let events = run.once(at(900));
    assert_eq!(events[0].kind, "retry.exhausted");
    assert_eq!(events[0].message, "retry limit reached (5/5)");
}

#[test]
fn times_beyond_the_calendar_are_not_waited_for() {
    let mut current = failure("network.timeout");
    current.retry_after_seconds = Some(u64::MAX);
    let mut run = Run::new(Vec::new(), false);
    let decision = run.engine.consider(&target(), Observation::Failed(current), at(0));
    assert!(matches!(decision, Decision::BeyondCalendar(_)));
}

#[test]
fn a_continued_turn_is_left_alone_as_long_as_it_is_remembered() {
    let current = failure("network.timeout");
    let mut run = Run::new(vec![Some(current.clone()); 3], false);
    run.outcomes = vec![TurnOutcome::InProgress, TurnOutcome::Completed].into();
    run.once(at(0));
    run.once(at(10));
    assert_eq!(run.resumes.len(), 1);
    let month = 30 * 86_400;
    for seconds in [11, 12, 3_600, month, 10 + month] {
        run.failures.push_back(Some(current.clone()));
        run.once(at(seconds));
        assert_eq!(run.resumes.len(), 1);
        assert!(run.engine.state.handled.contains_key(&current.key()));
    }
    run.once(at(11 + month));
    assert!(!run.engine.state.handled.contains_key(&current.key()));
}

#[test]
fn delays_grow_until_they_stay() {
    let policy = Settings::default().policy("network.timeout");
    for retry_after in [None, Some(45), Some(1_000)] {
        let mut last = 0;
        for attempt in 0..40 {
            let delay = retry_delay_seconds(&policy, attempt, retry_after);
            assert!(delay >= last);
            last = delay;
        }
    }
}

/// 2016-12-31 23:59:60.5 UTC, a leap second.
const LEAP: Timestamp = Timestamp { seconds: 1_483_228_799, nanos: 1_500_000_000 };

fn after_leap(seconds: i64, nanos: u32) -> Timestamp {
    Timestamp { seconds: LEAP.seconds + seconds, nanos }
}

#[test]
fn delays_count_on_from_leap_seconds() {
    let mut run = Run::new(vec![Some(failure("network.timeout"))], true);
    let delay = run.engine.settings.policy("network.timeout").initial_delay_seconds as i64;
    let events = run.once(LEAP);
    assert_eq!(events[0].kind, "retry.waiting");
    assert!(events[0].message.ends_with(" UTC"));
    assert!(events[0].message.contains("next attempt after 2017-01-01 00:00:"));
    assert!(events[0].message.contains(".500"));

    run.failures.push_back(Some(failure("network.timeout")));
    let events = run.once(after_leap(delay, 499_999_999));
    assert_eq!(events[0].kind, "retry.waiting");

    run.failures.push_back(Some(failure("network.timeout")));
    let events = run.once(after_leap(delay, 500_000_000));
    assert_eq!(events[0].kind, "retry.dry_run");
    assert!(events[0].prompt.is_some());
}

#[test]
fn times_are_moved_across_leap_seconds() {
    assert_eq!(LEAP.moved(0), Some(LEAP));
    assert_eq!(LEAP.moved(1), Some(after_leap(1, 500_000_000)));
    assert_eq!(LEAP.moved(-1), Some(after_leap(0, 500_000_000)));
    assert_eq!(at(0).moved(-5), Some(at(-5)));
    assert_eq!(at(0).moved(i64::MAX as i128), None);
    assert!(after_leap(1, 500_000_000).not_before(LEAP, 1));
    assert!(!after_leap(1, 499_999_999).not_before(LEAP, 1));

    assert_eq!(after_leap(1, 500_000_000).since(LEAP), 0);
    assert_eq!(LEAP.since(after_leap(-1, 0)), 2_500_000_000);
    assert_eq!(at(7).since(at(2)), 5_000_000_000);
    // Between two times of one day a leap second counts.
    let leap = Timestamp { seconds: 59, nanos: 1_000_000_000 };
    assert_eq!(Timestamp { seconds: 60, nanos: 0 }.since(leap), 1_000_000_000);
    assert_eq!(leap.since(Timestamp { seconds: 60, nanos: 0 }), -1_000_000_000);
}

#[test]
fn waiting_says_until_when() {
    let current = failure("network.timeout");
    let mut run = Run::new(vec![Some(current)], false);
    let events = run.once(at(0));
    assert_eq!(
        events[0].message,
        "network.timeout matched retry policy; next attempt after 2026-09-10 00:26:50 UTC"
    );
}

#[test]
fn an_unavailable_provider_is_reported() {
    let mut run = Run::new(Vec::new(), false);
    match run.engine.consider(&target(), Observation::Unavailable("offline".into()), at(0)) {
        Decision::Report(event) => {
            assert_eq!(event.kind, "provider.error");
            assert_eq!(event.message, "offline");
        }
        other => panic!("{other:?}"),
    }
    assert!(is_warning("provider.error"));
}

#[test]
fn manual_retries_are_checked_like_automatic_ones() {
    let mut run = Run::new(Vec::new(), false);
    let watched = run.engine.start_manual("fake", "session", &run.permit, 0).unwrap();
    assert!(matches!(
        run.engine.start_manual("fake", "other", &run.permit, 0).unwrap_err(),
        RetryRefusal::NotWatched { .. }
    ));
    assert!(matches!(
        run.engine.consider_manual(&watched, None, at(0)).unwrap_err(),
        RetryRefusal::NoFailure { .. }
    ));
    assert!(matches!(
        run.engine.consider_manual(&watched, Some(failure("auth.invalid")), at(0)).unwrap_err(),
        RetryRefusal::Skipped { .. }
    ));
    let candidate = run
        .engine
        .consider_manual(&watched, Some(failure("network.timeout")), at(0))
        .unwrap();
    assert_eq!(candidate.attempt, 1);
    assert!(matches!(
        run.engine.clear_manual(candidate, false, at(0)).unwrap_err(),
        RetryRefusal::RevokedBeforeSend
    ));
    for second in 0..5 {
        run.engine.state.record_attempt(&target(), at(second));
    }
    let error = run
        .engine
        .consider_manual(&watched, Some(failure("network.timeout")), at(9))
        .unwrap_err();
    assert!(matches!(error, RetryRefusal::Exhausted { attempts: 5, max_attempts: 5, .. }));
    run.permit.update(false, &Vec::new(), 1);
    assert!(matches!(
        run.engine.start_manual("fake", "session", &run.permit, 0).unwrap_err(),
        RetryRefusal::RevokedBeforeStart
    ));
}

#[test]
fn permits_cover_their_targets_and_generation() {
    let mut permit = RecoveryPermit::new(true, &vec![target()], 3);
    assert!(permit.allows(&target(), 3));
    assert!(!permit.allows(&target(), 2));
    permit.update(true, &Vec::new(), 3);
    assert!(!permit.allows(&target(), 3));
    permit.update(false, &vec![target()], 3);
    assert!(!permit.allows(&target(), 3));
}

#[test]
fn prompts_are_rendered() {
    let prompt = render_prompt(
        "{provider}/{model}/{condition}/{provider_code}/{attempt} of {max_attempts}",
        &failure("network.timeout"),
        2,
        5,
    );
    assert_eq!(prompt, "fake/model/network.timeout/test/2 of 5");
}

#[test]
fn only_changed_settings_close_a_provider() {
    let mut run = Run::new(Vec::new(), false);
    assert!(!run.engine.replace_settings(Settings::default()));
    let mut settings = Settings::default();
    settings.providers.codex.command = vec!["other".into()];
    assert!(run.engine.replace_settings(settings));
    assert_eq!(run.engine.watched_sessions("fake"), vec!["session".to_owned()]);
    assert!(run.engine.needed_providers().contains_key("fake"));
    let polled = run.engine.polled_providers(&vec!["other".into(), "fake".into()]);
    assert_eq!(polled.len(), 2);
    assert_eq!(polled.key_at(0), "fake");
    assert_eq!(polled.key_at(1), "other");
    assert!(run.engine.unresolved_target_keys().is_empty());
}
