//! What is remembered from one poll to the next, and what is logged.

use vstd::prelude::*;
use vstd::string::*;

use crate::config::Settings;
use crate::engine::permit::RecoveryPermit;
use crate::engine::recovery::WatchEngine;
use crate::engine::upkeep;
use crate::laws::sessions;
use crate::models;
use crate::models::{EngineEvent, Failure, Session, SessionLog, TrackingSource, WatchTarget};
use crate::state::events;
use crate::state::events::{EventLogStore, LogWrite};
use crate::state::runtime;
use crate::state::runtime::{PendingRecovery, RecoveryOutcome, RuntimeState};
use crate::state::watchlist::{UnsupportedVersion, WatchlistDocument, WatchlistStore};
use crate::text;
use crate::textmap::TextMap;
use crate::time::Timestamp;

verus! {

/// Sessions and targets go by their provider and their own name; failed turns by that and theirs.
pub proof fn names_are_put_together(
    session: &Session,
    target: &WatchTarget,
    failure: &Failure,
    named: String,
    targeted: String,
    failed: String,
)
    requires
        call_ensures(Session::key, (session,), named),
        call_ensures(WatchTarget::key, (target,), targeted),
        call_ensures(Failure::key, (failure,), failed),
    ensures
        named@ == session.provider@ + ":"@ + session.id@,
        targeted@ == target.provider@ + ":"@ + target.session_id@,
        failed@ == failure.provider@ + ":"@ + failure.session_id@ + ":"@ + failure.turn_id@,
{
}

/// A session counts as inactive from its last activity. One that was added by hand after that does
/// from its addition, and so does one without any.
pub proof fn inactivity_begins(target: &WatchTarget, r: Timestamp)
    requires
        call_ensures(WatchTarget::inactivity_since, (target,), r),
    ensures
        target.last_activity_at is None ==> r == target.added_at,
        target.last_activity_at is Some && target.source != TrackingSource::Manual ==> r
            == target.last_activity_at->0,
        target.last_activity_at is Some && target.last_activity_at->0.is_not_before(
            target.added_at,
            0,
        ) ==> r == target.last_activity_at->0,
        target.last_activity_at is Some && target.source == TrackingSource::Manual
            && !target.last_activity_at->0.is_not_before(target.added_at, 0) ==> r
            == target.added_at,
{
}

/// What was done about a failed turn is remembered of that turn alone, with the time.
pub proof fn handled_turns_are_remembered(
    state: &mut RuntimeState,
    failure: &Failure,
    action: &str,
    now: Timestamp,
    asked: &Failure,
    before: Option<&str>,
    after: Option<&str>,
)
    requires
        call_ensures(RuntimeState::mark_handled, (state, failure, action, now), ()),
        call_ensures(RuntimeState::handled_action, (old(state), asked), before),
        call_ensures(RuntimeState::handled_action, (final(state), asked), after),
    ensures
        ({
            let name = failure.provider@ + ":"@ + failure.session_id@ + ":"@ + failure.turn_id@;
            let other = asked.provider@ + ":"@ + asked.session_id@ + ":"@ + asked.turn_id@;
            &&& other == name ==> after is Some && after->0@ == action@
                && final(state).handled@[name].at == now
            &&& other != name ==> after is Some == before is Some && (before is Some
                ==> after->0@ == before->0@)
            &&& final(state).attempts == old(state).attempts
            &&& final(state).pending_recoveries == old(state).pending_recoveries
        }),
{
    let key = failure.key_view();
    let other = asked.key_view();
    let a = old(state).handled@;
    let b = final(state).handled@;
    assert(b.contains_key(key));
    if other != key {
        assert(b.remove(key).contains_key(other) == b.contains_key(other));
        assert(a.remove(key).contains_key(other) == a.contains_key(other));
        if a.contains_key(other) {
            assert(b.remove(key)[other] == b[other]);
            assert(a.remove(key)[other] == a[other]);
        }
    }
}

/// A failed turn is first seen once: when it is seen again, the first time stands.
pub proof fn failures_are_first_seen_once(
    state: &mut RuntimeState,
    failure: &Failure,
    now: Timestamp,
    first: Timestamp,
    again: &mut RuntimeState,
    later: Timestamp,
    second: Timestamp,
)
    requires
        call_ensures(RuntimeState::first_seen, (state, failure, now), first),
        old(again).observed@ == final(state).observed@,
        call_ensures(RuntimeState::first_seen, (again, failure, later), second),
    ensures
        second == first,
        !old(state).observed@.contains_key(
            failure.provider@ + ":"@ + failure.session_id@ + ":"@ + failure.turn_id@,
        ) ==> first == now,
{
}

/// The times of attempts that are kept of a session.
pub open spec fn times(state: RuntimeState, target: WatchTarget) -> Seq<Timestamp> {
    let name = target.provider@ + ":"@ + target.session_id@;
    if state.attempts@.contains_key(name) {
        state.attempts@[name]@
    } else {
        Seq::empty()
    }
}

/// Only attempts within the window count, and all of these do.
pub proof fn attempts_count_within_the_window(
    state: &mut RuntimeState,
    target: &WatchTarget,
    now: Timestamp,
    window_seconds: i64,
    r: usize,
    i: int,
)
    requires
        call_ensures(RuntimeState::recent_attempts, (state, target, now, window_seconds), r),
    ensures
        r == times(*final(state), *target).len(),
        r <= times(*old(state), *target).len(),
        0 <= i < r ==> times(*final(state), *target)[i].is_not_before(now, -(window_seconds as int))
            && times(*old(state), *target).contains(times(*final(state), *target)[i]),
        0 <= i < times(*old(state), *target).len() && times(*old(state), *target)[i].is_not_before(
            now,
            -(window_seconds as int),
        ) ==> times(*final(state), *target).contains(times(*old(state), *target)[i]),
{
    let before = times(*old(state), *target);
    let after = times(*final(state), *target);
    let keep = |t: Timestamp| t.is_not_before(now, -(window_seconds as int));
    assert(after == before.filter(keep));
    before.lemma_filter_len(keep);
    if 0 <= i < r {
        before.lemma_filter_pred(keep, i);
        assert(after.contains(after[i]));
        before.lemma_filter_contains_rev(keep, after[i]);
    }
    if 0 <= i < before.len() && keep(before[i]) {
        before.lemma_filter_contains(keep, i);
    }
}

/// An attempt is kept after all others of its session, and is the latest from then on.
pub proof fn attempts_are_kept_in_their_order(
    state: &mut RuntimeState,
    target: &WatchTarget,
    now: Timestamp,
    latest: Option<Timestamp>,
)
    requires
        call_ensures(RuntimeState::record_attempt, (state, target, now), ()),
        call_ensures(RuntimeState::latest_attempt, (final(state), target), latest),
    ensures
        times(*final(state), *target) == times(*old(state), *target).push(now),
        latest == Some(now),
        final(state).handled == old(state).handled,
{
}

/// Cleared attempts are gone, those of the one session alone.
pub proof fn attempts_are_cleared_by_session(
    state: &mut RuntimeState,
    target: &WatchTarget,
    other: WatchTarget,
    latest: Option<Timestamp>,
)
    requires
        call_ensures(RuntimeState::clear_attempts, (state, target), ()),
        call_ensures(RuntimeState::latest_attempt, (final(state), target), latest),
        other.provider@ + ":"@ + other.session_id@ != target.provider@ + ":"@ + target.session_id@,
    ensures
        latest is None,
        times(*final(state), *target).len() == 0,
        times(*final(state), other) == times(*old(state), other),
{
    let key = target.key_view();
    let kept = other.key_view();
    let a = old(state).attempts@;
    let b = final(state).attempts@;
    assert(b.remove(key).contains_key(kept) == b.contains_key(kept));
    assert(a.remove(key).contains_key(kept) == a.contains_key(kept));
    if a.contains_key(kept) {
        assert(b.remove(key)[kept] == b[kept]);
        assert(a.remove(key)[kept] == a[kept]);
    }
}

/// Some recovery of the session is in flight.
pub open spec fn in_flight(state: RuntimeState, provider: Seq<char>, session: Seq<char>) -> bool {
    exists|turn: Seq<char>| #[trigger]
        state.pending_recoveries@.contains_key(turn) && state.pending_recoveries@[turn].provider@
            == provider && state.pending_recoveries@[turn].session_id@ == session
}

/// A recovery that begins is in flight from then on, with the turn that failed, the turn that
/// recovers and who asked for it.
pub proof fn begun_recoveries_are_in_flight(
    state: &mut RuntimeState,
    failure: &Failure,
    recovery_turn_id: String,
    now: Timestamp,
    automatic: bool,
)
    requires
        call_ensures(
            RuntimeState::begin_recovery,
            (state, failure, recovery_turn_id, now, automatic),
            (),
        ),
    ensures
        in_flight(*final(state), failure.provider@, failure.session_id@),
        ({
            let name = failure.provider@ + ":"@ + failure.session_id@ + ":"@ + failure.turn_id@;
            let pending = final(state).pending_recoveries@[name];
            &&& final(state).pending_recoveries@.contains_key(name)
            &&& pending.failed_turn_id@ == failure.turn_id@
            &&& pending.recovery_turn_id@ == recovery_turn_id@
            &&& pending.started_at == now
            &&& pending.automatic == automatic
            &&& pending.observation_failures == 0
            &&& pending.last_observation_at is None
        }),
        final(state).recovery_outcomes == old(state).recovery_outcomes,
{
    assert(final(state).pending_recoveries@.contains_key(failure.key_view()));
}

/// A session has a recovery in flight exactly where one of its own is.
pub proof fn recoveries_in_flight_are_found(state: &RuntimeState, target: &WatchTarget, r: bool)
    requires
        call_ensures(RuntimeState::has_pending_for, (state, target), r),
    ensures
        r <==> in_flight(*state, target.provider@, target.session_id@),
{
    if r {
        let failed = choose|failed: Seq<char>| #[trigger]
            state.pending_recoveries@.contains_key(failed) && runtime::pending_of(
                state.pending_recoveries@[failed],
                target.provider@,
                target.session_id@,
            );
        assert(state.pending_recoveries@.contains_key(failed));
    }
    if in_flight(*state, target.provider@, target.session_id@) {
        let turn = choose|turn: Seq<char>| #[trigger]
            state.pending_recoveries@.contains_key(turn)
                && state.pending_recoveries@[turn].provider@ == target.provider@
                && state.pending_recoveries@[turn].session_id@ == target.session_id@;
        assert(runtime::pending_of(
            state.pending_recoveries@[turn],
            target.provider@,
            target.session_id@,
        ));
    }
}

/// A recovery that ends is not in flight any longer, and its outcome is kept once, after all others,
/// with who had asked for it.
pub proof fn ended_recoveries_leave_their_outcome(
    state: &mut RuntimeState,
    failure_key: &str,
    success: bool,
    now: Timestamp,
    r: Option<PendingRecovery>,
    other: Seq<char>,
)
    requires
        call_ensures(RuntimeState::finish_recovery, (state, failure_key, success, now), r),
    ensures
        r is Some <==> old(state).pending_recoveries@.contains_key(failure_key@),
        !final(state).pending_recoveries@.contains_key(failure_key@),
        other != failure_key@ && old(state).pending_recoveries@.contains_key(other)
            ==> final(state).pending_recoveries@.contains_key(other)
            && final(state).pending_recoveries@[other] == old(state).pending_recoveries@[other],
        r is Some ==> final(state).recovery_outcomes@.len() == old(state).recovery_outcomes@.len() + 1 && final(state).recovery_outcomes@.last() == (
        RecoveryOutcome { completed_at: now, automatic: r->0.automatic, success })
            && r->0 == old(state).pending_recoveries@[failure_key@],
        r is None ==> final(state).recovery_outcomes == old(state).recovery_outcomes,
        final(state).handled == old(state).handled,
{
}

/// A recovery that is given up leaves no outcome.
pub proof fn abandoned_recoveries_leave_no_outcome(
    state: &mut RuntimeState,
    failure_key: &str,
    r: Option<PendingRecovery>,
)
    requires
        call_ensures(RuntimeState::abandon_recovery, (state, failure_key), r),
    ensures
        r is Some <==> old(state).pending_recoveries@.contains_key(failure_key@),
        !final(state).pending_recoveries@.contains_key(failure_key@),
        final(state).recovery_outcomes == old(state).recovery_outcomes,
{
}

/// Each look at a recovery that fails counts one more, and when it was is kept.
pub proof fn failed_looks_are_counted(
    state: &mut RuntimeState,
    failure_key: &str,
    now: Timestamp,
    r: Option<u32>,
)
    requires
        call_ensures(
            RuntimeState::record_recovery_observation_failure,
            (state, failure_key, now),
            r,
        ),
        old(state).pending_recoveries@.contains_key(failure_key@),
        old(state).pending_recoveries@[failure_key@].observation_failures < u32::MAX,
    ensures
        r is Some && r->0 == old(state).pending_recoveries@[failure_key@].observation_failures + 1,
        final(state).pending_recoveries@[failure_key@].observation_failures == r->0,
        final(state).pending_recoveries@[failure_key@].last_observation_at == Some(now),
        final(state).pending_recoveries@[failure_key@].started_at
            == old(state).pending_recoveries@[failure_key@].started_at,
{
}

/// Only state of the third version is taken over, as it is; without any there is none.
pub proof fn only_the_third_state_is_taken_over(
    path: String,
    stored: Option<RuntimeState>,
    r: Result<RuntimeState, UnsupportedVersion>,
)
    requires
        call_ensures(RuntimeState::load, (path, stored), r),
    ensures
        r is Ok <==> stored is None || stored->0.version == 3,
        r is Ok ==> r->Ok_0.version == 3,
        r is Ok && stored is Some ==> {
            &&& r->Ok_0.handled == stored->0.handled
            &&& r->Ok_0.observed == stored->0.observed
            &&& r->Ok_0.attempts == stored->0.attempts
            &&& r->Ok_0.pending_recoveries == stored->0.pending_recoveries
            &&& r->Ok_0.recovery_outcomes == stored->0.recovery_outcomes
        },
        r is Err ==> r->Err_0.found == stored->0.version && r->Err_0.required == 3,
{
}

/// Only a watchlist of the fourth version is taken over, as it is.
pub proof fn only_the_fourth_watchlist_is_taken_over(
    path: String,
    document: WatchlistDocument,
    r: Result<WatchlistStore, UnsupportedVersion>,
)
    requires
        call_ensures(WatchlistStore::load, (path, document), r),
    ensures
        r is Ok <==> document.version == 4,
        r is Ok ==> r->Ok_0.document == document,
        r is Err ==> r->Err_0.found == document.version && r->Err_0.required == 4,
{
}

/// A warning is what tells of an error or of something that failed.
pub proof fn errors_stand_out(kind: &str, r: bool)
    requires
        call_ensures(upkeep::is_warning, (kind,), r),
    ensures
        r <==> (exists|start: Seq<char>| kind@ == #[trigger] (start + "error"@)) || (exists|
            start: Seq<char>,
        |
            kind@ == #[trigger] (start + "failed"@)),
{
    lemma_ends(kind@, "error"@);
    lemma_ends(kind@, "failed"@);
}

proof fn lemma_ends(s: Seq<char>, suffix: Seq<char>)
    ensures
        text::ends_with_text(s, suffix) <==> exists|start: Seq<char>|
            s == #[trigger] (start + suffix),
{
    if text::ends_with_text(s, suffix) {
        let start = s.take(s.len() - suffix.len());
        assert(s =~= start + suffix);
    }
    if exists|start: Seq<char>| s == #[trigger] (start + suffix) {
        let start = choose|start: Seq<char>| s == #[trigger] (start + suffix);
        assert(s.subrange(s.len() - suffix.len(), s.len() as int) =~= suffix);
    }
}

/// The engine follows the watchlist: what is not watched any longer is not unresolved either.
pub proof fn engines_follow_the_watchlist(
    engine: &mut WatchEngine,
    targets: Vec<WatchTarget>,
    provider: Seq<char>,
    session: Seq<char>,
)
    requires
        call_ensures(WatchEngine::replace_watch_targets, (engine, targets), ()),
    ensures
        final(engine).targets@ == targets@,
        final(engine).state == old(engine).state,
        final(engine).settings == old(engine).settings,
        final(engine).unresolved_targets@.contains_key(provider + ":"@ + session) <==> old(engine).unresolved_targets@.contains_key(provider + ":"@ + session) && sessions::watched(
            targets@,
            provider,
            session,
        ),
{
    sessions::lemma_watched(targets@, provider, session);
}

/// New settings close the provider's process exactly where it would be run otherwise.
pub proof fn changed_commands_close_the_provider(
    engine: &mut WatchEngine,
    settings: Settings,
    close: bool,
)
    requires
        call_ensures(WatchEngine::replace_settings, (engine, settings), close),
    ensures
        final(engine).settings == settings,
        final(engine).state == old(engine).state,
        final(engine).targets == old(engine).targets,
        !close <==> old(engine).settings.providers.codex.enabled
            == settings.providers.codex.enabled && text::views(
            old(engine).settings.providers.codex.command@,
        ) == text::views(settings.providers.codex.command@),
{
}

/// A session is unresolved where its failure is, and where a recovery of it is in flight.
pub proof fn unresolved_sessions_are_kept(
    engine: &WatchEngine,
    r: TextMap<()>,
    provider: Seq<char>,
    session: Seq<char>,
)
    requires
        call_ensures(WatchEngine::unresolved_target_keys, (engine,), r),
    ensures
        engine.unresolved_targets@.contains_key(provider + ":"@ + session) ==> r@.contains_key(
            provider + ":"@ + session,
        ),
        in_flight(engine.state, provider, session) ==> r@.contains_key(
            provider + ":"@ + session,
        ),
        r@.contains_key(provider + ":"@ + session) ==> engine.unresolved_targets@.contains_key(
            provider + ":"@ + session,
        ) || engine.state.pending_key(provider + ":"@ + session),
{
    let key = provider + ":"@ + session;
    if in_flight(engine.state, provider, session) {
        let turn = choose|turn: Seq<char>| #[trigger]
            engine.state.pending_recoveries@.contains_key(turn)
                && engine.state.pending_recoveries@[turn].provider@ == provider
                && engine.state.pending_recoveries@[turn].session_id@ == session;
        assert(engine.state.pending_recoveries@.contains_key(turn));
        assert(models::session_key(provider, session) == key);
        assert(engine.state.pending_key(key));
    }
    assert(r@.contains_key(key) <==> engine.unresolved_targets@.contains_key(key)
        || engine.state.pending_key(key));
}

/// A provider is polled where it is enabled, where a session of it is watched, and where a recovery
/// of it is in flight.
pub proof fn providers_are_polled_where_needed(
    engine: &WatchEngine,
    enabled: &Vec<String>,
    polled: TextMap<()>,
    needed: TextMap<()>,
    provider: Seq<char>,
)
    requires
        call_ensures(WatchEngine::polled_providers, (engine, enabled), polled),
        call_ensures(WatchEngine::needed_providers, (engine,), needed),
    ensures
        polled@.contains_key(provider) <==> needed@.contains_key(provider) || exists|i: int|
            0 <= i < enabled@.len() && (#[trigger] enabled@[i])@ == provider,
        (exists|i: int|
            0 <= i < engine.targets@.len() && (#[trigger] engine.targets@[i]).provider@
                == provider) ==> needed@.contains_key(provider),
        (exists|turn: Seq<char>| #[trigger]
            engine.state.pending_recoveries@.contains_key(turn)
                && engine.state.pending_recoveries@[turn].provider@ == provider)
            ==> needed@.contains_key(provider),
        needed@.contains_key(provider) ==> (exists|i: int|
            0 <= i < engine.targets@.len() && (#[trigger] engine.targets@[i]).provider@
                == provider) || (exists|turn: Seq<char>| #[trigger]
            engine.state.pending_recoveries@.contains_key(turn)
                && engine.state.pending_recoveries@[turn].provider@ == provider),
{
    assert(needed@.contains_key(provider) <==> upkeep::has_provider(engine.targets@, provider)
        || upkeep::pending_provider(engine.state, provider));
    assert(polled@.contains_key(provider) <==> upkeep::is_named(enabled@, provider)
        || upkeep::has_provider(engine.targets@, provider) || upkeep::pending_provider(
        engine.state,
        provider,
    ));
}

/// The watched sessions of a provider are those of its targets.
pub proof fn watched_sessions_are_those_of_the_provider(
    engine: &WatchEngine,
    provider: &str,
    r: Vec<String>,
    session: Seq<char>,
)
    requires
        call_ensures(WatchEngine::watched_sessions, (engine, provider), r),
    ensures
        (exists|i: int| 0 <= i < r@.len() && (#[trigger] r@[i])@ == session) <==> exists|k: int|
            0 <= k < engine.targets@.len() && (#[trigger] engine.targets@[k]).provider@
                == provider@ && engine.targets@[k].session_id@ == session,
{
    let found = upkeep::sessions_of(engine.targets@, provider@);
    lemma_sessions_of(engine.targets@, provider@, session);
    assert(text::views(r@).len() == r@.len());
    if exists|i: int| 0 <= i < r@.len() && (#[trigger] r@[i])@ == session {
        let i = choose|i: int| 0 <= i < r@.len() && (#[trigger] r@[i])@ == session;
        assert(text::views(r@)[i] == session);
        assert(found.contains(session));
    }
    if found.contains(session) {
        let i = choose|i: int| 0 <= i < found.len() && found[i] == session;
        assert(text::views(r@)[i] == r@[i]@);
    }
}

proof fn lemma_sessions_of(targets: Seq<WatchTarget>, provider: Seq<char>, session: Seq<char>)
    ensures
        upkeep::sessions_of(targets, provider).contains(session) <==> exists|k: int|
            0 <= k < targets.len() && (#[trigger] targets[k]).provider@ == provider
                && targets[k].session_id@ == session,
    decreases targets.len(),
{
    if targets.len() > 0 {
        let before = targets.drop_last();
        let rest = upkeep::sessions_of(before, provider);
        let found = upkeep::sessions_of(targets, provider);
        lemma_sessions_of(before, provider, session);
        if found.contains(session) {
            let i = choose|i: int| 0 <= i < found.len() && found[i] == session;
            if i < rest.len() {
                assert(rest[i] == session);
                let k = choose|k: int|
                    0 <= k < before.len() && (#[trigger] before[k]).provider@ == provider
                        && before[k].session_id@ == session;
                assert(targets[k] == before[k]);
            } else {
                assert(targets[targets.len() - 1] == targets.last());
            }
        }
        if exists|k: int|
            0 <= k < targets.len() && (#[trigger] targets[k]).provider@ == provider
                && targets[k].session_id@ == session {
            let k = choose|k: int|
                0 <= k < targets.len() && (#[trigger] targets[k]).provider@ == provider
                    && targets[k].session_id@ == session;
            if k < before.len() {
                assert(before[k] == targets[k]);
                let i = choose|i: int| 0 <= i < rest.len() && rest[i] == session;
                assert(found[i] == session);
            } else {
                assert(found.last() == session);
                assert(found[found.len() - 1] == session);
            }
        }
    }
}

/// The category of a condition is what stands before its first dot.
pub proof fn categories_stand_before_the_dot(
    condition: &str,
    r: String,
    category: Seq<char>,
    rest: Seq<char>,
)
    requires
        call_ensures(events::condition_category, (condition,), r),
        forall|i: int| 0 <= i < category.len() ==> category[i] != '.',
        condition@ == category + seq!['.'] + rest || condition@ == category,
    ensures
        r@ == category,
{
    let at = category.len() as int;
    text::lemma_before_char(condition@, '.', at);
    assert(condition@.take(at) =~= category);
}

/// A log is shortened when it would hold more than twice what is kept, and then holds the last lines
/// that are; before that it only grows.
pub proof fn logs_are_bounded(
    store: &EventLogStore,
    lines: &Vec<String>,
    added: &Vec<String>,
    r: LogWrite,
    needs: bool,
    retention: usize,
    path: String,
    fresh: EventLogStore,
)
    requires
        call_ensures(EventLogStore::new, (path, retention), fresh),
        *store == fresh,
        call_ensures(EventLogStore::append, (store, lines, added), r),
        call_ensures(EventLogStore::needs_compaction, (store, lines.len()), needs),
    ensures
        needs <==> lines@.len() > 2 * retention,
        r is Nothing <==> added@.len() == 0,
        r is Shorten <==> added@.len() > 0 && lines@.len() + added@.len() > 2 * retention,
        match r {
            LogWrite::Nothing => true,
            LogWrite::Append(text) => text@ == events::joined_lines(added@),
            LogWrite::Shorten { appended, content } => appended@ == events::joined_lines(added@)
                && content@ == events::joined_lines(
                (lines@ + added@).skip(
                    if lines@.len() + added@.len() > retention {
                        lines@.len() + added@.len() - retention
                    } else {
                        0
                    },
                ),
            ),
        },
{
    if lines@.len() + added@.len() <= retention {
        assert((lines@ + added@).skip(0) =~= lines@ + added@);
    }
}

/// Each line of a log ends with a line break.
pub proof fn lines_end_with_a_break(lines: Seq<String>, line: String)
    ensures
        events::joined_lines(Seq::empty()).len() == 0,
        events::joined_lines(lines.push(line)) == events::joined_lines(lines) + line@ + "\n"@,
{
    assert(lines.push(line).drop_last() =~= lines);
}

/// What is logged of a session is told of it alone, the newest last and no more than are asked for.
pub proof fn logged_events_are_told(
    store: &EventLogStore,
    logged: &Vec<EngineEvent>,
    provider: &str,
    session_id: &str,
    limit: usize,
    r: Vec<SessionLog>,
    i: int,
)
    requires
        call_ensures(
            EventLogStore::session_logs,
            (store, logged, provider, session_id, None::<&str>, limit),
            r,
        ),
        0 <= i < r@.len(),
    ensures
        r@.len() <= limit,
        r@[i].provider@ == provider@,
        r@[i].session_id@ == session_id@,
        r@[i].source@ == "watchcat"@,
        exists|k: int|
            0 <= k < logged@.len() && r@[i].timestamp == Some((#[trigger] logged@[k]).timestamp)
                && r@[i].kind@ == logged@[k].kind@ && r@[i].message@ == logged@[k].message@
                && r@[i].condition == logged@[k].condition,
{
    let keep = |event: EngineEvent|
        events::selected(event, provider@, session_id@, None::<Seq<char>>);
    let selection = logged@.filter(keep);
    assert(selection == events::selection(
        logged@,
        provider@,
        session_id@,
        events::optional_str(None::<&str>),
    ));
    let at = selection.len() - r@.len() + i;
    assert(models::is_event_log(r@[i], selection[at], provider@, session_id@));
    assert(selection.contains(selection[at]));
    logged@.lemma_filter_contains_rev(keep, selection[at]);
    let k = choose|k: int| 0 <= k < logged@.len() && logged@[k] == selection[at];
    assert(logged@[k].kind@ == r@[i].kind@);
}

/// An event about a session is a line of its activity; one that names none is not.
pub proof fn events_become_lines(
    event: &EngineEvent,
    provider: Seq<char>,
    session: Seq<char>,
    r: Option<SessionLog>,
)
    requires
        call_ensures(EngineEvent::as_session_log, (event,), r),
        event.target@ == provider + ":"@ + session,
        forall|i: int| 0 <= i < provider.len() ==> provider[i] != ':',
    ensures
        r is Some,
        r->0.provider@ == provider,
        r->0.session_id@ == session,
        r->0.source@ == "watchcat"@,
        r->0.kind@ == event.kind@,
        r->0.message@ == event.message@,
        r->0.timestamp == Some(event.timestamp),
        r->0.condition == event.condition,
{
    reveal_strlit(":");
    let s = event.target@;
    let at = provider.len() as int;
    assert(":"@.len() == 1 && ":"@[0] == ':');
    assert(s.subrange(at, at + 1) =~= ":"@);
    assert forall|k: int| 0 <= k < at implies !text::occurs_at(s, ":"@, k) by {
        if text::occurs_at(s, ":"@, k) {
            assert(s.subrange(k, k + 1)[0] == s[k]);
        }
    }
    text::lemma_first_occurrence(s, ":"@, at);
    assert(s.take(at) =~= provider);
    assert(s.skip(at + 1) =~= session);
}

/// A permit is taken back and given with the targets that it is for.
pub proof fn reloads_renew_the_permit(
    engine: &mut WatchEngine,
    permit: &mut RecoveryPermit,
    targets: Option<Vec<WatchTarget>>,
    settings: Option<Settings>,
    live: bool,
    close: bool,
)
    requires
        call_ensures(
            WatchEngine::apply_direct_reload,
            (engine, permit, targets, settings, live),
            close,
        ),
    ensures
        targets is None ==> final(engine).targets == old(engine).targets && *final(permit) == *old(permit),
        targets is Some ==> final(engine).targets@ == targets->0@,
        settings is None ==> final(engine).settings == old(engine).settings && !close,
        settings is Some ==> final(engine).settings == settings->0,
        final(engine).state == old(engine).state,
{
}

} // verus!
