//! How sessions are read, discovered, kept and let go.

use vstd::prelude::*;
use vstd::string::*;

use crate::config::LifecycleSettings;
use crate::daemon::control::{Change, WatchcatDaemon};
use crate::daemon::reconcile;
use crate::daemon::reconcile::ProviderScan;
use crate::json::{Json, Number};
use crate::laws::failures;
use crate::models::{Session, SessionState, TrackingSource, WatchTarget};
use crate::providers::codex;
use crate::providers::codex::CodexAnswerError;
use crate::state::watchlist;
use crate::state::watchlist::WatchlistStore;
use crate::text;
use crate::textmap::TextMap;
use crate::time::Timestamp;

verus! {

/// The session is among the targets.
pub open spec fn watched(targets: Seq<WatchTarget>, provider: Seq<char>, session: Seq<char>) -> bool {
    exists|i: int|
        0 <= i < targets.len() && (#[trigger] targets[i]).provider@ + ":"@ + targets[i].session_id@
            == provider + ":"@ + session
}

/// The targets after a change of them was made, or where there is none.
pub open spec fn targets_after(before: Seq<WatchTarget>, change: Option<Change>) -> Seq<WatchTarget> {
    match change {
        Some(Change::Watchlist(document)) => document.targets@,
        _ => before,
    }
}

/// A watched session is one whose name some target has.
pub proof fn lemma_watched(targets: Seq<WatchTarget>, provider: Seq<char>, session: Seq<char>)
    ensures
        watched(targets, provider, session) == watchlist::watches(
            targets,
            provider + ":"@ + session,
        ),
{
    let key = provider + ":"@ + session;
    if watched(targets, provider, session) {
        let i = choose|i: int|
            0 <= i < targets.len() && (#[trigger] targets[i]).provider@ + ":"@
                + targets[i].session_id@ == key;
        assert(targets[i].key_view() == key);
    }
    if watchlist::watches(targets, key) {
        let i = choose|i: int| 0 <= i < targets.len() && (#[trigger] targets[i]).key_view() == key;
        assert(targets[i].provider@ + ":"@ + targets[i].session_id@ == key);
    }
}

proof fn lemma_same_watched(a: Seq<WatchTarget>, b: Seq<WatchTarget>, key: Seq<char>)
    requires
        watchlist::same_targets(a, b),
    ensures
        watchlist::watches(a, key) == watchlist::watches(b, key),
{
    if watchlist::watches(a, key) {
        let i = choose|i: int| 0 <= i < a.len() && (#[trigger] a[i]).key_view() == key;
        assert(watchlist::same_target(a[i], b[i]));
        assert(b[i].key_view() == key);
    }
    if watchlist::watches(b, key) {
        let i = choose|i: int| 0 <= i < b.len() && (#[trigger] b[i]).key_view() == key;
        assert(watchlist::same_target(a[i], b[i]));
        assert(a[i].key_view() == key);
    }
}

/// What a poll leaves, in the words of the watchlist.
proof fn lemma_sweep(
    daemon: WatchcatDaemon,
    scans: Seq<ProviderScan>,
    unresolved: Map<Seq<char>, ()>,
    now: Timestamp,
    r: Option<Change>,
    key: Seq<char>,
) -> (protected: Map<Seq<char>, ()>)
    requires
        match r {
            None => exists|after: Seq<WatchTarget>| #[trigger]
                daemon.leaves(scans, unresolved, now, after) && watchlist::same_targets(
                    daemon.watchlist.document.targets@,
                    after,
                ),
            Some(Change::Watchlist(document)) => daemon.leaves(
                scans,
                unresolved,
                now,
                document.targets@,
            ),
            Some(Change::Settings(_)) => false,
        },
    ensures
        daemon.is_protection(scans, unresolved, protected),
        watchlist::watches(targets_after(daemon.watchlist.document.targets@, r), key)
            == watchlist::watches(
            watchlist::reconciled(
                daemon.watchlist.document,
                reconcile::listed_by(scans),
                now,
                daemon.settings.lifecycle.stale_after_seconds as int,
                protected,
            ),
            key,
        ),
{
    let after = match r {
        Some(Change::Watchlist(document)) => document.targets@,
        _ => choose|after: Seq<WatchTarget>| #[trigger]
            daemon.leaves(scans, unresolved, now, after) && watchlist::same_targets(
                daemon.watchlist.document.targets@,
                after,
            ),
    };
    if r is None {
        lemma_same_watched(daemon.watchlist.document.targets@, after, key);
    }
    choose|protected: Map<Seq<char>, ()>| #[trigger]
        daemon.is_protection(scans, unresolved, protected) && after == watchlist::reconciled(
            daemon.watchlist.document,
            reconcile::listed_by(scans),
            now,
            daemon.settings.lifecycle.stale_after_seconds as int,
            protected,
        )
}

proof fn lemma_listed(scans: Seq<ProviderScan>, scan: int, at: int)
    requires
        0 <= scan < scans.len(),
        scans[scan].sessions is Some,
        0 <= at < scans[scan].sessions->0@.len(),
    ensures
        reconcile::listed_by(scans).contains(scans[scan].sessions->0@[at]),
    decreases scans.len(),
{
    let rest = scans.drop_last();
    let head = reconcile::listed_by(rest);
    let tail = match scans.last().sessions {
        Some(sessions) => sessions@,
        None => Seq::empty(),
    };
    let all = reconcile::listed_by(scans);
    assert(all == head + tail);
    let session = scans[scan].sessions->0@[at];
    if scan < rest.len() {
        lemma_listed(rest, scan, at);
        let i = choose|i: int| 0 <= i < head.len() && head[i] == session;
        assert(all[i] == session);
    } else {
        assert(all[head.len() + at] == session);
    }
}

proof fn lemma_listed_by_some(scans: Seq<ProviderScan>, i: int)
    requires
        0 <= i < reconcile::listed_by(scans).len(),
    ensures
        exists|scan: int, at: int|
            #![trigger scans[scan].sessions->0@[at]]
            0 <= scan < scans.len() && scans[scan].sessions is Some && 0 <= at
                < scans[scan].sessions->0@.len() && scans[scan].sessions->0@[at]
                == reconcile::listed_by(scans)[i],
    decreases scans.len(),
{
    let rest = scans.drop_last();
    let head = reconcile::listed_by(rest);
    if i < head.len() {
        lemma_listed_by_some(rest, i);
        let (scan, at) = choose|scan: int, at: int|
            #![trigger rest[scan].sessions->0@[at]]
            0 <= scan < rest.len() && rest[scan].sessions is Some && 0 <= at
                < rest[scan].sessions->0@.len() && rest[scan].sessions->0@[at] == head[i];
        assert(scans[scan].sessions->0@[at] == reconcile::listed_by(scans)[i]);
    } else {
        let last = scans.len() - 1;
        assert(scans[last].sessions->0@[i - head.len()] == reconcile::listed_by(scans)[i]);
    }
}

/// A thread is read as a session of Codex with its identifier: active, and nothing else, where its
/// status says so; idle where it is idle or not loaded; failed after an error of the system; and
/// unknown otherwise.
pub proof fn threads_are_read_by_their_status(raw: &Json, r: Result<Session, CodexAnswerError>)
    requires
        call_ensures(codex::parse_session, (raw,), r),
    ensures
        r is Ok <==> failures::tells_something(*raw, "id"@),
        r matches Ok(session) ==> {
            let says = |word: Seq<char>|
                exists|status: Json| #[trigger]
                    failures::holds(*raw, "status"@, status) && failures::tells(
                        status,
                        "type"@,
                        word,
                    );
            &&& session.provider@ == "codex"@
            &&& failures::tells(*raw, "id"@, session.id@)
            &&& session.state == SessionState::Active <==> says("active"@)
            &&& session.state == SessionState::Idle <==> says("idle"@) || says("notLoaded"@)
            &&& session.state == SessionState::Failed <==> says("systemError"@)
            &&& forall|n: i64|
                #![trigger failures::holds(*raw, "updatedAt"@, Json::Number(Number::Unsigned(n as u64)))]
                0 <= n <= 8_210_266_876_799 && failures::holds(
                    *raw,
                    "updatedAt"@,
                    Json::Number(Number::Unsigned(n as u64)),
                ) ==> session.updated_at == Some(Timestamp { seconds: n, nanos: 0 })
            &&& failures::lacks(*raw, "updatedAt"@) ==> session.updated_at is None
            &&& forall|name: Seq<char>| #[trigger]
                failures::tells(*raw, "name"@, name) && !text::blank(name) ==> session.title@ == name
            &&& failures::lacks(*raw, "name"@) && failures::lacks(*raw, "preview"@)
                ==> session.title@ == session.id@
        },
{
    reveal_strlit("active");
    reveal_strlit("idle");
    reveal_strlit("notLoaded");
    reveal_strlit("systemError");
    assert("active"@.len() == 6 && "idle"@.len() == 4 && "notLoaded"@.len() == 9
        && "systemError"@.len() == 11);
    match r {
        Ok(session) => {
            match *raw {
                Json::Object(members) => {
                    if members@.contains_key("status"@) {
                        let status = members@["status"@];
                        assert(failures::holds(*raw, "status"@, status));
                    }
                },
                _ => {},
            }
        },
        _ => {},
    }
}

/// A page of threads is read thread by thread, in its order; an unreadable thread or no list at all
/// makes it unreadable. The cursor of the next page is taken where there is anything on this one.
pub proof fn pages_are_read_thread_by_thread(
    page: &Json,
    threads: std::sync::Arc<Vec<Json>>,
    thread: &Json,
    at: int,
    session: Result<Session, CodexAnswerError>,
    r: Result<(Vec<Session>, Option<String>), CodexAnswerError>,
)
    requires
        call_ensures(codex::read_page, (page,), r),
        failures::holds(*page, "data"@, Json::Array(threads)),
        0 <= at < threads@.len(),
        *thread == threads@[at],
        call_ensures(codex::parse_session, (thread,), session),
    ensures
        session is Err ==> r is Err,
        r matches Ok((sessions, cursor)) ==> {
            &&& sessions@.len() == threads@.len()
            &&& session is Ok
            &&& sessions@[at].id@ == session->Ok_0.id@
            &&& sessions@[at].state == session->Ok_0.state
            &&& sessions@[at].updated_at == session->Ok_0.updated_at
            &&& sessions@[at].title@ == session->Ok_0.title@
            &&& sessions@[at].provider@ == "codex"@
            &&& forall|next: Seq<char>| #[trigger]
                failures::tells(*page, "nextCursor"@, next) ==> cursor is Some && cursor->0@ == next
            &&& !failures::tells_something(*page, "nextCursor"@) ==> cursor is None
        },
{
    assert(codex::page_threads(*page) == Some(threads@));
    match r {
        Ok((sessions, cursor)) => {
            assert(threads@[at].member_text("id"@) is Some);
            assert(codex::is_session_of(
                sessions@[at],
                threads@[at],
                threads@[at].member_text("id"@)->0,
            ));
            assert(text::option_view(cursor) == codex::following(*page));
        },
        _ => {},
    }
}

/// Sessions at work stay: a watched session that some scan lists as active, or without a time, is
/// watched after the poll, however old its activity is.
pub proof fn sessions_at_work_stay_watched(
    daemon: &mut WatchcatDaemon,
    scans: &Vec<ProviderScan>,
    unresolved: &TextMap<()>,
    now: Timestamp,
    r: Option<Change>,
    scan: int,
    at: int,
)
    requires
        call_ensures(WatchcatDaemon::plan_sweep, (daemon, scans, unresolved, now), r),
        0 <= scan < scans@.len(),
        scans@[scan].sessions is Some,
        0 <= at < scans@[scan].sessions->0@.len(),
        scans@[scan].sessions->0@[at].state == SessionState::Active
            || scans@[scan].sessions->0@[at].updated_at is None,
        watched(
            old(daemon).watchlist.document.targets@,
            scans@[scan].sessions->0@[at].provider@,
            scans@[scan].sessions->0@[at].id@,
        ),
    ensures
        watched(
            targets_after(old(daemon).watchlist.document.targets@, r),
            scans@[scan].sessions->0@[at].provider@,
            scans@[scan].sessions->0@[at].id@,
        ),
{
    let session = scans@[scan].sessions->0@[at];
    let key = session.provider@ + ":"@ + session.id@;
    let before = old(daemon).watchlist.document;
    let protected = lemma_sweep(*old(daemon), scans@, unresolved@, now, r, key);
    lemma_watched(before.targets@, session.provider@, session.id@);
    lemma_watched(targets_after(before.targets@, r), session.provider@, session.id@);
    assert(session.key_view() == key);
    assert(reconcile::lists_uncertain(scans@[scan].sessions->0@, key));
    assert(reconcile::leaves_open(scans@[scan], before.targets@, key));
    assert(reconcile::left_open(scans@, before.targets@, key));
    assert(old(daemon).protects(scans@, unresolved@, key));
    assert(protected.contains_key(key));
    watchlist::protected_sessions_stay(
        before,
        reconcile::listed_by(scans@),
        now,
        old(daemon).settings.lifecycle.stale_after_seconds as int,
        protected,
        key,
    );
}

/// The same from the provider's answer on: a watched session whose thread a page of Codex reports
/// with the status `active` is watched after the poll that takes the page.
pub proof fn threads_at_work_stay_watched(
    daemon: &mut WatchcatDaemon,
    scans: &Vec<ProviderScan>,
    unresolved: &TextMap<()>,
    now: Timestamp,
    r: Option<Change>,
    scan: int,
    at: int,
    page: &Json,
    threads: std::sync::Arc<Vec<Json>>,
    thread: &Json,
    session: Session,
    status: Json,
    id: Seq<char>,
    sessions: Vec<Session>,
    cursor: Option<String>,
)
    requires
        call_ensures(codex::read_page, (page,), Ok((sessions, cursor))),
        failures::holds(*page, "data"@, Json::Array(threads)),
        0 <= at < threads@.len(),
        *thread == threads@[at],
        call_ensures(codex::parse_session, (thread,), Ok(session)),
        failures::tells(*thread, "id"@, id),
        failures::holds(*thread, "status"@, status),
        failures::tells(status, "type"@, "active"@),
        call_ensures(WatchcatDaemon::plan_sweep, (daemon, scans, unresolved, now), r),
        0 <= scan < scans@.len(),
        scans@[scan].sessions == Some(sessions),
        watched(old(daemon).watchlist.document.targets@, "codex"@, id),
    ensures
        watched(targets_after(old(daemon).watchlist.document.targets@, r), "codex"@, id),
{
    threads_are_read_by_their_status(thread, Ok(session));
    pages_are_read_thread_by_thread(page, threads, thread, at, Ok(session), Ok((sessions, cursor)));
    sessions_at_work_stay_watched(daemon, scans, unresolved, now, r, scan, at);
}

/// A provider that could not be asked loses none of its sessions, and one whose list is not complete
/// loses none that the list does not show.
pub proof fn unseen_sessions_stay_watched(
    daemon: &mut WatchcatDaemon,
    scans: &Vec<ProviderScan>,
    unresolved: &TextMap<()>,
    now: Timestamp,
    r: Option<Change>,
    scan: int,
    target: int,
)
    requires
        call_ensures(WatchcatDaemon::plan_sweep, (daemon, scans, unresolved, now), r),
        0 <= scan < scans@.len(),
        0 <= target < old(daemon).watchlist.document.targets@.len(),
        old(daemon).watchlist.document.targets@[target].provider@ == scans@[scan].provider@,
        scans@[scan].sessions is None || (!scans@[scan].complete && forall|i: int|
            0 <= i < scans@[scan].sessions->0@.len() ==> (
            #[trigger] scans@[scan].sessions->0@[i]).provider@ + ":"@
                + scans@[scan].sessions->0@[i].id@ != old(daemon).watchlist.document.targets@[target].provider@ + ":"@ + old(daemon).watchlist.document.targets@[target].session_id@),
    ensures
        watched(
            targets_after(old(daemon).watchlist.document.targets@, r),
            old(daemon).watchlist.document.targets@[target].provider@,
            old(daemon).watchlist.document.targets@[target].session_id@,
        ),
{
    let before = old(daemon).watchlist.document;
    let it = before.targets@[target];
    let key = it.provider@ + ":"@ + it.session_id@;
    assert(it.key_view() == key);
    let protected = lemma_sweep(*old(daemon), scans@, unresolved@, now, r, key);
    lemma_watched(targets_after(before.targets@, r), it.provider@, it.session_id@);
    assert(reconcile::targets_key(before.targets@, scans@[scan].provider@, key));
    if scans@[scan].sessions is Some {
        let sessions = scans@[scan].sessions->0@;
        if reconcile::lists(sessions, key) {
            let i = choose|i: int| 0 <= i < sessions.len() && (#[trigger] sessions[i]).key_view()
                == key;
            assert(sessions[i].provider@ + ":"@ + sessions[i].id@ == key);
        }
    }
    assert(reconcile::leaves_open(scans@[scan], before.targets@, key));
    assert(reconcile::left_open(scans@, before.targets@, key));
    assert(old(daemon).protects(scans@, unresolved@, key));
    assert(protected.contains_key(key));
    assert(watchlist::watches(before.targets@, key));
    watchlist::protected_sessions_stay(
        before,
        reconcile::listed_by(scans@),
        now,
        old(daemon).settings.lifecycle.stale_after_seconds as int,
        protected,
        key,
    );
}

/// Recent sessions join: what some scan lists with a time inside the window is watched after the
/// poll, unless it was removed by hand.
pub proof fn recent_sessions_join(
    daemon: &mut WatchcatDaemon,
    scans: &Vec<ProviderScan>,
    unresolved: &TextMap<()>,
    now: Timestamp,
    r: Option<Change>,
    scan: int,
    at: int,
)
    requires
        call_ensures(WatchcatDaemon::plan_sweep, (daemon, scans, unresolved, now), r),
        0 <= scan < scans@.len(),
        scans@[scan].sessions is Some,
        0 <= at < scans@[scan].sessions->0@.len(),
        scans@[scan].sessions->0@[at].updated_at is Some,
        scans@[scan].sessions->0@[at].updated_at->0.is_not_before(
            now,
            -(old(daemon).settings.lifecycle.stale_after_seconds as int),
        ),
        !old(daemon).watchlist.document.excluded@.contains_key(
            scans@[scan].sessions->0@[at].provider@ + ":"@ + scans@[scan].sessions->0@[at].id@,
        ),
    ensures
        watched(
            targets_after(old(daemon).watchlist.document.targets@, r),
            scans@[scan].sessions->0@[at].provider@,
            scans@[scan].sessions->0@[at].id@,
        ),
{
    let session = scans@[scan].sessions->0@[at];
    let key = session.provider@ + ":"@ + session.id@;
    let before = old(daemon).watchlist.document;
    let protected = lemma_sweep(*old(daemon), scans@, unresolved@, now, r, key);
    lemma_watched(targets_after(before.targets@, r), session.provider@, session.id@);
    lemma_listed(scans@, scan, at);
    let all = reconcile::listed_by(scans@);
    let i = choose|i: int| 0 <= i < all.len() && all[i] == session;
    assert(session.key_view() == key);
    watchlist::recent_activity_is_watched(
        before,
        all,
        now,
        old(daemon).settings.lifecycle.stale_after_seconds as int,
        protected,
        i,
    );
}

/// Removed sessions stay away: what was removed by hand is not watched after a poll, whatever the
/// scans list.
pub proof fn removed_sessions_stay_away(
    daemon: &mut WatchcatDaemon,
    scans: &Vec<ProviderScan>,
    unresolved: &TextMap<()>,
    now: Timestamp,
    r: Option<Change>,
    provider: Seq<char>,
    session: Seq<char>,
)
    requires
        call_ensures(WatchcatDaemon::plan_sweep, (daemon, scans, unresolved, now), r),
        old(daemon).watchlist.document.excluded@.contains_key(provider + ":"@ + session),
        !watched(old(daemon).watchlist.document.targets@, provider, session),
    ensures
        !watched(targets_after(old(daemon).watchlist.document.targets@, r), provider, session),
        r matches Some(Change::Watchlist(document)) ==> document.excluded@ == old(daemon).watchlist.document.excluded@,
{
    let key = provider + ":"@ + session;
    let before = old(daemon).watchlist.document;
    let protected = lemma_sweep(*old(daemon), scans@, unresolved@, now, r, key);
    lemma_watched(before.targets@, provider, session);
    lemma_watched(targets_after(before.targets@, r), provider, session);
    watchlist::removal_persists(
        before,
        reconcile::listed_by(scans@),
        now,
        old(daemon).settings.lifecycle.stale_after_seconds as int,
        protected,
        key,
    );
}

/// Inactive sessions leave: one whose addition and activity lie before the window, which every scan
/// that lists it lists as not at work and with a time before the window, and whose provider was
/// asked for all of its sessions, is not watched after the poll, unless its failure is unresolved
/// and the settings protect that.
pub proof fn inactive_sessions_leave(
    daemon: &mut WatchcatDaemon,
    scans: &Vec<ProviderScan>,
    unresolved: &TextMap<()>,
    now: Timestamp,
    r: Option<Change>,
    provider: Seq<char>,
    session: Seq<char>,
)
    requires
        call_ensures(WatchcatDaemon::plan_sweep, (daemon, scans, unresolved, now), r),
        ({
            let window = -(old(daemon).settings.lifecycle.stale_after_seconds as int);
            let targets = old(daemon).watchlist.document.targets@;
            let key = provider + ":"@ + session;
            &&& forall|i: int|
                #![trigger targets[i]]
                0 <= i < targets.len() && targets[i].provider@ + ":"@ + targets[i].session_id@ == key
                    ==> !targets[i].added_at.is_not_before(now, window) && (
                targets[i].last_activity_at is Some
                    ==> !targets[i].last_activity_at->0.is_not_before(now, window))
            &&& forall|j: int|
                0 <= j < scans@.len() ==> (#[trigger] scans@[j]).sessions is Some
                    && scans@[j].complete
            &&& forall|j: int, i: int|
                #![trigger scans@[j].sessions->0@[i]]
                0 <= j < scans@.len() && 0 <= i < scans@[j].sessions->0@.len()
                    && scans@[j].sessions->0@[i].provider@ + ":"@ + scans@[j].sessions->0@[i].id@
                    == key ==> scans@[j].sessions->0@[i].state != SessionState::Active
                    && scans@[j].sessions->0@[i].updated_at is Some
                    && !scans@[j].sessions->0@[i].updated_at->0.is_not_before(now, window)
            &&& !old(daemon).settings.lifecycle.protect_unresolved_failures
                || !unresolved@.contains_key(key)
        }),
    ensures
        !watched(targets_after(old(daemon).watchlist.document.targets@, r), provider, session),
{
    let key = provider + ":"@ + session;
    let before = old(daemon).watchlist.document;
    let stale = old(daemon).settings.lifecycle.stale_after_seconds as int;
    let protected = lemma_sweep(*old(daemon), scans@, unresolved@, now, r, key);
    lemma_watched(targets_after(before.targets@, r), provider, session);
    let all = reconcile::listed_by(scans@);
    if reconcile::left_open(scans@, before.targets@, key) {
        let j = choose|j: int|
            0 <= j < scans@.len() && reconcile::leaves_open(
                #[trigger] scans@[j],
                before.targets@,
                key,
            );
        let sessions = scans@[j].sessions->0@;
        assert(reconcile::lists_uncertain(sessions, key));
        let i = choose|i: int|
            0 <= i < sessions.len() && (#[trigger] sessions[i]).key_view() == key
                && reconcile::uncertain(sessions[i]);
        assert(scans@[j].sessions->0@[i].provider@ + ":"@ + scans@[j].sessions->0@[i].id@ == key);
        assert(false);
    }
    assert(!old(daemon).protects(scans@, unresolved@, key));
    assert(!protected.contains_key(key));
    assert forall|i: int| 0 <= i < all.len() && (#[trigger] all[i]).key_view() == key implies
        watchlist::inactive_session(all[i], now, stale) by {
        lemma_listed_by_some(scans@, i);
        let (scan, at) = choose|scan: int, at: int|
            #![trigger scans@[scan].sessions->0@[at]]
            0 <= scan < scans@.len() && scans@[scan].sessions is Some && 0 <= at
                < scans@[scan].sessions->0@.len() && scans@[scan].sessions->0@[at] == all[i];
        assert(scans@[scan].sessions->0@[at].provider@ + ":"@ + scans@[scan].sessions->0@[at].id@
            == key);
    }
    assert(watchlist::all_inactive(before.targets@, key, now, stale));
    watchlist::inactivity_expires(before, all, now, stale, protected, key);
}

/// A session added by hand is watched as one added by hand and at that time, and is not excluded any
/// longer. Nothing else is watched or excluded otherwise than before.
pub proof fn added_sessions_are_watched(
    store: &mut WatchlistStore,
    target: WatchTarget,
    added: bool,
    other: Seq<char>,
    session: Seq<char>,
)
    requires
        call_ensures(WatchlistStore::add, (store, target), added),
        target.source == TrackingSource::Manual,
    ensures
        added <==> !watched(old(store).document.targets@, target.provider@, target.session_id@),
        watched(final(store).document.targets@, target.provider@, target.session_id@),
        exists|i: int|
            0 <= i < final(store).document.targets@.len() && (#[trigger] final(store).document.targets@[i]).provider@ + ":"@ + final(store).document.targets@[i].session_id@ == target.provider@ + ":"@
                + target.session_id@ && final(store).document.targets@[i].source
                == TrackingSource::Manual && final(store).document.targets@[i].added_at
                == target.added_at && (target.label is Some ==> final(store).document.targets@[i].label == target.label),
        !final(store).document.excluded@.contains_key(
            target.provider@ + ":"@ + target.session_id@,
        ),
        other + ":"@ + session != target.provider@ + ":"@ + target.session_id@ ==> (watched(
            final(store).document.targets@,
            other,
            session,
        ) <==> watched(old(store).document.targets@, other, session)) && (final(store).document.excluded@.contains_key(other + ":"@ + session) <==> old(store).document.excluded@.contains_key(other + ":"@ + session)),
{
    let before = old(store).document.targets@;
    let after = final(store).document.targets@;
    let key = target.provider@ + ":"@ + target.session_id@;
    assert(target.key_view() == key);
    lemma_watched(before, target.provider@, target.session_id@);
    lemma_watched(after, target.provider@, target.session_id@);
    lemma_watched(before, other, session);
    lemma_watched(after, other, session);
    watchlist::adding_watches(before, target);
    let at = watchlist::first_with_key(before, key);
    assert(after[at].provider@ + ":"@ + after[at].session_id@ == key);
    let wanted = other + ":"@ + session;
    if wanted != key {
        if watchlist::watches(before, wanted) {
            let i = choose|i: int| 0 <= i < before.len() && (#[trigger] before[i]).key_view()
                == wanted;
            assert(i == at ==> after[at].key_view() == key && before[at].key_view()
                == after[at].key_view());
            assert(after[i].key_view() == wanted);
        }
        if watchlist::watches(after, wanted) {
            let i = choose|i: int| 0 <= i < after.len() && (#[trigger] after[i]).key_view()
                == wanted;
            assert(i != at);
            assert(i < before.len());
            assert(before[i].key_view() == wanted);
        }
    }
}

/// A session removed by hand is not watched and is excluded from then on; every other stays as it
/// was.
pub proof fn removed_sessions_are_excluded(
    store: &mut WatchlistStore,
    key: &str,
    removed: bool,
    provider: Seq<char>,
    session: Seq<char>,
)
    requires
        call_ensures(WatchlistStore::remove, (store, key), removed),
    ensures
        key@ == provider + ":"@ + session ==> (removed <==> watched(
            old(store).document.targets@,
            provider,
            session,
        )) && !watched(final(store).document.targets@, provider, session),
        final(store).document.excluded@.contains_key(key@),
        key@ != provider + ":"@ + session ==> (watched(
            final(store).document.targets@,
            provider,
            session,
        ) <==> watched(old(store).document.targets@, provider, session)),
{
    let before = old(store).document.targets@;
    let after = final(store).document.targets@;
    let wanted = provider + ":"@ + session;
    let keep = |target: WatchTarget| target.key_view() != key@;
    lemma_watched(before, provider, session);
    lemma_watched(after, provider, session);
    assert(after == before.filter(keep));
    if watchlist::watches(after, wanted) {
        let i = choose|i: int| 0 <= i < after.len() && (#[trigger] after[i]).key_view() == wanted;
        before.lemma_filter_pred(keep, i);
        assert(after.contains(after[i]));
        before.lemma_filter_contains_rev(keep, after[i]);
        let j = choose|j: int| 0 <= j < before.len() && before[j] == after[i];
        assert(before[j].key_view() == wanted);
    }
    if watchlist::watches(before, wanted) && wanted != key@ {
        let i = choose|i: int| 0 <= i < before.len() && (#[trigger] before[i]).key_view() == wanted;
        before.lemma_filter_contains(keep, i);
        let j = choose|j: int| 0 <= j < after.len() && after[j] == before[i];
        assert(after[j].key_view() == wanted);
    }
}

/// The window of activity is the time that the settings name: what was active since then is recent.
pub proof fn activity_counts_within_the_window(
    now: Timestamp,
    lifecycle: &LifecycleSettings,
    activity: Timestamp,
    r: Timestamp,
)
    requires
        call_ensures(reconcile::activity_cutoff, (now, lifecycle), r),
        lifecycle.stale_after_seconds >= 0,
        now.nanos < 1_000_000_000,
        activity.nanos < 1_000_000_000,
    ensures
        activity.is_not_before(r, 0) <==> activity.seconds * 1_000_000_000 + activity.nanos >= (
        now.seconds - lifecycle.stale_after_seconds) * 1_000_000_000 + now.nanos,
{
    assert(lifecycle.stale_after_seconds >= 0);
    assert(activity.is_not_before(now, -lifecycle.stale_after_seconds) == activity.is_not_before(
        r,
        0,
    ));
}

/// A sweep is due where there was none, or where the whole seconds since the last are as many as the
/// interval.
pub proof fn sweeps_are_due_after_their_interval(
    last: Timestamp,
    now: Timestamp,
    lifecycle: &LifecycleSettings,
    first: bool,
    r: bool,
)
    requires
        call_ensures(reconcile::is_sweep_due, (None::<Timestamp>, now, lifecycle), first),
        call_ensures(reconcile::is_sweep_due, (Some(last), now, lifecycle), r),
        last.nanos < 1_000_000_000,
        now.nanos < 1_000_000_000,
        lifecycle.sweep_interval_seconds <= i64::MAX,
        now.is_not_before(last, 0),
    ensures
        first,
        r <==> now.seconds * 1_000_000_000 + now.nanos >= (last.seconds
            + lifecycle.sweep_interval_seconds) * 1_000_000_000 + last.nanos,
{
    let passed = now.nanos_since(last);
    let interval = lifecycle.sweep_interval_seconds as int;
    assert(passed >= 0);
    assert(passed / 1_000_000_000 >= interval <==> passed >= interval * 1_000_000_000)
        by (nonlinear_arith)
        requires
            passed >= 0,
    ;
}

} // verus!
