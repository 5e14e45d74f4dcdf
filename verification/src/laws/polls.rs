//! What a poll leaves behind, and what clients are told of it.

use vstd::prelude::*;
use vstd::string::*;

use crate::config;
use crate::config::{ConfigError, Settings};
use crate::daemon::activity;
use crate::daemon::control::{Change, WatchcatDaemon};
use crate::daemon::methods;
use crate::daemon::reconcile;
use crate::daemon::reconcile::ProviderScan;
use crate::daemon::retries::{AcceptError, Accepted, RetryOperationRegistry};
use crate::engine::permit::RecoveryPermit;
use crate::json;
use crate::json::Json;
use crate::laws::failures;
use crate::laws::retries;
use crate::laws::sessions;
use crate::models::{SessionLog, SessionState, WatchTarget};
use crate::order;
use crate::protocol;
use crate::protocol::{ActivityLimitError, ActivityQuery, RpcResponse, SessionRef};
use crate::state::runtime::{RecoveryMetrics, RuntimeState};
use crate::text;
use crate::textmap::TextMap;
use crate::time;
use crate::time::Timestamp;

verus! {

/// A line tells of reliability.
pub open spec fn is_about_reliability(log: SessionLog) -> bool {
    log.source@ == "watchcat"@ || log.condition is Some || log.kind@ == "turn.failed"@ || log.kind@
        == "provider.error"@
}

/// The activity of a session is what its provider tells and what the service did, the latest last,
/// and no more than is asked for. All of it is there where there is room, and where only lines on
/// reliability are wanted only those are.
pub proof fn activity_is_put_together(
    provider_logs: Vec<SessionLog>,
    local_logs: Vec<SessionLog>,
    query: &ActivityQuery,
    r: Vec<SessionLog>,
    i: int,
    j: int,
)
    requires
        call_ensures(activity::merge_activity, (provider_logs, local_logs, query), r),
        0 <= i < j < r@.len(),
    ensures
        r@.len() <= query.limit,
        time::not_after(r@[i].timestamp, r@[j].timestamp),
        provider_logs@.contains(r@[i]) || local_logs@.contains(r@[i]),
        query.reliability_only ==> is_about_reliability(r@[i]),
        !query.reliability_only && provider_logs@.len() + local_logs@.len() <= query.limit
            ==> r@.len() == provider_logs@.len() + local_logs@.len(),
{
    broadcast use vstd::seq_lib::group_to_multiset_ensures;

    let keep = |log: SessionLog| methods::tells_reliability(log);
    let a = activity::wanted(provider_logs@, query.reliability_only);
    let b = activity::wanted(local_logs@, query.reliability_only);
    let all = a + b;
    let sorted = activity::in_order(all);
    order_of_times();
    activity::ordering_keeps_lines(all);
    let cut = sorted.len() - r@.len();
    assert(r@[i] == sorted[cut + i] && r@[j] == sorted[cut + j]);
    let le = activity::by_time();
    assert(le(sorted[cut + i], sorted[cut + j]));
    assert(sorted.contains(sorted[cut + i]));
    assert(all.to_multiset().count(r@[i]) > 0);
    assert(all.contains(r@[i]));
    let k = choose|k: int| 0 <= k < all.len() && all[k] == r@[i];
    if k < a.len() {
        assert(a[k] == r@[i]);
        assert(a.contains(r@[i]));
        if query.reliability_only {
            provider_logs@.lemma_filter_pred(keep, k);
            provider_logs@.lemma_filter_contains_rev(keep, r@[i]);
        }
    } else {
        assert(b[k - a.len()] == r@[i]);
        assert(b.contains(r@[i]));
        if query.reliability_only {
            local_logs@.lemma_filter_pred(keep, k - a.len());
            local_logs@.lemma_filter_contains_rev(keep, r@[i]);
        }
    }
}

proof fn order_of_times()
    ensures
        order::is_order(activity::by_time()),
{
    let le = activity::by_time();
    assert forall|a: SessionLog, b: SessionLog| #[trigger] le(a, b) || le(b, a) by {
        if a.timestamp is Some && b.timestamp is Some {
            time::lemma_time_order(a.timestamp->0, b.timestamp->0);
        }
    }
    assert forall|a: SessionLog, b: SessionLog, c: SessionLog| #[trigger]
        le(a, b) && #[trigger] le(b, c) implies le(a, c) by {
        if a.timestamp is Some && b.timestamp is Some && c.timestamp is Some {
            time::lemma_later_reaches_earlier(
                c.timestamp->0,
                b.timestamp->0,
                a.timestamp->0,
                0,
            );
        }
    }
}

/// A session does not leave the watchlist for inactivity where its provider could not be asked,
/// where it was left out of a list that is not complete, and where it is at work or its activity is
/// not known.
pub proof fn sessions_in_doubt_are_protected(
    targets: &Vec<WatchTarget>,
    scans: &Vec<ProviderScan>,
    r: TextMap<()>,
    scan: int,
    at: int,
    target: int,
)
    requires
        call_ensures(reconcile::protected_keys, (targets, scans), r),
        0 <= scan < scans@.len(),
        0 <= target < targets@.len(),
        targets@[target].provider@ == scans@[scan].provider@,
    ensures
        scans@[scan].sessions is None ==> r@.contains_key(
            targets@[target].provider@ + ":"@ + targets@[target].session_id@,
        ),
        scans@[scan].sessions is Some && !scans@[scan].complete && (forall|k: int|
            0 <= k < scans@[scan].sessions->0@.len() ==> (#[trigger] scans@[scan].sessions->0@[k]).provider@ + ":"@ + scans@[scan].sessions->0@[k].id@ != targets@[target].provider@ + ":"@
                + targets@[target].session_id@) ==> r@.contains_key(
            targets@[target].provider@ + ":"@ + targets@[target].session_id@,
        ),
        scans@[scan].sessions is Some && 0 <= at < scans@[scan].sessions->0@.len() && (
        scans@[scan].sessions->0@[at].state == SessionState::Active
            || scans@[scan].sessions->0@[at].updated_at is None) ==> r@.contains_key(
            scans@[scan].sessions->0@[at].provider@ + ":"@ + scans@[scan].sessions->0@[at].id@,
        ),
{
    let key = targets@[target].provider@ + ":"@ + targets@[target].session_id@;
    assert(targets@[target].key_view() == key);
    assert(reconcile::targets_key(targets@, scans@[scan].provider@, key));
    if scans@[scan].sessions is None {
        assert(reconcile::leaves_open(scans@[scan], targets@, key));
        assert(reconcile::left_open(scans@, targets@, key));
    } else {
        let listed = scans@[scan].sessions->0@;
        if !scans@[scan].complete && (forall|k: int|
            0 <= k < listed.len() ==> (#[trigger] listed[k]).provider@ + ":"@ + listed[k].id@
                != key) {
            if reconcile::lists(listed, key) {
                let k = choose|k: int|
                    0 <= k < listed.len() && (#[trigger] listed[k]).key_view() == key;
                assert(listed[k].provider@ + ":"@ + listed[k].id@ == key);
            }
            assert(reconcile::leaves_open(scans@[scan], targets@, key));
            assert(reconcile::left_open(scans@, targets@, key));
        }
        if 0 <= at < listed.len() && (listed[at].state == SessionState::Active
            || listed[at].updated_at is None) {
            let other = listed[at].provider@ + ":"@ + listed[at].id@;
            assert(listed[at].key_view() == other);
            assert(reconcile::lists_uncertain(listed, other));
            assert(reconcile::leaves_open(scans@[scan], targets@, other));
            assert(reconcile::left_open(scans@, targets@, other));
        }
    }
}

/// What was planned is taken over only where neither the revision nor the permit has moved since.
pub proof fn outdated_plans_are_dropped(
    daemon: &WatchcatDaemon,
    planned: u64,
    generation: u64,
    actual: u64,
    r: bool,
)
    requires
        call_ensures(WatchcatDaemon::is_current, (daemon, planned, generation), r),
        call_ensures(WatchcatDaemon::revision, (daemon,), actual),
    ensures
        r <==> actual == planned && generation == planned,
{
}

/// Settings that were changed on disk are taken over once they can be used and are stored, with a
/// new revision; ones that cannot be are not looked at again until they change.
pub proof fn changed_settings_are_taken_over(
    daemon: &mut WatchcatDaemon,
    seen: Option<Timestamp>,
    loaded: Option<Settings>,
    stored: bool,
    r: bool,
    before: u64,
    after: u64,
)
    requires
        call_ensures(WatchcatDaemon::reload_external_config, (daemon, seen, loaded, stored), r),
        call_ensures(WatchcatDaemon::revision, (old(daemon),), before),
        call_ensures(WatchcatDaemon::revision, (final(daemon),), after),
    ensures
        r <==> seen != old(daemon).config_modified && loaded is Some && stored,
        r ==> final(daemon).settings == loaded->0 && final(daemon).config_modified == seen,
        r && before < u64::MAX ==> after == before + 1,
        !r ==> final(daemon).settings == old(daemon).settings && after == before,
        seen != old(daemon).config_modified && loaded is None ==> final(daemon).config_modified
            == seen,
        loaded is Some && !stored ==> final(daemon).config_modified == old(daemon).config_modified,
        final(daemon).watchlist == old(daemon).watchlist,
{
}

/// Settings have changed on disk where their file has another time.
pub proof fn settings_change_with_their_file(
    daemon: &WatchcatDaemon,
    seen: Option<Timestamp>,
    r: bool,
)
    requires
        call_ensures(WatchcatDaemon::is_config_changed, (daemon, seen), r),
    ensures
        r <==> daemon.config_modified != seen,
{
}

/// What needs attention and how recoveries went is kept as the poll found it; nothing else changes.
pub proof fn outcomes_are_kept(
    daemon: &mut WatchcatDaemon,
    attention: &TextMap<()>,
    metrics: RecoveryMetrics,
)
    requires
        call_ensures(WatchcatDaemon::note_outcome, (daemon, attention, metrics), ()),
    ensures
        final(daemon).metrics == metrics,
        final(daemon).attention_target_keys@.len() == attention.entries().len(),
        forall|i: int|
            0 <= i < final(daemon).attention_target_keys@.len() ==> (#[trigger] final(daemon).attention_target_keys@[i])@ == attention.entries()[i].0@,
        final(daemon).settings == old(daemon).settings,
        final(daemon).watchlist == old(daemon).watchlist,
{
    let keys = final(daemon).attention_target_keys@;
    assert(text::views(keys).len() == keys.len());
    assert(reconcile::key_views(attention.entries()).len() == attention.entries().len());
    assert forall|i: int| 0 <= i < keys.len() implies (#[trigger] keys[i])@
        == attention.entries()[i].0@ by {
        assert(text::views(keys)[i] == keys[i]@);
        assert(reconcile::key_views(attention.entries())[i] == attention.entries()[i].0@);
    }
}

/// A permit that is granted covers the watched sessions in the revision; one that is revoked covers
/// none, whoever asks.
pub proof fn revoked_permits_permit_nothing(
    daemon: &WatchcatDaemon,
    granted: &mut RecoveryPermit,
    revoked: &mut RecoveryPermit,
    target: &WatchTarget,
    planned: u64,
    actual: u64,
    allowed: bool,
    refused: bool,
)
    requires
        call_ensures(WatchcatDaemon::grant, (daemon, granted), ()),
        call_ensures(WatchcatDaemon::revoke, (daemon, revoked), ()),
        call_ensures(WatchcatDaemon::revision, (daemon,), actual),
        call_ensures(RecoveryPermit::allows, (final(granted), target, planned), allowed),
        call_ensures(RecoveryPermit::allows, (final(revoked), target, planned), refused),
    ensures
        allowed <==> planned == actual && sessions::watched(
            daemon.watchlist.document.targets@,
            target.provider@,
            target.session_id@,
        ),
        !refused,
{
    sessions::lemma_watched(
        daemon.watchlist.document.targets@,
        target.provider@,
        target.session_id@,
    );
    assert(target.key_view() == target.provider@ + ":"@ + target.session_id@);
}

/// A permit that is renewed is one for what it is given then.
pub proof fn permits_are_renewed(
    permit: &mut RecoveryPermit,
    live: bool,
    targets: &Vec<WatchTarget>,
    generation: u64,
    target: &WatchTarget,
    planned: u64,
    seen: u64,
    allowed: bool,
)
    requires
        call_ensures(RecoveryPermit::update, (permit, live, targets, generation), ()),
        call_ensures(RecoveryPermit::generation, (final(permit),), seen),
        call_ensures(RecoveryPermit::allows, (final(permit), target, planned), allowed),
    ensures
        seen == generation,
        allowed <==> live && planned == generation && sessions::watched(
            targets@,
            target.provider@,
            target.session_id@,
        ),
{
    sessions::lemma_watched(targets@, target.provider@, target.session_id@);
    assert(target.key_view() == target.provider@ + ":"@ + target.session_id@);
}

/// A change of the watchlist changes who is watched where the sessions are others, or in another
/// order.
pub proof fn only_other_sessions_change_membership(
    daemon: &WatchcatDaemon,
    change: &Change,
    r: bool,
)
    requires
        call_ensures(WatchcatDaemon::changes_membership, (daemon, change), r),
    ensures
        *change is Settings ==> !r,
        *change is Watchlist && (*change)->Watchlist_0.targets@.len()
            != daemon.watchlist.document.targets@.len() ==> r,
        *change is Watchlist && (*change)->Watchlist_0.targets@
            == daemon.watchlist.document.targets@ ==> !r,
{
    if *change is Watchlist {
        let after = (*change)->Watchlist_0.targets@;
        assert(reconcile::target_keys(after).len() == after.len());
        assert(reconcile::target_keys(daemon.watchlist.document.targets@).len()
            == daemon.watchlist.document.targets@.len());
    }
}

/// Recoveries are counted from the first moment of the month on.
pub proof fn metrics_are_those_of_the_month(
    state: &RuntimeState,
    now: Timestamp,
    start: Timestamp,
    counted: RecoveryMetrics,
    r: RecoveryMetrics,
)
    requires
        call_ensures(reconcile::monthly_metrics, (state, now), r),
        call_ensures(time::start_of_month, (now,), start),
        call_ensures(RuntimeState::metrics_since, (state, start), counted),
        counted.automatic_recoveries * 100 <= usize::MAX,
    ensures
        r.automatic_recoveries == counted.automatic_recoveries,
        r.manual_recoveries == counted.manual_recoveries,
        r.failed_recoveries == counted.failed_recoveries,
{
}

/// A retry is accepted under a new name as under any.
pub proof fn retries_begin_under_a_new_name(
    registry: &mut RetryOperationRegistry,
    session: &SessionRef,
    request_key: &str,
    now: Timestamp,
    r: Result<Accepted, AcceptError>,
)
    requires
        call_ensures(RetryOperationRegistry::accept, (registry, session, request_key, now), r),
    ensures
        r is Ok && r->Ok_0 is Started ==> {
            let id = r->Ok_0->operation_id@;
            &&& final(registry).operations@.contains_key(id)
            &&& retries::waiting(final(registry).operations@[id])
            &&& retries::is_on(final(registry).operations@[id], *session)
            &&& final(registry).operations@[id].request_key@ == request_key@
        },
        !(r is Ok && r->Ok_0 is Started) ==> *final(registry) == *old(registry),
{
}

/// From one to five hundred lines of activity can be asked for.
pub proof fn questions_for_activity_are_limited(
    query: &ActivityQuery,
    r: Result<(), ActivityLimitError>,
)
    requires
        call_ensures(ActivityQuery::validate, (query,), r),
    ensures
        r is Ok <==> 1 <= query.limit <= 500,
{
}

/// An answer says to which request it is one, in which revision, and either the result or what
/// went wrong.
pub proof fn answers_say_what_they_are_to(
    id: String,
    revision: u64,
    result: Json,
    code: &str,
    message: String,
    good: RpcResponse,
    bad: RpcResponse,
)
    requires
        call_ensures(protocol::success, (id, revision, result), good),
        call_ensures(protocol::failure, (id, revision, code, message), bad),
    ensures
        good.version == 2 && good.id == id && good.revision == revision,
        good.result == Some(result) && good.error is None,
        bad.version == 2 && bad.id == id && bad.revision == revision,
        bad.result is None && bad.error is Some,
        bad.error->0.code@ == code@ && bad.error->0.message@ == message@,
{
}

/// An answer is written with its members, and what it does not have is left out.
pub proof fn answers_are_written_member_by_member(response: RpcResponse, r: Json)
    requires
        call_ensures(protocol::response_json, (response,), r),
    ensures
        r is Object,
        failures::tells(r, "id"@, response.id@),
        r->Object_0@.contains_key("revision"@) && r->Object_0@["revision"@] == Json::Number(
            json::Number::Unsigned(response.revision),
        ),
        r->Object_0@.contains_key("version"@) && r->Object_0@["version"@] == Json::Number(
            json::Number::Unsigned(response.version as u64),
        ),
        r->Object_0@.contains_key("result"@) <==> response.result is Some,
        response.result is Some ==> r->Object_0@["result"@] == response.result->0,
        r->Object_0@.contains_key("error"@) <==> response.error is Some,
        response.error is Some ==> failures::tells(
            r->Object_0@["error"@],
            "code"@,
            response.error->0.code@,
        ) && failures::tells(r->Object_0@["error"@], "message"@, response.error->0.message@),
{
    reveal_strlit("version");
    reveal_strlit("id");
    reveal_strlit("revision");
    reveal_strlit("result");
    reveal_strlit("error");
    assert("version"@.len() == 7 && "id"@.len() == 2 && "revision"@.len() == 8 && "result"@.len()
        == 6 && "error"@.len() == 5);
    let members = protocol::response_members(response);
    assert(members.contains("result"@) <==> response.result is Some);
    assert(members.contains("error"@) <==> response.error is Some);
    assert(r->Object_0@.dom().contains("result"@) <==> members.contains("result"@));
    assert(r->Object_0@.dom().contains("error"@) <==> members.contains("error"@));
}

/// Settings in text are read only where they say the fourth version; a text that is none is passed
/// over.
pub proof fn settings_texts_say_their_version(
    s: &str,
    document: Json,
    document_ref: &Json,
    version: Option<i64>,
    r: Option<Result<(), ConfigError>>,
)
    requires
        call_ensures(config::check_document, (s,), r),
        json::toml_in(s@) == Some(document),
        *document_ref == document,
        call_ensures(config::document_version, (document_ref,), version),
    ensures
        r is Some,
        r->0 is Ok <==> version == Some(4i64),
        version is None ==> r->0 is Err && r->0->Err_0 is Unversioned,
        version is Some && version != Some(4i64) ==> r->0 is Err && r->0->Err_0
            is UnsupportedVersion && r->0->Err_0->UnsupportedVersion_0 == version->0,
{
}

} // verus!
