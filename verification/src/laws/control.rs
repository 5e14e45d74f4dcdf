//! What clients ask of the service, what changes by it, and what they are answered.

use vstd::prelude::*;
use vstd::string::*;

use crate::config::{ConfigError, LifecycleSettings, PolicyOverride, Settings};
use crate::daemon::activity;
use crate::daemon::connection;
use crate::daemon::connection::{
    Capacity, ProviderMethod, Route, StatusRefusal, SubscriberEvent, SubscriberStep,
};
use crate::daemon::control;
use crate::daemon::control::{
    Change, ControlError, ControlMethod, ControlRequest, Plan, Reply, RetryNotPrepared,
    WatchcatDaemon,
};
use crate::daemon::methods;
use crate::daemon::retries::RetryOperationRegistry;
use crate::json::Json;
use crate::laws::policies;
use crate::laws::sessions;
use crate::models;
use crate::models::{PolicyAction, Session, SessionLog, TrackingSource, WatchTarget};
use crate::protocol::{
    ActivityQuery, PolicyUpdate, RpcNotification, RpcRequest, RpcResponse, SessionQuery, SessionRef,
    WatchAdd,
};
use crate::state::control::{ControlDocument, ControlStateStore};
use crate::state::watchlist;
use crate::state::watchlist::UnsupportedVersion;
use crate::text;
use crate::time::Timestamp;

verus! {

/// A method goes by one of two names.
pub open spec fn either(name: Seq<char>, a: Seq<char>, b: Seq<char>) -> bool {
    name == a || name == b
}

proof fn lemma_two(a: &'static str, b: &'static str, name: Seq<char>)
    ensures
        text::listed(seq![a, b], name) <==> either(name, a@, b@),
        text::listed(seq![a], name) <==> name == a@,
{
    let two = seq![a, b];
    let one = seq![a];
    assert(two[0]@ == a@ && two[1]@ == b@ && one[0]@ == a@);
}

/// Every method goes by the names that clients use for it, and nothing else is a method.
pub proof fn methods_go_by_their_names(name: &str, r: Option<ControlMethod>)
    requires
        call_ensures(control::find_method, (name,), r),
    ensures
        r == Some(ControlMethod::Ping) <==> either(name@, "service.ping"@, "daemon.ping"@),
        r == Some(ControlMethod::Snapshot) <==> name@ == "snapshot.get"@,
        r == Some(ControlMethod::ListSessions) <==> either(
            name@,
            "sessions.list"@,
            "watch.list"@,
        ),
        r == Some(ControlMethod::AddSession) <==> either(name@, "sessions.add"@, "watch.add"@),
        r == Some(ControlMethod::RemoveSession) <==> either(
            name@,
            "sessions.remove"@,
            "watch.remove"@,
        ),
        r == Some(ControlMethod::ListPolicies) <==> either(
            name@,
            "config.policies.list"@,
            "policies.list"@,
        ),
        r == Some(ControlMethod::SetPolicy) <==> either(
            name@,
            "config.policies.set"@,
            "policies.set"@,
        ),
        r == Some(ControlMethod::ResetPolicies) <==> either(
            name@,
            "config.policies.reset"@,
            "policies.reset"@,
        ),
        r == Some(ControlMethod::GetConfig) <==> name@ == "config.get"@,
        r == Some(ControlMethod::SetLifecycle) <==> name@ == "config.set_lifecycle"@,
{
    lemma_two("service.ping", "daemon.ping", name@);
    lemma_two("snapshot.get", "snapshot.get", name@);
    lemma_two("sessions.list", "watch.list", name@);
    lemma_two("sessions.add", "watch.add", name@);
    lemma_two("sessions.remove", "watch.remove", name@);
    lemma_two("config.policies.list", "policies.list", name@);
    lemma_two("config.policies.set", "policies.set", name@);
    lemma_two("config.policies.reset", "policies.reset", name@);
    lemma_two("config.get", "config.get", name@);
    lemma_two("config.set_lifecycle", "config.set_lifecycle", name@);
    assert forall|method: ControlMethod|
        text::listed(#[trigger] control::method_names(method), name@) implies r == Some(method) by {
        if r is Some && r->0 != method {
            control::lemma_method_names_differ(method, r->0, name@);
        }
    }
    assert(text::listed(control::method_names(ControlMethod::Ping), name@) <==> r == Some(
        ControlMethod::Ping,
    ));
    assert(text::listed(control::method_names(ControlMethod::Snapshot), name@) <==> r == Some(
        ControlMethod::Snapshot,
    ));
    assert(text::listed(control::method_names(ControlMethod::ListSessions), name@) <==> r == Some(
        ControlMethod::ListSessions,
    ));
    assert(text::listed(control::method_names(ControlMethod::AddSession), name@) <==> r == Some(
        ControlMethod::AddSession,
    ));
    assert(text::listed(control::method_names(ControlMethod::RemoveSession), name@) <==> r == Some(
        ControlMethod::RemoveSession,
    ));
    assert(text::listed(control::method_names(ControlMethod::ListPolicies), name@) <==> r == Some(
        ControlMethod::ListPolicies,
    ));
    assert(text::listed(control::method_names(ControlMethod::SetPolicy), name@) <==> r == Some(
        ControlMethod::SetPolicy,
    ));
    assert(text::listed(control::method_names(ControlMethod::ResetPolicies), name@) <==> r == Some(
        ControlMethod::ResetPolicies,
    ));
    assert(text::listed(control::method_names(ControlMethod::GetConfig), name@) <==> r == Some(
        ControlMethod::GetConfig,
    ));
    assert(text::listed(control::method_names(ControlMethod::SetLifecycle), name@) <==> r == Some(
        ControlMethod::SetLifecycle,
    ));
}

/// What an override comes to when it is changed: where the change leaves the condition alone, the
/// change and nothing of what was set before; otherwise what the change sets and, where it sets
/// nothing, what was set before.
pub open spec fn changed(
    before: Option<PolicyOverride>,
    change: PolicyOverride,
    after: PolicyOverride,
) -> bool {
    if change.action == Some(PolicyAction::Skip) {
        after == change
    } else {
        &&& after.action == (if change.action is None && before is Some {
            before->0.action
        } else {
            change.action
        })
        &&& after.backoff == (if change.backoff is None && before is Some {
            before->0.backoff
        } else {
            change.backoff
        })
        &&& after.initial_delay_seconds == (if change.initial_delay_seconds is None
            && before is Some {
            before->0.initial_delay_seconds
        } else {
            change.initial_delay_seconds
        })
        &&& after.max_delay_seconds == (if change.max_delay_seconds is None && before is Some {
            before->0.max_delay_seconds
        } else {
            change.max_delay_seconds
        })
        &&& after.max_attempts == (if change.max_attempts is None && before is Some {
            before->0.max_attempts
        } else {
            change.max_attempts
        })
        &&& after.prompt == (if change.prompt is None && before is Some {
            before->0.prompt
        } else {
            change.prompt
        })
    }
}

/// Nothing but policies differs between settings.
pub open spec fn run_alike(a: Settings, b: Settings) -> bool {
    &&& a.version == b.version
    &&& a.engine == b.engine
    &&& a.lifecycle == b.lifecycle
    &&& a.providers.codex.enabled == b.providers.codex.enabled
    &&& a.providers.codex.command@ == b.providers.codex.command@
    &&& a.providers.claude.enabled == b.providers.claude.enabled
    &&& a.dialogs.rules@ == b.dialogs.rules@
}

/// A policy is set of a known condition, in place of what the change replaces, and nothing else
/// changes.
pub proof fn policies_are_set_one_by_one(
    settings: &Settings,
    update: PolicyUpdate,
    r: Result<Settings, ControlError>,
    other: Seq<char>,
)
    requires
        call_ensures(control::set_policy, (settings, update), r),
    ensures
        r is Ok <==> policies::waits(update.condition@) is Some || policies::needs_its_user(
            update.condition@,
        ),
        match r {
            Ok(after) => {
                &&& run_alike(*settings, after)
                &&& after.policies@.contains_key(update.condition@)
                &&& changed(
                    if settings.policies@.contains_key(update.condition@) {
                        Some(settings.policies@[update.condition@])
                    } else {
                        None
                    },
                    update.policy,
                    after.policies@[update.condition@],
                )
                &&& other != update.condition@ ==> after.policies@.contains_key(other)
                    == settings.policies@.contains_key(other) && after.policies@[other]
                    == settings.policies@[other]
            },
            Err(error) => error is UnknownCondition && error->UnknownCondition_0@
                == update.condition@,
        },
{
    policies::lemma_known(update.condition@);
}

/// A policy that is reset is set no longer; without a condition none is. Nothing else changes.
pub proof fn policies_are_reset(
    settings: &Settings,
    condition: Option<String>,
    r: Result<Settings, ControlError>,
    other: Seq<char>,
)
    requires
        call_ensures(control::reset_policies, (settings, condition), r),
    ensures
        r is Ok <==> condition is None || policies::waits(condition->0@) is Some
            || policies::needs_its_user(condition->0@),
        match r {
            Ok(after) => {
                &&& run_alike(*settings, after)
                &&& condition is None || other == condition->0@ ==> !after.policies@.contains_key(
                    other,
                )
                &&& condition is Some && other != condition->0@ ==> after.policies@.contains_key(
                    other,
                ) == settings.policies@.contains_key(other) && (settings.policies@.contains_key(
                    other,
                ) ==> after.policies@[other] == settings.policies@[other])
            },
            Err(error) => error is UnknownCondition && error->UnknownCondition_0@
                == condition->0@,
        },
{
    if condition is Some {
        policies::lemma_known(condition->0@);
    }
}

/// A request that changes something.
pub open spec fn makes_a_change(request: ControlRequest) -> bool {
    request is AddSession || request is RemoveSession || request is SetPolicy
        || request is ResetPolicies || request is SetLifecycle
}

/// A client that is not up to date changes nothing, and one that only asks is answered whatever it
/// expects.
pub proof fn only_current_clients_change_things(
    daemon: &WatchcatDaemon,
    request: ControlRequest,
    expected: Option<u64>,
    now: Timestamp,
    actual: u64,
    r: Result<Plan, ControlError>,
)
    requires
        call_ensures(WatchcatDaemon::plan, (daemon, request, expected, now), r),
        call_ensures(WatchcatDaemon::revision, (daemon,), actual),
    ensures
        makes_a_change(request) && expected is Some && expected->0 != actual ==> r is Err
            && r->Err_0 == (ControlError::RevisionConflict { expected: expected->0, actual }),
        r is Err && r->Err_0 is RevisionConflict ==> makes_a_change(request) && expected is Some
            && expected->0 != actual,
        !makes_a_change(request) ==> r is Ok && r->Ok_0.change is None,
        r is Ok && makes_a_change(request) && !(request is RemoveSession) ==> r->Ok_0.change
            is Some,
{
}

/// What is asked for without a change is answered from the state.
pub proof fn questions_are_answered_from_the_state(
    daemon: &WatchcatDaemon,
    request: ControlRequest,
    expected: Option<u64>,
    now: Timestamp,
    actual: u64,
    plan: Plan,
)
    requires
        call_ensures(WatchcatDaemon::plan, (daemon, request, expected, now), Ok(plan)),
        call_ensures(WatchcatDaemon::revision, (daemon,), actual),
    ensures
        request is Ping ==> plan.reply is Pong,
        request is ListSessions ==> plan.reply is Sessions && plan.reply->Sessions_0@
            == daemon.watchlist.document.targets@,
        request is GetConfig ==> plan.reply is Config && run_alike(
            plan.reply->Config_0,
            daemon.settings,
        ) && plan.reply->Config_0.policies@ == daemon.settings.policies@,
        request is ListPolicies ==> plan.reply is Policies && plan.reply->Policies_0@.len() == 24,
        request is Snapshot ==> {
            &&& plan.reply is Snapshot
            &&& plan.reply->Snapshot_0.generated_at == now
            &&& plan.reply->Snapshot_0.revision == actual
            &&& plan.reply->Snapshot_0.service_online
            &&& plan.reply->Snapshot_0.watched == daemon.watchlist.document.targets@.len()
            &&& plan.reply->Snapshot_0.attention == daemon.attention_target_keys@.len()
            &&& plan.reply->Snapshot_0.attention_target_keys@ == daemon.attention_target_keys@
            &&& plan.reply->Snapshot_0.automatic_recoveries == daemon.metrics.automatic_recoveries
            &&& plan.reply->Snapshot_0.hands_free_percent == daemon.metrics.hands_free_percent
        },
{
}

/// A session that a client adds, and does not want checked, is watched from now on as one added by
/// hand, with its label, and is not excluded; one that is to be checked is not added here.
pub proof fn clients_add_sessions(
    daemon: &WatchcatDaemon,
    add: WatchAdd,
    now: Timestamp,
    r: Result<Plan, ControlError>,
)
    requires
        call_ensures(
            WatchcatDaemon::plan,
            (daemon, ControlRequest::AddSession(add), None::<u64>, now),
            r,
        ),
    ensures
        r is Err <==> add.validate,
        r is Err ==> r->Err_0 is NeedsValidation,
        match r {
            Err(_) => true,
            Ok(plan) => {
                let before = daemon.watchlist.document.targets@;
                let provider = add.session.provider@;
                let session = add.session.session_id@;
                &&& plan.reply is Added
                &&& plan.reply->added == !sessions::watched(before, provider, session)
                &&& plan.reply->target.source == TrackingSource::Manual
                &&& plan.reply->target.provider@ == provider
                &&& plan.reply->target.session_id@ == session
                &&& plan.reply->target.label == add.label
                &&& plan.reply->target.added_at == now
                &&& plan.change matches Some(Change::Watchlist(document))
                &&& sessions::watched(document.targets@, provider, session)
                &&& !document.excluded@.contains_key(provider + ":"@ + session)
            },
        },
{
    let before = daemon.watchlist.document.targets@;
    let provider = add.session.provider@;
    let session = add.session.session_id@;
    sessions::lemma_watched(before, provider, session);
    match r {
        Ok(plan) => {
            match plan.change {
                Some(Change::Watchlist(document)) => {
                    sessions::lemma_watched(document.targets@, provider, session);
                    assert(plan.reply->target.key_view() == provider + ":"@ + session);
                    watchlist::adding_watches(before, plan.reply->target);
                },
                _ => {},
            }
        },
        Err(_) => {},
    }
}

/// A session that a client removes is not watched any longer and is excluded; every other session
/// is watched as before. Nothing changes where it was neither watched nor wanted.
pub proof fn clients_remove_sessions(
    daemon: &WatchcatDaemon,
    session: SessionRef,
    now: Timestamp,
    r: Result<Plan, ControlError>,
    provider: Seq<char>,
    other: Seq<char>,
)
    requires
        call_ensures(
            WatchcatDaemon::plan,
            (daemon, ControlRequest::RemoveSession(session), None::<u64>, now),
            r,
        ),
    ensures
        r is Ok,
        ({
            let before = daemon.watchlist.document.targets@;
            let key = session.provider@ + ":"@ + session.session_id@;
            let was = sessions::watched(before, session.provider@, session.session_id@);
            &&& r->Ok_0.reply == Reply::Removed(was)
            &&& r->Ok_0.change is None <==> !was
                && daemon.watchlist.document.excluded@.contains_key(key)
            &&& match r->Ok_0.change {
                None => true,
                Some(Change::Settings(_)) => false,
                Some(Change::Watchlist(document)) => {
                    &&& !sessions::watched(
                        document.targets@,
                        session.provider@,
                        session.session_id@,
                    )
                    &&& document.excluded@.contains_key(key)
                    &&& provider + ":"@ + other != key ==> sessions::watched(
                        document.targets@,
                        provider,
                        other,
                    ) == sessions::watched(before, provider, other)
                },
            }
        }),
{
    let before = daemon.watchlist.document.targets@;
    let key = session.provider@ + ":"@ + session.session_id@;
    assert(models::session_key(session.provider@, session.session_id@) == key);
    sessions::lemma_watched(before, session.provider@, session.session_id@);
    sessions::lemma_watched(before, provider, other);
    match r {
        Ok(plan) => match plan.change {
            Some(Change::Watchlist(document)) => {
                let after = document.targets@;
                sessions::lemma_watched(after, session.provider@, session.session_id@);
                sessions::lemma_watched(after, provider, other);
                let wanted = provider + ":"@ + other;
                let keep = |target: WatchTarget| target.key_view() != key;
                assert(after == before.filter(keep));
                if watchlist::watches(after, key) {
                    let i = choose|i: int|
                        0 <= i < after.len() && (#[trigger] after[i]).key_view() == key;
                    before.lemma_filter_pred(keep, i);
                }
                if watchlist::watches(after, wanted) {
                    let i = choose|i: int|
                        0 <= i < after.len() && (#[trigger] after[i]).key_view() == wanted;
                    assert(after.contains(after[i]));
                    before.lemma_filter_contains_rev(keep, after[i]);
                    let j = choose|j: int| 0 <= j < before.len() && before[j] == after[i];
                    assert(before[j].key_view() == wanted);
                }
                if watchlist::watches(before, wanted) && wanted != key {
                    let i = choose|i: int|
                        0 <= i < before.len() && (#[trigger] before[i]).key_view() == wanted;
                    before.lemma_filter_contains(keep, i);
                    let j = choose|j: int| 0 <= j < after.len() && after[j] == before[i];
                    assert(after[j].key_view() == wanted);
                }
            },
            _ => {},
        },
        Err(_) => {},
    }
}

/// New lifecycle settings are taken over where the settings can be used with them; nothing else
/// changes.
pub proof fn lifecycles_are_set_where_they_are_usable(
    daemon: &WatchcatDaemon,
    lifecycle: LifecycleSettings,
    now: Timestamp,
    r: Result<Plan, ControlError>,
)
    requires
        call_ensures(
            WatchcatDaemon::plan,
            (daemon, ControlRequest::SetLifecycle(lifecycle), None::<u64>, now),
            r,
        ),
    ensures
        lifecycle.stale_after_seconds <= 0 || lifecycle.sweep_interval_seconds == 0 ==> r is Err
            && r->Err_0 is Invalid,
        match r {
            Err(_) => true,
            Ok(plan) => {
                &&& plan.change is Some
                &&& plan.change->0 is Settings
                &&& plan.change->0->Settings_0.lifecycle == lifecycle
                &&& plan.change->0->Settings_0.engine == daemon.settings.engine
                &&& plan.change->0->Settings_0.policies@ == daemon.settings.policies@
                &&& plan.change->0->Settings_0.providers.codex.command@
                    == daemon.settings.providers.codex.command@
                &&& plan.change->0->Settings_0.dialogs.rules@ == daemon.settings.dialogs.rules@
            },
        },
{
}

/// A stored change advances the revision by one, up to the largest; one that was not stored leaves
/// everything as it is.
pub proof fn stored_changes_advance_the_revision(
    daemon: &mut WatchcatDaemon,
    stored: bool,
    r: Option<u64>,
    before: u64,
    after: u64,
)
    requires
        call_ensures(WatchcatDaemon::bump_revision, (daemon, stored), r),
        call_ensures(WatchcatDaemon::revision, (old(daemon),), before),
        call_ensures(WatchcatDaemon::revision, (final(daemon),), after),
    ensures
        stored && before < u64::MAX ==> after == before + 1,
        stored ==> r == Some(after) && after >= before,
        !stored ==> r is None && after == before,
        final(daemon).settings == old(daemon).settings,
        final(daemon).watchlist == old(daemon).watchlist,
{
}

/// The revision advances when the service starts, and from none to one; only a stored state of the
/// second version is taken over.
pub proof fn starting_advances_the_revision(
    path: String,
    stored: Option<ControlDocument>,
    r: Result<ControlStateStore, UnsupportedVersion>,
    revision: u64,
    document: ControlDocument,
)
    requires
        call_ensures(ControlStateStore::load, (path, stored), r),
        r is Ok ==> call_ensures(ControlStateStore::revision, (&r->Ok_0,), revision),
        r is Ok ==> call_ensures(ControlStateStore::document, (&r->Ok_0,), document),
    ensures
        r is Ok <==> stored is None || stored->0.version == 2,
        r is Ok && stored is None ==> revision == 1,
        r is Ok && stored is Some && stored->0.revision < u64::MAX ==> revision
            == stored->0.revision + 1,
        r is Ok ==> document.version == 2 && document.revision == revision,
{
}

/// A change is made where it was stored, and only there.
pub proof fn stored_changes_are_made(daemon: &mut WatchcatDaemon, change: Change, stored: bool)
    requires
        call_ensures(WatchcatDaemon::commit, (daemon, change, stored), ()),
    ensures
        final(daemon).control == old(daemon).control,
        final(daemon).settings == (if stored && change is Settings {
            change->Settings_0
        } else {
            old(daemon).settings
        }),
        stored && change is Watchlist ==> final(daemon).watchlist.document == change->Watchlist_0,
        !(stored && change is Watchlist) ==> final(daemon).watchlist == old(daemon).watchlist,
{
}

/// Changed settings are stored only where they can be used; a changed watchlist always can.
pub proof fn unusable_changes_are_not_stored(
    change: &Change,
    settings: &Settings,
    checked: Result<(), ConfigError>,
    r: Result<(), ConfigError>,
)
    requires
        call_ensures(control::check_change, (change,), r),
        *change is Settings ==> *settings == (*change)->Settings_0,
        call_ensures(Settings::validate, (settings,), checked),
    ensures
        *change is Watchlist ==> r is Ok,
        *change is Settings ==> (r is Ok <==> checked is Ok),
{
}

/// A retry by hand needs a client that says what it expects and is up to date, and a service that
/// is not about to end.
pub proof fn retries_need_a_current_client(
    daemon: &WatchcatDaemon,
    expected: Option<u64>,
    shutting_down: bool,
    actual: u64,
    r: Result<u64, RetryNotPrepared>,
)
    requires
        call_ensures(WatchcatDaemon::prepare_retry, (daemon, expected, shutting_down), r),
        call_ensures(WatchcatDaemon::revision, (daemon,), actual),
    ensures
        r is Ok <==> expected == Some(actual) && !shutting_down,
        r is Ok ==> r->Ok_0 == actual,
        r is Err && r->Err_0 is RevisionRequired <==> expected is None,
        r is Err && r->Err_0 is ShuttingDown <==> expected is Some && shutting_down,
{
}

/// An addition is checked with its provider unless its client says that it is not to be.
pub open spec fn unchecked(params: Json) -> bool {
    match params {
        Json::Object(members) => members@.contains_key("validate"@) && members@["validate"@]
            == Json::Bool(false),
        _ => false,
    }
}

/// What takes a permission back or changes a policy.
pub open spec fn takes_back(method: Seq<char>) -> bool {
    either(method, "sessions.remove"@, "watch.remove"@) || either(
        method,
        "policies.set"@,
        "config.policies.set"@,
    ) || either(method, "policies.reset"@, "config.policies.reset"@)
}

proof fn lemma_boundary(method: Seq<char>)
    ensures
        text::listed(methods::boundary_methods(), method) <==> takes_back(method),
{
    let list = methods::boundary_methods();
    assert(list[0]@ == "sessions.remove"@ && list[1]@ == "watch.remove"@ && list[2]@
        == "policies.set"@ && list[3]@ == "policies.reset"@ && list[4]@ == "config.policies.set"@
        && list[5]@ == "config.policies.reset"@ && list.len() == 6);
    if text::listed(list, method) {
        let i = choose|i: int| 0 <= i < list.len() && (#[trigger] list[i])@ == method;
        assert(i == 0 || i == 1 || i == 2 || i == 3 || i == 4 || i == 5);
    }
}

/// What subscribers are told of when it succeeds.
pub open spec fn is_told(method: Seq<char>) -> bool {
    takes_back(method) || either(method, "sessions.add"@, "watch.add"@) || either(
        method,
        "sessions.send"@,
        "sessions.interrupt"@,
    ) || either(method, "sessions.retry_now"@, "config.set_lifecycle"@)
}

proof fn lemma_mutating(method: Seq<char>)
    ensures
        text::listed(methods::mutating_methods(), method) <==> is_told(method),
{
    let list = methods::mutating_methods();
    assert(list[0]@ == "sessions.send"@ && list[1]@ == "sessions.interrupt"@ && list[2]@
        == "sessions.retry_now"@ && list[3]@ == "sessions.add"@ && list[4]@ == "sessions.remove"@
        && list[5]@ == "watch.add"@ && list[6]@ == "watch.remove"@ && list[7]@ == "policies.set"@
        && list[8]@ == "policies.reset"@ && list[9]@ == "config.policies.set"@ && list[10]@
        == "config.policies.reset"@ && list[11]@ == "config.set_lifecycle"@ && list.len() == 12);
    if text::listed(list, method) {
        let i = choose|i: int| 0 <= i < list.len() && (#[trigger] list[i])@ == method;
        assert(i == 0 || i == 1 || i == 2 || i == 3 || i == 4 || i == 5 || i == 6 || i == 7 || i
            == 8 || i == 9 || i == 10 || i == 11);
    }
}

proof fn lemma_provider_methods(method: Seq<char>)
    ensures
        text::listed(methods::provider_methods(), method) <==> either(
            method,
            "sessions.list"@,
            "sessions.logs"@,
        ) || either(method, "sessions.send"@, "sessions.interrupt"@),
{
    let list = methods::provider_methods();
    assert(list[0]@ == "sessions.list"@ && list[1]@ == "sessions.logs"@ && list[2]@
        == "sessions.send"@ && list[3]@ == "sessions.interrupt"@ && list.len() == 4);
    if text::listed(list, method) {
        let i = choose|i: int| 0 <= i < list.len() && (#[trigger] list[i])@ == method;
        assert(i == 0 || i == 1 || i == 2 || i == 3);
    }
}

/// What takes a permission back waits for continuations on their way, what changes something is
/// told, and a provider is asked for what only it knows.
pub proof fn methods_are_of_three_kinds(
    method: &str,
    params: &Json,
    boundary: bool,
    told: bool,
    asked: bool,
)
    requires
        call_ensures(methods::requires_recovery_boundary, (method,), boundary),
        call_ensures(methods::is_mutation, (method,), told),
        call_ensures(methods::requires_provider, (method, params), asked),
    ensures
        boundary <==> takes_back(method@),
        told <==> is_told(method@),
        asked <==> either(method@, "sessions.list"@, "sessions.logs"@) || either(
            method@,
            "sessions.send"@,
            "sessions.interrupt"@,
        ) || (method@ == "watch.add"@ && !unchecked(*params)),
        boundary ==> told,
{
    lemma_boundary(method@);
    lemma_mutating(method@);
    lemma_provider_methods(method@);
}

/// Every request is served in its way. A subscription or a retry that does not speak the second
/// version of the protocol is refused; an addition that is to be checked is, before anything else;
/// a provider is asked for sessions, lines, messages and interruptions; and what takes a permission
/// back waits.
pub proof fn requests_are_served_in_their_way(request: &RpcRequest, r: Route)
    requires
        call_ensures(connection::route, (request,), r),
    ensures
        ({
            let method = request.method@;
            let held = method == "events.subscribe"@ || either(
                method,
                "sessions.retry_status"@,
                "sessions.retry_now"@,
            );
            &&& r == Route::Refused <==> held && request.version != 2
            &&& r == Route::Subscribe <==> method == "events.subscribe"@ && request.version == 2
            &&& method == "sessions.retry_status"@ && request.version == 2 ==> r
                == Route::RetryStatus
            &&& r == Route::RetryStatus ==> method == "sessions.retry_status"@
            &&& method == "sessions.retry_now"@ && request.version == 2 ==> r == Route::RetryNow
            &&& r == Route::RetryNow ==> method == "sessions.retry_now"@
            &&& r == Route::ValidatedAdd <==> !held && either(
                method,
                "sessions.add"@,
                "watch.add"@,
            ) && !unchecked(request.params)
            &&& r == Route::Provider <==> either(
                method,
                "sessions.search"@,
                "sessions.logs"@,
            ) || either(method, "sessions.send"@, "sessions.interrupt"@)
            &&& r == Route::Boundary <==> takes_back(method)
        }),
{
    let method = request.method@;
    lemma_boundary(method);
    lemma_provider_methods(method);
    lemma_two("sessions.add", "watch.add", method);
    lemma_two("sessions.list", "watch.list", method);
    reveal_strlit("events.subscribe");
    reveal_strlit("sessions.retry_status");
    reveal_strlit("sessions.retry_now");
    reveal_strlit("sessions.search");
    reveal_strlit("sessions.logs");
    reveal_strlit("sessions.list");
    reveal_strlit("watch.list");
    reveal_strlit("sessions.send");
    reveal_strlit("sessions.interrupt");
    reveal_strlit("sessions.add");
    reveal_strlit("watch.add");
    reveal_strlit("sessions.remove");
    reveal_strlit("watch.remove");
    reveal_strlit("policies.set");
    reveal_strlit("policies.reset");
    reveal_strlit("config.policies.set");
    reveal_strlit("config.policies.reset");
    lemma_served_names_differ(method);
}

/// A method stands for one thing only.
proof fn lemma_served_names_differ(method: Seq<char>)
    ensures
        ({
            let held = method == "events.subscribe"@ || method == "sessions.retry_status"@ || method
                == "sessions.retry_now"@;
            let asked = method == "sessions.search"@ || method == "sessions.logs"@ || method
                == "sessions.send"@ || method == "sessions.interrupt"@;
            let added = either(method, "sessions.add"@, "watch.add"@);
            let listed = either(method, "sessions.list"@, "watch.list"@);
            &&& held ==> !asked && !added && !listed && !takes_back(method)
            &&& asked ==> !added && !listed && !takes_back(method)
            &&& added ==> !listed && !takes_back(method)
            &&& listed ==> !takes_back(method)
            &&& method == "events.subscribe"@ ==> method != "sessions.retry_status"@ && method
                != "sessions.retry_now"@
            &&& method == "sessions.retry_status"@ ==> method != "sessions.retry_now"@
            &&& "sessions.list"@ != "sessions.logs"@
        }),
{
    reveal_strlit("events.subscribe");
    reveal_strlit("sessions.retry_status");
    reveal_strlit("sessions.retry_now");
    reveal_strlit("sessions.search");
    reveal_strlit("sessions.logs");
    reveal_strlit("sessions.list");
    reveal_strlit("watch.list");
    reveal_strlit("sessions.send");
    reveal_strlit("sessions.interrupt");
    reveal_strlit("sessions.add");
    reveal_strlit("watch.add");
    reveal_strlit("sessions.remove");
    reveal_strlit("watch.remove");
    reveal_strlit("policies.set");
    reveal_strlit("policies.reset");
    reveal_strlit("config.policies.set");
    reveal_strlit("config.policies.reset");
    let x = method;
    assert("events.subscribe"@.len() == 16 && "sessions.retry_status"@.len() == 21
        && "sessions.retry_now"@.len() == 18 && "sessions.search"@.len() == 15
        && "sessions.logs"@.len() == 13 && "sessions.list"@.len() == 13 && "watch.list"@.len() == 10
        && "sessions.send"@.len() == 13 && "sessions.interrupt"@.len() == 18
        && "sessions.add"@.len() == 12 && "watch.add"@.len() == 9 && "sessions.remove"@.len() == 15
        && "watch.remove"@.len() == 12 && "policies.set"@.len() == 12 && "policies.reset"@.len()
        == 14 && "config.policies.set"@.len() == 19 && "config.policies.reset"@.len() == 21);
    assert("sessions.retry_status"@[0] == 's' && "config.policies.reset"@[0] == 'c');
    assert("sessions.retry_now"@[9] == 'r' && "sessions.interrupt"@[9] == 'i');
    assert("sessions.search"@[9] == 's' && "sessions.remove"@[9] == 'r');
    assert("sessions.logs"@[9] == 'l' && "sessions.logs"@[10] == 'o' && "sessions.list"@[9] == 'l'
        && "sessions.list"@[10] == 'i' && "sessions.send"@[9] == 's');
    assert("sessions.add"@[0] == 's' && "watch.remove"@[0] == 'w' && "policies.set"@[0] == 'p');
}

/// A provider is asked for what a method names.
pub proof fn providers_are_asked_for_what_is_named(method: &str, r: Option<ProviderMethod>)
    requires
        call_ensures(connection::provider_method, (method,), r),
    ensures
        method@ == "sessions.search"@ ==> r == Some(ProviderMethod::Search),
        method@ == "sessions.logs"@ ==> r == Some(ProviderMethod::Logs),
        method@ == "sessions.send"@ ==> r == Some(ProviderMethod::Send),
        method@ == "sessions.interrupt"@ ==> r == Some(ProviderMethod::Interrupt),
        r == Some(ProviderMethod::Search) ==> method@ == "sessions.search"@,
        r == Some(ProviderMethod::Logs) ==> method@ == "sessions.logs"@,
        r == Some(ProviderMethod::Send) ==> method@ == "sessions.send"@,
        r == Some(ProviderMethod::Interrupt) ==> method@ == "sessions.interrupt"@,
        r == Some(ProviderMethod::Validate) <==> either(method@, "sessions.add"@, "watch.add"@),
{
    lemma_two("sessions.add", "watch.add", method@);
    lemma_served_names_differ(method@);
    reveal_strlit("sessions.search");
    reveal_strlit("sessions.logs");
    reveal_strlit("sessions.send");
    reveal_strlit("sessions.interrupt");
    assert("sessions.search"@.len() == 15 && "sessions.logs"@.len() == 13 && "sessions.send"@.len()
        == 13 && "sessions.interrupt"@.len() == 18);
    assert("sessions.logs"@[9] == 'l' && "sessions.send"@[9] == 's');
}

/// Only connections of the service's own user are served.
pub proof fn only_the_own_user_is_served(peer: Option<u32>, user: u32, r: bool)
    requires
        call_ensures(connection::accepts_peer, (peer, user), r),
    ensures
        r <==> peer is Some && peer->0 == user,
{
}

/// At most sixteen connections and four subscriptions are open at once, and what ends makes room
/// again.
pub proof fn connections_and_subscriptions_are_bounded(
    capacity: &mut Capacity,
    opened: bool,
)
    requires
        call_ensures(Capacity::connect, (capacity,), opened),
        old(capacity).well_formed(),
    ensures
        old(capacity).connections <= 16,
        opened <==> old(capacity).connections < 16,
        opened ==> final(capacity).connections == old(capacity).connections + 1,
        !opened ==> final(capacity).connections == old(capacity).connections,
        final(capacity).subscriptions == old(capacity).subscriptions,
{
}

/// A connection that ends makes room for another.
pub proof fn ended_connections_make_room(capacity: &mut Capacity)
    requires
        call_ensures(Capacity::disconnect, (capacity,), ()),
        old(capacity).connections > 0,
    ensures
        final(capacity).connections == old(capacity).connections - 1,
        final(capacity).subscriptions == old(capacity).subscriptions,
{
}

/// A fifth subscriber is told that there are too many.
pub proof fn a_fifth_subscriber_is_refused(
    capacity: &mut Capacity,
    request: &RpcRequest,
    revision: u64,
    r: (RpcResponse, bool),
)
    requires
        call_ensures(Capacity::subscribe, (capacity, request, revision), r),
        old(capacity).well_formed(),
    ensures
        old(capacity).subscriptions <= 4,
        r.1 <==> old(capacity).subscriptions < 4,
        final(capacity).subscriptions == old(capacity).subscriptions + (if r.1 {
            1int
        } else {
            0
        }),
        final(capacity).connections == old(capacity).connections,
        r.0.version == 2,
        r.0.id == request.id,
        r.0.revision == revision,
        r.0.error is None <==> r.1,
        r.0.result is Some <==> r.1,
        !r.1 ==> r.0.error->0.code@ == "too_many_subscribers"@,
{
}

/// A subscription that ends makes room for another.
pub proof fn ended_subscriptions_make_room(capacity: &mut Capacity)
    requires
        call_ensures(Capacity::unsubscribe, (capacity,), ()),
        old(capacity).subscriptions > 0,
    ensures
        final(capacity).subscriptions == old(capacity).subscriptions - 1,
        final(capacity).connections == old(capacity).connections,
{
}

/// What is told reaches a subscriber as it is. One that has lost something is told to ask again, a
/// quiet one that the service is there, and one that sends something is closed.
pub proof fn subscribers_are_kept_informed(
    event: SubscriberEvent,
    revision: u64,
    r: SubscriberStep,
)
    requires
        call_ensures(connection::subscriber_step, (event, revision), r),
    ensures
        match event {
            SubscriberEvent::Told(told) => r is Send && r->Send_0 == told,
            SubscriberEvent::Lagged => r is Send && r->Send_0.event@ == "state.resync_required"@
                && r->Send_0.revision == revision && r->Send_0.version == 2 && r->Send_0.data
                == Json::Null,
            SubscriberEvent::Quiet => r is Send && r->Send_0.event@ == "service.heartbeat"@
                && r->Send_0.revision == revision && r->Send_0.version == 2 && r->Send_0.data
                == Json::Null,
            SubscriberEvent::Data => r is Refuse,
            SubscriberEvent::Disconnected => r is End,
            SubscriberEvent::Closed => r is End,
        },
{
}

/// Subscribers are told of every change that succeeded, with the revision that it left, and of no
/// other request.
pub proof fn successful_changes_are_announced(
    method: &str,
    response: &RpcResponse,
    r: Option<RpcNotification>,
)
    requires
        call_ensures(connection::announcement, (method, response), r),
    ensures
        r is Some <==> is_told(method@) && response.error is None,
        r is Some ==> r->0.event@ == "state.changed"@ && r->0.revision == response.revision
            && r->0.version == 2,
{
    lemma_mutating(method@);
}

/// Subscribers are told what the engine did, unless it did nothing, and of a poll that advanced the
/// revision.
pub proof fn engine_events_are_announced(
    events: Json,
    empty: bool,
    before: u64,
    revision: u64,
    told: Option<RpcNotification>,
    reconciled: Option<RpcNotification>,
)
    requires
        call_ensures(connection::engine_announcement, (events, empty, revision), told),
        call_ensures(connection::reconcile_announcement, (before, revision), reconciled),
    ensures
        told is None <==> empty,
        told is Some ==> told->0.event@ == "engine.events"@ && told->0.revision == revision
            && told->0.data == events,
        reconciled is None <==> before == revision,
        reconciled is Some ==> reconciled->0.event@ == "state.changed"@ && reconciled->0.revision
            == revision,
{
}

/// What a provider answers is passed on; what it refuses is answered with its reason.
pub proof fn provider_answers_are_passed_on(
    request: &RpcRequest,
    revision: u64,
    answer: Result<Json, String>,
    r: RpcResponse,
)
    requires
        call_ensures(connection::provider_response, (request, revision, answer), r),
    ensures
        r.version == 2 && r.id == request.id && r.revision == revision,
        match answer {
            Ok(result) => r.result == Some(result) && r.error is None,
            Err(message) => r.result is None && r.error is Some && r.error->0.code@
                == "request_failed"@ && r.error->0.message@ == message@,
        },
{
}

/// A retry that is not accepted is answered with why.
pub proof fn unaccepted_retries_are_answered(
    request: &RpcRequest,
    revision: u64,
    message: String,
    r: RpcResponse,
)
    requires
        call_ensures(connection::retry_refused, (request, revision, message), r),
    ensures
        r.id == request.id && r.revision == revision && r.result is None,
        r.error is Some && r.error->0.code@ == "retry_not_accepted"@ && r.error->0.message@
            == message@,
{
}

/// The state of a retry is told to those who name it, and of one that is not kept it is said that it
/// is not there.
pub proof fn retries_can_be_asked_for(
    request: &RpcRequest,
    registry: &RetryOperationRegistry,
    revision: u64,
    id: &str,
    r: Result<RpcResponse, StatusRefusal>,
)
    requires
        call_ensures(connection::retry_status, (request, registry, revision), r),
        request.params is Object,
        request.params->Object_0@.contains_key("operation_id"@),
        request.params->Object_0@["operation_id"@] is Text,
        request.params->Object_0@["operation_id"@]->Text_0@ == id@,
    ensures
        !registry.operations@.contains_key(id@) ==> r is Ok && r->Ok_0.error is Some
            && r->Ok_0.error->0.code@ == "operation_not_found"@,
        registry.operations@.contains_key(id@) ==> (r is Err
            || r->Ok_0.error is None && r->Ok_0.result is Some),
        r is Ok ==> r->Ok_0.id == request.id && r->Ok_0.revision == revision,
{
}

/// Without the name of an operation there is nothing to tell.
pub proof fn unnamed_retries_are_refused(
    request: &RpcRequest,
    registry: &RetryOperationRegistry,
    revision: u64,
    r: Result<RpcResponse, StatusRefusal>,
)
    requires
        call_ensures(connection::retry_status, (request, registry, revision), r),
        request.params is Object ==> !request.params->Object_0@.contains_key("operation_id"@),
    ensures
        r is Err && r->Err_0 is NoOperation,
{
}

/// The targets of a provider are listed in their order, and no more than are asked for.
pub proof fn targets_are_listed_by_provider(
    targets: &Vec<WatchTarget>,
    provider: Option<&str>,
    limit: Option<usize>,
    r: Vec<WatchTarget>,
    i: int,
)
    requires
        call_ensures(connection::list_targets, (targets, provider, limit), r),
    ensures
        limit is Some ==> r@.len() <= limit->0,
        0 <= i < r@.len() ==> targets@.contains(r@[i]) && (provider is Some ==> r@[i].provider@
            == provider->0@),
        limit is None && 0 <= i < targets@.len() && (provider is None || targets@[i].provider@
            == provider->0@) ==> r@.contains(targets@[i]),
        provider is None && limit is None ==> r@ == targets@,
        provider is None && limit is Some ==> r@ == targets@.take(if limit->0 < targets@.len() {
            limit->0 as int
        } else {
            targets@.len() as int
        }),
{
    let wanted = match provider {
        Some(provider) => Some(provider@),
        None => None,
    };
    let keep = |target: WatchTarget| wanted is None || target.provider@ == wanted->0;
    let found = targets@.filter(keep);
    assert(r@ == connection::listed(targets@, wanted, limit));
    if 0 <= i < r@.len() {
        assert(r@[i] == found[i]);
        targets@.lemma_filter_pred(keep, i);
        assert(found.contains(found[i]));
        targets@.lemma_filter_contains_rev(keep, found[i]);
    }
    if 0 <= i < targets@.len() && keep(targets@[i]) {
        targets@.lemma_filter_contains(keep, i);
    }
    if provider is None {
        lemma_all_are_kept(targets@, keep);
        assert(targets@.take(targets@.len() as int) =~= targets@);
    }
}

proof fn lemma_all_are_kept(targets: Seq<WatchTarget>, keep: spec_fn(WatchTarget) -> bool)
    requires
        forall|target: WatchTarget| #[trigger] keep(target),
    ensures
        targets.filter(keep) == targets,
    decreases targets.len(),
{
    reveal(Seq::filter);
    if targets.len() > 0 {
        lemma_all_are_kept(targets.drop_last(), keep);
        assert(keep(targets.last()));
        assert(targets.drop_last().push(targets.last()) =~= targets);
    }
}

/// Each session that is found is told to be watched exactly where it is.
pub proof fn found_sessions_say_whether_they_are_watched(
    found: &Vec<Session>,
    targets: &Vec<WatchTarget>,
    r: Vec<bool>,
    i: int,
)
    requires
        call_ensures(connection::watched_sessions, (found, targets), r),
        0 <= i < found@.len(),
    ensures
        r@.len() == found@.len(),
        r@[i] <==> sessions::watched(targets@, found@[i].provider@, found@[i].id@),
{
    sessions::lemma_watched(targets@, found@[i].provider@, found@[i].id@);
    assert(found@[i].key_view() == found@[i].provider@ + ":"@ + found@[i].id@);
    assert(r@[i] == watchlist::watches(targets@, found@[i].key_view()));
}

/// Ten times as many lines are asked for where only those on reliability are wanted, but never more
/// than two thousand.
pub proof fn reliability_needs_more_lines(query: &ActivityQuery, r: usize)
    requires
        call_ensures(methods::provider_log_limit, (query,), r),
    ensures
        !query.reliability_only ==> r == query.limit,
        query.reliability_only && query.limit <= 200 ==> r == 10 * query.limit,
        query.reliability_only && query.limit > 200 ==> r == 2000,
{
}

/// From one to five hundred sessions are handed out at once.
pub proof fn searches_are_limited(query: &SessionQuery, r: usize)
    requires
        call_ensures(activity::search_limit, (query,), r),
    ensures
        1 <= r <= 500,
        1 <= query.limit <= 500 ==> r == query.limit,
        query.limit == 0 ==> r == 1,
        query.limit > 500 ==> r == 500,
{
}

/// A line tells of reliability where the service wrote it, where it has a condition, and where a
/// turn or a provider failed.
pub proof fn failures_tell_of_reliability(log: &SessionLog, r: bool)
    requires
        call_ensures(methods::is_reliability_log, (log,), r),
    ensures
        log.source@ == "watchcat"@ ==> r,
        log.condition is Some ==> r,
        log.kind@ == "turn.failed"@ ==> r,
        log.kind@ == "provider.error"@ ==> r,
        r ==> log.source@ == "watchcat"@ || log.condition is Some || log.kind@ == "turn.failed"@
            || log.kind@ == "provider.error"@,
{
}

/// Only clients of the second version are served, and the others are told.
pub proof fn only_the_second_protocol_is_spoken(
    request: &RpcRequest,
    revision: u64,
    r: Result<(), RpcResponse>,
)
    requires
        call_ensures(methods::check_protocol, (request, revision), r),
    ensures
        r is Ok <==> request.version == 2,
        r is Err ==> r->Err_0.error is Some && r->Err_0.error->0.code@ == "protocol_mismatch"@
            && r->Err_0.id == request.id && r->Err_0.revision == revision,
{
}

/// A request is for the provider that it names, and for the first one where it names none.
pub proof fn requests_name_their_provider(request: &RpcRequest, r: String)
    requires
        call_ensures(methods::request_provider, (request,), r),
    ensures
        match request.params {
            Json::Object(members) => {
                &&& members@.contains_key("provider"@) && members@["provider"@] is Text ==> r@
                    == members@["provider"@]->Text_0@
                &&& !members@.contains_key("provider"@) ==> r@ == "codex"@
            },
            _ => r@ == "codex"@,
        },
{
}

/// A message is sent without white space around it, and not at all where nothing else is in it.
pub proof fn blank_messages_are_not_sent(message: &str, r: Option<String>, trimmed: String)
    requires
        call_ensures(activity::message_to_send, (message,), r),
        call_ensures(text::trim, (message,), trimmed),
    ensures
        r is None <==> trimmed@.len() == 0,
        r is Some ==> r->0@ == trimmed@,
{
    text::lemma_trimmed_is_empty(message@);
}

/// A provider that cannot be read leaves a line that says why, as one on reliability.
pub proof fn unreadable_providers_leave_a_line(
    session: &SessionRef,
    reason: String,
    now: Timestamp,
    r: SessionLog,
)
    requires
        call_ensures(activity::provider_failure_log, (session, reason, now), r),
    ensures
        r.timestamp == Some(now),
        r.provider@ == session.provider@ && r.session_id@ == session.session_id@,
        r.kind@ == "provider.error"@ && r.source@ == "provider"@,
        r.message@ == reason@,
{
}

} // verus!
