//! The requests that the service answers from its own state, and the changes that they make.

use vstd::prelude::*;
use vstd::string::*;

use crate::conditions;
use crate::config;
use crate::config::{
    ConfigError, LifecycleSettings, PolicyOverride, ResolvedPolicy, Settings,
};
use crate::models;
use crate::models::{PolicyAction, TrackingSource, WatchTarget};
use crate::protocol::{PolicyUpdate, SessionRef, Snapshot, WatchAdd};
use crate::state::control;
use crate::state::control::ControlStateStore;
use crate::state::runtime::RecoveryMetrics;
use crate::state::watchlist;
use crate::state::watchlist::{WatchlistDocument, WatchlistStore};
use crate::text;
use crate::textmap::TextMap;
use crate::time::Timestamp;

verus! {

/// The methods that the service answers from its own state.
#[derive(Clone, Copy, Debug, PartialEq, Eq, Structural)]
pub enum ControlMethod {
    Ping,
    Snapshot,
    ListSessions,
    AddSession,
    RemoveSession,
    ListPolicies,
    SetPolicy,
    ResetPolicies,
    GetConfig,
    SetLifecycle,
}

/// The names of a method.
pub open spec fn method_names(method: ControlMethod) -> Seq<&'static str> {
    match method {
        ControlMethod::Ping => seq!["service.ping", "daemon.ping"],
        ControlMethod::Snapshot => seq!["snapshot.get"],
        ControlMethod::ListSessions => seq!["sessions.list", "watch.list"],
        ControlMethod::AddSession => seq!["sessions.add", "watch.add"],
        ControlMethod::RemoveSession => seq!["sessions.remove", "watch.remove"],
        ControlMethod::ListPolicies => seq!["config.policies.list", "policies.list"],
        ControlMethod::SetPolicy => seq!["config.policies.set", "policies.set"],
        ControlMethod::ResetPolicies => seq!["config.policies.reset", "policies.reset"],
        ControlMethod::GetConfig => seq!["config.get"],
        ControlMethod::SetLifecycle => seq!["config.set_lifecycle"],
    }
}

/// No name is that of two methods.
pub proof fn lemma_method_names_differ(a: ControlMethod, b: ControlMethod, name: Seq<char>)
    requires
        a != b,
        text::listed(method_names(a), name),
    ensures
        !text::listed(method_names(b), name),
{
    reveal_strlit("service.ping");
    reveal_strlit("daemon.ping");
    reveal_strlit("snapshot.get");
    reveal_strlit("sessions.list");
    reveal_strlit("watch.list");
    reveal_strlit("sessions.add");
    reveal_strlit("watch.add");
    reveal_strlit("sessions.remove");
    reveal_strlit("watch.remove");
    reveal_strlit("config.policies.list");
    reveal_strlit("policies.list");
    reveal_strlit("config.policies.set");
    reveal_strlit("policies.set");
    reveal_strlit("config.policies.reset");
    reveal_strlit("policies.reset");
    reveal_strlit("config.get");
    reveal_strlit("config.set_lifecycle");
    let i = choose|i: int|
        0 <= i < method_names(a).len() && (#[trigger] method_names(a)[i])@ == name;
    if text::listed(method_names(b), name) {
        let j = choose|j: int|
            0 <= j < method_names(b).len() && (#[trigger] method_names(b)[j])@ == name;
        let x = method_names(a)[i]@;
        let y = method_names(b)[j]@;
        assert(x.len() == y.len());
        assert(x[0] == y[0] && x[1] == y[1] && x[6] == y[6] && x[x.len() - 1] == y[y.len() - 1]);
        assert(x[9] == y[9]);
    }
}

fn is_either(name: &str, a: &'static str, b: &'static str) -> (r: bool)
    ensures
        r == text::listed(seq![a, b], name@),
{
    let r = text::same(name, a) || text::same(name, b);
    proof {
        let names = seq![a, b];
        assert(names[0]@ == a@ && names[1]@ == b@);
        if text::listed(names, name@) {
            let i = choose|i: int| 0 <= i < names.len() && (#[trigger] names[i])@ == name@;
            assert(i == 0 || i == 1);
        }
    }
    r
}

fn is_only(name: &str, a: &'static str) -> (r: bool)
    ensures
        r == text::listed(seq![a], name@),
{
    let r = text::same(name, a);
    proof {
        let names = seq![a];
        assert(names[0]@ == a@);
        if text::listed(names, name@) {
            let i = choose|i: int| 0 <= i < names.len() && (#[trigger] names[i])@ == name@;
            assert(i == 0);
        }
    }
    r
}

/// Finds a method by its name.
pub fn find_method(name: &str) -> (r: Option<ControlMethod>)
    ensures
        match r {
            Some(found) => text::listed(method_names(found), name@),
            None => forall|method: ControlMethod| !text::listed(
                #[trigger] method_names(method),
                name@,
            ),
        },
{
    if is_either(name, "service.ping", "daemon.ping") {
        Some(ControlMethod::Ping)
    } else if is_only(name, "snapshot.get") {
        Some(ControlMethod::Snapshot)
    } else if is_either(name, "sessions.list", "watch.list") {
        Some(ControlMethod::ListSessions)
    } else if is_either(name, "sessions.add", "watch.add") {
        Some(ControlMethod::AddSession)
    } else if is_either(name, "sessions.remove", "watch.remove") {
        Some(ControlMethod::RemoveSession)
    } else if is_either(name, "config.policies.list", "policies.list") {
        Some(ControlMethod::ListPolicies)
    } else if is_either(name, "config.policies.set", "policies.set") {
        Some(ControlMethod::SetPolicy)
    } else if is_either(name, "config.policies.reset", "policies.reset") {
        Some(ControlMethod::ResetPolicies)
    } else if is_only(name, "config.get") {
        Some(ControlMethod::GetConfig)
    } else if is_only(name, "config.set_lifecycle") {
        Some(ControlMethod::SetLifecycle)
    } else {
        assert forall|method: ControlMethod| !text::listed(
            #[trigger] method_names(method),
            name@,
        ) by {
            match method {
                ControlMethod::Ping => {},
                ControlMethod::Snapshot => {},
                ControlMethod::ListSessions => {},
                ControlMethod::AddSession => {},
                ControlMethod::RemoveSession => {},
                ControlMethod::ListPolicies => {},
                ControlMethod::SetPolicy => {},
                ControlMethod::ResetPolicies => {},
                ControlMethod::GetConfig => {},
                ControlMethod::SetLifecycle => {},
            }
        }
        None
    }
}

/// A request with what it says.
#[derive(Debug)]
pub enum ControlRequest {
    Ping,
    Snapshot,
    ListSessions,
    AddSession(WatchAdd),
    RemoveSession(SessionRef),
    ListPolicies,
    SetPolicy(PolicyUpdate),
    ResetPolicies(Option<String>),
    GetConfig,
    SetLifecycle(LifecycleSettings),
}

impl ControlRequest {
    /// The request changes something.
    pub open spec fn mutates(self) -> bool {
        match self {
            ControlRequest::AddSession(_) => true,
            ControlRequest::RemoveSession(_) => true,
            ControlRequest::SetPolicy(_) => true,
            ControlRequest::ResetPolicies(_) => true,
            ControlRequest::SetLifecycle(_) => true,
            _ => false,
        }
    }
}

/// What a request is answered.
#[derive(Debug)]
pub enum Reply {
    Pong,
    Snapshot(Snapshot),
    Sessions(Vec<WatchTarget>),
    Added { added: bool, target: WatchTarget },
    Removed(bool),
    Policies(Vec<ResolvedPolicy>),
    PolicyUpdated,
    PoliciesReset,
    Config(Settings),
    LifecycleUpdated,
}

/// What a request changes, once the revision has advanced and it could be stored.
#[derive(Debug)]
pub enum Change {
    Settings(Settings),
    Watchlist(WatchlistDocument),
}

/// The answer to a request and the change that it makes.
#[derive(Debug)]
pub struct Plan {
    pub reply: Reply,
    pub change: Option<Change>,
}

/// Why a request is refused.
#[derive(Debug)]
pub enum ControlError {
    RevisionConflict { expected: u64, actual: u64 },
    UnknownCondition(String),
    NeedsValidation,
    Invalid(ConfigError),
}

impl ControlError {
    /// The error in words.
    pub open spec fn message_view(self) -> Seq<char> {
        match self {
            ControlError::RevisionConflict { expected, actual } =>
                "revision conflict: client has "@ + text::decimal_view(expected as nat)
                + ", server has "@ + text::decimal_view(actual as nat),
            ControlError::UnknownCondition(condition) => "unknown policy condition: "@ + condition@,
            ControlError::NeedsValidation =>
                "validated watch.add must use the provider worker"@,
            ControlError::Invalid(error) => error.message_view(),
        }
    }

    /// The error in words.
    pub fn message(&self) -> (r: String)
        ensures
            r@ == self.message_view(),
    {
        match self {
            ControlError::RevisionConflict { expected, actual } =>
                "revision conflict: client has ".to_owned().concat(
                text::decimal(*expected).as_str(),
            ).concat(", server has ").concat(text::decimal(*actual).as_str()),
            ControlError::UnknownCondition(condition) =>
                "unknown policy condition: ".to_owned().concat(condition.as_str()),
            ControlError::NeedsValidation =>
                "validated watch.add must use the provider worker".to_owned(),
            ControlError::Invalid(error) => error.message(),
        }
    }
}

/// An override after a change: one that skips stands alone, any other keeps what the change does
/// not set.
pub open spec fn merged(entry: PolicyOverride, update: PolicyOverride) -> PolicyOverride {
    if update.action == Some(PolicyAction::Skip) {
        update
    } else {
        PolicyOverride {
            action: if update.action is Some {
                update.action
            } else {
                entry.action
            },
            backoff: if update.backoff is Some {
                update.backoff
            } else {
                entry.backoff
            },
            initial_delay_seconds: if update.initial_delay_seconds is Some {
                update.initial_delay_seconds
            } else {
                entry.initial_delay_seconds
            },
            max_delay_seconds: if update.max_delay_seconds is Some {
                update.max_delay_seconds
            } else {
                entry.max_delay_seconds
            },
            max_attempts: if update.max_attempts is Some {
                update.max_attempts
            } else {
                entry.max_attempts
            },
            prompt: if update.prompt is Some {
                update.prompt
            } else {
                entry.prompt
            },
        }
    }
}

fn merge(entry: PolicyOverride, update: PolicyOverride) -> (r: PolicyOverride)
    ensures
        r == merged(entry, update),
{
    let skips = match update.action {
        Some(action) => action == PolicyAction::Skip,
        None => false,
    };
    if skips {
        return update;
    }
    PolicyOverride {
        action: if update.action.is_some() {
            update.action
        } else {
            entry.action
        },
        backoff: if update.backoff.is_some() {
            update.backoff
        } else {
            entry.backoff
        },
        initial_delay_seconds: if update.initial_delay_seconds.is_some() {
            update.initial_delay_seconds
        } else {
            entry.initial_delay_seconds
        },
        max_delay_seconds: if update.max_delay_seconds.is_some() {
            update.max_delay_seconds
        } else {
            entry.max_delay_seconds
        },
        max_attempts: if update.max_attempts.is_some() {
            update.max_attempts
        } else {
            entry.max_attempts
        },
        prompt: if update.prompt.is_some() {
            update.prompt
        } else {
            entry.prompt
        },
    }
}

/// `after` differs from `before` in the overrides alone.
pub open spec fn same_but_policies(before: Settings, after: Settings) -> bool {
    &&& after.version == before.version
    &&& after.engine == before.engine
    &&& after.lifecycle == before.lifecycle
    &&& after.providers.codex.enabled == before.providers.codex.enabled
    &&& after.providers.codex.command@ == before.providers.codex.command@
    &&& after.providers.claude == before.providers.claude
    &&& after.dialogs.rules.entries() == before.dialogs.rules.entries()
    &&& after.dialogs.rules@ == before.dialogs.rules@
}

/// The overrides after a change of one.
pub open spec fn policies_after(
    policies: Map<Seq<char>, PolicyOverride>,
    condition: Seq<char>,
    update: PolicyOverride,
) -> Map<Seq<char>, PolicyOverride> {
    policies.insert(
        condition,
        merged(
            if policies.contains_key(condition) {
                policies[condition]
            } else {
                config::no_override()
            },
            update,
        ),
    )
}

/// The settings with a change of one override.
pub fn set_policy(settings: &Settings, update: PolicyUpdate) -> (r: Result<Settings, ControlError>)
    ensures
        match r {
            Ok(after) => conditions::known(update.condition@) && same_but_policies(
                *settings,
                after,
            ) && after.policies@ == policies_after(
                settings.policies@,
                update.condition@,
                update.policy,
            ),
            Err(ControlError::UnknownCondition(condition)) => !conditions::known(
                update.condition@,
            ) && condition == update.condition,
            Err(_) => false,
        },
{
    if !conditions::is_known(update.condition.as_str()) {
        return Err(ControlError::UnknownCondition(update.condition));
    }
    let mut after = settings.clone();
    let entry = match after.policies.remove(update.condition.as_str()) {
        Some(entry) => entry,
        None => PolicyOverride::default(),
    };
    let ghost condition = update.condition@;
    after.policies.insert(update.condition, merge(entry, update.policy));
    assert(after.policies@ =~= policies_after(settings.policies@, condition, update.policy));
    Ok(after)
}

/// The settings without the override of a condition, or without any.
pub fn reset_policies(settings: &Settings, condition: Option<String>) -> (r: Result<
    Settings,
    ControlError,
>)
    ensures
        match r {
            Ok(after) => {
                &&& same_but_policies(*settings, after)
                &&& match condition {
                    Some(name) => conditions::known(name@) && after.policies@
                        == settings.policies@.remove(name@),
                    None => after.policies@ == Map::<Seq<char>, PolicyOverride>::empty(),
                }
            },
            Err(ControlError::UnknownCondition(name)) => condition == Some(name)
                && !conditions::known(name@),
            Err(_) => false,
        },
{
    let mut after = settings.clone();
    match condition {
        Some(name) => {
            if !conditions::is_known(name.as_str()) {
                return Err(ControlError::UnknownCondition(name));
            }
            after.policies.remove(name.as_str());
        },
        None => {
            after.policies = TextMap::new();
        },
    }
    Ok(after)
}

/// `after` differs from `before` in the lifecycle alone.
pub open spec fn with_lifecycle(
    before: Settings,
    lifecycle: LifecycleSettings,
    after: Settings,
) -> bool {
    &&& after.version == before.version
    &&& after.engine == before.engine
    &&& after.lifecycle == lifecycle
    &&& after.providers.codex.enabled == before.providers.codex.enabled
    &&& after.providers.codex.command@ == before.providers.codex.command@
    &&& after.providers.claude == before.providers.claude
    &&& after.policies.entries() == before.policies.entries()
    &&& after.policies@ == before.policies@
    &&& after.dialogs.rules.entries() == before.dialogs.rules.entries()
    &&& after.dialogs.rules@ == before.dialogs.rules@
}

/// A change of one condition's policy leaves the policy of every other condition as it was.
pub proof fn other_policies_are_untouched(
    before: Settings,
    condition: Seq<char>,
    update: PolicyOverride,
    after: Settings,
    other: Seq<char>,
)
    requires
        after.policies@ == policies_after(before.policies@, condition, update),
        other != condition,
    ensures
        after.custom(other) == before.custom(other),
{
}

/// Resetting a condition takes back every change of its policy: the overrides are those that there
/// were without one.
pub proof fn reset_undoes_set(
    policies: Map<Seq<char>, PolicyOverride>,
    condition: Seq<char>,
    update: PolicyOverride,
)
    ensures
        policies_after(policies, condition, update).remove(condition) == policies.remove(condition),
        !policies.contains_key(condition) ==> policies_after(policies, condition, update).remove(
            condition,
        ) == policies,
{
    assert(policies_after(policies, condition, update).remove(condition) =~= policies.remove(
        condition,
    ));
    if !policies.contains_key(condition) {
        assert(policies.remove(condition) =~= policies);
    }
}

/// What the service knows and answers from.
#[derive(Debug)]
pub struct WatchcatDaemon {
    pub settings: Settings,
    pub watchlist: WatchlistStore,
    pub control: ControlStateStore,
    pub attention_target_keys: Vec<String>,
    pub metrics: RecoveryMetrics,
    pub last_sweep_at: Option<Timestamp>,
    /// When the settings file was modified, as far as it was taken up.
    pub config_modified: Option<Timestamp>,
}

/// The target that an addition by hand makes.
pub open spec fn is_added_target(target: WatchTarget, add: WatchAdd, now: Timestamp) -> bool {
    &&& target.source == TrackingSource::Manual
    &&& target.provider == add.session.provider
    &&& target.session_id == add.session.session_id
    &&& target.label == add.label
    &&& target.title is None
    &&& target.added_at == now
    &&& target.last_activity_at is None
}

impl WatchcatDaemon {
    /// The revision.
    pub open spec fn revision_view(self) -> u64 {
        self.control.revision_view()
    }

    /// The revision.
    pub fn revision(&self) -> (r: u64)
        ensures
            r == self.revision_view(),
    {
        self.control.revision()
    }

    /// A client that expects a revision is not up to date.
    pub open spec fn conflicts(self, expected: Option<u64>) -> bool {
        expected is Some && expected->0 != self.revision_view()
    }

    /// Whether a client that expects a revision is up to date.
    pub fn check_revision(&self, expected: Option<u64>) -> (r: Result<(), ControlError>)
        ensures
            match r {
                Ok(()) => !self.conflicts(expected),
                Err(ControlError::RevisionConflict { expected: wanted, actual }) =>
                    self.conflicts(expected) && expected == Some(wanted) && actual
                    == self.revision_view(),
                Err(_) => false,
            },
    {
        match expected {
            Some(wanted) => {
                let actual: u64 = self.control.revision();
                if wanted != actual {
                    return Err(ControlError::RevisionConflict { expected: wanted, actual });
                }
            },
            None => {},
        }
        Ok(())
    }

    /// The state of the service at a glance.
    pub open spec fn is_snapshot(self, snapshot: Snapshot, now: Timestamp) -> bool {
        &&& snapshot.generated_at == now
        &&& snapshot.revision == self.revision_view()
        &&& snapshot.service_online
        &&& snapshot.watched == self.watchlist.document.targets@.len()
        &&& snapshot.attention == self.attention_target_keys@.len()
        &&& snapshot.attention_target_keys@ == self.attention_target_keys@
        &&& snapshot.automatic_recoveries == self.metrics.automatic_recoveries
        &&& snapshot.hands_free_percent == self.metrics.hands_free_percent
    }

    /// The state of the service at a glance.
    pub fn snapshot(&self, now: Timestamp) -> (r: Snapshot)
        ensures
            self.is_snapshot(r, now),
    {
        let keys = self.attention_target_keys.clone();
        assert(keys@ =~= self.attention_target_keys@);
        Snapshot {
            generated_at: now,
            revision: self.control.revision(),
            service_online: true,
            watched: self.watchlist.document.targets.len(),
            attention: self.attention_target_keys.len(),
            attention_target_keys: keys,
            automatic_recoveries: self.metrics.automatic_recoveries,
            hands_free_percent: self.metrics.hands_free_percent,
        }
    }

    /// `plan` is what a request is answered and what it changes.
    pub open spec fn is_plan(self, request: ControlRequest, now: Timestamp, plan: Plan) -> bool {
        match request {
            ControlRequest::Ping => plan.reply is Pong && plan.change is None,
            ControlRequest::Snapshot => plan.change is None && (plan.reply matches Reply::Snapshot(
                snapshot,
            ) && self.is_snapshot(snapshot, now)),
            ControlRequest::ListSessions => plan.change is None && (
            plan.reply matches Reply::Sessions(targets) && targets@
                == self.watchlist.document.targets@),
            ControlRequest::AddSession(add) => {
                &&& !add.validate
                &&& plan.reply matches Reply::Added { added, target }
                &&& is_added_target(target, add, now)
                &&& added == !watchlist::watches(
                    self.watchlist.document.targets@,
                    target.key_view(),
                )
                &&& plan.change matches Some(Change::Watchlist(document))
                &&& document.version == self.watchlist.document.version
                &&& document.targets@ == watchlist::with_added(
                    self.watchlist.document.targets@,
                    target,
                )
                &&& document.excluded@ == self.watchlist.document.excluded@.remove(
                    target.key_view(),
                )
            },
            ControlRequest::RemoveSession(session) => {
                let key = models::session_key(session.provider@, session.session_id@);
                &&& plan.reply == Reply::Removed(
                    watchlist::watches(self.watchlist.document.targets@, key),
                )
                &&& match plan.change {
                    Some(Change::Watchlist(document)) => {
                        &&& document.version == self.watchlist.document.version
                        &&& document.targets@ == watchlist::without_key(
                            self.watchlist.document.targets@,
                            key,
                        )
                        &&& document.excluded@ == self.watchlist.document.excluded@.insert(key, ())
                    },
                    Some(_) => false,
                    None => !self.changes(request),
                }
            },
            ControlRequest::ListPolicies => plan.change is None && (
            plan.reply matches Reply::Policies(policies) && policies@.len()
                == conditions::known_conditions().len() && forall|i: int|
                0 <= i < policies@.len() ==> config::is_resolution(
                    #[trigger] policies@[i],
                    self.settings.custom(conditions::known_conditions()[i].name@),
                    conditions::known_conditions()[i].name@,
                )),
            ControlRequest::SetPolicy(update) => {
                &&& conditions::known(update.condition@)
                &&& plan.reply is PolicyUpdated
                &&& plan.change matches Some(Change::Settings(after))
                &&& same_but_policies(self.settings, after)
                &&& after.policies@ == policies_after(
                    self.settings.policies@,
                    update.condition@,
                    update.policy,
                )
            },
            ControlRequest::ResetPolicies(condition) => {
                &&& condition is Some ==> conditions::known(condition->0@)
                &&& plan.reply is PoliciesReset
                &&& plan.change matches Some(Change::Settings(after))
                &&& same_but_policies(self.settings, after)
                &&& after.policies@ == (match condition {
                    Some(name) => self.settings.policies@.remove(name@),
                    None => Map::<Seq<char>, PolicyOverride>::empty(),
                })
            },
            ControlRequest::GetConfig => plan.change is None && (plan.reply matches Reply::Config(
                settings,
            ) && config::same_settings(settings, self.settings)),
            ControlRequest::SetLifecycle(lifecycle) => {
                &&& plan.reply is LifecycleUpdated
                &&& plan.change matches Some(Change::Settings(after))
                &&& with_lifecycle(self.settings, lifecycle, after)
                &&& after.valid()
            },
        }
    }

    /// `error` is why a request is refused.
    pub open spec fn is_refused(
        self,
        request: ControlRequest,
        expected: Option<u64>,
        error: ControlError,
    ) -> bool {
        match error {
            ControlError::RevisionConflict { expected: wanted, actual } => request.mutates()
                && self.conflicts(expected) && expected == Some(wanted) && actual
                == self.revision_view(),
            ControlError::UnknownCondition(condition) => !self.conflicts(expected) && match request {
                ControlRequest::SetPolicy(update) => condition == update.condition
                    && !conditions::known(condition@),
                ControlRequest::ResetPolicies(name) => name == Some(condition)
                    && !conditions::known(condition@),
                _ => false,
            },
            ControlError::NeedsValidation => !self.conflicts(expected) && match request {
                ControlRequest::AddSession(add) => add.validate,
                _ => false,
            },
            ControlError::Invalid(error) => !self.conflicts(expected) && match request {
                ControlRequest::SetLifecycle(lifecycle) => exists|after: Settings| #[trigger]
                    with_lifecycle(self.settings, lifecycle, after) && after.refused_for(error),
                _ => false,
            },
        }
    }

    /// A request changes something where it is carried out. A removal does where the session is
    /// watched, or is not excluded yet.
    pub open spec fn changes(self, request: ControlRequest) -> bool {
        match request {
            ControlRequest::RemoveSession(session) => {
                let key = models::session_key(session.provider@, session.session_id@);
                watchlist::watches(self.watchlist.document.targets@, key)
                    || !self.watchlist.document.excluded@.contains_key(key)
            },
            _ => request.mutates(),
        }
    }

    /// `r` is the plan for a request, or why there is none.
    pub open spec fn is_answer(
        self,
        request: ControlRequest,
        expected: Option<u64>,
        now: Timestamp,
        r: Result<Plan, ControlError>,
    ) -> bool {
        match r {
            Ok(plan) => {
                &&& request.mutates() ==> !self.conflicts(expected)
                &&& plan.change is Some <==> self.changes(request)
                &&& self.is_plan(request, now, plan)
            },
            Err(error) => self.is_refused(request, expected, error),
        }
    }

    /// Plans the answer to a request. Nothing changes yet, and a request that changes something is
    /// refused where its client is not up to date.
    pub fn plan(&self, request: ControlRequest, expected: Option<u64>, now: Timestamp) -> (r: Result<
        Plan,
        ControlError,
    >)
        ensures
            self.is_answer(request, expected, now, r),
    {
        let checked = self.check_revision(expected);
        match request {
            ControlRequest::Ping => Ok(Plan { reply: Reply::Pong, change: None }),
            ControlRequest::Snapshot => Ok(
                Plan { reply: Reply::Snapshot(self.snapshot(now)), change: None },
            ),
            ControlRequest::ListSessions => Ok(
                Plan { reply: Reply::Sessions(self.watchlist.list()), change: None },
            ),
            ControlRequest::AddSession(add) => {
                match checked {
                    Err(error) => {
                        return Err(error);
                    },
                    Ok(()) => {},
                }
                if add.validate {
                    return Err(ControlError::NeedsValidation);
                }
                let target = WatchTarget {
                    source: TrackingSource::Manual,
                    provider: add.session.provider,
                    session_id: add.session.session_id,
                    label: add.label,
                    title: None,
                    added_at: now,
                    last_activity_at: None,
                };
                let mut store = WatchlistStore {
                    path: self.watchlist.path.clone(),
                    document: self.watchlist.document.clone(),
                };
                let added = store.add(target.clone());
                Ok(
                    Plan {
                        reply: Reply::Added { added, target },
                        change: Some(Change::Watchlist(store.document)),
                    },
                )
            },
            ControlRequest::RemoveSession(session) => {
                match checked {
                    Err(error) => {
                        return Err(error);
                    },
                    Ok(()) => {},
                }
                let key = models::make_key(session.provider.as_str(), session.session_id.as_str());
                let mut store = WatchlistStore {
                    path: self.watchlist.path.clone(),
                    document: self.watchlist.document.clone(),
                };
                let excluded = store.document.excluded.contains_key(key.as_str());
                let removed = store.remove(key.as_str());
                let change = if removed || !excluded {
                    Some(Change::Watchlist(store.document))
                } else {
                    None
                };
                Ok(Plan { reply: Reply::Removed(removed), change })
            },
            ControlRequest::ListPolicies => Ok(
                Plan { reply: Reply::Policies(self.settings.policies()), change: None },
            ),
            ControlRequest::SetPolicy(update) => {
                match checked {
                    Err(error) => {
                        return Err(error);
                    },
                    Ok(()) => {},
                }
                match set_policy(&self.settings, update) {
                    Err(error) => Err(error),
                    Ok(after) => Ok(
                        Plan {
                            reply: Reply::PolicyUpdated,
                            change: Some(Change::Settings(after)),
                        },
                    ),
                }
            },
            ControlRequest::ResetPolicies(condition) => {
                match checked {
                    Err(error) => {
                        return Err(error);
                    },
                    Ok(()) => {},
                }
                match reset_policies(&self.settings, condition) {
                    Err(error) => Err(error),
                    Ok(after) => Ok(
                        Plan {
                            reply: Reply::PoliciesReset,
                            change: Some(Change::Settings(after)),
                        },
                    ),
                }
            },
            ControlRequest::GetConfig => Ok(
                Plan { reply: Reply::Config(self.settings.clone()), change: None },
            ),
            ControlRequest::SetLifecycle(lifecycle) => {
                match checked {
                    Err(error) => {
                        return Err(error);
                    },
                    Ok(()) => {},
                }
                let mut after = self.settings.clone();
                after.lifecycle = lifecycle;
                match after.validate() {
                    Err(error) => {
                        assert(with_lifecycle(self.settings, lifecycle, after));
                        Err(ControlError::Invalid(error))
                    },
                    Ok(()) => Ok(
                        Plan {
                            reply: Reply::LifecycleUpdated,
                            change: Some(Change::Settings(after)),
                        },
                    ),
                }
            },
        }
    }

    /// Everything but the revision is the same.
    pub open spec fn same_but_revision(self, other: Self) -> bool {
        &&& self.settings == other.settings
        &&& self.watchlist == other.watchlist
        &&& self.attention_target_keys == other.attention_target_keys
        &&& self.metrics == other.metrics
        &&& self.last_sweep_at == other.last_sweep_at
        &&& self.config_modified == other.config_modified
        &&& self.control.path_view() == other.control.path_view()
    }

    /// Advances the revision before a change is stored, given whether the advanced revision could
    /// be stored itself.
    pub fn bump_revision(&mut self, stored: bool) -> (r: Option<u64>)
        ensures
            final(self).same_but_revision(*old(self)),
            stored ==> r == Some(control::following(old(self).revision_view())) && final(
                self).revision_view() == control::following(old(self).revision_view()),
            !stored ==> r is None && final(self).revision_view() == old(self).revision_view(),
    {
        self.control.next_revision(stored)
    }

    /// Makes a change, given whether it could be stored. Settings are stored only where they are
    /// valid.
    pub fn commit(&mut self, change: Change, stored: bool)
        ensures
            final(self).control == old(self).control,
            final(self).attention_target_keys == old(self).attention_target_keys,
            final(self).metrics == old(self).metrics,
            final(self).last_sweep_at == old(self).last_sweep_at,
            final(self).config_modified == old(self).config_modified,
            final(self).watchlist.path == old(self).watchlist.path,
            !stored ==> final(self).settings == old(self).settings && final(self).watchlist == old(
                self).watchlist,
            stored ==> match change {
                Change::Settings(settings) => final(self).settings == settings && final(
                    self).watchlist == old(self).watchlist,
                Change::Watchlist(document) => final(self).settings == old(self).settings && final(
                    self).watchlist.document == document,
            },
    {
        if stored {
            match change {
                Change::Settings(settings) => {
                    self.settings = settings;
                },
                Change::Watchlist(document) => {
                    self.watchlist.document = document;
                },
            }
        }
    }
}

/// What is wrong with a change, before it is stored.
pub fn check_change(change: &Change) -> (r: Result<(), ConfigError>)
    ensures
        match *change {
            Change::Settings(settings) => {
                &&& r is Ok <==> settings.valid()
                &&& r matches Err(error) ==> settings.refused_for(error)
            },
            Change::Watchlist(_) => r is Ok,
        },
{
    match change {
        Change::Settings(settings) => settings.validate(),
        Change::Watchlist(_) => Ok(()),
    }
}

/// Why a retry that a user asked for is not accepted.
#[derive(Clone, Copy, Debug, PartialEq, Eq, Structural)]
pub enum RetryNotPrepared {
    RevisionRequired,
    ShuttingDown,
    RevisionConflict { expected: u64, actual: u64 },
}

impl RetryNotPrepared {
    /// The error in words.
    pub open spec fn message_view(self) -> Seq<char> {
        match self {
            RetryNotPrepared::RevisionRequired =>
                "expected_revision is required for manual retry"@,
            RetryNotPrepared::ShuttingDown => "Watchcat is shutting down"@,
            RetryNotPrepared::RevisionConflict { expected, actual } =>
                "revision conflict: client has "@ + text::decimal_view(expected as nat)
                + ", server has "@ + text::decimal_view(actual as nat),
        }
    }

    /// The error in words.
    pub fn message(&self) -> (r: String)
        ensures
            r@ == self.message_view(),
    {
        match self {
            RetryNotPrepared::RevisionRequired =>
                "expected_revision is required for manual retry".to_owned(),
            RetryNotPrepared::ShuttingDown => "Watchcat is shutting down".to_owned(),
            RetryNotPrepared::RevisionConflict { expected, actual } =>
                "revision conflict: client has ".to_owned().concat(
                text::decimal(*expected).as_str(),
            ).concat(", server has ").concat(text::decimal(*actual).as_str()),
        }
    }
}

impl WatchcatDaemon {
    /// The generation in which a retry that a user asked for is planned: its client must say what
    /// revision it knows, and know the current one.
    pub fn prepare_retry(&self, expected: Option<u64>, shutting_down: bool) -> (r: Result<
        u64,
        RetryNotPrepared,
    >)
        ensures
            match r {
                Ok(generation) => expected == Some(generation) && !shutting_down && generation
                    == self.revision_view(),
                Err(RetryNotPrepared::RevisionRequired) => expected is None,
                Err(RetryNotPrepared::ShuttingDown) => expected is Some && shutting_down,
                Err(RetryNotPrepared::RevisionConflict { expected: wanted, actual }) => expected
                    == Some(wanted) && !shutting_down && actual == self.revision_view() && wanted
                    != actual,
            },
    {
        match expected {
            None => Err(RetryNotPrepared::RevisionRequired),
            Some(wanted) => {
                if shutting_down {
                    return Err(RetryNotPrepared::ShuttingDown);
                }
                let actual: u64 = self.control.revision();
                if wanted != actual {
                    return Err(RetryNotPrepared::RevisionConflict { expected: wanted, actual });
                }
                Ok(wanted)
            },
        }
    }
}

/// A request that changes something is refused where its client is not up to date: it gets no plan,
/// and is told both revisions.
pub proof fn stale_clients_change_nothing(
    daemon: WatchcatDaemon,
    request: ControlRequest,
    expected: u64,
    now: Timestamp,
    r: Result<Plan, ControlError>,
)
    requires
        request.mutates(),
        expected != daemon.revision_view(),
        daemon.is_answer(request, Some(expected), now, r),
    ensures
        r == Err::<Plan, ControlError>(
            ControlError::RevisionConflict { expected, actual: daemon.revision_view() },
        ),
{
}

} // verus!
