//! Settings: what they hold, when they are valid and which policy they give a condition.

use vstd::prelude::*;
use vstd::string::*;

use crate::conditions;
use crate::conditions::{ConditionDefinition, DEFAULT_PROMPT};
use crate::json;
use crate::json::Json;
use crate::models::{BackoffKind, PolicyAction};
use crate::os_permissions::rules::{DialogError, DialogSettings};
use crate::text;
use crate::textmap;
use crate::textmap::TextMap;

verus! {

/// The only schema version of the settings that is accepted.
pub const CONFIG_VERSION: u32 = 4;

/// The settings file that a new installation starts with.
pub const DEFAULT_CONFIG: &'static str = "# Watchcat configuration
version = 4

[engine]
poll_interval_seconds = 10
attempt_window_seconds = 3600
log_retention = 10000

[lifecycle]
stale_after_seconds = 259200
sweep_interval_seconds = 60
protect_unresolved_failures = false

[providers.codex]
enabled = true
command = [\"codex\", \"app-server\", \"--listen\", \"stdio://\"]

";

/// When sessions leave the watchlist.
#[derive(Clone, Copy, Debug, PartialEq, Eq, Structural)]
pub struct LifecycleSettings {
    pub stale_after_seconds: i64,
    pub sweep_interval_seconds: u64,
    pub protect_unresolved_failures: bool,
}

impl Default for LifecycleSettings {
    fn default() -> (r: Self)
        ensures
            r.stale_after_seconds == 259_200,
            r.sweep_interval_seconds == 60,
            !r.protect_unresolved_failures,
    {
        LifecycleSettings {
            stale_after_seconds: 259_200,
            sweep_interval_seconds: 60,
            protect_unresolved_failures: false,
        }
    }
}

/// How the engine paces itself.
#[derive(Clone, Copy, Debug, PartialEq, Eq, Structural)]
pub struct EngineSettings {
    pub poll_interval_seconds: u64,
    pub attempt_window_seconds: i64,
    pub log_retention: usize,
}

impl Default for EngineSettings {
    fn default() -> (r: Self)
        ensures
            r.poll_interval_seconds == 10,
            r.attempt_window_seconds == 3_600,
            r.log_retention == 10_000,
    {
        EngineSettings {
            poll_interval_seconds: 10,
            attempt_window_seconds: 3_600,
            log_retention: 10_000,
        }
    }
}

/// How the Codex provider is run.
#[derive(Debug)]
pub struct CodexSettings {
    pub enabled: bool,
    pub command: Vec<String>,
}

/// The command that runs the Codex provider unless another is set.
pub open spec fn default_command() -> Seq<Seq<char>> {
    seq!["codex"@, "app-server"@, "--listen"@, "stdio://"@]
}

impl Default for CodexSettings {
    fn default() -> (r: Self)
        ensures
            r.enabled,
            text::views(r.command@) == default_command(),
    {
        let mut command: Vec<String> = Vec::new();
        command.push("codex".to_owned());
        command.push("app-server".to_owned());
        command.push("--listen".to_owned());
        command.push("stdio://".to_owned());
        assert(text::views(command@) =~= default_command());
        CodexSettings { enabled: true, command }
    }
}

impl Clone for CodexSettings {
    fn clone(&self) -> (r: Self)
        ensures
            r.enabled == self.enabled,
            r.command@ == self.command@,
    {
        let command = self.command.clone();
        assert(command@ =~= self.command@);
        CodexSettings { enabled: self.enabled, command }
    }
}

/// Whether the provider that keeps its sessions as transcripts is read.
#[derive(Clone, Copy, Debug, PartialEq, Eq, Structural)]
pub struct ClaudeSettings {
    pub enabled: bool,
}

impl Default for ClaudeSettings {
    fn default() -> (r: Self)
        ensures
            r.enabled,
    {
        ClaudeSettings { enabled: true }
    }
}

/// The settings of every provider.
#[derive(Debug)]
pub struct ProviderSettings {
    pub codex: CodexSettings,
    pub claude: ClaudeSettings,
}

impl Default for ProviderSettings {
    fn default() -> (r: Self)
        ensures
            r.codex.enabled,
            text::views(r.codex.command@) == default_command(),
            r.claude.enabled,
    {
        ProviderSettings { codex: CodexSettings::default(), claude: ClaudeSettings::default() }
    }
}

impl Clone for ProviderSettings {
    fn clone(&self) -> (r: Self)
        ensures
            r.codex.enabled == self.codex.enabled,
            r.codex.command@ == self.codex.command@,
            r.claude == self.claude,
    {
        ProviderSettings { codex: self.codex.clone(), claude: self.claude }
    }
}

/// What a user sets of a condition's policy; what is absent stays at its default.
#[derive(Debug)]
pub struct PolicyOverride {
    pub action: Option<PolicyAction>,
    pub backoff: Option<BackoffKind>,
    pub initial_delay_seconds: Option<u64>,
    pub max_delay_seconds: Option<u64>,
    pub max_attempts: Option<usize>,
    pub prompt: Option<String>,
}

/// An override that sets nothing.
pub open spec fn no_override() -> PolicyOverride {
    PolicyOverride {
        action: None,
        backoff: None,
        initial_delay_seconds: None,
        max_delay_seconds: None,
        max_attempts: None,
        prompt: None,
    }
}

impl Default for PolicyOverride {
    fn default() -> (r: Self)
        ensures
            r == no_override(),
    {
        PolicyOverride {
            action: None,
            backoff: None,
            initial_delay_seconds: None,
            max_delay_seconds: None,
            max_attempts: None,
            prompt: None,
        }
    }
}

impl Clone for PolicyOverride {
    fn clone(&self) -> (r: Self)
        ensures
            r == *self,
    {
        PolicyOverride {
            action: self.action,
            backoff: self.backoff,
            initial_delay_seconds: self.initial_delay_seconds,
            max_delay_seconds: self.max_delay_seconds,
            max_attempts: self.max_attempts,
            prompt: self.prompt.clone(),
        }
    }
}

/// The policy of a condition with nothing left to default.
#[derive(Debug)]
pub struct ResolvedPolicy {
    pub condition: String,
    pub description: String,
    pub action: PolicyAction,
    pub backoff: Option<BackoffKind>,
    pub initial_delay_seconds: u64,
    pub max_delay_seconds: u64,
    pub max_attempts: usize,
    pub prompt: String,
    pub customized: bool,
}

/// All settings.
#[derive(Debug)]
pub struct Settings {
    pub version: u32,
    pub engine: EngineSettings,
    pub lifecycle: LifecycleSettings,
    pub providers: ProviderSettings,
    pub policies: TextMap<PolicyOverride>,
    pub dialogs: DialogSettings,
}

/// The definition whose defaults a condition has: its own, or that of the unknown failure.
pub open spec fn fallback(condition: Seq<char>) -> ConditionDefinition {
    if conditions::known(condition) {
        conditions::definition_of(condition)
    } else {
        conditions::definition_of("failure.unknown"@)
    }
}

/// The definition whose retry defaults a condition gets that is skipped by default.
pub open spec fn retry_defaults() -> ConditionDefinition {
    conditions::definition_of("network.connection_failed"@)
}

/// What is done about a condition.
pub open spec fn resolved_action(
    custom: Option<PolicyOverride>,
    condition: Seq<char>,
) -> PolicyAction {
    match custom {
        Some(policy) => match policy.action {
            Some(action) => action,
            None => fallback(condition).action,
        },
        None => fallback(condition).action,
    }
}

/// How the delay of a condition grows.
pub open spec fn resolved_backoff(
    custom: Option<PolicyOverride>,
    condition: Seq<char>,
) -> Option<BackoffKind> {
    if resolved_action(custom, condition) == PolicyAction::Skip {
        None
    } else if custom is Some && custom->0.backoff is Some {
        custom->0.backoff
    } else if fallback(condition).backoff is Some {
        fallback(condition).backoff
    } else {
        Some(BackoffKind::Exponential)
    }
}

/// A default of a retried condition: its own, or the general one where it has none.
pub open spec fn retry_default(own: int, general: int) -> int {
    if own > 0 {
        own
    } else {
        general
    }
}

/// The first delay of a condition.
pub open spec fn resolved_initial_delay(custom: Option<PolicyOverride>, condition: Seq<char>) -> int {
    if custom is Some && custom->0.initial_delay_seconds is Some {
        custom->0.initial_delay_seconds->0 as int
    } else if resolved_action(custom, condition) == PolicyAction::Retry {
        retry_default(
            fallback(condition).initial_delay_seconds as int,
            retry_defaults().initial_delay_seconds as int,
        )
    } else {
        0
    }
}

/// The greatest delay of a condition.
pub open spec fn resolved_max_delay(custom: Option<PolicyOverride>, condition: Seq<char>) -> int {
    if custom is Some && custom->0.max_delay_seconds is Some {
        custom->0.max_delay_seconds->0 as int
    } else if resolved_action(custom, condition) == PolicyAction::Retry {
        retry_default(
            fallback(condition).max_delay_seconds as int,
            retry_defaults().max_delay_seconds as int,
        )
    } else {
        0
    }
}

/// The most attempts at a condition.
pub open spec fn resolved_max_attempts(custom: Option<PolicyOverride>, condition: Seq<char>) -> int {
    if custom is Some && custom->0.max_attempts is Some {
        custom->0.max_attempts->0 as int
    } else if resolved_action(custom, condition) == PolicyAction::Retry {
        retry_default(
            fallback(condition).max_attempts as int,
            retry_defaults().max_attempts as int,
        )
    } else {
        0
    }
}

/// The prompt that a recovery of a condition sends.
pub open spec fn resolved_prompt(custom: Option<PolicyOverride>, condition: Seq<char>) -> Seq<char> {
    if resolved_action(custom, condition) == PolicyAction::Skip {
        Seq::empty()
    } else if custom is Some && custom->0.prompt is Some {
        custom->0.prompt->0@
    } else {
        DEFAULT_PROMPT@
    }
}

/// `policy` is what an override of `condition`, or none, comes to.
pub open spec fn is_resolution(
    policy: ResolvedPolicy,
    custom: Option<PolicyOverride>,
    condition: Seq<char>,
) -> bool {
    &&& policy.condition@ == condition
    &&& policy.description@ == fallback(condition).description@
    &&& policy.action == resolved_action(custom, condition)
    &&& policy.backoff == resolved_backoff(custom, condition)
    &&& policy.initial_delay_seconds == resolved_initial_delay(custom, condition)
    &&& policy.max_delay_seconds == resolved_max_delay(custom, condition)
    &&& policy.max_attempts == resolved_max_attempts(custom, condition)
    &&& policy.prompt@ == resolved_prompt(custom, condition)
    &&& policy.customized == custom is Some
}

/// The definitions that every policy can fall back on are known.
pub proof fn lemma_fallbacks_are_known()
    ensures
        conditions::known("failure.unknown"@),
        conditions::known("network.connection_failed"@),
        retry_defaults() == conditions::known_conditions()[0],
        conditions::definition_of("failure.unknown"@) == conditions::known_conditions()[23],
{
    let all = conditions::known_conditions();
    assert(all[23].name@ == "failure.unknown"@);
    assert(all[0].name@ == "network.connection_failed"@);
    let i = choose|i: int| 0 <= i < all.len() && (#[trigger] all[i]).name@ == "failure.unknown"@;
    conditions::condition_names_are_unique(i, 23);
    let j = choose|j: int|
        0 <= j < all.len() && (#[trigger] all[j]).name@ == "network.connection_failed"@;
    conditions::condition_names_are_unique(j, 0);
}

/// A failure of no known condition is skipped, unless a policy of its own says otherwise; and so is
/// one of the unknown failure's condition.
pub proof fn unknown_failures_skip(custom: Option<PolicyOverride>, condition: Seq<char>)
    requires
        !conditions::known(condition) || condition == "failure.unknown"@,
        custom is None || custom->0.action is None,
    ensures
        resolved_action(custom, condition) == PolicyAction::Skip,
        resolved_backoff(custom, condition) is None,
{
    lemma_fallbacks_are_known();
}

/// What can be wrong with an override.
#[derive(Clone, Copy, Debug, PartialEq, Eq, Structural)]
pub enum PolicyProblem {
    UnknownCondition,
    EmptyPrompt,
    NotPositive,
    DelaysReversed,
    RetryFieldsOnSkip,
}

/// What is wrong with an override, taking the checks in order.
pub open spec fn override_problem(policy: PolicyOverride) -> Option<PolicyProblem> {
    if policy.prompt is Some && text::blank(policy.prompt->0@) {
        Some(PolicyProblem::EmptyPrompt)
    } else if policy.initial_delay_seconds == Some(0u64) || policy.max_delay_seconds == Some(0u64)
        || policy.max_attempts == Some(0usize) {
        Some(PolicyProblem::NotPositive)
    } else if policy.initial_delay_seconds is Some && policy.max_delay_seconds is Some
        && policy.max_delay_seconds->0 < policy.initial_delay_seconds->0 {
        Some(PolicyProblem::DelaysReversed)
    } else if policy.action == Some(PolicyAction::Skip) && (policy.backoff is Some
        || policy.initial_delay_seconds is Some || policy.max_delay_seconds is Some
        || policy.max_attempts is Some) {
        Some(PolicyProblem::RetryFieldsOnSkip)
    } else {
        None
    }
}

/// What is wrong with the override of `condition`.
pub open spec fn policy_problem(
    condition: Seq<char>,
    policy: PolicyOverride,
) -> Option<PolicyProblem> {
    if !conditions::known(condition) {
        Some(PolicyProblem::UnknownCondition)
    } else {
        override_problem(policy)
    }
}

/// Checks an override by itself.
pub fn validate_override(policy: &PolicyOverride) -> (r: Option<PolicyProblem>)
    ensures
        r == override_problem(*policy),
{
    match &policy.prompt {
        Some(prompt) => if text::is_blank(prompt.as_str()) {
            return Some(PolicyProblem::EmptyPrompt);
        },
        None => {},
    }
    let zero_initial = match policy.initial_delay_seconds {
        Some(delay) => delay == 0,
        None => false,
    };
    let zero_maximum = match policy.max_delay_seconds {
        Some(delay) => delay == 0,
        None => false,
    };
    let zero_attempts = match policy.max_attempts {
        Some(attempts) => attempts == 0,
        None => false,
    };
    if zero_initial || zero_maximum || zero_attempts {
        return Some(PolicyProblem::NotPositive);
    }
    match (policy.initial_delay_seconds, policy.max_delay_seconds) {
        (Some(initial), Some(maximum)) => if maximum < initial {
            return Some(PolicyProblem::DelaysReversed);
        },
        _ => {},
    }
    let skips = match policy.action {
        Some(action) => action == PolicyAction::Skip,
        None => false,
    };
    if skips && (policy.backoff.is_some() || policy.initial_delay_seconds.is_some()
        || policy.max_delay_seconds.is_some() || policy.max_attempts.is_some()) {
        return Some(PolicyProblem::RetryFieldsOnSkip);
    }
    None
}

/// A command can be run: it has parts and none is empty.
pub open spec fn runnable(command: Seq<String>) -> bool {
    command.len() > 0 && forall|i: int| 0 <= i < command.len() ==> (#[trigger] command[i])@.len() > 0
}

/// Checks the command of a provider; that of a disabled one may be anything.
pub fn validate_command(enabled: bool, command: &Vec<String>) -> (r: bool)
    ensures
        r == (!enabled || runnable(command@)),
{
    if !enabled {
        return true;
    }
    let mut i: usize = 0;
    while i < command.len()
        invariant
            i <= command@.len(),
            enabled,
            forall|k: int| 0 <= k < i ==> (#[trigger] command@[k])@.len() > 0,
        decreases command@.len() - i,
    {
        if command[i].as_str().is_empty() {
            assert(command@[i as int]@.len() == 0);
            return false;
        }
        i += 1;
    }
    command.len() > 0
}

/// Why settings are refused.
#[derive(Debug)]
pub enum ConfigError {
    Unversioned,
    UnsupportedVersion(i64),
    EngineNotPositive,
    LifecycleNotPositive,
    EmptyCommand,
    Policy(String, PolicyProblem),
    UnusableRetry(String),
    Dialogs(DialogError),
    AlreadyExists(String),
}

/// A number in decimal, with a minus sign where it is negative.
pub open spec fn signed_view(n: int) -> Seq<char> {
    if n < 0 {
        "-"@ + text::decimal_view((-n) as nat)
    } else {
        text::decimal_view(n as nat)
    }
}

fn signed(n: i64) -> (r: String)
    ensures
        r@ == signed_view(n as int),
{
    if n < 0 {
        let magnitude: u64 = (-(n as i128)) as u64;
        "-".to_owned().concat(text::decimal(magnitude).as_str())
    } else {
        text::decimal(n as u64)
    }
}

impl ConfigError {
    /// The error in words.
    pub open spec fn message_view(self) -> Seq<char> {
        match self {
            ConfigError::Unversioned =>
                "configuration has no version; this release supports version 4"@,
            ConfigError::UnsupportedVersion(version) => "unsupported config version "@
                + signed_view(version as int) + "; this release supports version 4"@,
            ConfigError::EngineNotPositive => "engine settings must be positive"@,
            ConfigError::LifecycleNotPositive => "lifecycle settings must be positive"@,
            ConfigError::EmptyCommand =>
                "providers.codex.command must be a non-empty array of strings"@,
            ConfigError::Policy(condition, PolicyProblem::UnknownCondition) =>
                "unknown policy condition: "@ + condition@,
            ConfigError::Policy(condition, PolicyProblem::EmptyPrompt) => "policy "@ + condition@
                + " prompt cannot be empty"@,
            ConfigError::Policy(condition, PolicyProblem::NotPositive) => "policy "@ + condition@
                + " retry settings must be positive"@,
            ConfigError::Policy(condition, PolicyProblem::DelaysReversed) => "policy "@ + condition@
                + " max_delay_seconds cannot be less than initial_delay_seconds"@,
            ConfigError::Policy(condition, PolicyProblem::RetryFieldsOnSkip) => "policy "@
                + condition@ + " cannot set retry fields when action is skip"@,
            ConfigError::UnusableRetry(condition) => "policy "@ + condition@
                + " has invalid resolved retry settings"@,
            ConfigError::Dialogs(error) => error.message_view(),
            ConfigError::AlreadyExists(path) => "configuration already exists: "@ + path@,
        }
    }

    /// The error in words.
    pub fn message(&self) -> (r: String)
        ensures
            r@ == self.message_view(),
    {
        match self {
            ConfigError::Unversioned =>
                "configuration has no version; this release supports version 4".to_owned(),
            ConfigError::UnsupportedVersion(version) => "unsupported config version ".to_owned(

            ).concat(signed(*version).as_str()).concat("; this release supports version 4"),
            ConfigError::EngineNotPositive => "engine settings must be positive".to_owned(),
            ConfigError::LifecycleNotPositive => "lifecycle settings must be positive".to_owned(),
            ConfigError::EmptyCommand =>
                "providers.codex.command must be a non-empty array of strings".to_owned(),
            ConfigError::Policy(condition, problem) => match problem {
                PolicyProblem::UnknownCondition => "unknown policy condition: ".to_owned().concat(
                    condition.as_str(),
                ),
                PolicyProblem::EmptyPrompt => "policy ".to_owned().concat(
                    condition.as_str(),
                ).concat(" prompt cannot be empty"),
                PolicyProblem::NotPositive => "policy ".to_owned().concat(
                    condition.as_str(),
                ).concat(" retry settings must be positive"),
                PolicyProblem::DelaysReversed => "policy ".to_owned().concat(
                    condition.as_str(),
                ).concat(" max_delay_seconds cannot be less than initial_delay_seconds"),
                PolicyProblem::RetryFieldsOnSkip => "policy ".to_owned().concat(
                    condition.as_str(),
                ).concat(" cannot set retry fields when action is skip"),
            },
            ConfigError::UnusableRetry(condition) => "policy ".to_owned().concat(
                condition.as_str(),
            ).concat(" has invalid resolved retry settings"),
            ConfigError::Dialogs(error) => error.message(),
            ConfigError::AlreadyExists(path) => "configuration already exists: ".to_owned().concat(
                path.as_str(),
            ),
        }
    }
}

impl Default for Settings {
    fn default() -> (r: Self)
        ensures
            r.version == CONFIG_VERSION,
            r.engine.poll_interval_seconds == 10,
            r.engine.attempt_window_seconds == 3_600,
            r.engine.log_retention == 10_000,
            r.lifecycle.stale_after_seconds == 259_200,
            r.lifecycle.sweep_interval_seconds == 60,
            !r.lifecycle.protect_unresolved_failures,
            r.providers.codex.enabled,
            text::views(r.providers.codex.command@) == default_command(),
            r.providers.claude.enabled,
            r.policies@ == Map::<Seq<char>, PolicyOverride>::empty(),
            r.dialogs.by_default(),
            r.valid(),
    {
        let r = Settings {
            version: CONFIG_VERSION,
            engine: EngineSettings::default(),
            lifecycle: LifecycleSettings::default(),
            providers: ProviderSettings::default(),
            policies: TextMap::new(),
            dialogs: DialogSettings::default(),
        };
        proof {
            lemma_default_command_is_runnable(r.providers.codex.command@);
            assert forall|i: int| 0 <= i < conditions::known_conditions().len() implies r.retry_usable(
                (#[trigger] conditions::known_conditions()[i]).name@,
            ) by {
                lemma_definition_of_known(i);
                conditions::condition_defaults_are_valid(i);
            }
        }
        r
    }
}

/// Two settings hold the same.
pub open spec fn same_settings(a: Settings, b: Settings) -> bool {
    &&& a.version == b.version
    &&& a.engine == b.engine
    &&& a.lifecycle == b.lifecycle
    &&& a.providers.codex.enabled == b.providers.codex.enabled
    &&& a.providers.codex.command@ == b.providers.codex.command@
    &&& a.providers.claude == b.providers.claude
    &&& a.policies.entries() == b.policies.entries()
    &&& a.policies@ == b.policies@
    &&& a.dialogs.rules.entries() == b.dialogs.rules.entries()
    &&& a.dialogs.rules@ == b.dialogs.rules@
}

impl Clone for Settings {
    fn clone(&self) -> (r: Self)
        ensures
            same_settings(r, *self),
    {
        let policies = self.policies.clone();
        assert(policies.entries() =~= self.policies.entries());
        Settings {
            version: self.version,
            engine: self.engine,
            lifecycle: self.lifecycle,
            providers: self.providers.clone(),
            policies,
            dialogs: self.dialogs.clone(),
        }
    }
}

/// A known condition is the definition of its name.
pub proof fn lemma_definition_of_known(i: int)
    requires
        0 <= i < conditions::known_conditions().len(),
    ensures
        ({
            let definition = conditions::known_conditions()[i];
            conditions::known(definition.name@) && conditions::definition_of(definition.name@)
                == definition && fallback(definition.name@) == definition
        }),
{
    let all = conditions::known_conditions();
    assert(all[i].name@ == all[i].name@);
    let j = choose|j: int| 0 <= j < all.len() && (#[trigger] all[j]).name@ == all[i].name@;
    conditions::condition_names_are_unique(i, j);
}

proof fn lemma_default_command_is_runnable(command: Seq<String>)
    requires
        text::views(command) == default_command(),
    ensures
        runnable(command),
{
    reveal_strlit("codex");
    reveal_strlit("app-server");
    reveal_strlit("--listen");
    reveal_strlit("stdio://");
    assert(command.len() == text::views(command).len());
    assert forall|i: int| 0 <= i < command.len() implies (#[trigger] command[i])@.len() > 0 by {
        assert(text::views(command)[i] == command[i]@);
        assert(default_command()[i].len() > 0);
    }
}

impl Settings {
    /// The override of a condition, if there is one.
    pub open spec fn custom(self, condition: Seq<char>) -> Option<PolicyOverride> {
        if self.policies@.contains_key(condition) {
            Some(self.policies@[condition])
        } else {
            None
        }
    }

    /// The engine's settings are usable.
    pub open spec fn engine_valid(self) -> bool {
        &&& self.engine.poll_interval_seconds > 0
        &&& self.engine.attempt_window_seconds > 0
        &&& self.engine.log_retention > 0
    }

    /// The lifecycle's settings are usable.
    pub open spec fn lifecycle_valid(self) -> bool {
        self.lifecycle.stale_after_seconds > 0 && self.lifecycle.sweep_interval_seconds > 0
    }

    /// The Codex command is usable, where it is needed.
    pub open spec fn command_valid(self) -> bool {
        !self.providers.codex.enabled || runnable(self.providers.codex.command@)
    }

    /// No override has a problem.
    pub open spec fn overrides_valid(self) -> bool {
        forall|condition: Seq<char>| #[trigger]
            self.policies@.contains_key(condition) ==> policy_problem(
                condition,
                self.policies@[condition],
            ) is None
    }

    /// The override at `index` is the first with a problem, and `problem` is it.
    pub open spec fn first_policy_problem(self, index: int, problem: PolicyProblem) -> bool {
        let entries = self.policies.entries();
        &&& 0 <= index < entries.len()
        &&& policy_problem(entries[index].0@, entries[index].1) == Some(problem)
        &&& forall|k: int|
            0 <= k < index ==> policy_problem((#[trigger] entries[k]).0@, entries[k].1) is None
    }

    /// Where the condition is retried, it can be: after a delay, within its maximum, at least once.
    pub open spec fn retry_usable(self, condition: Seq<char>) -> bool {
        let custom = self.custom(condition);
        resolved_action(custom, condition) == PolicyAction::Retry ==> {
            &&& resolved_initial_delay(custom, condition) > 0
            &&& resolved_max_delay(custom, condition) >= resolved_initial_delay(custom, condition)
            &&& resolved_max_attempts(custom, condition) > 0
        }
    }

    /// Every known condition that is retried can be.
    pub open spec fn retries_usable(self) -> bool {
        forall|i: int|
            0 <= i < conditions::known_conditions().len() ==> self.retry_usable(
                (#[trigger] conditions::known_conditions()[i]).name@,
            )
    }

    /// The known condition at `index` is the first that is retried and cannot be.
    pub open spec fn first_unusable(self, index: int) -> bool {
        &&& 0 <= index < conditions::known_conditions().len()
        &&& !self.retry_usable(conditions::known_conditions()[index].name@)
        &&& forall|k: int|
            0 <= k < index ==> self.retry_usable((#[trigger] conditions::known_conditions()[k]).name@)
    }

    /// The settings can be used.
    pub open spec fn valid(self) -> bool {
        &&& self.version == CONFIG_VERSION
        &&& self.engine_valid()
        &&& self.lifecycle_valid()
        &&& self.command_valid()
        &&& self.overrides_valid()
        &&& self.retries_usable()
        &&& self.dialogs.valid()
    }

    /// `error` is the first thing that is wrong with the settings.
    pub open spec fn refused_for(self, error: ConfigError) -> bool {
        match error {
            ConfigError::UnsupportedVersion(version) => self.version != CONFIG_VERSION && version
                == self.version,
            ConfigError::EngineNotPositive => self.version == CONFIG_VERSION
                && !self.engine_valid(),
            ConfigError::LifecycleNotPositive => self.version == CONFIG_VERSION
                && self.engine_valid() && !self.lifecycle_valid(),
            ConfigError::EmptyCommand => self.version == CONFIG_VERSION && self.engine_valid()
                && self.lifecycle_valid() && !self.command_valid(),
            ConfigError::Policy(condition, problem) => {
                &&& self.version == CONFIG_VERSION && self.engine_valid() && self.lifecycle_valid()
                    && self.command_valid()
                &&& exists|i: int| #[trigger]
                    self.first_policy_problem(i, problem) && self.policies.entries()[i].0@
                        == condition@
            },
            ConfigError::UnusableRetry(condition) => {
                &&& self.version == CONFIG_VERSION && self.engine_valid() && self.lifecycle_valid()
                    && self.command_valid() && self.overrides_valid()
                &&& exists|i: int| #[trigger]
                    self.first_unusable(i) && conditions::known_conditions()[i].name@ == condition@
            },
            ConfigError::Dialogs(error) => {
                &&& self.version == CONFIG_VERSION && self.engine_valid() && self.lifecycle_valid()
                    && self.command_valid() && self.overrides_valid() && self.retries_usable()
                &&& !self.dialogs.valid() && self.dialogs.refused_for(error)
            },
            _ => false,
        }
    }

    /// Checks the settings, one group after the other.
    pub fn validate(&self) -> (r: Result<(), ConfigError>)
        ensures
            r is Ok <==> self.valid(),
            r matches Err(error) ==> self.refused_for(error),
    {
        if self.version != CONFIG_VERSION {
            return Err(ConfigError::UnsupportedVersion(self.version as i64));
        }
        if self.engine.poll_interval_seconds == 0 || self.engine.attempt_window_seconds <= 0
            || self.engine.log_retention == 0 {
            return Err(ConfigError::EngineNotPositive);
        }
        if self.lifecycle.stale_after_seconds <= 0 || self.lifecycle.sweep_interval_seconds == 0 {
            return Err(ConfigError::LifecycleNotPositive);
        }
        if !validate_command(self.providers.codex.enabled, &self.providers.codex.command) {
            return Err(ConfigError::EmptyCommand);
        }
        match self.check_overrides() {
            Err(error) => {
                return Err(error);
            },
            Ok(()) => {},
        }
        match self.check_retries() {
            Err(error) => {
                return Err(error);
            },
            Ok(()) => {},
        }
        match self.dialogs.validate() {
            Err(error) => Err(ConfigError::Dialogs(error)),
            Ok(()) => Ok(()),
        }
    }

    fn check_overrides(&self) -> (r: Result<(), ConfigError>)
        ensures
            r is Ok <==> self.overrides_valid(),
            match r {
                Ok(()) => true,
                Err(ConfigError::Policy(condition, problem)) => exists|i: int| #[trigger]
                    self.first_policy_problem(i, problem) && self.policies.entries()[i].0@
                        == condition@,
                Err(_) => false,
            },
    {
        let count: usize = self.policies.len();
        let ghost entries = self.policies.entries();
        let mut i: usize = 0;
        while i < count
            invariant
                i <= count,
                count == entries.len(),
                entries == self.policies.entries(),
                textmap::ordered(entries),
                self.policies@ == textmap::map_of(entries),
                forall|k: int|
                    0 <= k < i ==> policy_problem((#[trigger] entries[k]).0@, entries[k].1) is None,
            decreases count - i,
        {
            let condition = self.policies.key_at(i);
            let problem = if !conditions::is_known(condition.as_str()) {
                Some(PolicyProblem::UnknownCondition)
            } else {
                validate_override(self.policies.value_at(i))
            };
            match problem {
                Some(problem) => {
                    proof {
                        assert(self.first_policy_problem(i as int, problem));
                        textmap::lemma_key_is_unique(entries, i as int);
                        assert(self.policies@.contains_key(entries[i as int].0@));
                    }
                    return Err(ConfigError::Policy(condition.clone(), problem));
                },
                None => {},
            }
            i += 1;
        }
        proof {
            assert forall|condition: Seq<char>| #[trigger]
                self.policies@.contains_key(condition) implies policy_problem(
                condition,
                self.policies@[condition],
            ) is None by {
                let k = textmap::key_index(entries, condition);
                assert(entries[k].0@ == condition);
                textmap::lemma_key_is_unique(entries, k);
            }
        }
        Ok(())
    }

    fn check_retries(&self) -> (r: Result<(), ConfigError>)
        ensures
            r is Ok <==> self.retries_usable(),
            match r {
                Ok(()) => true,
                Err(ConfigError::UnusableRetry(condition)) => exists|i: int| #[trigger]
                    self.first_unusable(i) && conditions::known_conditions()[i].name@ == condition@,
                Err(_) => false,
            },
    {
        let all = conditions::conditions();
        let mut i: usize = 0;
        while i < all.len()
            invariant
                i <= all@.len(),
                all@ == conditions::known_conditions(),
                forall|k: int|
                    0 <= k < i ==> self.retry_usable(
                        (#[trigger] conditions::known_conditions()[k]).name@,
                    ),
            decreases all@.len() - i,
        {
            let name: &str = all[i].name;
            let policy = self.policy(name);
            if policy.action == PolicyAction::Retry && (policy.initial_delay_seconds == 0
                || policy.max_delay_seconds < policy.initial_delay_seconds || policy.max_attempts
                == 0) {
                assert(self.first_unusable(i as int));
                return Err(ConfigError::UnusableRetry(name.to_owned()));
            }
            i += 1;
        }
        Ok(())
    }

    /// The policy of a condition. An unknown condition has that of the unknown failure.
    pub fn policy(&self, condition: &str) -> (r: ResolvedPolicy)
        ensures
            is_resolution(r, self.custom(condition@), condition@),
    {
        proof {
            lemma_fallbacks_are_known();
        }
        let base = match conditions::definition(condition) {
            Some(found) => found,
            None => conditions::definition("failure.unknown").unwrap(),
        };
        let general = conditions::definition("network.connection_failed").unwrap();
        let unset = PolicyOverride::default();
        let (custom, customized): (&PolicyOverride, bool) = match self.policies.get(condition) {
            Some(policy) => (policy, true),
            None => (&unset, false),
        };
        let action = match custom.action {
            Some(action) => action,
            None => base.action,
        };
        let retries = action == PolicyAction::Retry;
        let backoff = if !retries {
            None
        } else {
            match custom.backoff {
                Some(kind) => Some(kind),
                None => match base.backoff {
                    Some(kind) => Some(kind),
                    None => Some(BackoffKind::Exponential),
                },
            }
        };
        let initial_delay_seconds: u64 = match custom.initial_delay_seconds {
            Some(delay) => delay,
            None => if !retries {
                0
            } else if base.initial_delay_seconds > 0 {
                base.initial_delay_seconds
            } else {
                general.initial_delay_seconds
            },
        };
        let max_delay_seconds: u64 = match custom.max_delay_seconds {
            Some(delay) => delay,
            None => if !retries {
                0
            } else if base.max_delay_seconds > 0 {
                base.max_delay_seconds
            } else {
                general.max_delay_seconds
            },
        };
        let max_attempts: usize = match custom.max_attempts {
            Some(attempts) => attempts,
            None => if !retries {
                0
            } else if base.max_attempts > 0 {
                base.max_attempts
            } else {
                general.max_attempts
            },
        };
        let prompt = if !retries {
            String::new()
        } else {
            match &custom.prompt {
                Some(prompt) => prompt.clone(),
                None => DEFAULT_PROMPT.to_owned(),
            }
        };
        ResolvedPolicy {
            condition: condition.to_owned(),
            description: base.description.to_owned(),
            action,
            backoff,
            initial_delay_seconds,
            max_delay_seconds,
            max_attempts,
            prompt,
            customized,
        }
    }

    /// The policies of all known conditions, in their order.
    pub fn policies(&self) -> (r: Vec<ResolvedPolicy>)
        ensures
            r@.len() == conditions::known_conditions().len(),
            forall|i: int|
                0 <= i < r@.len() ==> is_resolution(
                    #[trigger] r@[i],
                    self.custom(conditions::known_conditions()[i].name@),
                    conditions::known_conditions()[i].name@,
                ),
    {
        let all = conditions::conditions();
        let mut r: Vec<ResolvedPolicy> = Vec::new();
        let mut i: usize = 0;
        while i < all.len()
            invariant
                i <= all@.len(),
                all@ == conditions::known_conditions(),
                r@.len() == i,
                forall|k: int|
                    0 <= k < i ==> is_resolution(
                        #[trigger] r@[k],
                        self.custom(conditions::known_conditions()[k].name@),
                        conditions::known_conditions()[k].name@,
                    ),
            decreases all@.len() - i,
        {
            r.push(self.policy(all[i].name));
            i += 1;
        }
        r
    }
}

/// Settings hold a version field with the accepted version.
pub open spec fn version_accepted(version: Option<i64>) -> bool {
    version == Some(CONFIG_VERSION as i64)
}

/// Checks the version field of a settings document before anything else is read. No other version
/// is migrated.
pub fn check_version(version: Option<i64>) -> (r: Result<(), ConfigError>)
    ensures
        r is Ok <==> version_accepted(version),
        match r {
            Ok(()) => true,
            Err(ConfigError::Unversioned) => version is None,
            Err(ConfigError::UnsupportedVersion(found)) => version == Some(found),
            Err(_) => false,
        },
{
    match version {
        None => Err(ConfigError::Unversioned),
        Some(found) => if found == CONFIG_VERSION as i64 {
            Ok(())
        } else {
            Err(ConfigError::UnsupportedVersion(found))
        },
    }
}

/// The version field of a settings document, where it has one that is a whole number.
pub open spec fn version_in(document: Json) -> Option<i64> {
    match document.member("version"@) {
        Some(version) => version.signed(),
        None => None,
    }
}

/// Checks the version of a settings text before its fields are read. There is nothing to check
/// where the text is no TOML document.
pub fn check_document(text: &str) -> (r: Option<Result<(), ConfigError>>)
    ensures
        match json::toml_in(text@) {
            None => r is None,
            Some(document) => match r {
                None => false,
                Some(Ok(())) => version_accepted(version_in(document)),
                Some(Err(ConfigError::Unversioned)) => version_in(document) is None,
                Some(Err(ConfigError::UnsupportedVersion(found))) => version_in(document) == Some(
                    found,
                ) && !version_accepted(version_in(document)),
                Some(Err(_)) => false,
            },
        },
{
    match json::parse_toml(text) {
        None => None,
        Some(document) => Some(check_version(document_version(&document))),
    }
}

/// The version field of a settings document, where it has one that is a whole number.
pub fn document_version(document: &Json) -> (r: Option<i64>)
    ensures
        r == version_in(*document),
{
    match document.get("version") {
        Some(version) => version.as_i64(),
        None => None,
    }
}

/// What a new settings file at `path` is given, unless there is one that is not to be replaced.
pub fn initialize_config(path: &str, exists: bool, force: bool) -> (r: Result<
    &'static str,
    ConfigError,
>)
    ensures
        match r {
            Ok(content) => !(exists && !force) && content@ == DEFAULT_CONFIG@,
            Err(ConfigError::AlreadyExists(found)) => exists && !force && found@ == path@,
            Err(_) => false,
        },
{
    if exists && !force {
        Err(ConfigError::AlreadyExists(path.to_owned()))
    } else {
        Ok(DEFAULT_CONFIG)
    }
}

/// Two commands have the same parts.
fn same_command(a: &Vec<String>, b: &Vec<String>) -> (r: bool)
    ensures
        r == (text::views(a@) == text::views(b@)),
{
    assert(text::views(a@).len() == a@.len() && text::views(b@).len() == b@.len());
    if a.len() != b.len() {
        return false;
    }
    let mut i: usize = 0;
    while i < a.len()
        invariant
            i <= a@.len(),
            a@.len() == b@.len(),
            forall|k: int| 0 <= k < i ==> (#[trigger] a@[k])@ == b@[k]@,
        decreases a@.len() - i,
    {
        if !text::same(a[i].as_str(), b[i].as_str()) {
            assert(text::views(a@)[i as int] == a@[i as int]@);
            assert(text::views(b@)[i as int] == b@[i as int]@);
            return false;
        }
        i += 1;
    }
    assert(text::views(a@) =~= text::views(b@));
    true
}

/// Whether the Codex provider is run in the same way, so that it need not be closed and started
/// again.
pub fn same_codex(a: &CodexSettings, b: &CodexSettings) -> (r: bool)
    ensures
        r == (a.enabled == b.enabled && text::views(a.command@) == text::views(b.command@)),
{
    a.enabled == b.enabled && same_command(&a.command, &b.command)
}

/// How settings are shown.
#[derive(Clone, Copy, Debug, PartialEq, Eq, Structural)]
pub enum Display {
    /// The file that a new installation starts with.
    DefaultFile,
    /// The settings under a heading that calls them effective.
    Headed,
    /// The settings as they are.
    Plain,
}

impl Settings {
    /// Nothing but the policies, the dialogs and the reading of transcripts differs from the defaults.
    pub open spec fn runs_by_default(self) -> bool {
        &&& self.engine.poll_interval_seconds == 10
        &&& self.engine.attempt_window_seconds == 3_600
        &&& self.engine.log_retention == 10_000
        &&& self.lifecycle.stale_after_seconds == 259_200
        &&& self.lifecycle.sweep_interval_seconds == 60
        &&& !self.lifecycle.protect_unresolved_failures
        &&& self.providers.codex.enabled
        &&& text::views(self.providers.codex.command@) == default_command()
    }
}

/// How settings are shown: as the default file only where they are what it says, and under a
/// heading where overrides alone set them apart from it.
pub open spec fn display_of(settings: Settings) -> Display {
    let overridden = settings.policies@ != Map::<Seq<char>, PolicyOverride>::empty();
    if !overridden && settings.runs_by_default() && settings.providers.claude.enabled
        && settings.dialogs.by_default() {
        Display::DefaultFile
    } else if overridden && settings.runs_by_default() {
        Display::Headed
    } else {
        Display::Plain
    }
}

/// How the settings are shown.
pub fn display_settings(settings: &Settings) -> (r: Display)
    ensures
        r == display_of(*settings),
{
    let overridden = !settings.policies.is_empty();
    let engine = EngineSettings::default();
    let lifecycle = LifecycleSettings::default();
    let codex = CodexSettings::default();
    let runs_by_default = settings.engine == engine && settings.lifecycle == lifecycle
        && same_codex(&settings.providers.codex, &codex);
    if !overridden && runs_by_default && settings.providers.claude.enabled
        && settings.dialogs.is_default() {
        Display::DefaultFile
    } else if overridden && runs_by_default {
        Display::Headed
    } else {
        Display::Plain
    }
}

/// What is shown is what is in effect: the default file stands only for settings that hold what the
/// default ones hold.
pub proof fn the_default_file_is_shown_for_default_settings(
    settings: Settings,
    defaults: Settings,
)
    requires
        display_of(settings) == Display::DefaultFile,
        display_of(defaults) == Display::DefaultFile,
    ensures
        settings.engine == defaults.engine,
        settings.lifecycle == defaults.lifecycle,
        settings.providers.codex.enabled == defaults.providers.codex.enabled,
        text::views(settings.providers.codex.command@) == text::views(
            defaults.providers.codex.command@,
        ),
        settings.providers.claude == defaults.providers.claude,
        settings.policies@ == defaults.policies@,
        settings.dialogs.rules@ == defaults.dialogs.rules@,
{
    assert(settings.dialogs.rules@ =~= defaults.dialogs.rules@);
}

/// Where everything is kept.
#[derive(Debug)]
pub struct Paths {
    pub config_file: String,
    pub watchlist_file: String,
    pub state_file: String,
    pub control_state_file: String,
    pub event_log_file: String,
    pub retry_operations_file: String,
    pub lock_file: String,
    pub socket_file: String,
}

/// The path of `name` in a directory. A name that starts at the root is a path of its own.
pub open spec fn joined(directory: Seq<char>, name: Seq<char>) -> Seq<char> {
    if name.len() > 0 && name[0] == '/' {
        name
    } else if directory.len() == 0 || directory.last() == '/' {
        directory + name
    } else {
        directory + "/"@ + name
    }
}

/// The path of `name` in a directory.
pub fn join(directory: &str, name: &str) -> (r: String)
    ensures
        r@ == joined(directory@, name@),
{
    let chars = text::chars_of(directory);
    let named = text::chars_of(name);
    if named.len() > 0 && named[0] == '/' {
        name.to_owned()
    } else if chars.len() == 0 || chars[chars.len() - 1] == '/' {
        directory.to_owned().concat(name)
    } else {
        directory.to_owned().concat("/").concat(name)
    }
}

impl Paths {
    /// The paths for a settings file, a watchlist (by default beside the settings file, in
    /// `config_dir`) and a directory for the state.
    pub fn discover(
        config_file: String,
        config_dir: &str,
        watchlist_file: Option<String>,
        state_dir: &str,
    ) -> (r: Self)
        ensures
            r.config_file == config_file,
            r.watchlist_file@ == (match watchlist_file {
                Some(path) => path@,
                None => joined(config_dir@, "watchlist.json"@),
            }),
            r.state_file@ == joined(state_dir@, "state.json"@),
            r.control_state_file@ == joined(state_dir@, "control.json"@),
            r.event_log_file@ == joined(state_dir@, "events.jsonl"@),
            r.retry_operations_file@ == joined(state_dir@, "retry-operations.json"@),
            r.lock_file@ == joined(state_dir@, "watchcat.lock"@),
            r.socket_file@ == joined(state_dir@, "watchcat.sock"@),
    {
        Paths {
            config_file,
            watchlist_file: match watchlist_file {
                Some(path) => path,
                None => join(config_dir, "watchlist.json"),
            },
            state_file: join(state_dir, "state.json"),
            control_state_file: join(state_dir, "control.json"),
            event_log_file: join(state_dir, "events.jsonl"),
            retry_operations_file: join(state_dir, "retry-operations.json"),
            lock_file: join(state_dir, "watchcat.lock"),
            socket_file: join(state_dir, "watchcat.sock"),
        }
    }
}

} // verus!
