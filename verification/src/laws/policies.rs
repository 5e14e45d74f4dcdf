//! Which policy a condition has, and which settings can be used.

use vstd::prelude::*;
use vstd::string::*;

use crate::conditions;
use crate::conditions::ConditionDefinition;
use crate::config;
use crate::config::{
    CodexSettings, ConfigError, Display, Paths, PolicyOverride, PolicyProblem, ResolvedPolicy,
    Settings,
};
use crate::json::Json;
use crate::models::{BackoffKind, PolicyAction};
use crate::text;
use crate::textmap;
use crate::textmap::TextMap;

verus! {

/// The first and the longest wait of a condition that is retried unless it is said otherwise.
pub open spec fn waits(condition: Seq<char>) -> Option<(int, int)> {
    if condition == "network.connection_failed"@ || condition == "network.stream_failed"@
        || condition == "service.conflict"@ {
        Some((5, 120))
    } else if condition == "network.timeout"@ {
        Some((10, 180))
    } else if condition == "service.server_error"@ {
        Some((10, 300))
    } else if condition == "capacity.model_overloaded"@ || condition
        == "capacity.service_overloaded"@ || condition == "capacity.server_throttled"@ || condition
        == "retry.provider_exhausted"@ {
        Some((15, 300))
    } else if condition == "capacity.rate_limited"@ {
        Some((30, 600))
    } else {
        None
    }
}

/// A condition that needs its user, and is left alone unless it is said otherwise.
pub open spec fn needs_its_user(condition: Seq<char>) -> bool {
    ||| condition == "auth.invalid"@
    ||| condition == "billing.required"@
    ||| condition == "capability.model_unavailable"@
    ||| condition == "capability.access_denied"@
    ||| condition == "capability.feature_unsupported"@
    ||| condition == "capability.entitlement_required"@
    ||| condition == "capability.verification_required"@
    ||| condition == "context.window_exceeded"@
    ||| condition == "context.output_limit"@
    ||| condition == "quota.usage_exhausted"@
    ||| condition == "request.invalid"@
    ||| condition == "request.too_large"@
    ||| condition == "sandbox.failed"@
    ||| condition == "failure.unknown"@
}

/// The prompt that a condition is continued with unless it has one of its own.
pub open spec fn usual_prompt() -> Seq<char> {
    "Continue the previous unfinished task. Inspect the latest checkpoint and persisted changes first. Do not repeat completed work."@
}

proof fn lemma_places(condition: Seq<char>, i: int)
    requires
        0 <= i < conditions::known_conditions().len(),
        conditions::known_conditions()[i].name@ == condition,
    ensures
        conditions::known(condition),
        conditions::definition_of(condition) == conditions::known_conditions()[i],
        config::fallback(condition) == conditions::known_conditions()[i],
{
    config::lemma_definition_of_known(i);
}

proof fn lemma_defaults(condition: Seq<char>)
    ensures
        match waits(condition) {
            Some((first, longest)) => {
                let definition = config::fallback(condition);
                &&& conditions::known(condition)
                &&& definition.action == PolicyAction::Retry
                &&& definition.backoff == Some(BackoffKind::Exponential)
                &&& definition.initial_delay_seconds == first
                &&& definition.max_delay_seconds == longest
                &&& definition.max_attempts == 5
            },
            None => {
                let definition = config::fallback(condition);
                &&& conditions::known(condition) <==> needs_its_user(condition)
                &&& definition.action == PolicyAction::Skip
                &&& definition.backoff is None
                &&& definition.initial_delay_seconds == 0
                &&& definition.max_delay_seconds == 0
                &&& definition.max_attempts == 0
            },
        },
        config::retry_defaults().initial_delay_seconds == 5,
        config::retry_defaults().max_delay_seconds == 120,
        config::retry_defaults().max_attempts == 5,
{
    let all = conditions::known_conditions();
    assert(all.len() == 24);
    config::lemma_fallbacks_are_known();
    assert(all[0].name@ == "network.connection_failed"@);
    assert(all[1].name@ == "network.stream_failed"@);
    assert(all[2].name@ == "network.timeout"@);
    assert(all[3].name@ == "capacity.model_overloaded"@);
    assert(all[4].name@ == "capacity.service_overloaded"@);
    assert(all[5].name@ == "capacity.rate_limited"@);
    assert(all[6].name@ == "capacity.server_throttled"@);
    assert(all[7].name@ == "service.server_error"@);
    assert(all[8].name@ == "service.conflict"@);
    assert(all[9].name@ == "retry.provider_exhausted"@);
    assert(all[10].name@ == "auth.invalid"@);
    assert(all[11].name@ == "billing.required"@);
    assert(all[12].name@ == "capability.model_unavailable"@);
    assert(all[13].name@ == "capability.access_denied"@);
    assert(all[14].name@ == "capability.feature_unsupported"@);
    assert(all[15].name@ == "capability.entitlement_required"@);
    assert(all[16].name@ == "capability.verification_required"@);
    assert(all[17].name@ == "context.window_exceeded"@);
    assert(all[18].name@ == "context.output_limit"@);
    assert(all[19].name@ == "quota.usage_exhausted"@);
    assert(all[20].name@ == "request.invalid"@);
    assert(all[21].name@ == "request.too_large"@);
    assert(all[22].name@ == "sandbox.failed"@);
    assert(all[23].name@ == "failure.unknown"@);
    if conditions::known(condition) {
        let i = choose|i: int| 0 <= i < all.len() && (#[trigger] all[i]).name@ == condition;
        lemma_places(condition, i);
        if i < 10 {
            assert(all[i].action == PolicyAction::Retry);
        } else {
            assert(all[i].action == PolicyAction::Skip);
        }
    }
    if waits(condition) is Some {
        conditions_differ(condition);
    }
    if needs_its_user(condition) {
        assert(conditions::known(condition));
    }
}

/// No condition that is retried needs its user.
proof fn conditions_differ(condition: Seq<char>)
    requires
        waits(condition) is Some,
    ensures
        conditions::known(condition),
        config::fallback(condition).action == PolicyAction::Retry,
        config::fallback(condition).backoff == Some(BackoffKind::Exponential),
        match waits(condition) {
            Some((first, longest)) => config::fallback(condition).initial_delay_seconds == first
                && config::fallback(condition).max_delay_seconds == longest,
            None => false,
        },
        config::fallback(condition).max_attempts == 5,
{
    let all = conditions::known_conditions();
    assert(all.len() == 24);
    let i: int = if condition == "network.connection_failed"@ {
        0
    } else if condition == "network.stream_failed"@ {
        1
    } else if condition == "service.conflict"@ {
        8
    } else if condition == "network.timeout"@ {
        2
    } else if condition == "service.server_error"@ {
        7
    } else if condition == "capacity.model_overloaded"@ {
        3
    } else if condition == "capacity.service_overloaded"@ {
        4
    } else if condition == "capacity.server_throttled"@ {
        6
    } else if condition == "retry.provider_exhausted"@ {
        9
    } else {
        5
    };
    assert(all[i].name@ == condition);
    lemma_places(condition, i);
}

/// A condition is known exactly where it is retried or needs its user.
pub proof fn lemma_known(condition: Seq<char>)
    ensures
        conditions::known(condition) <==> waits(condition) is Some || needs_its_user(condition),
{
    lemma_defaults(condition);
    if waits(condition) is Some {
        conditions_differ(condition);
    }
}

/// A condition is known exactly where it is retried or needs its user, and it is looked up by its
/// name.
pub proof fn conditions_are_known_by_name(
    name: &str,
    known: bool,
    definition: Option<ConditionDefinition>,
)
    requires
        call_ensures(conditions::is_known, (name,), known),
        call_ensures(conditions::definition, (name,), definition),
    ensures
        known <==> waits(name@) is Some || needs_its_user(name@),
        definition is Some <==> known,
        match definition {
            None => true,
            Some(found) => found.name@ == name@ && (found.action == PolicyAction::Retry
                <==> waits(name@) is Some),
        },
{
    lemma_defaults(name@);
    if waits(name@) is Some {
        conditions_differ(name@);
    }
}

/// Without an override a condition has its usual policy: one that is retried waits for its first
/// and at most for its longest wait, five times, and every other is left alone.
pub proof fn conditions_have_their_usual_policy(
    settings: &Settings,
    condition: &str,
    r: ResolvedPolicy,
)
    requires
        call_ensures(Settings::policy, (settings, condition), r),
        !settings.policies@.contains_key(condition@),
    ensures
        r.condition@ == condition@,
        !r.customized,
        match waits(condition@) {
            Some((first, longest)) => {
                &&& r.action == PolicyAction::Retry
                &&& r.backoff == Some(BackoffKind::Exponential)
                &&& r.initial_delay_seconds == first
                &&& r.max_delay_seconds == longest
                &&& r.max_attempts == 5
                &&& r.prompt@ == usual_prompt()
            },
            None => {
                &&& r.action == PolicyAction::Skip
                &&& r.backoff is None
                &&& r.initial_delay_seconds == 0
                &&& r.max_delay_seconds == 0
                &&& r.max_attempts == 0
                &&& r.prompt@.len() == 0
            },
        },
{
    lemma_defaults(condition@);
}

/// An override replaces what it sets and nothing else. What it does not set of a condition that it
/// has retried is usual there, or what a failed connection has where nothing is. A condition that
/// is left alone has neither backoff nor prompt.
pub proof fn overrides_replace_what_they_set(
    settings: &Settings,
    condition: &str,
    r: ResolvedPolicy,
)
    requires
        call_ensures(Settings::policy, (settings, condition), r),
        settings.policies@.contains_key(condition@),
    ensures
        ({
            let set = settings.policies@[condition@];
            let usual = match waits(condition@) {
                Some(usual) => usual,
                None => (5int, 120int),
            };
            &&& r.condition@ == condition@
            &&& r.customized
            &&& r.action == (match set.action {
                Some(action) => action,
                None => if waits(condition@) is Some {
                    PolicyAction::Retry
                } else {
                    PolicyAction::Skip
                },
            })
            &&& r.action == PolicyAction::Retry ==> {
                &&& r.backoff == Some(
                    match set.backoff {
                        Some(backoff) => backoff,
                        None => BackoffKind::Exponential,
                    },
                )
                &&& r.initial_delay_seconds == (match set.initial_delay_seconds {
                    Some(delay) => delay as int,
                    None => usual.0,
                })
                &&& r.max_delay_seconds == (match set.max_delay_seconds {
                    Some(delay) => delay as int,
                    None => usual.1,
                })
                &&& r.max_attempts == (match set.max_attempts {
                    Some(attempts) => attempts as int,
                    None => 5int,
                })
                &&& r.prompt@ == (match set.prompt {
                    Some(prompt) => prompt@,
                    None => usual_prompt(),
                })
            }
            &&& r.action == PolicyAction::Skip ==> r.backoff is None && r.prompt@.len() == 0
        }),
{
    lemma_defaults(condition@);
}

/// All policies are listed, one for each known condition, each as it is found by its name.
pub proof fn every_condition_has_a_policy(settings: &Settings, all: Vec<ResolvedPolicy>)
    requires
        call_ensures(Settings::policies, (settings,), all),
    ensures
        all@.len() == 24,
        forall|i: int|
            0 <= i < 24 ==> {
                let policy = #[trigger] all@[i];
                &&& waits(policy.condition@) is Some || needs_its_user(policy.condition@)
                &&& policy.customized <==> settings.policies@.contains_key(policy.condition@)
                &&& !policy.customized ==> (policy.action == PolicyAction::Retry <==> waits(
                    policy.condition@,
                ) is Some)
            },
        forall|i: int, j: int|
            0 <= i < j < 24 ==> (#[trigger] all@[i]).condition@ != (#[trigger] all@[j]).condition@,
{
    let known = conditions::known_conditions();
    assert(known.len() == 24);
    assert forall|i: int| 0 <= i < 24 implies {
        let policy = #[trigger] all@[i];
        &&& waits(policy.condition@) is Some || needs_its_user(policy.condition@)
        &&& policy.customized <==> settings.policies@.contains_key(policy.condition@)
        &&& !policy.customized ==> (policy.action == PolicyAction::Retry <==> waits(
            policy.condition@,
        ) is Some)
    } by {
        lemma_places(known[i].name@, i);
        lemma_defaults(known[i].name@);
    }
    assert forall|i: int, j: int| 0 <= i < j < 24 implies (#[trigger] all@[i]).condition@ != (
    #[trigger] all@[j]).condition@ by {
        if known[i].name@ == known[j].name@ {
            conditions::condition_names_are_unique(i, j);
        }
    }
}

/// An override can be used where its prompt is not blank, no number in it is zero, its longest wait
/// is no shorter than its first, and it sets nothing of a retry where it has a condition left alone.
pub open spec fn usable(set: PolicyOverride) -> bool {
    &&& set.prompt is Some ==> exists|i: int|
        0 <= i < set.prompt->0@.len() && !text::white(#[trigger] set.prompt->0@[i])
    &&& set.initial_delay_seconds is Some ==> set.initial_delay_seconds->0 > 0
    &&& set.max_delay_seconds is Some ==> set.max_delay_seconds->0 > 0
    &&& set.max_attempts is Some ==> set.max_attempts->0 > 0
    &&& set.initial_delay_seconds is Some && set.max_delay_seconds is Some
        ==> set.initial_delay_seconds->0 <= set.max_delay_seconds->0
    &&& set.action == Some(PolicyAction::Skip) ==> set.backoff is None
        && set.initial_delay_seconds is None && set.max_delay_seconds is None && set.max_attempts
        is None
}

/// An override is refused exactly where it cannot be used, and the refusal says what is wrong.
pub proof fn unusable_overrides_are_refused(set: &PolicyOverride, r: Option<PolicyProblem>)
    requires
        call_ensures(config::validate_override, (set,), r),
    ensures
        r is None <==> usable(*set),
        r == Some(PolicyProblem::EmptyPrompt) <==> set.prompt is Some && text::blank(
            set.prompt->0@,
        ),
        r == Some(PolicyProblem::NotPositive) ==> set.initial_delay_seconds == Some(0u64)
            || set.max_delay_seconds == Some(0u64) || set.max_attempts == Some(0usize),
        r == Some(PolicyProblem::DelaysReversed) ==> set.initial_delay_seconds is Some
            && set.max_delay_seconds is Some && set.max_delay_seconds->0
            < set.initial_delay_seconds->0,
        r == Some(PolicyProblem::RetryFieldsOnSkip) ==> set.action == Some(PolicyAction::Skip),
        r != Some(PolicyProblem::UnknownCondition),
{
    if set.prompt is Some {
        let prompt = set.prompt->0@;
        assert(text::blank(prompt) <==> !exists|i: int|
            0 <= i < prompt.len() && !text::white(#[trigger] prompt[i]));
    }
}

/// Settings can be used exactly where they are of the fourth version, every interval in them is
/// positive, a provider that is run has a command of non-empty parts, every override is of a known
/// condition and can be used, every condition that is retried can be, and so can the dialog rules.
pub proof fn usable_settings_are_accepted(
    settings: &Settings,
    r: Result<(), ConfigError>,
    policies: Vec<ResolvedPolicy>,
)
    requires
        call_ensures(Settings::validate, (settings,), r),
        call_ensures(Settings::policies, (settings,), policies),
    ensures
        r is Ok <==> {
            &&& settings.version == 4
            &&& settings.engine.poll_interval_seconds > 0
            &&& settings.engine.attempt_window_seconds > 0
            &&& settings.engine.log_retention > 0
            &&& settings.lifecycle.stale_after_seconds > 0
            &&& settings.lifecycle.sweep_interval_seconds > 0
            &&& settings.providers.codex.enabled ==> settings.providers.codex.command@.len() > 0
                && forall|i: int|
                0 <= i < settings.providers.codex.command@.len() ==> (
                #[trigger] settings.providers.codex.command@[i])@.len() > 0
            &&& forall|condition: Seq<char>| #[trigger]
                settings.policies@.contains_key(condition) ==> (waits(condition) is Some
                    || needs_its_user(condition)) && usable(settings.policies@[condition])
            &&& forall|i: int|
                0 <= i < policies@.len() ==> (#[trigger] policies@[i]).action
                    == PolicyAction::Retry ==> 0 < policies@[i].initial_delay_seconds
                    <= policies@[i].max_delay_seconds && policies@[i].max_attempts > 0
            &&& settings.dialogs.valid()
        },
{
    assert forall|condition: Seq<char>| #[trigger]
        settings.policies@.contains_key(condition) implies (config::policy_problem(
        condition,
        settings.policies@[condition],
    ) is None <==> (waits(condition) is Some || needs_its_user(condition)) && usable(
        settings.policies@[condition],
    )) by {
        lemma_defaults(condition);
        if waits(condition) is Some {
            conditions_differ(condition);
        }
        let set = settings.policies@[condition];
        if set.prompt is Some {
            let prompt = set.prompt->0@;
            assert(text::blank(prompt) <==> !exists|i: int|
                0 <= i < prompt.len() && !text::white(#[trigger] prompt[i]));
        }
    }
    let known = conditions::known_conditions();
    assert forall|i: int| 0 <= i < policies@.len() implies (settings.retry_usable(
        (#[trigger] known[i]).name@,
    ) <==> (policies@[i].action == PolicyAction::Retry ==> 0 < policies@[i].initial_delay_seconds
        <= policies@[i].max_delay_seconds && policies@[i].max_attempts > 0)) by {
        assert(config::is_resolution(
            policies@[i],
            settings.custom(known[i].name@),
            known[i].name@,
        ));
    }
    if settings.retries_usable() {
        assert forall|i: int|
            0 <= i < policies@.len() && (#[trigger] policies@[i]).action
                == PolicyAction::Retry implies 0 < policies@[i].initial_delay_seconds
            <= policies@[i].max_delay_seconds && policies@[i].max_attempts > 0 by {
            assert(settings.retry_usable(known[i].name@));
        }
    }
    if forall|i: int|
        0 <= i < policies@.len() ==> (#[trigger] policies@[i]).action == PolicyAction::Retry ==> 0
            < policies@[i].initial_delay_seconds <= policies@[i].max_delay_seconds
            && policies@[i].max_attempts > 0 {
        assert forall|i: int| 0 <= i < known.len() implies settings.retry_usable(
            (#[trigger] known[i]).name@,
        ) by {
            assert(policies@[i].action == PolicyAction::Retry ==> 0
                < policies@[i].initial_delay_seconds <= policies@[i].max_delay_seconds);
        }
    }
}

/// A refusal of settings names what is wrong with them.
pub proof fn refused_settings_say_why(settings: &Settings, overridden: usize, error: ConfigError)
    requires
        call_ensures(TextMap::<PolicyOverride>::len, (&settings.policies,), overridden),
        call_ensures(Settings::validate, (settings,), Err(error)),
    ensures
        error is UnsupportedVersion <==> settings.version != 4,
        error is EngineNotPositive ==> settings.engine.poll_interval_seconds == 0
            || settings.engine.attempt_window_seconds <= 0 || settings.engine.log_retention == 0,
        error is LifecycleNotPositive ==> settings.lifecycle.stale_after_seconds <= 0
            || settings.lifecycle.sweep_interval_seconds == 0,
        error is EmptyCommand ==> settings.providers.codex.enabled,
        match error {
            ConfigError::Policy(condition, problem) => {
                &&& settings.policies@.contains_key(condition@)
                &&& problem == PolicyProblem::UnknownCondition <==> waits(condition@) is None
                    && !needs_its_user(condition@)
                &&& problem != PolicyProblem::UnknownCondition ==> !usable(
                    settings.policies@[condition@],
                )
            },
            _ => true,
        },
{
    match error {
        ConfigError::Policy(condition, problem) => {
            let i = choose|i: int| #[trigger]
                settings.first_policy_problem(i, problem) && settings.policies.entries()[i].0@
                    == condition@;
            let entries = settings.policies.entries();
            textmap::lemma_key_is_unique(entries, i);
            lemma_defaults(condition@);
            if waits(condition@) is Some {
                conditions_differ(condition@);
            }
            let set = entries[i].1;
            if set.prompt is Some {
                let prompt = set.prompt->0@;
                assert(text::blank(prompt) <==> !exists|i: int|
                    0 <= i < prompt.len() && !text::white(#[trigger] prompt[i]));
            }
        },
        _ => {},
    }
}

/// Only documents of the fourth version are read.
pub proof fn only_the_fourth_version_is_read(version: Option<i64>, r: Result<(), ConfigError>)
    requires
        call_ensures(config::check_version, (version,), r),
    ensures
        r is Ok <==> version == Some(4i64),
        version is None ==> r == Err::<(), ConfigError>(ConfigError::Unversioned),
        version is Some && version != Some(4i64) ==> r == Err::<(), ConfigError>(
            ConfigError::UnsupportedVersion(version->0),
        ),
{
}

/// The version of a document is its member of that name, where it is a whole number.
pub proof fn documents_tell_their_version(
    document: &Json,
    member: Option<&Json>,
    number: Option<i64>,
    r: Option<i64>,
)
    requires
        call_ensures(config::document_version, (document,), r),
        call_ensures(Json::get, (document, "version"), member),
        member is Some ==> call_ensures(Json::as_i64, (member->0,), number),
    ensures
        r == if member is Some {
            number
        } else {
            None
        },
{
}

/// A settings file is written where there is none, or where it is to be replaced, and it asks for
/// what the settings hold anyhow.
pub proof fn settings_files_are_not_replaced_unasked(
    path: &str,
    exists: bool,
    force: bool,
    r: Result<&'static str, ConfigError>,
)
    requires
        call_ensures(config::initialize_config, (path, exists, force), r),
    ensures
        r is Err <==> exists && !force,
        match r {
            Ok(content) => content@
                == "# Watchcat configuration\nversion = 4\n\n[engine]\npoll_interval_seconds = 10\nattempt_window_seconds = 3600\nlog_retention = 10000\n\n[lifecycle]\nstale_after_seconds = 259200\nsweep_interval_seconds = 60\nprotect_unresolved_failures = false\n\n[providers.codex]\nenabled = true\ncommand = [\"codex\", \"app-server\", \"--listen\", \"stdio://\"]\n\n"@,
            Err(error) => error is AlreadyExists && error->AlreadyExists_0@ == path@,
        },
{
}

/// What settings hold that nothing sets.
pub proof fn unset_settings_are_usual(r: Settings)
    requires
        call_ensures(Settings::default, (), r),
    ensures
        r.version == 4,
        r.engine.poll_interval_seconds == 10,
        r.engine.attempt_window_seconds == 3600,
        r.engine.log_retention == 10000,
        r.lifecycle.stale_after_seconds == 3 * 24 * 3600,
        r.lifecycle.sweep_interval_seconds == 60,
        !r.lifecycle.protect_unresolved_failures,
        r.providers.codex.enabled && r.providers.claude.enabled,
        text::views(r.providers.codex.command@) == seq![
            "codex"@,
            "app-server"@,
            "--listen"@,
            "stdio://"@,
        ],
        forall|condition: Seq<char>| !#[trigger] r.policies@.contains_key(condition),
{
}

/// The provider is run in the same way exactly where it is enabled alike with the same command.
pub proof fn providers_run_alike(a: &CodexSettings, b: &CodexSettings, r: bool)
    requires
        call_ensures(config::same_codex, (a, b), r),
    ensures
        r <==> {
            &&& a.enabled == b.enabled
            &&& a.command@.len() == b.command@.len()
            &&& forall|i: int| 0 <= i < a.command@.len() ==> (#[trigger] a.command@[i])@ == b.command@[i]@
        },
{
    assert(text::views(a.command@).len() == a.command@.len());
    assert(text::views(b.command@).len() == b.command@.len());
    assert forall|i: int| 0 <= i < a.command@.len() implies #[trigger] text::views(a.command@)[i]
        == a.command@[i]@ by {}
    assert forall|i: int| 0 <= i < b.command@.len() implies #[trigger] text::views(b.command@)[i]
        == b.command@[i]@ by {}
    if r {
        assert forall|i: int| 0 <= i < a.command@.len() implies (#[trigger] a.command@[i])@
            == b.command@[i]@ by {
            assert(text::views(a.command@)[i] == text::views(b.command@)[i]);
        }
    }
    if a.command@.len() == b.command@.len() && forall|i: int|
        0 <= i < a.command@.len() ==> (#[trigger] a.command@[i])@ == b.command@[i]@ {
        assert(text::views(a.command@) =~= text::views(b.command@));
    }
}

/// Settings are shown as the default file only where no policy is set and nothing that the file says
/// differs, and under a heading only where policies are set and nothing that the file says differs.
pub proof fn settings_are_shown_as_they_are(settings: &Settings, r: Display)
    requires
        call_ensures(config::display_settings, (settings,), r),
    ensures
        ({
            let policies = exists|condition: Seq<char>| #[trigger]
                settings.policies@.contains_key(condition);
            let says = {
                &&& settings.engine.poll_interval_seconds == 10
                &&& settings.engine.attempt_window_seconds == 3600
                &&& settings.engine.log_retention == 10000
                &&& settings.lifecycle.stale_after_seconds == 259200
                &&& settings.lifecycle.sweep_interval_seconds == 60
                &&& !settings.lifecycle.protect_unresolved_failures
                &&& settings.providers.codex.enabled
                &&& text::views(settings.providers.codex.command@) == seq![
                    "codex"@,
                    "app-server"@,
                    "--listen"@,
                    "stdio://"@,
                ]
            };
            &&& r == Display::DefaultFile ==> !policies && says && settings.providers.claude.enabled
            &&& r == Display::Headed <==> policies && says
        }),
{
    let empty = Map::<Seq<char>, PolicyOverride>::empty();
    if settings.policies@ != empty {
        if !exists|condition: Seq<char>| #[trigger] settings.policies@.contains_key(condition) {
            assert(settings.policies@ =~= empty);
        }
    }
}

/// A file stands in its directory; one that starts at the root stands there.
pub proof fn files_stand_in_their_directory(directory: &str, name: &str, r: String)
    requires
        call_ensures(config::join, (directory, name), r),
        directory@.len() > 0,
        name@.len() > 0,
    ensures
        name@[0] == '/' ==> r@ == name@,
        name@[0] != '/' && directory@.last() == '/' ==> r@ == directory@ + name@,
        name@[0] != '/' && directory@.last() != '/' ==> r@ == directory@ + "/"@ + name@,
{
}

/// What is kept stands in the directory of the state, each under its own name; the watchlist stands
/// beside the settings unless a path is given.
pub proof fn everything_has_its_place(
    config_file: String,
    config_dir: &str,
    watchlist_file: Option<String>,
    state_dir: &str,
    r: Paths,
)
    requires
        call_ensures(Paths::discover, (config_file, config_dir, watchlist_file, state_dir), r),
        config_dir@.len() > 0 && config_dir@.last() != '/',
        state_dir@.len() > 0 && state_dir@.last() != '/',
    ensures
        r.config_file@ == config_file@,
        r.watchlist_file@ == (match watchlist_file {
            Some(path) => path@,
            None => config_dir@ + "/"@ + "watchlist.json"@,
        }),
        r.state_file@ == state_dir@ + "/"@ + "state.json"@,
        r.control_state_file@ == state_dir@ + "/"@ + "control.json"@,
        r.event_log_file@ == state_dir@ + "/"@ + "events.jsonl"@,
        r.retry_operations_file@ == state_dir@ + "/"@ + "retry-operations.json"@,
        r.lock_file@ == state_dir@ + "/"@ + "watchcat.lock"@,
        r.socket_file@ == state_dir@ + "/"@ + "watchcat.sock"@,
{
    reveal_strlit("watchlist.json");
    reveal_strlit("state.json");
    reveal_strlit("control.json");
    reveal_strlit("events.jsonl");
    reveal_strlit("retry-operations.json");
    reveal_strlit("watchcat.lock");
    reveal_strlit("watchcat.sock");
}

} // verus!
