use std::collections::HashSet;

use watchcat::conditions::{conditions, definition, is_known, DEFAULT_PROMPT};
use watchcat::config::{
    check_document, check_version, display_settings, document_version, initialize_config,
    validate_command, validate_override, ConfigError, Display, Paths, PolicyOverride,
    PolicyProblem, Settings, DEFAULT_CONFIG,
};
use watchcat::json::{unsigned_value, Json};
use watchcat::models::{BackoffKind, PolicyAction};
use watchcat::os_permissions::rules::{DialogRule, DialogError};

fn policy_override() -> PolicyOverride {
    PolicyOverride {
        action: None,
        backoff: None,
        initial_delay_seconds: None,
        max_delay_seconds: None,
        max_attempts: None,
        prompt: None,
    }
}

#[test]
fn condition_names_are_unique_and_defaults_are_valid() {
    let mut names = HashSet::new();
    for condition in conditions() {
        assert!(names.insert(condition.name));
        assert!(condition.name.contains('.'));
        match condition.action {
            PolicyAction::Retry => {
                assert!(condition.backoff.is_some());
                assert!(condition.initial_delay_seconds > 0);
                assert!(condition.max_delay_seconds >= condition.initial_delay_seconds);
                assert!(condition.max_attempts > 0);
            }
            PolicyAction::Skip => assert!(condition.backoff.is_none()),
        }
    }
}

#[test]
fn conditions_are_found_by_name() {
    let timeout = definition("network.timeout").unwrap();
    assert_eq!(timeout.initial_delay_seconds, 10);
    assert_eq!(timeout.max_delay_seconds, 180);
    assert!(is_known("failure.unknown"));
    assert!(!is_known("failure.unheard_of"));
    assert!(definition("").is_none());
}

#[test]
fn policy_override_resolves_without_mutating_defaults() {
    let mut settings = Settings::default();
    settings.policies.insert(
        "capacity.model_overloaded".into(),
        PolicyOverride {
            max_attempts: Some(8),
            prompt: Some("Continue {model}".into()),
            ..policy_override()
        },
    );
    let policy = settings.policy("capacity.model_overloaded");
    assert_eq!(policy.max_attempts, 8);
    assert_eq!(policy.prompt, "Continue {model}");
    assert_eq!(settings.policy("network.timeout").max_attempts, 5);
}

#[test]
fn unknown_conditions_skip_by_default() {
    let settings = Settings::default();
    let policy = settings.policy("brand.new");
    assert_eq!(policy.action, PolicyAction::Skip);
    assert_eq!(policy.backoff, None);
    assert!(!policy.customized);
    assert_eq!(settings.policy("failure.unknown").action, PolicyAction::Skip);
}

#[test]
fn a_skipped_condition_that_is_retried_gets_general_defaults() {
    let mut settings = Settings::default();
    settings.policies.insert(
        "auth.invalid".into(),
        PolicyOverride { action: Some(PolicyAction::Retry), ..policy_override() },
    );
    let policy = settings.policy("auth.invalid");
    assert_eq!(policy.action, PolicyAction::Retry);
    assert_eq!(policy.backoff, Some(BackoffKind::Exponential));
    assert_eq!(policy.initial_delay_seconds, 5);
    assert_eq!(policy.max_delay_seconds, 120);
    assert_eq!(policy.max_attempts, 5);
    assert_eq!(policy.prompt, DEFAULT_PROMPT);
    assert!(policy.customized);
}

#[test]
fn all_policies_are_listed() {
    let policies = Settings::default().policies();
    assert_eq!(policies.len(), conditions().len());
    assert_eq!(policies[0].condition, conditions()[0].name);
}

#[test]
fn default_settings_are_valid() {
    assert!(Settings::default().validate().is_ok());
    assert!(DEFAULT_CONFIG.contains("version = 4"));
}

#[test]
fn versions_are_checked() {
    assert!(check_version(Some(4)).is_ok());
    assert!(matches!(check_version(Some(3)), Err(ConfigError::UnsupportedVersion(3))));
    assert!(matches!(check_version(None), Err(ConfigError::Unversioned)));
}

#[test]
fn versions_are_read_from_the_settings_text() {
    assert!(check_document("version = 4").unwrap().is_ok());
    assert!(check_document("# version = 3\nversion = 0x4\n[engine]\nversion = 2").unwrap().is_ok());
    for text in ["", "[engine]\nversion = 4", "version = \"4\"", "version = 4.0", "version = [4]"] {
        assert!(matches!(check_document(text), Some(Err(ConfigError::Unversioned))));
    }
    assert!(matches!(
        check_document("version = -4"),
        Some(Err(ConfigError::UnsupportedVersion(-4)))
    ));
    for text in ["version", "version = 4\nversion = 4", "{\"version\": 4}"] {
        assert!(check_document(text).is_none());
    }
    let document = Json::object().with("version", unsigned_value(7)).build();
    assert_eq!(document_version(&document), Some(7));
    assert_eq!(document_version(&Json::Null), None);
}

#[test]
fn every_problem_with_settings_is_found() {
    let mut settings = Settings::default();
    settings.engine.poll_interval_seconds = 0;
    assert!(matches!(settings.validate(), Err(ConfigError::EngineNotPositive)));

    let mut settings = Settings::default();
    settings.lifecycle.stale_after_seconds = 0;
    assert!(matches!(settings.validate(), Err(ConfigError::LifecycleNotPositive)));

    let mut settings = Settings::default();
    settings.providers.codex.command = Vec::new();
    assert!(matches!(settings.validate(), Err(ConfigError::EmptyCommand)));
    settings.providers.codex.enabled = false;
    assert!(settings.validate().is_ok());

    let mut settings = Settings::default();
    settings.policies.insert("no.such".into(), policy_override());
    assert!(matches!(
        settings.validate(),
        Err(ConfigError::Policy(_, PolicyProblem::UnknownCondition))
    ));

    let mut settings = Settings::default();
    settings.dialogs.rules.insert(
        "bad".into(),
        DialogRule { enabled: true, app: None, title: None, text: None, button: None },
    );
    assert!(matches!(settings.validate(), Err(ConfigError::Dialogs(DialogError::Rule(_, _)))));

    let mut settings = Settings::default();
    settings.policies.insert(
        "network.timeout".into(),
        PolicyOverride { initial_delay_seconds: Some(1_000), ..policy_override() },
    );
    let error = settings.validate().unwrap_err();
    assert!(matches!(error, ConfigError::UnusableRetry(_)));
    assert!(error.message().contains("network.timeout"));
}

#[test]
fn every_problem_with_an_override_is_found() {
    let problem = |policy: PolicyOverride| validate_override(&policy);
    assert_eq!(problem(policy_override()), None);
    assert_eq!(
        problem(PolicyOverride { prompt: Some(" \n".into()), ..policy_override() }),
        Some(PolicyProblem::EmptyPrompt)
    );
    assert_eq!(
        problem(PolicyOverride { max_attempts: Some(0), ..policy_override() }),
        Some(PolicyProblem::NotPositive)
    );
    assert_eq!(
        problem(PolicyOverride {
            initial_delay_seconds: Some(9),
            max_delay_seconds: Some(8),
            ..policy_override()
        }),
        Some(PolicyProblem::DelaysReversed)
    );
    assert_eq!(
        problem(PolicyOverride {
            action: Some(PolicyAction::Skip),
            max_attempts: Some(3),
            ..policy_override()
        }),
        Some(PolicyProblem::RetryFieldsOnSkip)
    );
}

#[test]
fn commands_are_required_of_enabled_providers() {
    assert!(validate_command(true, &vec!["codex".to_owned()]));
    assert!(!validate_command(true, &Vec::new()));
    assert!(validate_command(false, &Vec::new()));
}

#[test]
fn an_existing_configuration_is_kept_unless_forced() {
    assert_eq!(initialize_config("/c/config.toml", false, false).unwrap(), DEFAULT_CONFIG);
    assert_eq!(initialize_config("/c/config.toml", true, true).unwrap(), DEFAULT_CONFIG);
    let error = initialize_config("/c/config.toml", true, false).unwrap_err();
    assert_eq!(error.message(), "configuration already exists: /c/config.toml");
}

#[test]
fn settings_are_displayed_by_what_was_changed() {
    let mut settings = Settings::default();
    assert_eq!(display_settings(&settings), Display::DefaultFile);
    settings.policies.insert(
        "network.timeout".into(),
        PolicyOverride { max_attempts: Some(2), ..policy_override() },
    );
    assert_eq!(display_settings(&settings), Display::Headed);
    settings.engine.poll_interval_seconds += 1;
    assert_eq!(display_settings(&settings), Display::Plain);
}

#[test]
fn settings_that_differ_are_not_displayed_as_the_default_file() {
    let mut settings = Settings::default();
    settings.engine.poll_interval_seconds = 30;
    assert_eq!(display_settings(&settings), Display::Plain);
    let mut settings = Settings::default();
    settings.lifecycle.stale_after_seconds += 1;
    assert_eq!(display_settings(&settings), Display::Plain);
    let mut settings = Settings::default();
    settings.providers.claude.enabled = false;
    assert_eq!(display_settings(&settings), Display::Plain);
    let mut settings = Settings::default();
    settings.providers.codex.command.push("more".into());
    assert_eq!(display_settings(&settings), Display::Plain);
    let mut settings = Settings::default();
    settings.dialogs.rules.remove("directory-access");
    assert_eq!(display_settings(&settings), Display::Plain);
    settings.dialogs.rules.insert(
        "directory-access".into(),
        DialogRule { enabled: false, ..DialogRule::default() },
    );
    assert_eq!(display_settings(&settings), Display::Plain);
    settings.dialogs.rules.insert("directory-access".into(), DialogRule::default());
    assert_eq!(display_settings(&settings), Display::DefaultFile);
    settings.dialogs.rules.insert("another".into(), DialogRule::default());
    assert_eq!(display_settings(&settings), Display::Plain);
}

#[test]
fn paths_lie_in_their_directories() {
    let paths = Paths::discover("/c/config.toml".into(), "/c", None, "/s/");
    assert_eq!(paths.config_file, "/c/config.toml");
    assert_eq!(paths.watchlist_file, "/c/watchlist.json");
    assert_eq!(paths.state_file, "/s/state.json");
    assert_eq!(paths.control_state_file, "/s/control.json");
    assert_eq!(paths.event_log_file, "/s/events.jsonl");
    assert_eq!(paths.retry_operations_file, "/s/retry-operations.json");
    assert_eq!(paths.lock_file, "/s/watchcat.lock");
    assert_eq!(paths.socket_file, "/s/watchcat.sock");
    let paths = Paths::discover("/c/config.toml".into(), "/c", Some("/w.json".into()), "/s");
    assert_eq!(paths.watchlist_file, "/w.json");
}
