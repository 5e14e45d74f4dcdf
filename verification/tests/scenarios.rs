use watchcat::cli::commands::{
    added_line, find_policy, policies_in, policy_table, removed_line, PolicyCommand,
    SessionCommand,
};
use watchcat::cli::{
    changes_something, message_input, parse_duration, parse_positive_usize, path_value,
    require_condition,
};
use watchcat::config::{
    check_document, initialize_config, Paths, PolicyOverride, ResolvedPolicy, Settings,
    DEFAULT_CONFIG,
};
use watchcat::daemon::connection::list_targets;
use watchcat::daemon::control::{
    check_change, find_method, Change, ControlMethod, ControlRequest, Plan, Reply, WatchcatDaemon,
};
use watchcat::daemon::reconcile::ProviderScan;
use watchcat::json::Json;
use watchcat::models::{
    BackoffKind, PolicyAction, Session, SessionState, TrackingSource, WatchTarget,
};
use watchcat::protocol::{PolicyUpdate, SessionRef, WatchAdd};
use watchcat::providers::ProviderKind;
use watchcat::service::{
    is_loaded, launchd_definition, run, service_environment, Loaded, ServiceCommand,
    ServiceDefinition, ServiceStep, Supervisor, SupervisorCall,
};
use watchcat::state::control::ControlStateStore;
use watchcat::state::runtime::RecoveryMetrics;
use watchcat::state::watchlist::WatchlistStore;
use watchcat::textmap::TextMap;
use watchcat::time::Timestamp;

fn at(seconds: i64) -> Timestamp {
    Timestamp { seconds, nanos: 0 }
}

fn daemon_at(watchlist: WatchlistStore) -> WatchcatDaemon {
    WatchcatDaemon {
        settings: Settings::default(),
        watchlist,
        control: ControlStateStore::load("/s/control.json".into(), None).unwrap(),
        attention_target_keys: Vec::new(),
        metrics: RecoveryMetrics::default(),
        last_sweep_at: None,
        config_modified: None,
    }
}

fn daemon() -> WatchcatDaemon {
    daemon_at(WatchlistStore::new("/c/watchlist.json".into()))
}

fn perform(service: &mut WatchcatDaemon, request: ControlRequest, now: Timestamp) -> Reply {
    let Plan { reply, change } = service
        .plan(request, Some(service.revision()), now)
        .unwrap();
    if let Some(change) = change {
        service.bump_revision(true).unwrap();
        check_change(&change).unwrap();
        service.commit(change, true);
    }
    reply
}

fn session(id: &str) -> SessionRef {
    SessionRef {
        provider: "codex".into(),
        session_id: id.into(),
    }
}

fn add(id: &str) -> ControlRequest {
    ControlRequest::AddSession(WatchAdd {
        session: session(id),
        label: None,
        protected: false,
        validate: false,
    })
}

fn added(reply: Reply) -> Json {
    match reply {
        Reply::Added { added, .. } => Json::object().with("added", Json::Bool(added)).build(),
        other => panic!("not an addition: {other:?}"),
    }
}

fn removed(reply: Reply) -> Json {
    match reply {
        Reply::Removed(removed) => Json::object().with("removed", Json::Bool(removed)).build(),
        other => panic!("not a removal: {other:?}"),
    }
}

fn listed(service: &WatchcatDaemon) -> Vec<String> {
    service
        .watchlist
        .list()
        .into_iter()
        .map(|target| target.session_id)
        .collect()
}

#[test]
fn watchlist_commands_are_grouped_and_idempotent() {
    let command = SessionCommand::Add {
        provider: "codex".into(),
        session_id: "session-1".into(),
        label: None,
        validate: false,
    };
    assert_eq!(find_method(command.method()), Some(ControlMethod::AddSession));
    let mut service = daemon();
    let first = perform(&mut service, add("session-1"), at(100));
    assert_eq!(added_line(&added(first)), "Watching");
    let second = perform(&mut service, add("session-1"), at(200));
    assert_eq!(added_line(&added(second)), "Already watching");
    assert_eq!(listed(&service), ["session-1"]);
    let remove = || ControlRequest::RemoveSession(session("session-1"));
    let first = perform(&mut service, remove(), at(300));
    assert_eq!(removed_line(&removed(first)), "Removed");
    let second = perform(&mut service, remove(), at(400));
    assert_eq!(
        removed_line(&removed(second)),
        "Excluded from automatic discovery"
    );
}

#[test]
fn membership_and_manual_exclusion_survive_restart() {
    let mut service = daemon();
    perform(&mut service, add("session-1"), at(100));
    perform(
        &mut service,
        ControlRequest::RemoveSession(session("session-1")),
        at(200),
    );
    let stored = service.watchlist.document.clone();
    let store = WatchlistStore::load("/c/watchlist.json".into(), stored).unwrap();
    let restarted = daemon_at(store);
    assert!(listed(&restarted).is_empty());
    let excluded = &restarted.watchlist.document.excluded;
    assert_eq!(excluded.len(), 1);
    assert_eq!(excluded.key_at(0), "codex:session-1");
}

fn unchanged() -> PolicyOverride {
    PolicyOverride::default()
}

fn set_policy(condition: &str, policy: PolicyOverride) -> ControlRequest {
    ControlRequest::SetPolicy(PolicyUpdate {
        condition: condition.into(),
        policy,
    })
}

fn policies(service: &mut WatchcatDaemon) -> Vec<ResolvedPolicy> {
    match perform(service, ControlRequest::ListPolicies, at(0)) {
        Reply::Policies(policies) => policies,
        other => panic!("not a list of policies: {other:?}"),
    }
}

fn policy(service: &mut WatchcatDaemon, condition: &str) -> ResolvedPolicy {
    let mut policies = policies(service);
    let place = find_policy(&policies, condition).unwrap();
    policies.swap_remove(place)
}

#[test]
fn policy_commands_discover_edit_and_reset_conditions() {
    let mut service = daemon();
    assert_eq!(
        find_method(PolicyCommand::List.method()),
        Some(ControlMethod::ListPolicies)
    );
    let table = policy_table(&policies_in(policies(&mut service), Some("capacity"))).join("\n");
    assert!(table.contains("capacity.model_overloaded"));
    assert!(!table.contains("capability.model_unavailable"));
    let edited = PolicyOverride {
        action: Some(PolicyAction::Retry),
        backoff: Some(BackoffKind::Exponential),
        initial_delay_seconds: Some(parse_duration("15s").unwrap()),
        max_delay_seconds: Some(parse_duration("5m").unwrap()),
        max_attempts: Some(parse_positive_usize("8").unwrap()),
        prompt: Some("Continue {model}, attempt {attempt}/{max_attempts}".into()),
    };
    let condition = "capacity.model_overloaded";
    perform(&mut service, set_policy(condition, edited), at(0));
    let shown = policy(&mut service, condition);
    assert_eq!(shown.max_attempts, 8);
    assert_eq!(shown.max_delay_seconds, 300);
    assert!(shown.customized);
    let reset = ControlRequest::ResetPolicies(Some(condition.into()));
    perform(&mut service, reset, at(0));
    assert!(!policy(&mut service, condition).customized);
    for action in [PolicyAction::Skip, PolicyAction::Retry] {
        let change = PolicyOverride {
            action: Some(action),
            ..unchanged()
        };
        perform(&mut service, set_policy("network.timeout", change), at(0));
    }
    assert_eq!(policy(&mut service, "network.timeout").max_attempts, 5);
}

#[test]
fn rejects_unknown_conditions_and_empty_policy_updates() {
    assert!(require_condition("made.up")
        .unwrap_err()
        .contains("unknown policy condition"));
    let service = daemon();
    let refused = service.plan(set_policy("made.up", unchanged()), None, at(0));
    assert!(refused
        .unwrap_err()
        .message()
        .contains("unknown policy condition"));
    assert!(require_condition("network.timeout").is_ok());
    assert!(!changes_something(&unchanged()));
    let change = PolicyOverride {
        action: Some(PolicyAction::Skip),
        max_attempts: Some(2),
        ..unchanged()
    };
    assert!(changes_something(&change));
    let plan = service
        .plan(set_policy("network.timeout", change), None, at(0))
        .unwrap();
    let error = check_change(&plan.change.unwrap()).unwrap_err();
    assert!(error
        .message()
        .contains("cannot set retry fields when action is skip"));
}

#[test]
fn unsupported_v1_configuration_is_rejected() {
    let error = check_document("version = 1\n").unwrap().unwrap_err();
    assert!(error.message().contains("supports version 4"));
}

#[test]
fn obsolete_or_unversioned_configuration_is_rejected_without_rewriting() {
    for data in [
        "version = 2\n",
        "version = 3\n",
        "version = 5\n",
        "[engine]\npoll_interval_seconds = 10\n",
    ] {
        let error = check_document(data).unwrap().unwrap_err();
        assert!(error.message().contains("supports version 4"));
    }
    assert!(check_document("version = 4\n").unwrap().is_ok());
}

#[test]
fn session_send_is_grouped_and_rejects_empty_stdin() {
    assert_eq!(message_input("  \n"), None);
    let command = SessionCommand::Send {
        provider: "codex".into(),
        session_id: "session-1".into(),
        message: message_input(" go on \n").unwrap(),
    };
    assert_eq!(command.method(), "sessions.send");
    assert_eq!(command.params().get_str("message"), Some("go on"));
}

#[test]
fn initializes_valid_configuration_and_reports_native_paths() {
    let text = initialize_config("/config/config.toml", false, false).unwrap();
    assert_eq!(text, DEFAULT_CONFIG);
    assert!(Settings::default().validate().is_ok());
    let paths = Paths::discover("/config/config.toml".into(), "/config", None, "/state");
    let shown = path_value(&paths);
    assert!(shown.get_str("config").unwrap().ends_with("config/config.toml"));
    assert!(shown.get_str("events").unwrap().ends_with("state/events.jsonl"));
}

#[test]
fn default_config_is_valid() {
    let document: toml::Table = DEFAULT_CONFIG.parse().unwrap();
    let number = |section: &str, name: &str| document[section][name].as_integer().unwrap();
    let settings = Settings::default();
    assert!(check_document(DEFAULT_CONFIG).unwrap().is_ok());
    assert_eq!(
        number("engine", "poll_interval_seconds"),
        settings.engine.poll_interval_seconds as i64
    );
    assert_eq!(
        number("engine", "attempt_window_seconds"),
        settings.engine.attempt_window_seconds
    );
    assert_eq!(
        number("engine", "log_retention"),
        settings.engine.log_retention as i64
    );
    assert_eq!(
        number("lifecycle", "stale_after_seconds"),
        settings.lifecycle.stale_after_seconds
    );
    let codex = &document["providers"]["codex"];
    assert_eq!(
        codex["enabled"].as_bool(),
        Some(settings.providers.codex.enabled)
    );
    let command = codex["command"].as_array().unwrap();
    let words = command
        .iter()
        .map(|word| word.as_str().unwrap())
        .collect::<Vec<_>>();
    assert_eq!(words, settings.providers.codex.command);
    assert!(settings.validate().is_ok());
}

#[test]
fn service_preview_is_a_valid_standalone_launchagent_and_does_not_write_state() {
    let steps = run(
        ServiceCommand::Install { dry_run: true },
        Supervisor::Launchd,
    );
    assert_eq!(steps, [ServiceStep::ShowDefinition]);
    let definition = ServiceDefinition {
        daemon: "/bin/watchcatd".into(),
        config_file: "/d/config & <custom>.toml".into(),
        state_dir: "/d/state".into(),
        environment: service_environment(
            "/bin".into(),
            "/d/state".into(),
            "/d/watch & <list>.json".into(),
            None,
            None,
        ),
    };
    let text = launchd_definition(&definition).unwrap();
    assert!(text.contains(
        "<array>\n<string>/bin/watchcatd</string>\n<string>--config</string>\n\
         <string>/d/config &amp; &lt;custom&gt;.toml</string>\n</array>"
    ));
    assert!(text.contains(
        "<key>WATCHCAT_WATCHLIST</key><string>/d/watch &amp; &lt;list&gt;.json</string>"
    ));
    assert!(text.contains("<key>WATCHCAT_STATE_DIR</key><string>/d/state</string>"));
}

#[test]
fn restart_starts_an_installed_but_unloaded_launchagent() {
    let steps = run(ServiceCommand::Restart, Supervisor::Launchd);
    assert_eq!(steps[0], ServiceStep::EndLoaded);
    assert_eq!(is_loaded(false, Some(113)), Loaded::No);
    assert_eq!(
        steps.last(),
        Some(&ServiceStep::Call(SupervisorCall::LaunchctlBootstrap))
    );
}

fn transcript_provider() -> String {
    format!("{:?}", ProviderKind::Claude).to_lowercase()
}

fn scan(updated: i64) -> Vec<ProviderScan> {
    vec![ProviderScan {
        provider: transcript_provider(),
        sessions: Some(vec![found(updated)]),
        complete: true,
    }]
}

fn found(updated: i64) -> Session {
    Session {
        provider: transcript_provider(),
        id: "c61e6439-6107-4a88-970f-94d548564049".into(),
        title: "c61e6439-6107-4a88-970f-94d548564049".into(),
        state: SessionState::Unknown,
        updated_at: Some(at(updated)),
        metadata: Json::Null,
    }
}

fn sweep(service: &mut WatchcatDaemon, updated: i64, now: i64) -> Option<Change> {
    service.plan_sweep(&scan(updated), &TextMap::new(), at(now))
}

#[test]
fn discovers_new_claude_sessions_and_honors_manual_exclusion() {
    let id = "c61e6439-6107-4a88-970f-94d548564049";
    let mut service = daemon();
    let discovered = sweep(&mut service, 1_000, 1_001).unwrap();
    assert!(service.changes_membership(&discovered));
    service.commit(discovered, true);
    assert_eq!(listed(&service), [id]);
    let again = sweep(&mut service, 1_002, 1_003).unwrap();
    assert!(!service.changes_membership(&again));
    service.commit(again, true);
    assert!(sweep(&mut service, 1_002, 1_004).is_none());
    let excluded = SessionRef {
        provider: transcript_provider(),
        session_id: id.into(),
    };
    perform(&mut service, ControlRequest::RemoveSession(excluded), at(1_005));
    assert!(sweep(&mut service, 1_006, 1_007).is_none());
    assert!(listed(&service).is_empty());
}

fn target(provider: &str, id: &str) -> WatchTarget {
    WatchTarget {
        source: TrackingSource::Manual,
        provider: provider.into(),
        session_id: id.into(),
        label: None,
        title: None,
        added_at: at(0),
        last_activity_at: None,
    }
}

#[test]
fn lists_are_narrowed_to_a_provider_and_a_limit() {
    let targets = vec![target("codex", "a"), target("other", "b"), target("codex", "c")];
    let ids = |provider: Option<&str>, limit: Option<usize>| {
        list_targets(&targets, provider, limit)
            .into_iter()
            .map(|target| target.session_id)
            .collect::<Vec<_>>()
    };
    assert_eq!(ids(None, None), ["a", "b", "c"]);
    assert_eq!(ids(Some("codex"), None), ["a", "c"]);
    assert_eq!(ids(Some("codex"), Some(1)), ["a"]);
    assert_eq!(ids(None, Some(2)), ["a", "b"]);
    assert_eq!(ids(None, Some(9)).len(), 3);
    assert!(ids(Some("unknown"), None).is_empty());
    assert!(ids(None, Some(0)).is_empty());
}

#[test]
fn settings_change_no_membership() {
    let service = daemon();
    assert!(!service.changes_membership(&Change::Settings(Settings::default())));
}
