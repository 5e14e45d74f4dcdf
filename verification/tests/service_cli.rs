use watchcat::cli::commands::{
    added_line, dialog_table, find_policy, interrupted_line, log_table, offline_value, online_line,
    policies_in, policy_detail_table, policy_table, removed_line, search_table, sent_line,
    shown_session, target_table, value_table, PolicyCommand, SessionCommand,
};
use watchcat::cli::{
    changes_something, dialog_row, in_category, log_row, message_input, object_rows, parse_duration,
    parse_positive_usize, path_value, policy_headers, policy_row, require_condition, table,
    DurationRefusal, NumberRefusal,
};
use watchcat::config::{join, Paths, PolicyOverride, Settings};
use watchcat::json::Json;
use watchcat::models::{BackoffKind, PolicyAction, SessionLog, TrackingSource, WatchTarget};
use watchcat::os_permissions::events::Event;
use watchcat::service::{
    call_words, definition_path, is_loaded, label, launchd_definition, run, service_environment,
    systemd_definition, Loaded, ServiceCommand, ServiceDefinition, ServiceStep, Supervisor,
    SupervisorCall,
};
use watchcat::time::Timestamp;

fn json(text: &str) -> Json {
    Json::from_bytes(&text.as_bytes().to_vec()).unwrap()
}

fn row(cells: &[&str]) -> Vec<String> {
    cells.iter().map(|cell| cell.to_string()).collect()
}

#[test]
fn tables_fit_their_cells() {
    let lines = table(&vec!["A", "LONG"], &vec![row(&["wide", "x"]), row(&["ö"])]);
    assert_eq!(lines, ["A     LONG", "----  ----", "wide  x   ", "ö   "]);
    let long = "x".repeat(80);
    let lines = table(&vec!["A"], &vec![row(&[&long])]);
    assert_eq!(lines[2], format!("{}…", "x".repeat(71)));
    assert_eq!(table(&vec!["A"], &Vec::new()), ["A", "-"]);
}

#[test]
fn numbers_are_positive() {
    assert_eq!(parse_positive_usize("12"), Ok(12));
    assert_eq!(parse_positive_usize("+12"), Ok(12));
    assert_eq!(parse_positive_usize("0"), Err(NumberRefusal::Zero));
    for refused in ["", "x", "-1", "+", "18446744073709551616"] {
        assert_eq!(parse_positive_usize(refused), Err(NumberRefusal::NotANumber));
    }
    assert_eq!(parse_positive_usize("18446744073709551615"), Ok(usize::MAX));
}

#[test]
fn durations_have_units() {
    let seconds = |text: &str| parse_duration(text).unwrap();
    assert_eq!(seconds(" 15s "), 15);
    assert_eq!(seconds("5m"), 300);
    assert_eq!(seconds("2h"), 7_200);
    assert_eq!(seconds("9"), 9);
    assert!(matches!(parse_duration("5ms"), Err(DurationRefusal::TooShort)));
    assert!(matches!(parse_duration("0s"), Err(DurationRefusal::TooShort)));
    assert!(matches!(parse_duration("xs"), Err(DurationRefusal::NotANumber(n)) if n == "x"));
    assert!(matches!(parse_duration("5124095576030432h"), Err(DurationRefusal::TooLong)));
    assert_eq!(seconds("5124095576030431h"), 18_446_744_073_709_551_600);
}

#[test]
fn messages_say_something() {
    assert_eq!(message_input(" go \n").as_deref(), Some("go"));
    assert_eq!(message_input(" \n"), None);
}

#[test]
fn conditions_must_be_known() {
    assert_eq!(require_condition("network.timeout"), Ok(()));
    let error = require_condition("made.up").unwrap_err();
    assert!(error.contains("unknown policy condition: made.up"));
    assert!(!changes_something(&PolicyOverride::default()));
    let change = PolicyOverride { max_attempts: Some(2), ..PolicyOverride::default() };
    assert!(changes_something(&change));
}

#[test]
fn policies_are_shown_by_category() {
    let settings = Settings::default();
    let overloaded = settings.policy("capacity.model_overloaded");
    assert!(in_category(&overloaded, Some("capacity")));
    assert!(!in_category(&overloaded, Some("capability")));
    assert!(in_category(&overloaded, None));
    assert_eq!(policy_headers().len(), 5);
    let skipped = settings.policy("auth.invalid");
    assert_eq!(policy_row(&skipped), row(&["auth.invalid", "skip", "-", "-", "no"]));
    let kept = policies_in(settings.policies(), Some("capacity"));
    assert!(kept.iter().all(|policy| policy.condition.starts_with("capacity.")));
    assert!(!kept.is_empty());
    let lines = policy_table(&kept);
    assert!(lines.iter().any(|line| line.contains("capacity.model_overloaded")));
    assert!(!lines.iter().any(|line| line.contains("capability.model_unavailable")));
    let at = find_policy(&kept, "capacity.model_overloaded").unwrap();
    assert_eq!(kept[at].condition, "capacity.model_overloaded");
    assert_eq!(find_policy(&kept, "auth.invalid"), None);
    let details = policy_detail_table(&skipped);
    assert_eq!(details.len(), 11);
    assert!(details[2].starts_with("condition      auth.invalid"));
}

#[test]
fn session_commands_name_their_requests() {
    let list = SessionCommand::List { provider: None, limit: 50 };
    assert_eq!(list.method(), "sessions.list");
    assert_eq!(list.params().to_bytes(), br#"{"limit":50,"provider":null}"#);
    assert!(!list.needs_revision());
    let show =
        SessionCommand::Show { provider: "codex".into(), session_id: "s".into() };
    assert_eq!(show.method(), "sessions.search");
    assert_eq!(show.params().to_bytes(), br#"{"limit":1,"provider":"codex","query":"s"}"#);
    let add = SessionCommand::Add {
        provider: "codex".into(),
        session_id: "s".into(),
        label: Some("l".into()),
        validate: false,
    };
    assert_eq!(add.method(), "sessions.add");
    assert!(add.needs_revision());
    assert_eq!(
        add.params().to_bytes(),
        br#"{"label":"l","provider":"codex","session_id":"s","validate":false}"#
    );
    let logs = SessionCommand::Logs {
        provider: "codex".into(),
        session_id: "s".into(),
        limit: 20,
        category: Some("network".into()),
    };
    assert_eq!(
        logs.params().to_bytes(),
        br#"{"category":"network","limit":20,"provider":"codex","session_id":"s"}"#
    );
    let search = SessionCommand::Search {
        provider: "codex".into(),
        limit: 1,
        query: "q".into(),
        cursor: Some("c".into()),
    };
    assert_eq!(search.params().get_str("cursor"), Some("c"));
    let send = SessionCommand::Send {
        provider: "codex".into(),
        session_id: "s".into(),
        message: "m".into(),
    };
    assert_eq!(send.method(), "sessions.send");
    assert_eq!(send.params().get_str("message"), Some("m"));
    let remove = SessionCommand::Remove { provider: "codex".into(), session_id: "s".into() };
    assert_eq!(remove.method(), "sessions.remove");
    let interrupt = SessionCommand::Interrupt { provider: "codex".into(), session_id: "s".into() };
    assert_eq!(interrupt.params().to_bytes(), br#"{"provider":"codex","session_id":"s"}"#);
}

#[test]
fn policy_commands_name_their_requests() {
    assert_eq!(PolicyCommand::List.method(), "config.policies.list");
    assert_eq!(PolicyCommand::List.params().to_bytes(), b"{}");
    assert!(!PolicyCommand::List.needs_revision());
    let change = PolicyCommand::Change {
        condition: "network.timeout".into(),
        policy: PolicyOverride {
            action: Some(PolicyAction::Retry),
            backoff: Some(BackoffKind::Exponential),
            initial_delay_seconds: Some(15),
            max_delay_seconds: None,
            max_attempts: Some(8),
            prompt: None,
        },
    };
    assert_eq!(change.method(), "config.policies.set");
    assert!(change.needs_revision());
    assert_eq!(
        change.params().get("policy").unwrap().to_bytes(),
        br#"{"action":"retry","backoff":"exponential","initial_delay_seconds":15,"max_attempts":8,"max_delay_seconds":null,"prompt":null}"#
    );
    let reset = PolicyCommand::Reset { condition: None };
    assert_eq!(reset.params().to_bytes(), b"{}");
    let one = PolicyCommand::Reset { condition: Some("auth.invalid".into()) };
    assert_eq!(one.params().get_str("condition"), Some("auth.invalid"));
}

#[test]
fn answers_are_shown() {
    let answer = json(
        r#"{"items":[{"watched":true,"session":{"id":"a","state":"idle","title":"T"}},{}]}"#,
    );
    let lines = search_table(&answer);
    assert_eq!(lines.len(), 4);
    assert_eq!(lines[2], "*      a        idle   T    ");
    assert_eq!(shown_session(&answer).unwrap().get_str("id"), Some("a"));
    assert!(shown_session(&json(r#"{"items":[]}"#)).is_none());
    assert_eq!(search_table(&json("{}")).len(), 2);
    let receipt = json(r#"{"provider":"codex","session_id":"s"}"#);
    assert_eq!(sent_line(&receipt), br#"Sent message to "codex":"s""#);
    assert_eq!(interrupted_line(&json("{}")), b"Interrupted null:null");
    assert_eq!(added_line(&json(r#"{"added":true}"#)), "Watching");
    assert_eq!(added_line(&json(r#"{"added":false}"#)), "Already watching");
    assert_eq!(removed_line(&json(r#"{"removed":true}"#)), "Removed");
    assert_eq!(removed_line(&json("{}")), "Excluded from automatic discovery");
    assert_eq!(
        online_line(&json(r#"{"watched":3,"attention":1}"#)),
        "Watchcat service online · 3 sessions · 1 need attention".as_bytes()
    );
    assert_eq!(
        offline_value("down").to_bytes(),
        br#"{"error":"down","service_online":false}"#
    );
}

fn log(timestamp: Option<Timestamp>) -> SessionLog {
    SessionLog {
        timestamp,
        provider: "codex".into(),
        session_id: "s".into(),
        source: "watchcat".into(),
        kind: "retry.sent".into(),
        role: None,
        turn_id: None,
        condition: None,
        message: "sent".into(),
        metadata: Json::Null,
    }
}

#[test]
fn times_are_shown_where_they_can_be() {
    let time = Timestamp { seconds: 1_788_912_000, nanos: 500_000_000 };
    let cells = log_row(&log(Some(time))).unwrap();
    assert_eq!(cells, row(&["2026-09-09T00:00:00.500+00:00", "watchcat", "retry.sent", "-", "sent"]));
    assert_eq!(log_row(&log(None)).unwrap()[0], "-");
    assert!(log_row(&log(Some(Timestamp { seconds: i64::MAX, nanos: 0 }))).is_none());
    assert!(log_table(&vec![log(Some(Timestamp { seconds: i64::MAX, nanos: 0 }))]).is_none());
    assert_eq!(log_table(&vec![log(None)]).unwrap().len(), 3);
    let target = WatchTarget {
        source: TrackingSource::Manual,
        provider: "codex".into(),
        session_id: "s".into(),
        label: None,
        title: Some("Title".into()),
        added_at: time,
        last_activity_at: Some(Timestamp { seconds: 1_788_912_000, nanos: 0 }),
    };
    let lines = target_table(&vec![target]).unwrap();
    assert!(lines[2].contains("recovery"));
    assert!(lines[2].contains("2026-09-09T00:00:00+00:00"));
    assert!(lines[2].contains("Title"));
}

#[test]
fn dialog_events_are_shown_as_a_table() {
    let mut event = Event {
        timestamp: Timestamp { seconds: 1_788_912_000, nanos: 0 },
        kind: "click.confirmed".into(),
        pid: Some(7),
        app: "Helper".into(),
        rule: Some("directory-access".into()),
        button: None,
        detail: "closed".into(),
    };
    let cells = dialog_row(&event).unwrap();
    assert_eq!(
        cells,
        row(&[
            "2026-09-09T00:00:00+00:00",
            "click.confirmed",
            "Helper",
            "directory-access",
            "-",
            "closed",
        ])
    );
    let lines = dialog_table(&vec![event.clone()]).unwrap();
    assert_eq!(lines.len(), 3);
    assert_eq!(
        lines[0].split_whitespace().collect::<Vec<_>>(),
        ["TIME", "EVENT", "APP", "RULE", "BUTTON", "DETAIL"]
    );
    assert!(lines[2].contains("directory-access"));
    event.timestamp.seconds = i64::MAX;
    assert!(dialog_row(&event).is_none());
    assert!(dialog_table(&vec![event]).is_none());
}

#[test]
fn paths_are_discovered_and_shown() {
    let paths = Paths::discover("/c/config.toml".into(), "/c", None, "/s");
    assert_eq!(paths.event_log_file, "/s/events.jsonl");
    assert_eq!(paths.socket_file, "/s/watchcat.sock");
    let value = path_value(&paths);
    assert_eq!(value.get_str("config"), Some("/c/config.toml"));
    assert_eq!(value.get_str("events"), Some("/s/events.jsonl"));
    let rows = object_rows(&value).unwrap();
    assert_eq!(rows.len(), 7);
    assert_eq!(rows[0], row(&["config", "/c/config.toml"]));
    assert!(object_rows(&Json::Null).is_none());
    assert_eq!(value_table(&value).unwrap().len(), 9);
    assert!(value_table(&Json::Null).is_none());
    let chosen = Paths::discover("c".into(), "/c", Some("/w.json".into()), "/s");
    assert_eq!(chosen.watchlist_file, "/w.json");
    assert_eq!(join("/a/", "b"), "/a/b");
    assert_eq!(join("/a", "/b"), "/b");
    assert_eq!(join("", "b"), "b");
}

#[test]
fn installing_checks_before_it_writes() {
    let steps = run(ServiceCommand::Install { dry_run: false }, Supervisor::Systemd);
    assert_eq!(
        steps,
        [
            ServiceStep::RequireAbsent,
            ServiceStep::RequireSettings,
            ServiceStep::WriteDefinition,
            ServiceStep::Call(SupervisorCall::SystemctlReload),
            ServiceStep::Call(SupervisorCall::SystemctlEnable),
        ]
    );
    assert_eq!(
        run(ServiceCommand::Install { dry_run: true }, Supervisor::Launchd),
        [ServiceStep::ShowDefinition]
    );
    assert!(run(ServiceCommand::Status { json: false }, Supervisor::Launchd).is_empty());
}

#[test]
fn restart_starts_an_installed_but_unloaded_service() {
    assert_eq!(
        run(ServiceCommand::Restart, Supervisor::Launchd),
        [
            ServiceStep::EndLoaded,
            ServiceStep::RequireInstalled,
            ServiceStep::Call(SupervisorCall::LaunchctlEnable),
            ServiceStep::Call(SupervisorCall::LaunchctlBootstrap),
        ]
    );
    assert_eq!(is_loaded(false, Some(113)), Loaded::No);
    assert_eq!(is_loaded(false, Some(1)), Loaded::Unknown);
    assert_eq!(is_loaded(true, Some(0)), Loaded::Yes);
    assert_eq!(
        run(ServiceCommand::Uninstall, Supervisor::Systemd)[2],
        ServiceStep::RemoveDefinition
    );
    assert_eq!(run(ServiceCommand::Stop, Supervisor::Launchd), [ServiceStep::EndLoaded]);
    assert_eq!(run(ServiceCommand::Start, Supervisor::Systemd).len(), 2);
}

#[test]
fn supervisors_are_called_in_their_words() {
    assert_eq!(
        call_words(SupervisorCall::LaunchctlBootstrap, 501, "/d.plist"),
        row(&["launchctl", "bootstrap", "gui/501", "/d.plist"])
    );
    assert_eq!(
        call_words(SupervisorCall::LaunchctlPrint, 501, ""),
        row(&["launchctl", "print", "gui/501/ai.watchcat.watchcatd"])
    );
    assert_eq!(
        call_words(SupervisorCall::SystemctlDisable, 0, ""),
        row(&["systemctl", "--user", "disable", "--now", "watchcatd.service"])
    );
    assert_eq!(label(Supervisor::Systemd), "watchcatd.service");
    assert_eq!(
        definition_path(Supervisor::Launchd, "/home/u", "/home/u/.config"),
        "/home/u/Library/LaunchAgents/ai.watchcat.watchcatd.plist"
    );
    assert_eq!(
        definition_path(Supervisor::Systemd, "/home/u", "/home/u/.config"),
        "/home/u/.config/systemd/user/watchcatd.service"
    );
}

fn definition(config: &str) -> ServiceDefinition {
    ServiceDefinition {
        daemon: "/bin/watchcatd".into(),
        config_file: config.into(),
        state_dir: "/s".into(),
        environment: service_environment(
            "/usr/bin".into(),
            "/s".into(),
            "/s/watch & <list>.json".into(),
            None,
            Some("/codex".into()),
        ),
    }
}

#[test]
fn property_lists_are_escaped() {
    let body = launchd_definition(&definition("/config & <custom>.toml")).unwrap();
    assert!(body.contains("<string>/config &amp; &lt;custom&gt;.toml</string>\n"));
    assert!(body.contains(
        "<key>WATCHCAT_WATCHLIST</key><string>/s/watch &amp; &lt;list&gt;.json</string>\n"
    ));
    assert!(body.contains("<key>CODEX_HOME</key><string>/codex</string>\n"));
    assert!(!body.contains("CONFIG_DIR"));
    assert!(body.contains("<string>/s/watchcatd.err.log</string>"));
    assert!(launchd_definition(&definition("a\nb")).is_none());
}

#[test]
fn units_are_quoted() {
    let body = systemd_definition(&definition("/a\"b\\c%d$e")).unwrap();
    assert!(body.contains(
        "ExecStart=\"/bin/watchcatd\" \"--config\" \"/a\\\"b\\\\c%%d$$e\"\n"
    ));
    assert!(body.contains("Environment=\"PATH=/usr/bin\"\n"));
    assert!(body.ends_with("\n[Install]\nWantedBy=default.target\n"));
    assert!(systemd_definition(&definition("a\u{7f}b")).is_none());
}
