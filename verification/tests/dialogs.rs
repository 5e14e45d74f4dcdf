use std::collections::HashMap;

use watchcat::os_permissions::applications::{AppFacts, Monitor};
use watchcat::os_permissions::dialogs::{
    abandon, confirms, forget_observations, intent, meet, settle, Consideration, Dialog, Press,
};
use watchcat::os_permissions::events::{complete_length, path, read, Appended, Event, Log};
use watchcat::os_permissions::monitor::{
    attempt_detail, attempt_kind, discovered_detail, observed_detail, process_events,
    process_subscriptions, reset_failed, retry_after, AxError,
};
use watchcat::os_permissions::rules::{
    check_rule, DialogError, DialogRule, DialogSettings, RuleProblem, DIRECTORY_RULE,
};
use watchcat::os_permissions::window::{
    Children, ElementFacts, Enabled, Inspection, MatchedButton, Next, Skip,
};
use watchcat::os_permissions::{is_allow_button, is_file_access_request, start, status, Status};
use watchcat::time::Timestamp;

#[test]
fn distinguishes_directory_consent_from_other_permissions_and_errors() {
    for text in [
        "“node” would like to access files on a removable volume.",
        "“Terminal” would like to access files in your Downloads folder.",
        "“python3” wants to access files on a network volume.",
        "“node”想要访问可移除宗卷上的文件。",
        "“Terminal”想要访问“下载”文件夹中的文件。",
    ] {
        assert!(is_file_access_request(text), "{text}");
    }
    for text in [
        "“Zoom” would like to access the camera.",
        "“Terminal” wants to control “System Events”.",
        "“node”想要访问您的通讯录。",
        "Cannot access files on a removable volume. Allow retry?",
        "Allow this application to make changes to your computer?",
        "“Downloads Folder” would like to access the camera.",
        "“Example would like to access files on a removable volume.” would like to access the camera.",
        "“Example” would like to access the camera.\nThis app would like to access files on a removable volume.",
        "“Example” would like to access files on a removable volume. Also grant camera access.",
        "“Example想要访问下载文件夹”想要访问您的通讯录。",
        "“Example”想要访问您的通讯录。\n此应用想要访问下载文件夹中的文件。",
        "“下载工具”想要访问您的通讯录。",
        "“Example” would like to access the camera.\nChoose a folder to save recordings.",
    ] {
        assert!(!is_file_access_request(text), "{text}");
    }
    assert!(is_allow_button("允许"));
    assert!(!is_allow_button("Don't Allow"));
    assert!(!is_allow_button("不允许"));
    assert!(!is_allow_button("Allow Always"));
}

#[test]
fn application_names_do_not_decide() {
    let tails = [
        " would like to access files in your Documents folder.",
        " would like to control this computer.",
        "",
    ];
    let names = ["node", "", "would like to access a network volume", "\"「x」"];
    for (at, tail) in tails.iter().enumerate() {
        for name in names {
            let heading = format!("“{name}”{tail}");
            assert_eq!(is_file_access_request(&heading), at == 0, "{heading}");
        }
    }
    assert!(!is_file_access_request(
        "“a\nb” would like to access files in your Documents folder."
    ));
}

#[test]
fn quotes_and_endings_of_headings_vary() {
    assert!(is_file_access_request("\"node\" WANTS TO ACCESS a network volume..."));
    assert!(is_file_access_request("  「node」希望访问可移动宗卷上的文件  "));
    assert!(!is_file_access_request("node wants to access a network volume"));
    assert!(is_allow_button(" OK "));
    assert!(is_allow_button("ALLOW"));
}

#[test]
fn lifecycle_events_reset_only_relevant_failed_processes() {
    let mut failed = HashMap::from([(100, 4), (200, 4)]);
    reset_failed(&mut failed, None, false);
    assert_eq!(failed.len(), 2);
    reset_failed(&mut failed, Some(100), false);
    assert!(!failed.contains_key(&100));
    assert_eq!(failed.get(&200), Some(&4));
    reset_failed(&mut failed, None, true);
    assert!(failed.is_empty());
}

fn subscriptions(result: impl Fn(&str) -> AxError) -> Result<Vec<&'static str>, AxError> {
    process_subscriptions(&process_events().into_iter().map(|name| result(name)).collect())
}

#[test]
fn release_regression_transient_subscription_errors_reach_retry_scheduler() {
    assert_eq!(
        subscriptions(|_| AxError::CannotComplete).unwrap_err(),
        AxError::CannotComplete
    );
    assert_eq!(
        subscriptions(|_| AxError::InvalidUIElement).unwrap_err(),
        AxError::InvalidUIElement
    );
    assert_eq!(
        subscriptions(|_| AxError::NotificationUnsupported).unwrap_err(),
        AxError::NotificationUnsupported
    );
    // A transient window-created failure cannot be hidden by a focus-only success.
    assert_eq!(
        subscriptions(|name| if name == "AXWindowCreated" {
            AxError::CannotComplete
        } else {
            AxError::Success
        })
        .unwrap_err(),
        AxError::CannotComplete
    );
    assert_eq!(
        subscriptions(|name| if name == "AXSheetCreated" {
            AxError::NotificationUnsupported
        } else {
            AxError::Success
        })
        .unwrap()
        .len(),
        2
    );
}

#[test]
fn attempts_end_after_the_fourth() {
    assert_eq!(retry_after(1, AxError::CannotComplete), Some(250));
    assert_eq!(retry_after(2, AxError::InvalidUIElement), Some(1_000));
    assert_eq!(retry_after(3, AxError::CannotComplete), Some(3_000));
    assert_eq!(retry_after(4, AxError::CannotComplete), None);
    assert_eq!(retry_after(1, AxError::Other(-1)), None);
    assert_eq!(attempt_detail(2, "Failure"), "AX subscription attempt 2/4: Failure");
    assert_eq!(attempt_kind(true), "process.retry");
    assert_eq!(attempt_kind(false), "process.unavailable");
    assert_eq!(
        observed_detail(&vec!["A".into(), "B".into()]),
        "subscribed: A, B; initial window check"
    );
    assert_ne!(discovered_detail(true), discovered_detail(false));
}

fn application(pid: i32, terminated: bool) -> AppFacts {
    AppFacts {
        pid,
        name: format!("app {pid}"),
        terminated,
        executable: Some("/System/Library/Host".into()),
        bundle: String::new(),
    }
}

fn elsewhere(pid: i32) -> AppFacts {
    AppFacts {
        executable: Some("/opt/host".into()),
        ..application(pid, false)
    }
}

#[test]
fn applications_are_discovered_once() {
    let rules = DialogSettings::default();
    let mut monitor = Monitor::new(false);
    let found = monitor.discover(&rules, &application(7, false)).unwrap();
    assert_eq!(found.note.kind, "process.discovered");
    assert!(found.note.detail.starts_with("initial application snapshot"));
    assert_eq!((found.pid, found.app.as_str()), (Some(7), "app 7"));
    assert!(monitor.discover(&rules, &application(7, true)).is_none());
    assert!(monitor.discover(&rules, &elsewhere(7)).is_none());
    let unknown = AppFacts {
        executable: None,
        ..application(7, false)
    };
    assert!(monitor.discover(&rules, &unknown).is_none());
    let subscribed = Ok(vec!["AXWindowCreated".to_owned()]);
    let (said, delay) = monitor.attach(&application(7, false), 0, &subscribed, "");
    assert_eq!(said.note.kind, "process.observed");
    assert_eq!(delay, None);
    assert!(monitor.discover(&rules, &application(7, false)).is_none());
    let mut current = Status::default();
    monitor.finish(&mut current);
    assert_eq!((current.state.as_str(), current.listening_processes), ("listening", 1));
    let later = monitor.discover(&rules, &application(8, false)).unwrap();
    assert!(later.note.detail.starts_with("new process"));
}

#[test]
fn applications_are_tried_again_and_given_up() {
    let rules = DialogSettings::default();
    let mut monitor = Monitor::new(false);
    let app = application(7, false);
    let busy = Err(AxError::CannotComplete);
    for (previous, delay) in [(0, Some(250)), (1, Some(1_000)), (2, Some(3_000)), (3, None)] {
        let (said, after) = monitor.attach(&app, previous, &busy, "CannotComplete");
        assert_eq!(after, delay);
        assert_eq!(said.note.kind, attempt_kind(delay.is_some()));
        assert!(monitor.discover(&rules, &app).is_none());
        assert_eq!(monitor.retry(7, false, true), Some(previous + 1));
        assert_eq!(monitor.retry(7, false, true), None);
    }
    monitor.attach(&app, 0, &busy, "CannotComplete");
    assert_eq!(monitor.retry(7, true, true), None);
    monitor.attach(&app, 0, &busy, "CannotComplete");
    assert_eq!(monitor.retry(7, false, false), None);
    monitor.attach(&app, 0, &busy, "CannotComplete");
    assert!(monitor.keep_failed(&rules, &app));
    assert!(!monitor.keep_failed(&rules, &application(7, true)));
    assert!(monitor.failed.is_empty());
    monitor.attach(&app, 0, &busy, "CannotComplete");
    monitor.heard(Some(8), false);
    assert_eq!(monitor.failed.len(), 1);
    monitor.heard(Some(7), false);
    assert!(monitor.failed.is_empty());
    monitor.attach(&app, 0, &busy, "CannotComplete");
    monitor.heard(None, true);
    assert!(monitor.failed.is_empty());
}

#[test]
fn ended_applications_are_detached() {
    let rules = DialogSettings::default();
    let mut monitor = Monitor::new(true);
    let subscribed = Ok(Vec::new());
    monitor.attach(&application(7, false), 0, &subscribed, "");
    let pressed = Dialog {
        last_rule: Some("rule".into()),
        last_button: Some("Allow".into()),
        awaiting_close: true,
        ..Dialog::new(2)
    };
    let windows = vec![Dialog::new(1), pressed];
    assert!(monitor.keep_observed(&rules, &application(7, false), &windows).is_empty());
    assert!(monitor.observed.contains(&7));
    let said = monitor.keep_observed(&rules, &application(7, true), &windows);
    assert!(!monitor.observed.contains(&7));
    let kinds = said.iter().map(|logged| logged.note.kind).collect::<Vec<_>>();
    assert_eq!(kinds, ["process.detached", "click.unconfirmed"]);
    assert_eq!(said[1].note.rule.as_deref(), Some("rule"));
    monitor.attach(&application(8, false), 0, &subscribed, "");
    assert_eq!(monitor.keep_observed(&rules, &elsewhere(8), &Vec::new()).len(), 1);
    monitor.attach(&application(9, false), 0, &subscribed, "");
    let mut current = Status::default();
    let said = monitor.lose_permission(&mut current, Some("/bin/watchcatd")).unwrap();
    assert_eq!(said.note.kind, "monitor.permission_required");
    assert_eq!(current.state, "accessibility_required");
    assert!(monitor.observed.is_empty());
    assert!(monitor.lose_permission(&mut current, None).is_none());
}

#[test]
fn scoped_rules_require_all_selectors_and_detect_ambiguity() {
    let mut settings = DialogSettings::default();
    let rule = DialogRule {
        app: Some("org.example.Helper".into()),
        title: Some("Ready".into()),
        text: Some("Continue".into()),
        button: Some("Allow".into()),
        ..Default::default()
    };
    settings.rules.insert("helper".into(), rule.clone());
    settings.validate().unwrap();
    let count = |settings: &DialogSettings, executable, bundle, title, heading| {
        settings.matching(executable, bundle, title, heading).len()
    };
    assert_eq!(
        count(&settings, "/Applications/Helper", "org.example.Helper", "Ready", "Continue now"),
        1
    );
    assert_eq!(
        count(&settings, "/Applications/Other", "org.example.Other", "Ready", "Continue now"),
        0
    );
    assert_eq!(
        count(&settings, "/Applications/Helper", "org.example.Helper", "Other", "Continue now"),
        0
    );
    assert_eq!(
        count(&settings, "/Applications/Helper", "org.example.Helper", "Ready", "Wait"),
        0
    );
    settings.rules.insert("duplicate".into(), rule.clone());
    assert_eq!(
        count(&settings, "/Applications/Helper", "org.example.Helper", "Ready", "Continue now"),
        2
    );
    settings.rules.insert("helper".into(), DialogRule { enabled: false, ..rule });
    assert_eq!(
        count(&settings, "/Applications/Helper", "org.example.Helper", "Ready", "Continue now"),
        1
    );
}

#[test]
fn broad_or_invalid_rules_are_rejected() {
    let mut settings = DialogSettings::default();
    settings.rules.insert("bad".into(), DialogRule::default());
    assert!(settings.validate().is_err());
    settings.rules.remove("bad");
    let directory = DialogRule { button: Some("Delete".into()), ..Default::default() };
    settings.rules.insert(DIRECTORY_RULE.into(), directory);
    assert!(settings.validate().is_err());
}

#[test]
fn each_problem_of_a_rule_is_named() {
    let rule = || DialogRule {
        app: Some("/bin/app".into()),
        title: Some("Ready".into()),
        button: Some("OK".into()),
        ..Default::default()
    };
    assert_eq!(check_rule("ok-1_a.b", &rule()), None);
    assert_eq!(check_rule("", &rule()), Some(RuleProblem::InvalidName));
    assert_eq!(check_rule("a b", &rule()), Some(RuleProblem::InvalidName));
    assert_eq!(check_rule(&"x".repeat(81), &rule()), Some(RuleProblem::InvalidName));
    let blank = DialogRule { title: Some(" ".into()), ..rule() };
    assert_eq!(check_rule("r", &blank), Some(RuleProblem::InvalidValue));
    let lines = DialogRule { title: Some("a\nb".into()), ..rule() };
    assert_eq!(check_rule("r", &lines), Some(RuleProblem::InvalidValue));
    let long = DialogRule { title: Some("x".repeat(513)), ..rule() };
    assert_eq!(check_rule("r", &long), Some(RuleProblem::InvalidValue));
    assert_eq!(check_rule(DIRECTORY_RULE, &rule()), Some(RuleProblem::BuiltIn));
    let untitled = DialogRule { title: None, ..rule() };
    assert_eq!(check_rule("r", &untitled), Some(RuleProblem::MissingSelectors));
    for app in ["helper", "org.*", "org.a b", "org.?"] {
        let inexact = DialogRule { app: Some(app.into()), ..rule() };
        assert_eq!(check_rule("r", &inexact), Some(RuleProblem::InexactApp));
    }
    let mut settings = DialogSettings::default();
    for n in 0..100 {
        settings.rules.insert(format!("r{n}"), rule());
    }
    let error = settings.validate().unwrap_err();
    assert!(matches!(error, DialogError::TooManyRules));
    assert_eq!(error.message(), "at most 100 dialog rules are supported");
}

#[test]
fn rules_say_which_applications_are_observed() {
    let mut settings = DialogSettings::default();
    assert!(settings.observes("/System/Library/host", ""));
    assert!(!settings.observes("/Applications/host", ""));
    let consent = "“node” would like to access files on a removable volume.";
    assert_eq!(settings.matching("/System/Library/host", "", "", consent).len(), 1);
    assert!(settings.matching("/Applications/host", "", "", consent).is_empty());
    let rule = DialogRule {
        app: Some("/bin/app".into()),
        text: Some("go".into()),
        button: Some("OK".into()),
        ..Default::default()
    };
    settings.rules.insert("r".into(), rule);
    assert!(settings.observes("/bin/app", ""));
}

fn event(kind: &str, pid: i32) -> Event {
    Event {
        timestamp: Timestamp { seconds: 0, nanos: 0 },
        kind: kind.into(),
        pid: Some(pid),
        app: "Helper".into(),
        rule: None,
        button: None,
        detail: String::new(),
    }
}

#[test]
fn release_regression_partial_append_does_not_corrupt_future_records() {
    let mut log = Log::new(0, 10);
    assert!(!log.append(Appended::Written));
    let complete = b"{}\n".to_vec();
    assert_eq!(complete_length(&complete), 3);
    assert!(!log.append(Appended::TakenBack));
    assert!(log.may_append());
    assert_eq!(log.count, 1);
    log.append(Appended::Written);
    assert_eq!(log.count, 2);
    let broken_off = b"{}\n{}\n{\"times".to_vec();
    assert_eq!(complete_length(&broken_off), 6);
    let mut resumed = Log::new(2, 10);
    resumed.append(Appended::Written);
    assert_eq!(resumed.count, 3);
    resumed.append(Appended::Broken);
    assert!(!resumed.may_append());
}

#[test]
fn persistent_logs_filter_clicks_bound_retention_and_ignore_inflight_append() {
    let mut log = Log::new(0, 3);
    let mut events: Vec<Event> = Vec::new();
    for n in 0..7 {
        let kind = if n % 2 == 0 { "click.sent" } else { "process.observed" };
        events.push(event(kind, n));
        if log.append(Appended::Written) {
            events = read(events, false, log.retention);
            log.compacted(events.len());
        }
    }
    assert_eq!(events.len(), 3);
    assert_eq!(log.count, 3);
    let clicks = read(events.clone(), true, 1);
    assert_eq!(clicks[0].pid, Some(6));
    assert_eq!(complete_length(&b"{}\n{\"timestamp\":".to_vec()), 3);
    assert_eq!(complete_length(&b"{\"timestamp\":".to_vec()), 0);
}

#[test]
fn the_log_lies_beside_the_socket() {
    assert_eq!(path("/state/watchcat.sock"), "/state/dialog-events.jsonl");
    assert_eq!(path("watchcat.sock"), "dialog-events.jsonl");
}

fn facts(role: &str) -> ElementFacts {
    ElementFacts {
        role: Some(role.into()),
        title: Some(String::new()),
        description: Some(String::new()),
        value: Some(String::new()),
        enabled: Enabled::Yes,
        children: Children::Unsupported,
    }
}

fn button(label: &str) -> ElementFacts {
    ElementFacts { title: Some(label.into()), ..facts("AXButton") }
}

fn text(value: &str) -> ElementFacts {
    ElementFacts { value: Some(value.into()), ..facts("AXStaticText") }
}

/// Looks at a window whose elements, by their number, are these.
fn inspect(elements: &HashMap<u64, ElementFacts>) -> Result<Inspection, Skip> {
    let mut inspection = Inspection::new(0);
    loop {
        match inspection.next(true, true) {
            Next::Done => return Ok(inspection),
            Next::Seen => {}
            Next::Refused(skip) => return Err(skip),
            Next::Visit(element, depth) => {
                inspection.visit(element, depth, &elements[&element])?;
            }
        }
    }
}

fn window(children: Vec<ElementFacts>) -> HashMap<u64, ElementFacts> {
    let ids: Vec<u64> = (1..=children.len() as u64).collect();
    let mut elements = HashMap::new();
    elements.insert(0, ElementFacts { children: Children::Elements(ids), ..facts("AXWindow") });
    for (at, child) in children.into_iter().enumerate() {
        elements.insert(at as u64 + 1, child);
    }
    elements
}

const CONSENT: &str = "“node” would like to access files on a removable volume.";

fn matched(elements: &HashMap<u64, ElementFacts>) -> Result<MatchedButton, Skip> {
    inspect(elements)?.matching_button(
        &DialogSettings::default(),
        "/System/Library/host",
        "com.example.host",
        "",
    )
}

#[test]
fn the_consent_button_is_found() {
    let found =
        matched(&window(vec![text(CONSENT), button("Don't Allow"), button("OK")])).unwrap();
    assert_eq!(found.button, 3);
    assert_eq!(found.rule, DIRECTORY_RULE);
    assert_eq!(found.label, "OK");
    assert_eq!(found.signature, format!("\n{CONSENT}\n\nOK"));
}

#[test]
fn every_reason_to_leave_a_window_alone_is_given() {
    let one = |child: ElementFacts| matched(&window(vec![text(CONSENT), button("OK"), child]));
    let refused = |child: ElementFacts| one(child).unwrap_err();
    assert_eq!(refused(facts("AXTextField")), Skip::EditableFields);
    assert_eq!(refused(facts("AXTextArea")), Skip::EditableFields);
    assert_eq!(refused(ElementFacts { role: None, ..facts("") }), Skip::UnreadableRole);
    let untitled = || ElementFacts { title: None, ..facts("AXButton") };
    assert_eq!(refused(untitled()), Skip::UnreadableButtonTitle);
    let unlabelled = ElementFacts { description: None, ..facts("AXButton") };
    assert_eq!(refused(unlabelled), Skip::UnreadableButtonLabel);
    let state = |enabled| ElementFacts { enabled, ..button("Cancel") };
    assert_eq!(refused(state(Enabled::Unreadable)), Skip::UnreadableButtonState);
    assert_eq!(refused(state(Enabled::Invalid)), Skip::InvalidButtonState);
    assert!(one(state(Enabled::No)).is_ok());
    assert_eq!(refused(ElementFacts { value: None, ..text("") }), Skip::UnreadableText);
    assert_eq!(refused(ElementFacts { title: None, ..text("  ") }), Skip::UnreadableText);
    assert_eq!(refused(text(&"x".repeat(16_384))), Skip::TextTooLong);
    let unreadable = ElementFacts { children: Children::Unreadable, ..facts("AXGroup") };
    assert_eq!(refused(unreadable), Skip::UnreadableTree);
    assert_eq!(refused(button("Allow")), Skip::NotOneButton);
    assert_eq!(matched(&window(vec![text("Hello"), button("OK")])).unwrap_err(), Skip::NoRule);
    let inspection = inspect(&window(vec![text("go"), button("OK")])).unwrap();
    let mut rules = DialogSettings::default();
    let rule = DialogRule {
        app: Some("/bin/app".into()),
        text: Some("go".into()),
        button: Some("OK".into()),
        ..Default::default()
    };
    rules.rules.insert("a".into(), rule.clone());
    rules.rules.insert("b".into(), rule);
    let skip = inspection.matching_button(&rules, "/bin/app", "", "").unwrap_err();
    assert_eq!(skip, Skip::SeveralRules);
    assert_eq!(skip.reason(), "multiple rules match; make selectors more specific");
    assert_eq!(Inspection::new(0).next(false, true), Next::Refused(Skip::Stopped));
    assert_eq!(Inspection::new(0).next(true, false), Next::Refused(Skip::BudgetExceeded));
    assert_eq!(Skip::UnreadableTitle.reason(), "cannot read window title");
}

#[test]
fn deep_and_wide_windows_are_left_alone() {
    let mut deep = HashMap::new();
    for id in 0..30 {
        deep.insert(id, ElementFacts { children: Children::Elements(vec![id + 1]), ..facts("AXGroup") });
    }
    assert_eq!(inspect(&deep).unwrap_err(), Skip::BudgetExceeded);
    let wide = window((0..300).map(|_| facts("AXGroup")).collect());
    assert_eq!(inspect(&wide).unwrap_err(), Skip::BudgetExceeded);
    let mut shared = window(vec![facts("AXGroup")]);
    shared.insert(1, ElementFacts { children: Children::Elements(vec![0]), ..facts("AXGroup") });
    assert!(inspect(&shared).is_ok());
}

fn match_of(signature: &str) -> MatchedButton {
    MatchedButton {
        button: 7,
        signature: signature.into(),
        rule: "helper".into(),
        label: "OK".into(),
    }
}

#[test]
fn a_window_is_pressed_once() {
    let mut dialog = Dialog::new(1);
    let found = Ok(match_of("s"));
    assert!(matches!(dialog.consider(&found, false), Consideration::Confirm));
    let button = match_of("s");
    assert_eq!(intent(&button).kind, "click.attempt");
    assert!(!dialog.attempt(&button, false));
    assert!(matches!(dialog.consider(&found, false), Consideration::Confirm));
    assert!(dialog.attempt(&button, true));
    let note = dialog.pressed(Press::Success, "Success", 1_000);
    assert_eq!(note.kind, "click.sent");
    assert_eq!(note.detail, "AXPress: Success; waiting for window to close");
    assert!(matches!(dialog.consider(&found, false), Consideration::Attempted));
    assert!(dialog.expire(3_999).is_none());
    assert_eq!(dialog.expire(4_000).unwrap().kind, "click.unconfirmed");
    assert!(dialog.expire(5_000).is_none());
    assert!(matches!(dialog.consider(&found, false), Consideration::Attempted));
    assert!(matches!(dialog.consider(&Ok(match_of("t")), false), Consideration::Confirm));
}

#[test]
fn failed_presses_are_not_repeated() {
    let mut dialog = Dialog::new(1);
    let button = match_of("s");
    dialog.attempt(&button, true);
    let note = dialog.pressed(Press::Failed, "Failure", 0);
    assert_eq!(note.kind, "click.failed");
    assert_eq!(note.detail, "AXPress: Failure; not retried");
    assert!(!dialog.awaiting_close);
    assert!(matches!(dialog.consider(&Ok(match_of("s")), false), Consideration::Attempted));
}

#[test]
fn dry_runs_only_tell() {
    let mut dialog = Dialog::new(1);
    match dialog.consider(&Ok(match_of("s")), true) {
        Consideration::DryRun(note) => assert_eq!(note.kind, "click.dry_run"),
        other => panic!("{other:?}"),
    }
    assert!(matches!(dialog.consider(&Ok(match_of("s")), true), Consideration::Attempted));
}

#[test]
fn the_same_reason_is_told_once() {
    let mut dialogs = vec![Dialog::new(1)];
    match dialogs[0].consider(&Err(Skip::NoRule), false) {
        Consideration::LeaveAlone(Some(note)) => {
            assert_eq!(note.kind, "window.skipped");
            assert_eq!(note.detail, Skip::NoRule.reason());
        }
        other => panic!("{other:?}"),
    }
    assert!(matches!(
        dialogs[0].consider(&Err(Skip::NoRule), false),
        Consideration::LeaveAlone(None)
    ));
    forget_observations(&mut dialogs);
    assert!(matches!(
        dialogs[0].consider(&Err(Skip::NoRule), false),
        Consideration::LeaveAlone(Some(_))
    ));
}

#[test]
fn presses_are_confirmed_by_a_second_look() {
    let first = match_of("s");
    assert!(confirms(&first, &match_of("s"), false, true, true));
    assert!(!confirms(&first, &match_of("t"), false, true, true));
    assert!(!confirms(&first, &MatchedButton { button: 8, ..match_of("s") }, false, true, true));
    let other_rule = MatchedButton { rule: "other".into(), ..match_of("s") };
    assert!(!confirms(&first, &other_rule, false, true, true));
    assert!(!confirms(&first, &match_of("s"), true, true, true));
    assert!(!confirms(&first, &match_of("s"), false, false, true));
    assert!(!confirms(&first, &match_of("s"), false, true, false));
}

#[test]
fn closed_windows_are_told_of() {
    let mut dialogs = Vec::new();
    assert_eq!(meet(&mut dialogs, 1), (0, true));
    assert_eq!(meet(&mut dialogs, 2), (1, true));
    assert_eq!(meet(&mut dialogs, 1), (0, false));
    dialogs[0].attempt(&match_of("s"), true);
    dialogs[0].pressed(Press::CannotComplete, "CannotComplete", 0);
    let left = abandon(&dialogs);
    assert_eq!(left.len(), 1);
    assert_eq!(left[0].detail, "host exited or rule removed before close was confirmed");
    let notes = settle(&mut dialogs, &vec![3]);
    assert_eq!(notes.len(), 1);
    assert_eq!(notes[0].kind, "click.closed");
    assert_eq!(notes[0].rule.as_deref(), Some("helper"));
    assert!(dialogs.is_empty());
}

#[test]
fn the_status_follows_what_happens() {
    assert_eq!(status(None, true).state, "not_started");
    assert_eq!(status(None, false).state, "unsupported");
    let mut current = Status::default();
    current.note_reconciled(2, 0, false);
    assert_eq!(current.state, "listening");
    current.note_reconciled(0, 0, false);
    assert_eq!(current.state, "waiting_for_system_ui");
    current.note_reconciled(2, 1, true);
    assert_eq!(current.state, "partial");
    current.note_reconciled(2, 0, true);
    assert_eq!(current.state, "dry_run");
    current.note_sent(&match_of("s"));
    assert_eq!(current.clicks_sent, 1);
    assert_eq!(
        current.last_result.as_deref(),
        Some("Clicked OK via helper; waiting for window to close")
    );
    current.note_closed();
    assert_eq!(current.dialogs_closed, 1);
    current.note_failed("Failure");
    assert_eq!(current.last_result.as_deref(), Some("Click failed: Failure"));
    current.note_unconfirmed();
    current.note_unrecorded();
    assert_eq!(current.last_result.as_deref(), Some("Click skipped: cannot write event log"));
    current.note_unreadable("Failure");
    assert_eq!(current.state, "partial");
    assert!(current.note_permission_required(Some("/bin/watchcatd")));
    assert!(!current.note_permission_required(None));
    assert_eq!(current.state, "accessibility_required");
    assert_eq!(current.last_result, None);
    let (mut guard, state) = start(false);
    assert_eq!(state, "no_desktop_event_loop");
    guard.stop();
    assert!(!guard.permitted);
}
