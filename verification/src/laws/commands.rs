//! What commands ask for, and how they are read and shown.

use vstd::prelude::*;
use vstd::string::*;

use crate::cli;
use crate::cli::commands;
use crate::cli::commands::{PolicyCommand, SessionCommand};
use crate::cli::{DurationRefusal, NumberRefusal};
use crate::config::{PolicyOverride, ResolvedPolicy};
use crate::json;
use crate::json::{Json, Number};
use crate::laws::policies;
use crate::laws::providers;
use crate::models::{BackoffKind, PolicyAction, SessionLog, WatchTarget};
use crate::os_permissions::events::Event;
use crate::service;
use crate::service::{
    Loaded, ServiceCommand, ServiceDefinition, ServiceStep, Supervisor, SupervisorCall,
};
use crate::state::events;
use crate::text;
use crate::time;

verus! {

/// A number has to be one, and not zero.
pub proof fn counts_are_positive(value: &str, most: u64, n: Option<u64>, r: Result<usize, NumberRefusal>)
    requires
        most == usize::MAX,
        call_ensures(text::parse_unsigned, (value, most), n),
        call_ensures(cli::parse_positive_usize, (value,), r),
    ensures
        n is None ==> r is Err && r->Err_0 is NotANumber,
        n == Some(0u64) ==> r is Err && r->Err_0 is Zero,
        n is Some && n->0 > 0 ==> r is Ok && r->Ok_0 == n->0,
{
}

/// A duration is a number of seconds, minutes or hours; without a unit it is one of seconds, and
/// milliseconds are too short.
pub proof fn durations_are_read_in_seconds(
    value: &str,
    trimmed: String,
    number: &str,
    most: u64,
    n: u64,
    r: Result<u64, DurationRefusal>,
)
    requires
        call_ensures(text::trim, (value,), trimmed),
        most == u64::MAX,
        call_ensures(text::parse_unsigned, (number, most), Some(n)),
        n > 0,
        call_ensures(cli::parse_duration, (value,), r),
    ensures
        trimmed@ == number@ || trimmed@ == number@ + "s"@ ==> r is Ok && r->Ok_0 == n,
        trimmed@ == number@ + "m"@ && 60 * n <= u64::MAX ==> r is Ok && r->Ok_0 == 60 * n,
        trimmed@ == number@ + "h"@ && 3600 * n <= u64::MAX ==> r is Ok && r->Ok_0 == 3600 * n,
        trimmed@ == number@ + "h"@ && 3600 * n > u64::MAX ==> r is Err && r->Err_0 is TooLong,
        trimmed@ == number@ + "ms"@ ==> r is Err && r->Err_0 is TooShort,
{
    reveal_strlit("ms");
    reveal_strlit("s");
    reveal_strlit("m");
    reveal_strlit("h");
    assert("ms"@.len() == 2 && "ms"@[0] == 'm' && "ms"@[1] == 's' && "s"@.len() == 1 && "s"@[0]
        == 's' && "m"@.len() == 1 && "m"@[0] == 'm' && "h"@.len() == 1 && "h"@[0] == 'h');
    let digits = text::unsigned_digits(number@);
    assert(digits.len() > 0 && text::all_digits(digits));
    assert(number@.last() == digits.last());
    assert('0' <= digits[digits.len() - 1] <= '9');
    let s = trimmed@;
    lemma_last(s, "ms"@);
    lemma_last(s, "s"@);
    lemma_last(s, "m"@);
    lemma_last(s, "h"@);
    if s == number@ + "s"@ {
        assert(s.last() == 's' && s[s.len() - 2] == number@.last());
        assert(s.subrange(s.len() - 1, s.len() as int) =~= "s"@);
        assert(s.take(s.len() - 1) =~= number@);
    }
    if s == number@ + "m"@ {
        assert(s.last() == 'm');
        assert(s.subrange(s.len() - 1, s.len() as int) =~= "m"@);
        assert(s.take(s.len() - 1) =~= number@);
    }
    if s == number@ + "h"@ {
        assert(s.last() == 'h');
        assert(s.subrange(s.len() - 1, s.len() as int) =~= "h"@);
        assert(s.take(s.len() - 1) =~= number@);
    }
    if s == number@ + "ms"@ {
        assert(s.subrange(s.len() - 2, s.len() as int) =~= "ms"@);
        assert(s.take(s.len() - 2) =~= number@);
    }
    let unit = cli::duration_parts(s).1;
    let count = n as nat;
    assert(unit == 1 ==> count * unit == count) by (nonlinear_arith);
    assert(unit == 60 ==> count * unit == 60 * count) by (nonlinear_arith);
    assert(unit == 3600 ==> count * unit == 3600 * count) by (nonlinear_arith);
}

proof fn lemma_last(s: Seq<char>, suffix: Seq<char>)
    requires
        suffix.len() > 0,
    ensures
        text::ends_with_text(s, suffix) ==> s.len() >= suffix.len() && s.last() == suffix.last(),
        text::ends_with_text(s, suffix) && suffix.len() == 2 ==> s[s.len() - 2] == suffix[0],
{
    if text::ends_with_text(s, suffix) {
        let part = s.subrange(s.len() - suffix.len(), s.len() as int);
        assert(part.last() == s.last());
        assert(part[0] == s[s.len() - suffix.len()]);
    }
}

/// A policy is shown only of a known condition.
pub proof fn only_known_conditions_have_policies(condition: &str, r: Result<(), String>)
    requires
        call_ensures(cli::require_condition, (condition,), r),
    ensures
        r is Ok <==> policies::waits(condition@) is Some || policies::needs_its_user(condition@),
{
    policies::lemma_known(condition@);
}

/// A change without anything set changes nothing.
pub proof fn empty_changes_change_nothing(change: &PolicyOverride, r: bool)
    requires
        call_ensures(cli::changes_something, (change,), r),
    ensures
        r <==> change.action is Some || change.backoff is Some || change.initial_delay_seconds
            is Some || change.max_delay_seconds is Some || change.max_attempts is Some
            || change.prompt is Some,
{
}

/// Policies are listed by their category, and without one all are.
pub proof fn policies_are_listed_by_category(
    policy: &ResolvedPolicy,
    condition: &str,
    category: Option<&str>,
    found: String,
    r: bool,
)
    requires
        call_ensures(cli::in_category, (policy, category), r),
        condition@ == policy.condition@,
        call_ensures(events::condition_category, (condition,), found),
    ensures
        category is None ==> r,
        category is Some ==> (r <==> found@ == category->0@),
{
}

/// A policy is shown with its condition, what is done, how long is waited, how often, and whether
/// it was set.
pub proof fn policies_are_shown(policy: &ResolvedPolicy, r: Vec<String>)
    requires
        call_ensures(cli::policy_row, (policy,), r),
    ensures
        r@.len() == 5,
        r@[0]@ == policy.condition@,
        policy.action == PolicyAction::Retry ==> r@[1]@ == "retry"@ && r@[3]@ == text::decimal_view(
            policy.max_attempts as nat,
        ),
        policy.action == PolicyAction::Skip ==> r@[1]@ == "skip"@ && r@[3]@ == "-"@,
        policy.backoff == Some(BackoffKind::Fixed) ==> r@[2]@ == "fixed"@,
        policy.backoff == Some(BackoffKind::Exponential) ==> r@[2]@ == "exponential"@,
        policy.backoff is None ==> r@[2]@ == "-"@,
        policy.customized ==> r@[4]@ == "yes"@,
        !policy.customized ==> r@[4]@ == "no"@,
{
    lemma_views(r@);
}

proof fn lemma_views(row: Seq<String>)
    ensures
        text::views(row).len() == row.len(),
        forall|i: int| 0 <= i < row.len() ==> #[trigger] row[i]@ == text::views(row)[i],
{
}

/// A watched session is shown with whether it is recovered, when it was active, and its label, or
/// its title where it has none.
pub proof fn targets_are_shown(target: &WatchTarget, r: Option<Vec<String>>)
    requires
        call_ensures(cli::target_row, (target,), r),
        target.last_activity_at is None,
    ensures
        r is Some,
        r->0@.len() == 5,
        r->0@[0]@ == target.provider@,
        r->0@[1]@ == target.session_id@,
        target.provider@ == "codex"@ ==> r->0@[2]@ == "recovery"@,
        target.provider@ != "codex"@ ==> r->0@[2]@ == "observe"@,
        target.label is Some ==> r->0@[4]@ == target.label->0@,
        target.label is None && target.title is Some ==> r->0@[4]@ == target.title->0@,
{
    lemma_views(r->0@);
}

/// A line of activity is shown with its source, its kind, its condition and what it says.
pub proof fn lines_are_shown(entry: &SessionLog, r: Option<Vec<String>>)
    requires
        call_ensures(cli::log_row, (entry,), r),
        entry.timestamp is None,
    ensures
        r is Some,
        r->0@.len() == 5,
        r->0@[0]@ == "-"@,
        r->0@[1]@ == entry.source@,
        r->0@[2]@ == entry.kind@,
        entry.condition is Some ==> r->0@[3]@ == entry.condition->0@,
        entry.condition is None ==> r->0@[3]@ == "-"@,
        r->0@[4]@ == entry.message@,
{
    lemma_views(r->0@);
}

/// A dialog event is shown with its application, its rule, its button and what it says.
pub proof fn dialog_events_are_shown(event: &Event, r: Option<Vec<String>>)
    requires
        call_ensures(cli::dialog_row, (event,), r),
        r is Some,
    ensures
        r->0@.len() == 6,
        r->0@[0]@ == time::rfc3339_text(event.timestamp),
        r->0@[1]@ == event.kind@,
        r->0@[2]@ == event.app@,
        event.rule is Some ==> r->0@[3]@ == event.rule->0@,
        event.button is Some ==> r->0@[4]@ == event.button->0@,
        r->0@[5]@ == event.detail@,
{
    lemma_views(r->0@);
}

/// Every command about sessions calls the method that does what it asks for, and one that changes
/// the watchlist says on which revision it was decided.
pub proof fn session_commands_call_their_method(
    command: &SessionCommand,
    method: &'static str,
    revision: bool,
)
    requires
        call_ensures(SessionCommand::method, (command,), method),
        call_ensures(SessionCommand::needs_revision, (command,), revision),
    ensures
        *command is List ==> method@ == "sessions.list"@,
        *command is Search || *command is Show ==> method@ == "sessions.search"@,
        *command is Logs ==> method@ == "sessions.logs"@,
        *command is Send ==> method@ == "sessions.send"@,
        *command is Interrupt ==> method@ == "sessions.interrupt"@,
        *command is Add ==> method@ == "sessions.add"@,
        *command is Remove ==> method@ == "sessions.remove"@,
        revision <==> *command is Add || *command is Remove,
{
}

/// Every command about policies calls the method that does what it asks for, and one that changes
/// something says on which revision it was decided.
pub proof fn policy_commands_call_their_method(
    command: &PolicyCommand,
    method: &'static str,
    revision: bool,
)
    requires
        call_ensures(PolicyCommand::method, (command,), method),
        call_ensures(PolicyCommand::needs_revision, (command,), revision),
    ensures
        *command is List || *command is Show ==> method@ == "config.policies.list"@,
        *command is Change ==> method@ == "config.policies.set"@,
        *command is Reset ==> method@ == "config.policies.reset"@,
        revision <==> *command is Change || *command is Reset,
{
}

/// A command about a session names it, and one that sends a message that message.
pub proof fn session_commands_name_their_session(command: &SessionCommand, r: Json)
    requires
        call_ensures(SessionCommand::params, (command,), r),
    ensures
        match *command {
            SessionCommand::Send { provider, session_id, message } => providers::says(
                r,
                "provider"@,
                provider@,
            ) && providers::says(r, "session_id"@, session_id@) && providers::says(
                r,
                "message"@,
                message@,
            ),
            SessionCommand::Interrupt { provider, session_id } => providers::says(
                r,
                "provider"@,
                provider@,
            ) && providers::says(r, "session_id"@, session_id@),
            SessionCommand::Remove { provider, session_id } => providers::says(
                r,
                "provider"@,
                provider@,
            ) && providers::says(r, "session_id"@, session_id@),
            SessionCommand::Add { provider, session_id, label, validate } => providers::says(
                r,
                "provider"@,
                provider@,
            ) && providers::says(r, "session_id"@, session_id@) && r->Object_0@.contains_key(
                "validate"@,
            ) && r->Object_0@["validate"@] == Json::Bool(validate) && (label is Some
                ==> providers::says(r, "label"@, label->0@)),
            SessionCommand::Show { provider, session_id } => providers::says(
                r,
                "provider"@,
                provider@,
            ) && providers::says(r, "query"@, session_id@) && r->Object_0@.contains_key("limit"@)
                && r->Object_0@["limit"@] == Json::Number(Number::Unsigned(1)),
            SessionCommand::Search { provider, limit, query, cursor } => providers::says(
                r,
                "provider"@,
                provider@,
            ) && providers::says(r, "query"@, query@) && r->Object_0@.contains_key("limit"@)
                && r->Object_0@["limit"@] == Json::Number(Number::Unsigned(limit as u64)) && (
            cursor is Some ==> providers::says(r, "cursor"@, cursor->0@)),
            SessionCommand::Logs { provider, session_id, limit, category } => providers::says(
                r,
                "provider"@,
                provider@,
            ) && providers::says(r, "session_id"@, session_id@) && r->Object_0@.contains_key(
                "limit"@,
            ) && r->Object_0@["limit"@] == Json::Number(Number::Unsigned(limit as u64)),
            SessionCommand::List { provider, limit } => r is Object && (provider is Some
                ==> providers::says(r, "provider"@, provider->0@)),
        },
{
    reveal_strlit("provider");
    reveal_strlit("session_id");
    reveal_strlit("message");
    reveal_strlit("label");
    reveal_strlit("validate");
    reveal_strlit("limit");
    reveal_strlit("query");
    reveal_strlit("cursor");
    reveal_strlit("category");
    assert("provider"@.len() == 8 && "session_id"@.len() == 10 && "message"@.len() == 7
        && "label"@.len() == 5 && "validate"@.len() == 8 && "limit"@.len() == 5 && "query"@.len()
        == 5 && "cursor"@.len() == 6 && "category"@.len() == 8);
    assert("provider"@[0] == 'p' && "validate"@[0] == 'v' && "category"@[0] == 'c' && "limit"@[1]
        == 'i' && "query"@[0] == 'q' && "label"@[1] == 'a' && "limit"@[0] == 'l');
    let members = command.params_view()->Object_0;
    assert forall|key: Seq<char>| #[trigger] members.contains_key(key) implies json::shows(
        r->Object_0@[key],
        members[key],
    ) && r->Object_0@.contains_key(key) by {}
    match *command {
        SessionCommand::Send { .. } => {
            assert(members.contains_key("provider"@) && members.contains_key("session_id"@)
                && members.contains_key("message"@));
        },
        SessionCommand::Interrupt { .. } => {
            assert(members.contains_key("provider"@) && members.contains_key("session_id"@));
        },
        SessionCommand::Remove { .. } => {
            assert(members.contains_key("provider"@) && members.contains_key("session_id"@));
        },
        SessionCommand::Add { .. } => {
            assert(members.contains_key("provider"@) && members.contains_key("session_id"@)
                && members.contains_key("label"@) && members.contains_key("validate"@));
        },
        SessionCommand::Show { .. } => {
            assert(members.contains_key("provider"@) && members.contains_key("query"@)
                && members.contains_key("limit"@));
        },
        SessionCommand::Search { .. } => {
            assert(members.contains_key("provider"@) && members.contains_key("query"@)
                && members.contains_key("limit"@) && members.contains_key("cursor"@));
        },
        SessionCommand::Logs { .. } => {
            assert(members.contains_key("provider"@) && members.contains_key("session_id"@)
                && members.contains_key("limit"@));
        },
        SessionCommand::List { .. } => {
            assert(members.contains_key("provider"@));
        },
    }
}

/// A session was added where the answer says so, and was watched before otherwise; the same holds of
/// one that was removed.
pub proof fn answers_are_put_in_words(
    answer: &Json,
    added: &'static str,
    removed: &'static str,
)
    requires
        call_ensures(commands::added_line, (answer,), added),
        call_ensures(commands::removed_line, (answer,), removed),
        *answer is Object,
    ensures
        (*answer)->Object_0@.contains_key("added"@) && (*answer)->Object_0@["added"@]
            == Json::Bool(true) ==> added@ == "Watching"@,
        !((*answer)->Object_0@.contains_key("added"@) && (*answer)->Object_0@["added"@]
            == Json::Bool(true)) ==> added@ == "Already watching"@,
        (*answer)->Object_0@.contains_key("removed"@) && (*answer)->Object_0@["removed"@]
            == Json::Bool(true) ==> removed@ == "Removed"@,
        !((*answer)->Object_0@.contains_key("removed"@) && (*answer)->Object_0@["removed"@]
            == Json::Bool(true)) ==> removed@ == "Excluded from automatic discovery"@,
{
}

/// A registered service is started, stopped and removed by its supervisor; one that is not
/// registered is not, and one that is is not registered again. A dry run only shows what would be.
pub proof fn services_are_run_by_their_supervisor(
    command: ServiceCommand,
    supervisor: Supervisor,
    r: Vec<ServiceStep>,
)
    requires
        call_ensures(service::run, (command, supervisor), r),
    ensures
        command == (ServiceCommand::Install { dry_run: true }) ==> r@ == seq![
            ServiceStep::ShowDefinition,
        ],
        command == (ServiceCommand::Install { dry_run: false }) ==> r@.len() >= 3 && r@.take(3)
            == seq![
            ServiceStep::RequireAbsent,
            ServiceStep::RequireSettings,
            ServiceStep::WriteDefinition,
        ],
        command == (ServiceCommand::Install { dry_run: false }) && supervisor
            == Supervisor::Systemd ==> r@.skip(3) == seq![
            ServiceStep::Call(SupervisorCall::SystemctlReload),
            ServiceStep::Call(SupervisorCall::SystemctlEnable),
        ],
        command == ServiceCommand::Start && supervisor == Supervisor::Launchd ==> r@ == seq![
            ServiceStep::RequireInstalled,
            ServiceStep::Call(SupervisorCall::LaunchctlEnable),
            ServiceStep::Call(SupervisorCall::LaunchctlBootstrap),
        ],
        command == ServiceCommand::Start && supervisor == Supervisor::Systemd ==> r@ == seq![
            ServiceStep::RequireInstalled,
            ServiceStep::Call(SupervisorCall::SystemctlStart),
        ],
        command == ServiceCommand::Stop && supervisor == Supervisor::Launchd ==> r@ == seq![
            ServiceStep::EndLoaded,
        ],
        command == ServiceCommand::Stop && supervisor == Supervisor::Systemd ==> r@ == seq![
            ServiceStep::Call(SupervisorCall::SystemctlStop),
        ],
        command == ServiceCommand::Uninstall ==> r@.len() >= 3 && r@[0]
            == ServiceStep::RequireInstalled && r@[2] == ServiceStep::RemoveDefinition,
        command == ServiceCommand::Uninstall && supervisor == Supervisor::Launchd ==> r@[1]
            == ServiceStep::EndLoaded && r@.len() == 3,
        command == ServiceCommand::Uninstall && supervisor == Supervisor::Systemd ==> r@[1]
            == ServiceStep::Call(SupervisorCall::SystemctlDisable) && r@.len() == 4 && r@[3]
            == ServiceStep::Call(SupervisorCall::SystemctlReload),
{
    if command == (ServiceCommand::Install { dry_run: false }) {
        assert(r@.take(3) =~= seq![
            ServiceStep::RequireAbsent,
            ServiceStep::RequireSettings,
            ServiceStep::WriteDefinition,
        ]);
        if supervisor == Supervisor::Systemd {
            assert(r@.skip(3) =~= seq![
                ServiceStep::Call(SupervisorCall::SystemctlReload),
                ServiceStep::Call(SupervisorCall::SystemctlEnable),
            ]);
        }
    }
}

/// A service that is restarted is stopped and then started.
pub proof fn restarts_stop_and_start(
    supervisor: Supervisor,
    stop: Vec<ServiceStep>,
    start: Vec<ServiceStep>,
    r: Vec<ServiceStep>,
)
    requires
        call_ensures(service::run, (ServiceCommand::Stop, supervisor), stop),
        call_ensures(service::run, (ServiceCommand::Start, supervisor), start),
        call_ensures(service::run, (ServiceCommand::Restart, supervisor), r),
    ensures
        r@ == stop@ + start@,
{
}

/// A service is loaded where the supervisor finds it, and is not where it says so with its own code.
pub proof fn supervisors_tell_what_is_loaded(success: bool, code: Option<i32>, r: Loaded)
    requires
        call_ensures(service::is_loaded, (success, code), r),
    ensures
        r == Loaded::Yes <==> success,
        r == Loaded::No <==> !success && code == Some(113i32),
{
}

/// Every call is of the supervisor's own program and names the service.
pub proof fn calls_name_the_service(
    call: SupervisorCall,
    user: u32,
    definition: &str,
    r: Vec<String>,
)
    requires
        call_ensures(service::call_words, (call, user, definition), r),
    ensures
        ({
            let domain = "gui/"@ + text::decimal_view(user as nat);
            let name = domain + "/"@ + "ai.watchcat.watchcatd"@;
            text::views(r@) == (match call {
                SupervisorCall::LaunchctlEnable => seq!["launchctl"@, "enable"@, name],
                SupervisorCall::LaunchctlBootstrap => seq![
                    "launchctl"@,
                    "bootstrap"@,
                    domain,
                    definition@,
                ],
                SupervisorCall::LaunchctlBootout => seq!["launchctl"@, "bootout"@, name],
                SupervisorCall::LaunchctlPrint => seq!["launchctl"@, "print"@, name],
                SupervisorCall::SystemctlStart => seq![
                    "systemctl"@,
                    "--user"@,
                    "start"@,
                    "watchcatd.service"@,
                ],
                SupervisorCall::SystemctlStop => seq![
                    "systemctl"@,
                    "--user"@,
                    "stop"@,
                    "watchcatd.service"@,
                ],
                SupervisorCall::SystemctlReload => seq![
                    "systemctl"@,
                    "--user"@,
                    "daemon-reload"@,
                ],
                SupervisorCall::SystemctlEnable => seq![
                    "systemctl"@,
                    "--user"@,
                    "enable"@,
                    "watchcatd.service"@,
                ],
                SupervisorCall::SystemctlDisable => seq![
                    "systemctl"@,
                    "--user"@,
                    "disable"@,
                    "--now"@,
                    "watchcatd.service"@,
                ],
            })
        }),
{
}

/// The service is registered where its supervisor looks for it.
pub proof fn services_are_registered_with_their_supervisor(
    supervisor: Supervisor,
    home: &str,
    config_dir: &str,
    r: String,
)
    requires
        call_ensures(service::definition_path, (supervisor, home, config_dir), r),
        home@.len() > 0 && home@.last() != '/',
        config_dir@.len() > 0 && config_dir@.last() != '/',
    ensures
        supervisor == Supervisor::Launchd ==> r@ == home@ + "/"@
            + "Library/LaunchAgents/ai.watchcat.watchcatd.plist"@,
        supervisor == Supervisor::Systemd ==> r@ == config_dir@ + "/"@ + "systemd/user"@ + "/"@
            + "watchcatd.service"@,
{
    reveal_strlit("Library/LaunchAgents/");
    reveal_strlit("ai.watchcat.watchcatd");
    reveal_strlit(".plist");
    reveal_strlit("Library/LaunchAgents/ai.watchcat.watchcatd.plist");
    reveal_strlit("systemd/user");
    reveal_strlit("watchcatd.service");
    assert("Library/LaunchAgents/"@ + "ai.watchcat.watchcatd"@ + ".plist"@
        =~= "Library/LaunchAgents/ai.watchcat.watchcatd.plist"@);
    assert("Library/LaunchAgents/"@[0] == 'L' && "systemd/user"@[0] == 's'
        && "watchcatd.service"@[0] == 'w' && "systemd/user"@.len() == 12 && "systemd/user"@[11]
        == 'r');
    if supervisor == Supervisor::Systemd {
        let directory = config_dir@ + "/"@ + "systemd/user"@;
        assert(directory.last() == 'r');
    }
}

/// The service finds executables, its state and its watchlist where the command does, and the
/// providers' data where that was said.
pub proof fn services_keep_their_environment(
    search_path: String,
    state_dir: String,
    watchlist_file: String,
    transcripts: Option<String>,
    codex_home: Option<String>,
    r: Vec<(&'static str, String)>,
)
    requires
        call_ensures(
            service::service_environment,
            (search_path, state_dir, watchlist_file, transcripts, codex_home),
            r,
        ),
    ensures
        r@.len() == 3 + (if transcripts is Some {
            1int
        } else {
            0
        }) + (if codex_home is Some {
            1int
        } else {
            0
        }),
        r@[0].0@ == "PATH"@ && r@[0].1@ == search_path@,
        r@[1].0@ == "WATCHCAT_STATE_DIR"@ && r@[1].1@ == state_dir@,
        r@[2].0@ == "WATCHCAT_WATCHLIST"@ && r@[2].1@ == watchlist_file@,
        transcripts is Some ==> r@[3].0@ == "CLAUDE_CONFIG_DIR"@ && r@[3].1@ == transcripts->0@,
        codex_home is Some ==> r@.last().0@ == "CODEX_HOME"@ && r@.last().1@ == codex_home->0@,
{
    let views = service::variable_views(r@);
    assert(views.len() == r@.len());
    assert forall|i: int| 0 <= i < r@.len() implies #[trigger] views[i] == (r@[i].0@, r@[i].1@) by {}
    assert(views[0] == ("PATH"@, search_path@));
    assert(views[1] == ("WATCHCAT_STATE_DIR"@, state_dir@));
    assert(views[2] == ("WATCHCAT_WATCHLIST"@, watchlist_file@));
    if transcripts is Some {
        assert(views[3] == ("CLAUDE_CONFIG_DIR"@, transcripts->0@));
    }
    if codex_home is Some {
        assert(views[views.len() - 1] == ("CODEX_HOME"@, codex_home->0@));
    }
}

/// A text as it stands in a property list: what would end or begin something there is named.
pub open spec fn in_a_list(s: Seq<char>) -> Seq<char>
    decreases s.len(),
{
    if s.len() == 0 {
        Seq::empty()
    } else {
        let c = s.last();
        in_a_list(s.drop_last()) + (if c == '&' {
            "&amp;"@
        } else if c == '<' {
            "&lt;"@
        } else if c == '>' {
            "&gt;"@
        } else if c == '"' {
            "&quot;"@
        } else if c == '\'' {
            "&apos;"@
        } else {
            seq![c]
        })
    }
}

proof fn lemma_in_a_list(s: Seq<char>)
    ensures
        service::xml_escaped(s) == in_a_list(s),
    decreases s.len(),
{
    if s.len() > 0 {
        lemma_in_a_list(s.drop_last());
    }
}

/// A property list runs the program with its settings, each as it is, keeps it alive and holds no
/// control character.
pub proof fn property_lists_run_the_program(definition: &ServiceDefinition, r: Option<String>)
    requires
        call_ensures(service::launchd_definition, (definition,), r),
    ensures
        r is Some ==> !service::unfit(definition.daemon@) && !service::unfit(
            definition.config_file@,
        ),
        r is Some ==> exists|before: Seq<char>, after: Seq<char>|
            r->0@ == #[trigger] (before + ("<string>"@ + in_a_list(definition.daemon@)
                + "</string>\n"@ + "<string>--config</string>\n"@ + "<string>"@ + in_a_list(
                definition.config_file@,
            ) + "</string>\n"@) + after),
{
    lemma_in_a_list(definition.daemon@);
    lemma_in_a_list(definition.config_file@);
    if r is Some {
        let before =
            "<?xml version=\"1.0\" encoding=\"UTF-8\"?>\n<plist version=\"1.0\"><dict>\n<key>Label</key><string>ai.watchcat.watchcatd</string>\n<key>ProgramArguments</key><array>\n"@;
        let middle = "<string>"@ + in_a_list(definition.daemon@) + "</string>\n"@
            + "<string>--config</string>\n"@ + "<string>"@ + in_a_list(definition.config_file@)
            + "</string>\n"@;
        let start = before.len() + middle.len();
        let after = r->0@.skip(start as int);
        assert(r->0@ =~= before + middle + after);
    }
}

/// A text as it stands in a unit: what would mean something there stands for itself.
pub open spec fn in_a_unit(s: Seq<char>) -> Seq<char>
    decreases s.len(),
{
    if s.len() == 0 {
        Seq::empty()
    } else {
        let c = s.last();
        in_a_unit(s.drop_last()) + (if c == '\\' || c == '"' {
            seq!['\\', c]
        } else if c == '%' || c == '$' {
            seq![c, c]
        } else {
            seq![c]
        })
    }
}

proof fn lemma_in_a_unit(s: Seq<char>)
    ensures
        service::unit_escaped(s, true) == in_a_unit(s),
    decreases s.len(),
{
    if s.len() > 0 {
        lemma_in_a_unit(s.drop_last());
    }
}

/// A unit runs the program with its settings, each as it is, and again where it fails.
pub proof fn units_run_the_program(definition: &ServiceDefinition, r: Option<String>)
    requires
        call_ensures(service::systemd_definition, (definition,), r),
    ensures
        r is Some ==> exists|after: Seq<char>|
            r->0@
                == #[trigger] ("[Unit]\nDescription=Watchcat local reliability service\nAfter=network-online.target\n\n[Service]\nExecStart="@
                + ("\""@ + in_a_unit(definition.daemon@) + "\""@) + " "@ + ("\""@ + in_a_unit(
                "--config"@,
            ) + "\""@) + " "@ + ("\""@ + in_a_unit(definition.config_file@) + "\""@)
                + "\nRestart=on-failure\nRestartSec=10\nUMask=0077\n"@ + after),
{
    lemma_in_a_unit(definition.daemon@);
    lemma_in_a_unit("--config"@);
    lemma_in_a_unit(definition.config_file@);
    if r is Some {
        let start =
            "[Unit]\nDescription=Watchcat local reliability service\nAfter=network-online.target\n\n[Service]\nExecStart="@
            + ("\""@ + in_a_unit(definition.daemon@) + "\""@) + " "@ + ("\""@ + in_a_unit(
            "--config"@,
        ) + "\""@) + " "@ + ("\""@ + in_a_unit(definition.config_file@) + "\""@)
            + "\nRestart=on-failure\nRestartSec=10\nUMask=0077\n"@;
        let after = r->0@.skip(start.len() as int);
        assert(r->0@ =~= start + after);
    }
}

} // verus!
