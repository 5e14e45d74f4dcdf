//! The registration of the background service with the system's supervisor.

use vstd::prelude::*;
use vstd::string::*;

use crate::config;
use crate::text;

verus! {

/// What the user asks of the background service.
#[derive(Clone, Copy, Debug, PartialEq, Eq, Structural)]
pub enum ServiceCommand {
    /// Registers the service, so that it starts at login; in a dry run the definition is only shown.
    Install { dry_run: bool },
    Start,
    Stop,
    Restart,
    Status { json: bool },
    /// Stops and unregisters the service; settings and state stay.
    Uninstall,
}

/// What supervises the service.
#[derive(Clone, Copy, Debug, PartialEq, Eq, Structural)]
pub enum Supervisor {
    Launchd,
    Systemd,
}

/// A call of the supervisor's control program.
#[derive(Clone, Copy, Debug, PartialEq, Eq, Structural)]
pub enum SupervisorCall {
    LaunchctlEnable,
    LaunchctlBootstrap,
    LaunchctlBootout,
    LaunchctlPrint,
    SystemctlStart,
    SystemctlStop,
    SystemctlReload,
    SystemctlEnable,
    SystemctlDisable,
}

/// A step on the way to what the user asks.
#[derive(Clone, Copy, Debug, PartialEq, Eq, Structural)]
pub enum ServiceStep {
    /// Fails where no definition is registered.
    RequireInstalled,
    /// Fails where a definition is registered.
    RequireAbsent,
    /// Fails where the settings cannot be used.
    RequireSettings,
    ShowDefinition,
    WriteDefinition,
    RemoveDefinition,
    Call(SupervisorCall),
    /// Asks whether the service is loaded, and ends it if it is.
    EndLoaded,
}

/// The steps that start the service.
pub open spec fn start_steps(supervisor: Supervisor) -> Seq<ServiceStep> {
    match supervisor {
        Supervisor::Launchd => seq![
            ServiceStep::RequireInstalled,
            ServiceStep::Call(SupervisorCall::LaunchctlEnable),
            ServiceStep::Call(SupervisorCall::LaunchctlBootstrap),
        ],
        Supervisor::Systemd => seq![
            ServiceStep::RequireInstalled,
            ServiceStep::Call(SupervisorCall::SystemctlStart),
        ],
    }
}

/// The steps that stop the service.
pub open spec fn stop_steps(supervisor: Supervisor) -> Seq<ServiceStep> {
    match supervisor {
        Supervisor::Launchd => seq![ServiceStep::EndLoaded],
        Supervisor::Systemd => seq![ServiceStep::Call(SupervisorCall::SystemctlStop)],
    }
}

/// The steps on the way to what the user asks.
pub open spec fn steps_of(command: ServiceCommand, supervisor: Supervisor) -> Seq<ServiceStep> {
    match command {
        ServiceCommand::Install { dry_run: true } => seq![ServiceStep::ShowDefinition],
        ServiceCommand::Install { dry_run: false } => {
            let written = seq![
                ServiceStep::RequireAbsent,
                ServiceStep::RequireSettings,
                ServiceStep::WriteDefinition,
            ];
            match supervisor {
                Supervisor::Launchd => written,
                Supervisor::Systemd => written + seq![
                    ServiceStep::Call(SupervisorCall::SystemctlReload),
                    ServiceStep::Call(SupervisorCall::SystemctlEnable),
                ],
            }
        },
        ServiceCommand::Start => start_steps(supervisor),
        ServiceCommand::Stop => stop_steps(supervisor),
        ServiceCommand::Restart => stop_steps(supervisor) + start_steps(supervisor),
        ServiceCommand::Status { .. } => Seq::empty(),
        ServiceCommand::Uninstall => match supervisor {
            Supervisor::Launchd => seq![
                ServiceStep::RequireInstalled,
                ServiceStep::EndLoaded,
                ServiceStep::RemoveDefinition,
            ],
            Supervisor::Systemd => seq![
                ServiceStep::RequireInstalled,
                ServiceStep::Call(SupervisorCall::SystemctlDisable),
                ServiceStep::RemoveDefinition,
                ServiceStep::Call(SupervisorCall::SystemctlReload),
            ],
        },
    }
}

fn push_start(steps: &mut Vec<ServiceStep>, supervisor: Supervisor)
    ensures
        final(steps)@ == old(steps)@ + start_steps(supervisor),
{
    steps.push(ServiceStep::RequireInstalled);
    match supervisor {
        Supervisor::Launchd => {
            steps.push(ServiceStep::Call(SupervisorCall::LaunchctlEnable));
            steps.push(ServiceStep::Call(SupervisorCall::LaunchctlBootstrap));
        },
        Supervisor::Systemd => {
            steps.push(ServiceStep::Call(SupervisorCall::SystemctlStart));
        },
    }
    assert(steps@ =~= old(steps)@ + start_steps(supervisor));
}

fn push_stop(steps: &mut Vec<ServiceStep>, supervisor: Supervisor)
    ensures
        final(steps)@ == old(steps)@ + stop_steps(supervisor),
{
    match supervisor {
        Supervisor::Launchd => {
            steps.push(ServiceStep::EndLoaded);
        },
        Supervisor::Systemd => {
            steps.push(ServiceStep::Call(SupervisorCall::SystemctlStop));
        },
    }
    assert(steps@ =~= old(steps)@ + stop_steps(supervisor));
}

/// The steps on the way to what the user asks, one after the other. The first that fails ends it.
pub fn run(command: ServiceCommand, supervisor: Supervisor) -> (r: Vec<ServiceStep>)
    ensures
        r@ == steps_of(command, supervisor),
{
    let mut steps: Vec<ServiceStep> = Vec::new();
    match command {
        ServiceCommand::Install { dry_run } => {
            if dry_run {
                steps.push(ServiceStep::ShowDefinition);
            } else {
                steps.push(ServiceStep::RequireAbsent);
                steps.push(ServiceStep::RequireSettings);
                steps.push(ServiceStep::WriteDefinition);
                match supervisor {
                    Supervisor::Launchd => {},
                    Supervisor::Systemd => {
                        steps.push(ServiceStep::Call(SupervisorCall::SystemctlReload));
                        steps.push(ServiceStep::Call(SupervisorCall::SystemctlEnable));
                    },
                }
            }
        },
        ServiceCommand::Start => push_start(&mut steps, supervisor),
        ServiceCommand::Stop => push_stop(&mut steps, supervisor),
        ServiceCommand::Restart => {
            push_stop(&mut steps, supervisor);
            push_start(&mut steps, supervisor);
        },
        ServiceCommand::Status { .. } => {},
        ServiceCommand::Uninstall => {
            steps.push(ServiceStep::RequireInstalled);
            match supervisor {
                Supervisor::Launchd => {
                    steps.push(ServiceStep::EndLoaded);
                    steps.push(ServiceStep::RemoveDefinition);
                },
                Supervisor::Systemd => {
                    steps.push(ServiceStep::Call(SupervisorCall::SystemctlDisable));
                    steps.push(ServiceStep::RemoveDefinition);
                    steps.push(ServiceStep::Call(SupervisorCall::SystemctlReload));
                },
            }
        },
    }
    assert(steps@ =~= steps_of(command, supervisor));
    steps
}

/// A dry run changes nothing: it only shows the definition.
pub proof fn dry_runs_change_nothing(supervisor: Supervisor, i: int)
    requires
        0 <= i < steps_of(ServiceCommand::Install { dry_run: true }, supervisor).len(),
    ensures
        steps_of(ServiceCommand::Install { dry_run: true }, supervisor)[i]
            == ServiceStep::ShowDefinition,
{
}

/// What is registered is replaced only after it was removed: a definition is written only behind
/// the check that there is none.
pub proof fn installing_replaces_nothing(command: ServiceCommand, supervisor: Supervisor, i: int)
    requires
        0 <= i < steps_of(command, supervisor).len(),
        steps_of(command, supervisor)[i] == ServiceStep::WriteDefinition,
    ensures
        i > 0,
        steps_of(command, supervisor)[0] == ServiceStep::RequireAbsent,
{
}

/// What is known of a service that was asked for, from the exit of the question.
#[derive(Clone, Copy, Debug, PartialEq, Eq, Structural)]
pub enum Loaded {
    Yes,
    No,
    Unknown,
}

/// Whether the service is loaded. The supervisor says with an exit of its own that it is not.
pub fn is_loaded(success: bool, code: Option<i32>) -> (r: Loaded)
    ensures
        r == (if success {
            Loaded::Yes
        } else if code == Some(113i32) {
            Loaded::No
        } else {
            Loaded::Unknown
        }),
{
    if success {
        return Loaded::Yes;
    }
    match code {
        Some(code) => if code == 113 {
            Loaded::No
        } else {
            Loaded::Unknown
        },
        None => Loaded::Unknown,
    }
}

/// The service's name at its supervisor.
pub open spec fn label_view(supervisor: Supervisor) -> Seq<char> {
    match supervisor {
        Supervisor::Launchd => "ai.watchcat.watchcatd"@,
        Supervisor::Systemd => "watchcatd.service"@,
    }
}

/// The service's name at its supervisor.
pub fn label(supervisor: Supervisor) -> (r: &'static str)
    ensures
        r@ == label_view(supervisor),
{
    match supervisor {
        Supervisor::Launchd => "ai.watchcat.watchcatd",
        Supervisor::Systemd => "watchcatd.service",
    }
}

/// Where the service is registered.
pub fn definition_path(supervisor: Supervisor, home: &str, config_dir: &str) -> (r: String)
    ensures
        r@ == (match supervisor {
            Supervisor::Launchd => config::joined(
                home@,
                "Library/LaunchAgents/"@ + label_view(supervisor) + ".plist"@,
            ),
            Supervisor::Systemd => config::joined(
                config::joined(config_dir@, "systemd/user"@),
                label_view(supervisor),
            ),
        }),
{
    match supervisor {
        Supervisor::Launchd => {
            let name = "Library/LaunchAgents/".to_owned().concat(label(supervisor)).concat(
                ".plist",
            );
            config::join(home, name.as_str())
        },
        Supervisor::Systemd => {
            let directory = config::join(config_dir, "systemd/user");
            config::join(directory.as_str(), label(supervisor))
        },
    }
}

/// The domain of a user's services.
pub open spec fn domain_view(user: u32) -> Seq<char> {
    "gui/"@ + text::decimal_view(user as nat)
}

/// The service in its domain.
pub open spec fn target_view(user: u32) -> Seq<char> {
    domain_view(user) + "/"@ + label_view(Supervisor::Launchd)
}

/// The words of a call: the program and its arguments.
pub open spec fn words_of(call: SupervisorCall, user: u32, definition: Seq<char>) -> Seq<Seq<char>> {
    let unit = label_view(Supervisor::Systemd);
    match call {
        SupervisorCall::LaunchctlEnable => seq!["launchctl"@, "enable"@, target_view(user)],
        SupervisorCall::LaunchctlBootstrap => seq![
            "launchctl"@,
            "bootstrap"@,
            domain_view(user),
            definition,
        ],
        SupervisorCall::LaunchctlBootout => seq!["launchctl"@, "bootout"@, target_view(user)],
        SupervisorCall::LaunchctlPrint => seq!["launchctl"@, "print"@, target_view(user)],
        SupervisorCall::SystemctlStart => seq!["systemctl"@, "--user"@, "start"@, unit],
        SupervisorCall::SystemctlStop => seq!["systemctl"@, "--user"@, "stop"@, unit],
        SupervisorCall::SystemctlReload => seq!["systemctl"@, "--user"@, "daemon-reload"@],
        SupervisorCall::SystemctlEnable => seq!["systemctl"@, "--user"@, "enable"@, unit],
        SupervisorCall::SystemctlDisable => seq![
            "systemctl"@,
            "--user"@,
            "disable"@,
            "--now"@,
            unit,
        ],
    }
}

/// The words of a call: the program and its arguments.
pub fn call_words(call: SupervisorCall, user: u32, definition: &str) -> (r: Vec<String>)
    ensures
        text::views(r@) == words_of(call, user, definition@),
{
    let domain = "gui/".to_owned().concat(text::decimal(user as u64).as_str());
    let target = domain.clone().concat("/").concat(label(Supervisor::Launchd));
    let unit: &'static str = label(Supervisor::Systemd);
    let mut words: Vec<String> = Vec::new();
    match call {
        SupervisorCall::LaunchctlEnable => {
            words.push("launchctl".to_owned());
            words.push("enable".to_owned());
            words.push(target);
        },
        SupervisorCall::LaunchctlBootstrap => {
            words.push("launchctl".to_owned());
            words.push("bootstrap".to_owned());
            words.push(domain);
            words.push(definition.to_owned());
        },
        SupervisorCall::LaunchctlBootout => {
            words.push("launchctl".to_owned());
            words.push("bootout".to_owned());
            words.push(target);
        },
        SupervisorCall::LaunchctlPrint => {
            words.push("launchctl".to_owned());
            words.push("print".to_owned());
            words.push(target);
        },
        SupervisorCall::SystemctlStart => {
            words.push("systemctl".to_owned());
            words.push("--user".to_owned());
            words.push("start".to_owned());
            words.push(unit.to_owned());
        },
        SupervisorCall::SystemctlStop => {
            words.push("systemctl".to_owned());
            words.push("--user".to_owned());
            words.push("stop".to_owned());
            words.push(unit.to_owned());
        },
        SupervisorCall::SystemctlReload => {
            words.push("systemctl".to_owned());
            words.push("--user".to_owned());
            words.push("daemon-reload".to_owned());
        },
        SupervisorCall::SystemctlEnable => {
            words.push("systemctl".to_owned());
            words.push("--user".to_owned());
            words.push("enable".to_owned());
            words.push(unit.to_owned());
        },
        SupervisorCall::SystemctlDisable => {
            words.push("systemctl".to_owned());
            words.push("--user".to_owned());
            words.push("disable".to_owned());
            words.push("--now".to_owned());
            words.push(unit.to_owned());
        },
    }
    assert(text::views(words@) =~= words_of(call, user, definition@));
    words
}

/// What the service is started with.
#[derive(Debug)]
pub struct ServiceDefinition {
    pub daemon: String,
    pub config_file: String,
    pub state_dir: String,
    /// The variables of the service's environment with their values.
    pub environment: Vec<(&'static str, String)>,
}

/// The names and values of variables.
pub open spec fn variable_views(variables: Seq<(&'static str, String)>) -> Seq<
    (Seq<char>, Seq<char>),
> {
    variables.map_values(|variable: (&'static str, String)| (variable.0@, variable.1@))
}

/// The environment of the service: where it finds executables, state and watchlist, and where the
/// providers keep their data if that was said.
pub open spec fn environment_of(
    search_path: Seq<char>,
    state_dir: Seq<char>,
    watchlist_file: Seq<char>,
    claude_config_dir: Option<Seq<char>>,
    codex_home: Option<Seq<char>>,
) -> Seq<(Seq<char>, Seq<char>)> {
    let always = seq![
        ("PATH"@, search_path),
        ("WATCHCAT_STATE_DIR"@, state_dir),
        ("WATCHCAT_WATCHLIST"@, watchlist_file),
    ];
    let with_claude = match claude_config_dir {
        Some(value) => always.push(("CLAUDE_CONFIG_DIR"@, value)),
        None => always,
    };
    match codex_home {
        Some(value) => with_claude.push(("CODEX_HOME"@, value)),
        None => with_claude,
    }
}

/// The environment of the service.
pub fn service_environment(
    search_path: String,
    state_dir: String,
    watchlist_file: String,
    claude_config_dir: Option<String>,
    codex_home: Option<String>,
) -> (r: Vec<(&'static str, String)>)
    ensures
        variable_views(r@) == environment_of(
            search_path@,
            state_dir@,
            watchlist_file@,
            text::option_view(claude_config_dir),
            text::option_view(codex_home),
        ),
{
    let mut r: Vec<(&'static str, String)> = Vec::new();
    r.push(("PATH", search_path));
    r.push(("WATCHCAT_STATE_DIR", state_dir));
    r.push(("WATCHCAT_WATCHLIST", watchlist_file));
    match claude_config_dir {
        Some(value) => {
            r.push(("CLAUDE_CONFIG_DIR", value));
        },
        None => {},
    }
    match codex_home {
        Some(value) => {
            r.push(("CODEX_HOME", value));
        },
        None => {},
    }
    assert(variable_views(r@) =~= environment_of(
        search_path@,
        state_dir@,
        watchlist_file@,
        text::option_view(claude_config_dir),
        text::option_view(codex_home),
    ));
    r
}

/// A character of a value in a property list.
pub open spec fn xml_char(c: char) -> Seq<char> {
    if c == '&' {
        "&amp;"@
    } else if c == '<' {
        "&lt;"@
    } else if c == '>' {
        "&gt;"@
    } else if c == '"' {
        "&quot;"@
    } else if c == '\'' {
        "&apos;"@
    } else {
        seq![c]
    }
}

/// A value in a property list.
pub open spec fn xml_escaped(s: Seq<char>) -> Seq<char>
    decreases s.len(),
{
    if s.len() == 0 {
        Seq::empty()
    } else {
        xml_escaped(s.drop_last()) + xml_char(s.last())
    }
}

/// A value has a control character, which no definition can hold.
pub open spec fn unfit(s: Seq<char>) -> bool {
    exists|i: int| 0 <= i < s.len() && text::control(#[trigger] s[i])
}

fn escape_xml(value: &str) -> (r: Option<String>)
    ensures
        match r {
            Some(escaped) => !unfit(value@) && escaped@ == xml_escaped(value@),
            None => unfit(value@),
        },
{
    if text::has_control(value) {
        return None;
    }
    let chars = text::chars_of(value);
    let mut r = String::new();
    let mut i: usize = 0;
    while i < chars.len()
        invariant
            i <= chars@.len(),
            chars@ == value@,
            r@ == xml_escaped(value@.take(i as int)),
        decreases chars@.len() - i,
    {
        let c: char = chars[i];
        assert(value@.take(i + 1).drop_last() =~= value@.take(i as int));
        let ghost before = r@;
        if c == '&' {
            r.append("&amp;");
        } else if c == '<' {
            r.append("&lt;");
        } else if c == '>' {
            r.append("&gt;");
        } else if c == '"' {
            r.append("&quot;");
        } else if c == '\'' {
            r.append("&apos;");
        } else {
            r.push(c);
            assert(r@ =~= before + seq![c]);
        }
        i += 1;
    }
    assert(value@.take(i as int) =~= value@);
    Some(r)
}

/// A character of a value in a unit; in a command the dollar sign is special too.
pub open spec fn unit_char(c: char, command: bool) -> Seq<char> {
    if c == '\\' {
        seq!['\\', '\\']
    } else if c == '"' {
        seq!['\\', '"']
    } else if c == '%' {
        seq!['%', '%']
    } else if c == '$' && command {
        seq!['$', '$']
    } else {
        seq![c]
    }
}

/// The characters of a value in a unit.
pub open spec fn unit_escaped(s: Seq<char>, command: bool) -> Seq<char>
    decreases s.len(),
{
    if s.len() == 0 {
        Seq::empty()
    } else {
        unit_escaped(s.drop_last(), command) + unit_char(s.last(), command)
    }
}

/// A value in a unit, in quotes.
pub open spec fn unit_quoted(s: Seq<char>, command: bool) -> Seq<char> {
    "\""@ + unit_escaped(s, command) + "\""@
}

fn quote_unit(value: &str, command: bool) -> (r: Option<String>)
    ensures
        match r {
            Some(quoted) => !unfit(value@) && quoted@ == unit_quoted(value@, command),
            None => unfit(value@),
        },
{
    if text::has_control(value) {
        return None;
    }
    let chars = text::chars_of(value);
    let mut r = String::new();
    let mut i: usize = 0;
    while i < chars.len()
        invariant
            i <= chars@.len(),
            chars@ == value@,
            r@ == unit_escaped(value@.take(i as int), command),
        decreases chars@.len() - i,
    {
        let c: char = chars[i];
        assert(value@.take(i + 1).drop_last() =~= value@.take(i as int));
        let ghost before = r@;
        if c == '\\' || c == '"' {
            r.push('\\');
        } else if c == '%' || (c == '$' && command) {
            r.push(c);
        }
        r.push(c);
        assert(r@ =~= before + unit_char(c, command));
        i += 1;
    }
    assert(value@.take(i as int) =~= value@);
    Some("\"".to_owned().concat(r.as_str()).concat("\""))
}

/// The lines that set variables in a property list.
pub open spec fn xml_variables(variables: Seq<(Seq<char>, Seq<char>)>) -> Seq<char>
    decreases variables.len(),
{
    if variables.len() == 0 {
        Seq::empty()
    } else {
        xml_variables(variables.drop_last()) + "<key>"@ + variables.last().0
            + "</key><string>"@ + xml_escaped(variables.last().1) + "</string>\n"@
    }
}

/// The lines that set variables in a unit.
pub open spec fn unit_variables(variables: Seq<(Seq<char>, Seq<char>)>) -> Seq<char>
    decreases variables.len(),
{
    if variables.len() == 0 {
        Seq::empty()
    } else {
        unit_variables(variables.drop_last()) + "Environment="@ + unit_quoted(
            variables.last().0 + "="@ + variables.last().1,
            false,
        ) + "\n"@
    }
}

/// A variable whose value no definition can hold.
pub open spec fn unfit_variable(variables: Seq<(Seq<char>, Seq<char>)>) -> bool {
    exists|i: int| 0 <= i < variables.len() && unfit((#[trigger] variables[i]).1)
}

/// A property list for launchd.
pub open spec fn launchd_view(definition: ServiceDefinition) -> Seq<char> {
    "<?xml version=\"1.0\" encoding=\"UTF-8\"?>\n<plist version=\"1.0\"><dict>\n<key>Label</key><string>ai.watchcat.watchcatd</string>\n<key>ProgramArguments</key><array>\n"@
        + "<string>"@ + xml_escaped(definition.daemon@) + "</string>\n"@
        + "<string>--config</string>\n"@
        + "<string>"@ + xml_escaped(definition.config_file@) + "</string>\n"@
        + "</array>\n<key>EnvironmentVariables</key><dict>\n"@
        + xml_variables(variable_views(definition.environment@))
        + "</dict>\n<key>RunAtLoad</key><true/>\n<key>KeepAlive</key><true/>\n<key>ThrottleInterval</key><integer>10</integer>\n<key>StandardOutPath</key><string>"@
        + xml_escaped(config::joined(definition.state_dir@, "watchcatd.log"@))
        + "</string>\n<key>StandardErrorPath</key><string>"@
        + xml_escaped(config::joined(definition.state_dir@, "watchcatd.err.log"@))
        + "</string>\n</dict></plist>\n"@
}

/// No property list can hold the definition.
pub open spec fn unfit_for_launchd(definition: ServiceDefinition) -> bool {
    ||| unfit(definition.daemon@)
    ||| unfit(definition.config_file@)
    ||| unfit_variable(variable_views(definition.environment@))
    ||| unfit(config::joined(definition.state_dir@, "watchcatd.log"@))
    ||| unfit(config::joined(definition.state_dir@, "watchcatd.err.log"@))
}

/// A unit for systemd.
pub open spec fn systemd_view(definition: ServiceDefinition) -> Seq<char> {
    "[Unit]\nDescription=Watchcat local reliability service\nAfter=network-online.target\n\n[Service]\nExecStart="@
        + unit_quoted(definition.daemon@, true) + " "@ + unit_quoted("--config"@, true) + " "@
        + unit_quoted(definition.config_file@, true)
        + "\nRestart=on-failure\nRestartSec=10\nUMask=0077\n"@
        + unit_variables(variable_views(definition.environment@))
        + "\n[Install]\nWantedBy=default.target\n"@
}

/// No unit can hold the definition.
pub open spec fn unfit_for_systemd(definition: ServiceDefinition) -> bool {
    ||| unfit(definition.daemon@)
    ||| unfit(definition.config_file@)
    ||| exists|i: int|
        0 <= i < definition.environment@.len() && unfit(
            (#[trigger] definition.environment@[i]).0@ + "="@ + definition.environment@[i].1@,
        )
}

/// Writes a property list for launchd, unless a value holds a control character.
pub fn launchd_definition(definition: &ServiceDefinition) -> (r: Option<String>)
    ensures
        match r {
            Some(body) => !unfit_for_launchd(*definition) && body@ == launchd_view(*definition),
            None => unfit_for_launchd(*definition),
        },
{
    let daemon = match escape_xml(definition.daemon.as_str()) {
        Some(escaped) => escaped,
        None => {
            return None;
        },
    };
    let config_file = match escape_xml(definition.config_file.as_str()) {
        Some(escaped) => escaped,
        None => {
            return None;
        },
    };
    let ghost all = variable_views(definition.environment@);
    let mut variables = String::new();
    let mut i: usize = 0;
    while i < definition.environment.len()
        invariant
            i <= definition.environment@.len(),
            all == variable_views(definition.environment@),
            variables@ == xml_variables(all.take(i as int)),
            forall|k: int| 0 <= k < i ==> !unfit((#[trigger] all[k]).1),
        decreases definition.environment@.len() - i,
    {
        assert(all.take(i + 1).drop_last() =~= all.take(i as int));
        assert(all[i as int] == (
            definition.environment@[i as int].0@,
            definition.environment@[i as int].1@,
        ));
        let value = match escape_xml(definition.environment[i].1.as_str()) {
            Some(escaped) => escaped,
            None => {
                assert(unfit(all[i as int].1));
                return None;
            },
        };
        variables.append("<key>");
        variables.append(definition.environment[i].0);
        variables.append("</key><string>");
        variables.append(value.as_str());
        variables.append("</string>\n");
        i += 1;
    }
    assert(all.take(i as int) =~= all);
    let log = match escape_xml(config::join(definition.state_dir.as_str(), "watchcatd.log").as_str()) {
        Some(escaped) => escaped,
        None => {
            return None;
        },
    };
    let errors = match escape_xml(
        config::join(definition.state_dir.as_str(), "watchcatd.err.log").as_str(),
    ) {
        Some(escaped) => escaped,
        None => {
            return None;
        },
    };
    let body =
        "<?xml version=\"1.0\" encoding=\"UTF-8\"?>\n<plist version=\"1.0\"><dict>\n<key>Label</key><string>ai.watchcat.watchcatd</string>\n<key>ProgramArguments</key><array>\n".to_owned().concat("<string>").concat(
        daemon.as_str(),
    ).concat("</string>\n").concat("<string>--config</string>\n").concat("<string>").concat(
        config_file.as_str(),
    ).concat("</string>\n").concat("</array>\n<key>EnvironmentVariables</key><dict>\n").concat(
        variables.as_str(),
    ).concat(
        "</dict>\n<key>RunAtLoad</key><true/>\n<key>KeepAlive</key><true/>\n<key>ThrottleInterval</key><integer>10</integer>\n<key>StandardOutPath</key><string>",
    ).concat(log.as_str()).concat("</string>\n<key>StandardErrorPath</key><string>").concat(
        errors.as_str(),
    ).concat("</string>\n</dict></plist>\n");
    Some(body)
}

/// Writes a unit for systemd, unless a value holds a control character.
pub fn systemd_definition(definition: &ServiceDefinition) -> (r: Option<String>)
    ensures
        match r {
            Some(body) => !unfit_for_systemd(*definition) && body@ == systemd_view(*definition),
            None => unfit_for_systemd(*definition),
        },
{
    let daemon = match quote_unit(definition.daemon.as_str(), true) {
        Some(quoted) => quoted,
        None => {
            return None;
        },
    };
    let option = match quote_unit("--config", true) {
        Some(quoted) => quoted,
        None => {
            proof {
                reveal_strlit("--config");
            }
            return None;
        },
    };
    let config_file = match quote_unit(definition.config_file.as_str(), true) {
        Some(quoted) => quoted,
        None => {
            return None;
        },
    };
    let ghost all = variable_views(definition.environment@);
    let mut variables = String::new();
    let mut i: usize = 0;
    while i < definition.environment.len()
        invariant
            i <= definition.environment@.len(),
            all == variable_views(definition.environment@),
            variables@ == unit_variables(all.take(i as int)),
            forall|k: int|
                0 <= k < i ==> !unfit(
                    (#[trigger] definition.environment@[k]).0@ + "="@
                        + definition.environment@[k].1@,
                ),
        decreases definition.environment@.len() - i,
    {
        assert(all.take(i + 1).drop_last() =~= all.take(i as int));
        assert(all[i as int] == (
            definition.environment@[i as int].0@,
            definition.environment@[i as int].1@,
        ));
        let assignment = definition.environment[i].0.to_owned().concat("=").concat(
            definition.environment[i].1.as_str(),
        );
        let quoted = match quote_unit(assignment.as_str(), false) {
            Some(quoted) => quoted,
            None => {
                return None;
            },
        };
        variables.append("Environment=");
        variables.append(quoted.as_str());
        variables.append("\n");
        i += 1;
    }
    assert(all.take(i as int) =~= all);
    let body =
        "[Unit]\nDescription=Watchcat local reliability service\nAfter=network-online.target\n\n[Service]\nExecStart=".to_owned().concat(
        daemon.as_str(),
    ).concat(" ").concat(option.as_str()).concat(" ").concat(config_file.as_str()).concat(
        "\nRestart=on-failure\nRestartSec=10\nUMask=0077\n",
    ).concat(variables.as_str()).concat("\n[Install]\nWantedBy=default.target\n");
    Some(body)
}

} // verus!
