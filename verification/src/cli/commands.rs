//! The requests that commands make of the service, and what is shown of the answers.

use vstd::prelude::*;
use vstd::string::*;
use vstd::utf8::*;

use crate::cli;
use crate::config::{PolicyOverride, ResolvedPolicy};
use crate::json;
use crate::json::{Json, Plain};
use crate::models::{BackoffKind, PolicyAction, SessionLog, WatchTarget};
use crate::os_permissions::events::Event;
use crate::text;

verus! {

/// What the user asks about sessions.
#[derive(Debug)]
#[allow(inconsistent_fields)]
pub enum SessionCommand {
    /// Lists managed sessions.
    List { provider: Option<String>, limit: usize },
    /// Searches a provider's sessions, managed or not.
    Search { provider: String, limit: usize, query: String, cursor: Option<String> },
    Show { provider: String, session_id: String },
    /// Shows what happened in a session.
    Logs { provider: String, session_id: String, limit: usize, category: Option<String> },
    Send { provider: String, session_id: String, message: String },
    Interrupt { provider: String, session_id: String },
    Add { provider: String, session_id: String, label: Option<String>, validate: bool },
    Remove { provider: String, session_id: String },
}

/// An optional text as a value.
pub open spec fn optional(s: Option<String>) -> Plain {
    match s {
        Some(s) => Plain::Text(s@),
        None => Plain::Null,
    }
}

/// An optional number as a value.
pub open spec fn optional_count(n: Option<u64>) -> Plain {
    match n {
        Some(n) => Plain::Unsigned(n),
        None => Plain::Null,
    }
}

fn count_value(n: Option<u64>) -> (r: Json)
    ensures
        json::shows(r, optional_count(n)),
{
    match n {
        Some(n) => json::unsigned_value(n),
        None => Json::Null,
    }
}

fn session_value(provider: &String, session_id: &String) -> (r: json::JsonObject)
    ensures
        json::agree(
            r@,
            map![
                "provider"@ => Plain::Text(provider@),
                "session_id"@ => Plain::Text(session_id@),
            ],
        ),
{
    Json::object().with("provider", json::text_value(provider.as_str())).with(
        "session_id",
        json::text_value(session_id.as_str()),
    )
}

impl SessionCommand {
    /// The method that is called.
    pub open spec fn method_view(self) -> Seq<char> {
        match self {
            SessionCommand::List { .. } => "sessions.list"@,
            SessionCommand::Search { .. } => "sessions.search"@,
            SessionCommand::Show { .. } => "sessions.search"@,
            SessionCommand::Logs { .. } => "sessions.logs"@,
            SessionCommand::Send { .. } => "sessions.send"@,
            SessionCommand::Interrupt { .. } => "sessions.interrupt"@,
            SessionCommand::Add { .. } => "sessions.add"@,
            SessionCommand::Remove { .. } => "sessions.remove"@,
        }
    }

    /// The method that is called.
    pub fn method(&self) -> (r: &'static str)
        ensures
            r@ == self.method_view(),
    {
        match self {
            SessionCommand::List { .. } => "sessions.list",
            SessionCommand::Search { .. } => "sessions.search",
            SessionCommand::Show { .. } => "sessions.search",
            SessionCommand::Logs { .. } => "sessions.logs",
            SessionCommand::Send { .. } => "sessions.send",
            SessionCommand::Interrupt { .. } => "sessions.interrupt",
            SessionCommand::Add { .. } => "sessions.add",
            SessionCommand::Remove { .. } => "sessions.remove",
        }
    }

    /// What the method is called with. A session to be shown is searched for.
    pub open spec fn params_view(self) -> Plain {
        match self {
            SessionCommand::List { provider, limit } => Plain::Object(
                map!["provider"@ => optional(provider), "limit"@ => Plain::Unsigned(limit as u64)],
            ),
            SessionCommand::Search { provider, limit, query, cursor } => Plain::Object(
                map![
                    "provider"@ => Plain::Text(provider@),
                    "limit"@ => Plain::Unsigned(limit as u64),
                    "query"@ => Plain::Text(query@),
                    "cursor"@ => optional(cursor),
                ],
            ),
            SessionCommand::Show { provider, session_id } => Plain::Object(
                map![
                    "provider"@ => Plain::Text(provider@),
                    "limit"@ => Plain::Unsigned(1),
                    "query"@ => Plain::Text(session_id@),
                ],
            ),
            SessionCommand::Logs { provider, session_id, limit, category } => Plain::Object(
                map![
                    "provider"@ => Plain::Text(provider@),
                    "session_id"@ => Plain::Text(session_id@),
                    "limit"@ => Plain::Unsigned(limit as u64),
                    "category"@ => optional(category),
                ],
            ),
            SessionCommand::Send { provider, session_id, message } => Plain::Object(
                map![
                    "provider"@ => Plain::Text(provider@),
                    "session_id"@ => Plain::Text(session_id@),
                    "message"@ => Plain::Text(message@),
                ],
            ),
            SessionCommand::Interrupt { provider, session_id } => Plain::Object(
                map![
                    "provider"@ => Plain::Text(provider@),
                    "session_id"@ => Plain::Text(session_id@),
                ],
            ),
            SessionCommand::Add { provider, session_id, label, validate } => Plain::Object(
                map![
                    "provider"@ => Plain::Text(provider@),
                    "session_id"@ => Plain::Text(session_id@),
                    "label"@ => optional(label),
                    "validate"@ => Plain::Bool(validate),
                ],
            ),
            SessionCommand::Remove { provider, session_id } => Plain::Object(
                map![
                    "provider"@ => Plain::Text(provider@),
                    "session_id"@ => Plain::Text(session_id@),
                ],
            ),
        }
    }

    /// What the method is called with.
    pub fn params(&self) -> (r: Json)
        ensures
            json::shows(r, self.params_view()),
    {
        match self {
            SessionCommand::List { provider, limit } => {
                Json::object().with("provider", json::optional_text(provider)).with(
                    "limit",
                    json::unsigned_value(*limit as u64),
                ).build()
            },
            SessionCommand::Search { provider, limit, query, cursor } => {
                Json::object().with("provider", json::text_value(provider.as_str())).with(
                    "limit",
                    json::unsigned_value(*limit as u64),
                ).with("query", json::text_value(query.as_str())).with(
                    "cursor",
                    json::optional_text(cursor),
                ).build()
            },
            SessionCommand::Show { provider, session_id } => {
                Json::object().with("provider", json::text_value(provider.as_str())).with(
                    "limit",
                    json::unsigned_value(1),
                ).with("query", json::text_value(session_id.as_str())).build()
            },
            SessionCommand::Logs { provider, session_id, limit, category } => {
                session_value(provider, session_id).with(
                    "limit",
                    json::unsigned_value(*limit as u64),
                ).with("category", json::optional_text(category)).build()
            },
            SessionCommand::Send { provider, session_id, message } => {
                session_value(provider, session_id).with(
                    "message",
                    json::text_value(message.as_str()),
                ).build()
            },
            SessionCommand::Interrupt { provider, session_id } => {
                session_value(provider, session_id).build()
            },
            SessionCommand::Add { provider, session_id, label, validate } => {
                session_value(provider, session_id).with(
                    "label",
                    json::optional_text(label),
                ).with("validate", Json::Bool(*validate)).build()
            },
            SessionCommand::Remove { provider, session_id } => {
                session_value(provider, session_id).build()
            },
        }
    }

    /// Whether the command changes the watchlist, so that it names the revision it was decided on.
    pub fn needs_revision(&self) -> (r: bool)
        ensures
            r == (self is Add || self is Remove),
    {
        match self {
            SessionCommand::Add { .. } | SessionCommand::Remove { .. } => true,
            _ => false,
        }
    }
}

/// What the user asks about policies.
#[derive(Debug)]
#[allow(inconsistent_fields)]
pub enum PolicyCommand {
    List,
    Show { condition: String },
    Change { condition: String, policy: PolicyOverride },
    /// Restores the policy of a condition, or of all.
    Reset { condition: Option<String> },
}

/// The action of a change as a value.
pub open spec fn action_plain(action: Option<PolicyAction>) -> Plain {
    match action {
        Some(action) => Plain::Text(cli::action_view(action)),
        None => Plain::Null,
    }
}

/// The way to wait of a change as a value.
pub open spec fn backoff_plain(backoff: Option<BackoffKind>) -> Plain {
    match backoff {
        Some(_) => Plain::Text(cli::backoff_view(backoff)),
        None => Plain::Null,
    }
}

/// A change of a policy as a value.
pub open spec fn override_plain(policy: PolicyOverride) -> Plain {
    Plain::Object(
        map![
            "action"@ => action_plain(policy.action),
            "backoff"@ => backoff_plain(policy.backoff),
            "initial_delay_seconds"@ => optional_count(policy.initial_delay_seconds),
            "max_delay_seconds"@ => optional_count(policy.max_delay_seconds),
            "max_attempts"@ => optional_count(
                match policy.max_attempts {
                    Some(n) => Some(n as u64),
                    None => None,
                },
            ),
            "prompt"@ => optional(policy.prompt),
        ],
    )
}

fn override_value(policy: &PolicyOverride) -> (r: Json)
    ensures
        json::shows(r, override_plain(*policy)),
{
    let action = match policy.action {
        Some(action) => json::text_value(cli::action_name(action).as_str()),
        None => Json::Null,
    };
    let backoff = match policy.backoff {
        Some(_) => json::text_value(cli::backoff_name(policy.backoff).as_str()),
        None => Json::Null,
    };
    let attempts: Option<u64> = match policy.max_attempts {
        Some(n) => Some(n as u64),
        None => None,
    };
    Json::object().with("action", action).with("backoff", backoff).with(
        "initial_delay_seconds",
        count_value(policy.initial_delay_seconds),
    ).with("max_delay_seconds", count_value(policy.max_delay_seconds)).with(
        "max_attempts",
        count_value(attempts),
    ).with("prompt", json::optional_text(&policy.prompt)).build()
}

impl PolicyCommand {
    /// The method that is called.
    pub open spec fn method_view(self) -> Seq<char> {
        match self {
            PolicyCommand::List => "config.policies.list"@,
            PolicyCommand::Show { .. } => "config.policies.list"@,
            PolicyCommand::Change { .. } => "config.policies.set"@,
            PolicyCommand::Reset { .. } => "config.policies.reset"@,
        }
    }

    /// The method that is called.
    pub fn method(&self) -> (r: &'static str)
        ensures
            r@ == self.method_view(),
    {
        match self {
            PolicyCommand::List => "config.policies.list",
            PolicyCommand::Show { .. } => "config.policies.list",
            PolicyCommand::Change { .. } => "config.policies.set",
            PolicyCommand::Reset { .. } => "config.policies.reset",
        }
    }

    /// What the method is called with.
    pub open spec fn params_view(self) -> Plain {
        match self {
            PolicyCommand::List => Plain::Object(Map::empty()),
            PolicyCommand::Show { .. } => Plain::Object(Map::empty()),
            PolicyCommand::Change { condition, policy } => Plain::Object(
                map![
                    "condition"@ => Plain::Text(condition@),
                    "policy"@ => override_plain(policy),
                ],
            ),
            PolicyCommand::Reset { condition: Some(condition) } => Plain::Object(
                map!["condition"@ => Plain::Text(condition@)],
            ),
            PolicyCommand::Reset { condition: None } => Plain::Object(Map::empty()),
        }
    }

    /// What the method is called with.
    pub fn params(&self) -> (r: Json)
        ensures
            json::shows(r, self.params_view()),
    {
        match self {
            PolicyCommand::Change { condition, policy } => {
                Json::object().with("condition", json::text_value(condition.as_str())).with(
                    "policy",
                    override_value(policy),
                ).build()
            },
            PolicyCommand::Reset { condition: Some(condition) } => {
                Json::object().with("condition", json::text_value(condition.as_str())).build()
            },
            _ => Json::object().build(),
        }
    }

    /// Whether the command changes the settings, so that it names the revision it was decided on.
    pub fn needs_revision(&self) -> (r: bool)
        ensures
            r == (self is Change || self is Reset),
    {
        match self {
            PolicyCommand::Change { .. } | PolicyCommand::Reset { .. } => true,
            _ => false,
        }
    }
}

/// `lines` are a table of rows that hold these cells.
pub open spec fn shows_rows(
    lines: Seq<String>,
    headers: Seq<&'static str>,
    cells: Seq<Seq<Seq<char>>>,
) -> bool {
    exists|rows: Seq<Vec<String>>| #[trigger]
        cli::is_table(lines, headers, rows) && rows.len() == cells.len() && forall|i: int|
            0 <= i < rows.len() ==> text::views((#[trigger] rows[i])@) == cells[i]
}

/// The sessions that a search found.
pub open spec fn found_items(answer: Json) -> Seq<Json> {
    match answer.member("items"@) {
        Some(items) => match items.elements() {
            Some(items) => items,
            None => Seq::empty(),
        },
        None => Seq::empty(),
    }
}

/// The table of the sessions that a search found.
pub fn search_table(answer: &Json) -> (r: Vec<String>)
    ensures
        shows_rows(
            r@,
            seq!["WATCH", "SESSION", "STATE", "TITLE"],
            found_items(*answer).map_values(|item: Json| cli::found_cells(item)),
        ),
{
    let headers: Vec<&'static str> = vec!["WATCH", "SESSION", "STATE", "TITLE"];
    assert(headers@ =~= seq!["WATCH", "SESSION", "STATE", "TITLE"]);
    let mut rows: Vec<Vec<String>> = Vec::new();
    let ghost items = found_items(*answer);
    match answer.get("items") {
        Some(listed) => match listed.as_array() {
            Some(listed) => {
                let mut i: usize = 0;
                while i < listed.len()
                    invariant
                        i <= listed@.len(),
                        items == listed@,
                        rows@.len() == i,
                        forall|k: int|
                            0 <= k < i ==> text::views((#[trigger] rows@[k])@) == cli::found_cells(
                                items[k],
                            ),
                    decreases listed@.len() - i,
                {
                    rows.push(cli::found_row(&listed[i]));
                    i += 1;
                }
            },
            None => {},
        },
        None => {},
    }
    let ghost cells = items.map_values(|item: Json| cli::found_cells(item));
    assert forall|k: int| 0 <= k < rows@.len() implies (#[trigger] rows@[k])@.len() <= 4 by {
        assert(text::views(rows@[k]@).len() == cli::found_cells(items[k]).len());
    }
    let lines = cli::table(&headers, &rows);
    assert(cli::is_table(lines@, headers@, rows@) && rows@.len() == cells.len());
    lines
}

/// The first of the sessions that a search found.
pub open spec fn first_session(answer: Json) -> Option<Json> {
    let items = found_items(answer);
    if items.len() > 0 {
        items[0].member("session"@)
    } else {
        None
    }
}

/// The session that a search for it found.
pub fn shown_session(answer: &Json) -> (r: Option<Json>)
    ensures
        r == first_session(*answer),
{
    let items = match answer.get("items") {
        Some(items) => match items.as_array() {
            Some(items) => items,
            None => {
                return None;
            },
        },
        None => {
            return None;
        },
    };
    if items.len() == 0 {
        return None;
    }
    match items[0].get("session") {
        Some(session) => Some(session.clone()),
        None => None,
    }
}

/// The table of managed sessions. There is none where a time cannot be written.
pub fn target_table(targets: &Vec<WatchTarget>) -> (r: Option<Vec<String>>)
    ensures
        match r {
            Some(lines) => shows_rows(
                lines@,
                seq!["PROVIDER", "SESSION", "MODE", "LAST ACTIVITY", "LABEL"],
                targets@.map_values(|target: WatchTarget| cli::target_cells(target)),
            ),
            None => exists|i: int|
                0 <= i < targets@.len() && (#[trigger] targets@[i]).last_activity_at is Some
                    && !targets@[i].last_activity_at->0.writable(),
        },
{
    let headers: Vec<&'static str> = vec![
        "PROVIDER",
        "SESSION",
        "MODE",
        "LAST ACTIVITY",
        "LABEL",
    ];
    assert(headers@ =~= seq!["PROVIDER", "SESSION", "MODE", "LAST ACTIVITY", "LABEL"]);
    let mut rows: Vec<Vec<String>> = Vec::new();
    let mut i: usize = 0;
    while i < targets.len()
        invariant
            i <= targets@.len(),
            rows@.len() == i,
            forall|k: int|
                0 <= k < i ==> text::views((#[trigger] rows@[k])@) == cli::target_cells(targets@[k]),
        decreases targets@.len() - i,
    {
        match cli::target_row(&targets[i]) {
            Some(row) => {
                rows.push(row);
            },
            None => {
                assert(targets@[i as int].last_activity_at is Some);
                return None;
            },
        }
        i += 1;
    }
    let ghost cells = targets@.map_values(|target: WatchTarget| cli::target_cells(target));
    assert forall|k: int| 0 <= k < rows@.len() implies (#[trigger] rows@[k])@.len() <= 5 by {
        assert(text::views(rows@[k]@).len() == cli::target_cells(targets@[k]).len());
    }
    let lines = cli::table(&headers, &rows);
    assert(cli::is_table(lines@, headers@, rows@) && rows@.len() == cells.len());
    Some(lines)
}

/// The table of what happened in a session. There is none where a time cannot be written.
pub fn log_table(logs: &Vec<SessionLog>) -> (r: Option<Vec<String>>)
    ensures
        match r {
            Some(lines) => shows_rows(
                lines@,
                seq!["TIME", "SOURCE", "EVENT", "CONDITION", "MESSAGE"],
                logs@.map_values(|entry: SessionLog| cli::log_cells(entry)),
            ),
            None => exists|i: int|
                0 <= i < logs@.len() && (#[trigger] logs@[i]).timestamp is Some
                    && !logs@[i].timestamp->0.writable(),
        },
{
    let headers: Vec<&'static str> = vec!["TIME", "SOURCE", "EVENT", "CONDITION", "MESSAGE"];
    assert(headers@ =~= seq!["TIME", "SOURCE", "EVENT", "CONDITION", "MESSAGE"]);
    let mut rows: Vec<Vec<String>> = Vec::new();
    let mut i: usize = 0;
    while i < logs.len()
        invariant
            i <= logs@.len(),
            rows@.len() == i,
            forall|k: int|
                0 <= k < i ==> text::views((#[trigger] rows@[k])@) == cli::log_cells(logs@[k]),
        decreases logs@.len() - i,
    {
        match cli::log_row(&logs[i]) {
            Some(row) => {
                rows.push(row);
            },
            None => {
                assert(logs@[i as int].timestamp is Some);
                return None;
            },
        }
        i += 1;
    }
    let ghost cells = logs@.map_values(|entry: SessionLog| cli::log_cells(entry));
    assert forall|k: int| 0 <= k < rows@.len() implies (#[trigger] rows@[k])@.len() <= 5 by {
        assert(text::views(rows@[k]@).len() == cli::log_cells(logs@[k]).len());
    }
    let lines = cli::table(&headers, &rows);
    assert(cli::is_table(lines@, headers@, rows@) && rows@.len() == cells.len());
    Some(lines)
}

/// The table of what happened to dialogs. There is none where a time cannot be written.
pub fn dialog_table(events: &Vec<Event>) -> (r: Option<Vec<String>>)
    ensures
        match r {
            Some(lines) => shows_rows(
                lines@,
                seq!["TIME", "EVENT", "APP", "RULE", "BUTTON", "DETAIL"],
                events@.map_values(|event: Event| cli::dialog_cells(event)),
            ) && forall|i: int|
                0 <= i < events@.len() ==> (#[trigger] events@[i]).timestamp.writable(),
            None => exists|i: int|
                0 <= i < events@.len() && !(#[trigger] events@[i]).timestamp.writable(),
        },
{
    let headers: Vec<&'static str> = vec!["TIME", "EVENT", "APP", "RULE", "BUTTON", "DETAIL"];
    assert(headers@ =~= seq!["TIME", "EVENT", "APP", "RULE", "BUTTON", "DETAIL"]);
    let mut rows: Vec<Vec<String>> = Vec::new();
    let mut i: usize = 0;
    while i < events.len()
        invariant
            i <= events@.len(),
            rows@.len() == i,
            forall|k: int| 0 <= k < i ==> (#[trigger] events@[k]).timestamp.writable(),
            forall|k: int|
                0 <= k < i ==> text::views((#[trigger] rows@[k])@) == cli::dialog_cells(events@[k]),
        decreases events@.len() - i,
    {
        match cli::dialog_row(&events[i]) {
            Some(row) => {
                rows.push(row);
            },
            None => {
                assert(!events@[i as int].timestamp.writable());
                return None;
            },
        }
        i += 1;
    }
    let ghost cells = events@.map_values(|event: Event| cli::dialog_cells(event));
    assert forall|k: int| 0 <= k < rows@.len() implies (#[trigger] rows@[k])@.len() <= 6 by {
        assert(text::views(rows@[k]@).len() == cli::dialog_cells(events@[k]).len());
    }
    let lines = cli::table(&headers, &rows);
    assert(cli::is_table(lines@, headers@, rows@) && rows@.len() == cells.len());
    Some(lines)
}

/// The policies of a category, where one is wanted.
pub open spec fn kept_policies(
    policies: Seq<ResolvedPolicy>,
    category: Option<Seq<char>>,
) -> Seq<ResolvedPolicy> {
    policies.filter(|policy: ResolvedPolicy| cli::is_of_category(policy, category))
}

/// The policies of a category, where one is wanted, in their order.
pub fn policies_in(policies: Vec<ResolvedPolicy>, category: Option<&str>) -> (r: Vec<
    ResolvedPolicy,
>)
    ensures
        r@ == kept_policies(
            policies@,
            match category {
                Some(category) => Some(category@),
                None => None,
            },
        ),
{
    let ghost all = policies@;
    let ghost wanted = match category {
        Some(category) => Some(category@),
        None => None,
    };
    let ghost keep = |policy: ResolvedPolicy| cli::is_of_category(policy, wanted);
    let mut kept: Vec<ResolvedPolicy> = Vec::new();
    let mut rest: Vec<ResolvedPolicy> = policies;
    let mut count: usize = 0;
    let total: usize = rest.len();
    assert(all.skip(0) =~= all);
    assert(all.take(0).filter(keep) =~= Seq::empty()) by {
        reveal(Seq::filter);
    }
    while count < total
        invariant
            count <= total,
            total == all.len(),
            rest@ == all.skip(count as int),
            wanted == (match category {
                Some(category) => Some(category@),
                None => None,
            }),
            keep == (|policy: ResolvedPolicy| cli::is_of_category(policy, wanted)),
            kept@ == all.take(count as int).filter(keep),
        decreases total - count,
    {
        proof {
            all.take(count as int).lemma_filter_push(all[count as int], keep);
            assert(all.take(count + 1) =~= all.take(count as int).push(all[count as int]));
        }
        let policy = rest.remove(0);
        assert(policy == all[count as int]);
        if cli::in_category(&policy, category) {
            kept.push(policy);
        }
        count += 1;
        assert(rest@ =~= all.skip(count as int));
    }
    assert(all.take(count as int) =~= all);
    kept
}

/// The place of a condition's policy.
pub fn find_policy(policies: &Vec<ResolvedPolicy>, condition: &str) -> (r: Option<usize>)
    ensures
        match r {
            Some(at) => at < policies@.len() && policies@[at as int].condition@ == condition@
                && forall|k: int| 0 <= k < at ==> (#[trigger] policies@[k]).condition@
                != condition@,
            None => forall|k: int|
                0 <= k < policies@.len() ==> (#[trigger] policies@[k]).condition@ != condition@,
        },
{
    let mut i: usize = 0;
    while i < policies.len()
        invariant
            i <= policies@.len(),
            forall|k: int| 0 <= k < i ==> (#[trigger] policies@[k]).condition@ != condition@,
        decreases policies@.len() - i,
    {
        if text::same(policies[i].condition.as_str(), condition) {
            return Some(i);
        }
        i += 1;
    }
    None
}

/// The table of policies.
pub fn policy_table(policies: &Vec<ResolvedPolicy>) -> (r: Vec<String>)
    ensures
        shows_rows(
            r@,
            seq!["CONDITION", "ACTION", "BACKOFF", "MAX", "CUSTOM"],
            policies@.map_values(|policy: ResolvedPolicy| cli::policy_cells(policy)),
        ),
{
    let headers = cli::policy_headers();
    let mut rows: Vec<Vec<String>> = Vec::new();
    let mut i: usize = 0;
    while i < policies.len()
        invariant
            i <= policies@.len(),
            rows@.len() == i,
            forall|k: int|
                0 <= k < i ==> text::views((#[trigger] rows@[k])@) == cli::policy_cells(policies@[k]),
        decreases policies@.len() - i,
    {
        rows.push(cli::policy_row(&policies[i]));
        i += 1;
    }
    let ghost cells = policies@.map_values(|policy: ResolvedPolicy| cli::policy_cells(policy));
    assert forall|k: int| 0 <= k < rows@.len() implies (#[trigger] rows@[k])@.len() <= 5 by {
        assert(text::views(rows@[k]@).len() == cli::policy_cells(policies@[k]).len());
    }
    let lines = cli::table(&headers, &rows);
    assert(cli::is_table(lines@, headers@, rows@) && rows@.len() == cells.len());
    lines
}

/// The cells of pairs.
pub open spec fn pair_cells(pairs: Seq<(Seq<char>, Seq<char>)>) -> Seq<Seq<Seq<char>>> {
    pairs.map_values(|pair: (Seq<char>, Seq<char>)| seq![pair.0, pair.1])
}

/// The table of a policy's fields.
pub fn policy_detail_table(policy: &ResolvedPolicy) -> (r: Vec<String>)
    ensures
        shows_rows(r@, seq!["FIELD", "VALUE"], pair_cells(cli::policy_fields(*policy))),
{
    let headers: Vec<&'static str> = vec!["FIELD", "VALUE"];
    assert(headers@ =~= seq!["FIELD", "VALUE"]);
    let rows = cli::policy_details(policy);
    let ghost cells = pair_cells(cli::policy_fields(*policy));
    assert forall|k: int| 0 <= k < rows@.len() implies (#[trigger] rows@[k])@.len() <= 2
        && text::views(rows@[k]@) == cells[k] by {
        assert(text::views(rows@[k]@).len() == 2);
    }
    let lines = cli::table(&headers, &rows);
    assert(cli::is_table(lines@, headers@, rows@) && rows@.len() == cells.len());
    lines
}

/// The table of an object's members. Another value has none.
pub fn value_table(value: &Json) -> (r: Option<Vec<String>>)
    ensures
        match value {
            Json::Object(members) => r is Some && shows_rows(
                r->0@,
                seq!["NAME", "PATH"],
                pair_cells(cli::member_texts(members.entries())),
            ),
            _ => r is None,
        },
{
    let headers: Vec<&'static str> = vec!["NAME", "PATH"];
    assert(headers@ =~= seq!["NAME", "PATH"]);
    let rows = match cli::object_rows(value) {
        Some(rows) => rows,
        None => {
            return None;
        },
    };
    let ghost cells = pair_cells(cli::member_texts(value->Object_0.entries()));
    assert forall|k: int| 0 <= k < rows@.len() implies (#[trigger] rows@[k])@.len() <= 2
        && text::views(rows@[k]@) == cells[k] by {
        assert(text::views(rows@[k]@).len() == 2);
    }
    let lines = cli::table(&headers, &rows);
    assert(cli::is_table(lines@, headers@, rows@) && rows@.len() == cells.len());
    Some(lines)
}

/// A member of an answer as it is written, null where there is none.
pub open spec fn written(answer: Json, key: Seq<char>) -> Seq<u8> {
    match answer.member(key) {
        Some(value) => json::json_bytes(value),
        None => json::json_bytes(Json::Null),
    }
}

fn write_member(answer: &Json, key: &str) -> (r: Vec<u8>)
    ensures
        r@ == written(*answer, key@),
{
    match answer.get(key) {
        Some(value) => value.to_bytes(),
        None => Json::Null.to_bytes(),
    }
}

fn add_text(line: &mut Vec<u8>, s: &str)
    ensures
        final(line)@ == old(line)@ + encode_utf8(s@),
{
    line.extend_from_slice(s.as_bytes());
}

fn session_line(start: &str, answer: &Json) -> (r: Vec<u8>)
    ensures
        r@ == encode_utf8(start@) + written(*answer, "provider"@) + encode_utf8(":"@) + written(
            *answer,
            "session_id"@,
        ),
{
    let mut line: Vec<u8> = Vec::new();
    add_text(&mut line, start);
    let mut provider = write_member(answer, "provider");
    line.append(&mut provider);
    add_text(&mut line, ":");
    let mut session = write_member(answer, "session_id");
    line.append(&mut session);
    assert(line@ =~= encode_utf8(start@) + written(*answer, "provider"@) + encode_utf8(":"@)
        + written(*answer, "session_id"@));
    line
}

/// What is said of a message that was sent.
pub fn sent_line(answer: &Json) -> (r: Vec<u8>)
    ensures
        r@ == encode_utf8("Sent message to "@) + written(*answer, "provider"@) + encode_utf8(":"@)
            + written(*answer, "session_id"@),
{
    session_line("Sent message to ", answer)
}

/// What is said of a turn that was interrupted.
pub fn interrupted_line(answer: &Json) -> (r: Vec<u8>)
    ensures
        r@ == encode_utf8("Interrupted "@) + written(*answer, "provider"@) + encode_utf8(":"@)
            + written(*answer, "session_id"@),
{
    session_line("Interrupted ", answer)
}

/// What is said of a session that was to be added.
pub fn added_line(answer: &Json) -> (r: &'static str)
    ensures
        r@ == (if answer.member("added"@) == Some(Json::Bool(true)) {
            "Watching"@
        } else {
            "Already watching"@
        }),
{
    if answer.is_true("added") {
        "Watching"
    } else {
        "Already watching"
    }
}

/// What is said of a session that was to be removed: in any case it is not discovered again.
pub fn removed_line(answer: &Json) -> (r: &'static str)
    ensures
        r@ == (if answer.member("removed"@) == Some(Json::Bool(true)) {
            "Removed"@
        } else {
            "Excluded from automatic discovery"@
        }),
{
    if answer.is_true("removed") {
        "Removed"
    } else {
        "Excluded from automatic discovery"
    }
}

/// What is said of a service that answers.
pub fn online_line(snapshot: &Json) -> (r: Vec<u8>)
    ensures
        r@ == encode_utf8("Watchcat service online · "@) + written(*snapshot, "watched"@)
            + encode_utf8(" sessions · "@) + written(*snapshot, "attention"@) + encode_utf8(
            " need attention"@,
        ),
{
    let mut line: Vec<u8> = Vec::new();
    add_text(&mut line, "Watchcat service online · ");
    let mut watched = write_member(snapshot, "watched");
    line.append(&mut watched);
    add_text(&mut line, " sessions · ");
    let mut attention = write_member(snapshot, "attention");
    line.append(&mut attention);
    add_text(&mut line, " need attention");
    assert(line@ =~= encode_utf8("Watchcat service online · "@) + written(*snapshot, "watched"@)
        + encode_utf8(" sessions · "@) + written(*snapshot, "attention"@) + encode_utf8(
        " need attention"@,
    ));
    line
}

/// What is shown of a service that does not answer.
pub fn offline_value(error: &str) -> (r: Json)
    ensures
        json::shows(
            r,
            Plain::Object(
                map!["service_online"@ => Plain::Bool(false), "error"@ => Plain::Text(error@)],
            ),
        ),
{
    Json::object().with("service_online", Json::Bool(false)).with(
        "error",
        json::text_value(error),
    ).build()
}

} // verus!
