//! What the command line reads and shows.

pub mod commands;

use vstd::prelude::*;
use vstd::string::*;
use vstd::utf8::*;

use crate::conditions;
use crate::config::{Paths, PolicyOverride, ResolvedPolicy};
use crate::json;
use crate::json::{Json, Plain};
use crate::models::{BackoffKind, PolicyAction, SessionLog, WatchTarget};
use crate::os_permissions::events::Event;
use crate::providers;
use crate::state::events;
use crate::text;
use crate::time;

verus! {

/// The most characters of a column.
pub const MAX_COLUMN: usize = 72;

/// The width of a column after its cell in a row.
pub open spec fn widened(width: nat, cell: Seq<char>) -> nat {
    let wide = if cell.len() > width {
        cell.len()
    } else {
        width
    };
    if wide > MAX_COLUMN {
        MAX_COLUMN as nat
    } else {
        wide
    }
}

/// The width of a column after rows: that of its header at first.
pub open spec fn column_width(header: Seq<char>, rows: Seq<Vec<String>>, column: int) -> nat
    decreases rows.len(),
{
    if rows.len() == 0 {
        encode_utf8(header).len()
    } else {
        let before = column_width(header, rows.drop_last(), column);
        if column < rows.last()@.len() {
            widened(before, rows.last()@[column]@)
        } else {
            before
        }
    }
}

/// So many spaces or other characters.
pub open spec fn repeated(c: char, count: nat) -> Seq<char> {
    Seq::new(count, |i: int| c)
}

/// What is shown of a cell: an ellipsis takes the place of what does not fit.
pub open spec fn clipped(cell: Seq<char>, width: nat) -> Seq<char> {
    if cell.len() > width {
        if width > 0 {
            cell.take(width - 1).push('…')
        } else {
            Seq::empty()
        }
    } else {
        cell
    }
}

/// A cell as it is shown, filled up to the width of its column.
pub open spec fn padded(cell: Seq<char>, width: nat) -> Seq<char> {
    let shown = clipped(cell, width);
    shown + repeated(' ', (width - shown.len()) as nat)
}

/// The line of a row.
pub open spec fn row_line(row: Seq<Seq<char>>, widths: Seq<nat>) -> Seq<char> {
    text::joined(Seq::new(row.len(), |i: int| padded(row[i], widths[i])), "  "@)
}

/// The widths of a table's columns.
pub open spec fn table_widths(headers: Seq<&'static str>, rows: Seq<Vec<String>>) -> Seq<nat> {
    Seq::new(headers.len(), |i: int| column_width(headers[i]@, rows, i))
}

/// The texts of headers.
pub open spec fn header_views(headers: Seq<&'static str>) -> Seq<Seq<char>> {
    headers.map_values(|header: &'static str| header@)
}

/// The lines of a table: its headers, a rule under each, and its rows.
pub open spec fn is_table(
    lines: Seq<String>,
    headers: Seq<&'static str>,
    rows: Seq<Vec<String>>,
) -> bool {
    let widths = table_widths(headers, rows);
    &&& lines.len() == rows.len() + 2
    &&& lines[0]@ == row_line(header_views(headers), widths)
    &&& lines[1]@ == row_line(widths.map_values(|width: nat| repeated('-', width)), widths)
    &&& forall|i: int|
        0 <= i < rows.len() ==> (#[trigger] lines[i + 2])@ == row_line(
            text::views(rows[i]@),
            widths,
        )
}

fn repeat_char(c: char, count: usize) -> (r: String)
    ensures
        r@ == repeated(c, count as nat),
{
    let mut r = String::new();
    let mut i: usize = 0;
    while i < count
        invariant
            i <= count,
            r@ == repeated(c, i as nat),
        decreases count - i,
    {
        r.push(c);
        i += 1;
        assert(r@ =~= repeated(c, i as nat));
    }
    assert(r@ =~= repeated(c, count as nat));
    r
}

fn pad_cell(cell: &str, width: usize) -> (r: String)
    ensures
        r@ == padded(cell@, width as nat),
{
    let count: usize = text::char_count(cell);
    let mut shown: String = if count > width {
        if width > 0 {
            let mut start = text::take_chars(cell, width - 1);
            assert(start@ =~= cell@.take(width - 1));
            start.push('…');
            start
        } else {
            String::new()
        }
    } else {
        cell.to_owned()
    };
    assert(shown@ =~= clipped(cell@, width as nat));
    let length: usize = text::char_count(shown.as_str());
    let fill = repeat_char(' ', width - length);
    shown.append(fill.as_str());
    shown
}

fn write_row(row: &Vec<String>, widths: &Vec<usize>) -> (r: String)
    requires
        row@.len() <= widths@.len(),
    ensures
        r@ == row_line(text::views(row@), widths@.map_values(|width: usize| width as nat)),
{
    let ghost columns = widths@.map_values(|width: usize| width as nat);
    let mut cells: Vec<String> = Vec::new();
    let mut i: usize = 0;
    while i < row.len()
        invariant
            i <= row@.len(),
            row@.len() <= widths@.len(),
            columns == widths@.map_values(|width: usize| width as nat),
            cells@.len() == i,
            forall|k: int| 0 <= k < i ==> (#[trigger] cells@[k])@ == padded(row@[k]@, columns[k]),
        decreases row@.len() - i,
    {
        cells.push(pad_cell(row[i].as_str(), widths[i]));
        i += 1;
    }
    let ghost shown = Seq::new(
        text::views(row@).len(),
        |i: int| padded(text::views(row@)[i], columns[i]),
    );
    assert(text::views(cells@) =~= shown);
    text::join(&cells, "  ")
}

fn measure(headers: &Vec<&'static str>, rows: &Vec<Vec<String>>) -> (r: Vec<usize>)
    ensures
        r@.map_values(|width: usize| width as nat) == table_widths(headers@, rows@),
{
    let mut widths: Vec<usize> = Vec::new();
    let mut column: usize = 0;
    while column < headers.len()
        invariant
            column <= headers@.len(),
            widths@.len() == column,
            forall|k: int|
                0 <= k < column ==> (#[trigger] widths@[k]) == column_width(headers@[k]@, rows@, k),
        decreases headers@.len() - column,
    {
        let mut width: usize = headers[column].as_bytes().len();
        let mut i: usize = 0;
        assert(rows@.take(0).len() == 0);
        while i < rows.len()
            invariant
                i <= rows@.len(),
                column < headers@.len(),
                width == column_width(
                    headers@[column as int]@,
                    rows@.take(i as int),
                    column as int,
                ),
            decreases rows@.len() - i,
        {
            assert(rows@.take(i + 1).drop_last() =~= rows@.take(i as int));
            assert(rows@.take(i + 1).last() == rows@[i as int]);
            if column < rows[i].len() {
                let count: usize = text::char_count(rows[i][column].as_str());
                if count > width {
                    width = count;
                }
                if width > MAX_COLUMN {
                    width = MAX_COLUMN;
                }
            }
            i += 1;
        }
        assert(rows@.take(i as int) =~= rows@);
        widths.push(width);
        column += 1;
    }
    assert(widths@.map_values(|width: usize| width as nat) =~= table_widths(headers@, rows@));
    widths
}

/// The lines of a table.
pub fn table(headers: &Vec<&'static str>, rows: &Vec<Vec<String>>) -> (r: Vec<String>)
    requires
        forall|i: int| 0 <= i < rows@.len() ==> (#[trigger] rows@[i])@.len() <= headers@.len(),
    ensures
        is_table(r@, headers@, rows@),
{
    let widths = measure(headers, rows);
    let ghost columns = table_widths(headers@, rows@);
    assert(widths@.len() == columns.len()) by {
        assert(widths@.map_values(|width: usize| width as nat).len() == widths@.len());
    }
    let mut titles: Vec<String> = Vec::new();
    let mut rules: Vec<String> = Vec::new();
    let mut i: usize = 0;
    while i < headers.len()
        invariant
            i <= headers@.len(),
            widths@.len() == headers@.len(),
            widths@.map_values(|width: usize| width as nat) == columns,
            titles@.len() == i,
            rules@.len() == i,
            forall|k: int| 0 <= k < i ==> (#[trigger] titles@[k])@ == headers@[k]@,
            forall|k: int| 0 <= k < i ==> (#[trigger] rules@[k])@ == repeated('-', columns[k]),
        decreases headers@.len() - i,
    {
        titles.push(headers[i].to_owned());
        assert(columns[i as int] == widths@.map_values(|width: usize| width as nat)[i as int]);
        rules.push(repeat_char('-', widths[i]));
        i += 1;
    }
    assert(text::views(titles@) =~= header_views(headers@));
    assert(text::views(rules@) =~= columns.map_values(|width: nat| repeated('-', width)));
    let mut lines: Vec<String> = Vec::new();
    lines.push(write_row(&titles, &widths));
    lines.push(write_row(&rules, &widths));
    let mut j: usize = 0;
    while j < rows.len()
        invariant
            j <= rows@.len(),
            widths@.len() == headers@.len(),
            widths@.map_values(|width: usize| width as nat) == columns,
            forall|i: int| 0 <= i < rows@.len() ==> (#[trigger] rows@[i])@.len() <= headers@.len(),
            lines@.len() == j + 2,
            lines@[0]@ == row_line(header_views(headers@), columns),
            lines@[1]@ == row_line(
                columns.map_values(|width: nat| repeated('-', width)),
                columns,
            ),
            forall|i: int|
                0 <= i < j ==> (#[trigger] lines@[i + 2])@ == row_line(
                    text::views(rows@[i]@),
                    columns,
                ),
        decreases rows@.len() - j,
    {
        let line = write_row(&rows[j], &widths);
        lines.push(line);
        j += 1;
    }
    lines
}

/// Why a number is refused.
#[derive(Clone, Copy, Debug, PartialEq, Eq, Structural)]
pub enum NumberRefusal {
    NotANumber,
    Zero,
}

/// Reads a number that is greater than zero.
pub fn parse_positive_usize(value: &str) -> (r: Result<usize, NumberRefusal>)
    ensures
        match text::unsigned_value(value@, usize::MAX as nat) {
            None => r == Err::<usize, NumberRefusal>(NumberRefusal::NotANumber),
            Some(n) => if n == 0 {
                r == Err::<usize, NumberRefusal>(NumberRefusal::Zero)
            } else {
                r is Ok && r->Ok_0 == n
            },
        },
{
    match text::parse_unsigned(value, usize::MAX as u64) {
        None => Err(NumberRefusal::NotANumber),
        Some(n) => if n == 0 {
            Err(NumberRefusal::Zero)
        } else {
            Ok(n as usize)
        },
    }
}

/// Why a duration is refused.
#[derive(Debug)]
pub enum DurationRefusal {
    /// What stands before the unit is no number.
    NotANumber(String),
    /// It is less than a second, or given in milliseconds.
    TooShort,
    TooLong,
}

/// The number of a duration and how many seconds its unit has: none for milliseconds.
pub open spec fn duration_parts(s: Seq<char>) -> (Seq<char>, nat) {
    if text::ends_with_text(s, "ms"@) {
        (s.take(s.len() - 2), 0)
    } else if text::ends_with_text(s, "s"@) {
        (s.take(s.len() - 1), 1)
    } else if text::ends_with_text(s, "m"@) {
        (s.take(s.len() - 1), 60)
    } else if text::ends_with_text(s, "h"@) {
        (s.take(s.len() - 1), 3600)
    } else {
        (s, 1)
    }
}

/// Reads a duration in seconds: a number with the unit `s`, `m` or `h`, or none for seconds.
pub fn parse_duration(value: &str) -> (r: Result<u64, DurationRefusal>)
    ensures
        ({
            let (number, unit) = duration_parts(text::trimmed(value@));
            match text::unsigned_value(number, u64::MAX as nat) {
                None => r matches Err(DurationRefusal::NotANumber(refused)) && refused@ == number,
                Some(n) => if unit == 0 || n == 0 {
                    r matches Err(DurationRefusal::TooShort)
                } else if n * unit > u64::MAX {
                    r matches Err(DurationRefusal::TooLong)
                } else {
                    r is Ok && r->Ok_0 == n * unit
                },
            }
        }),
{
    let trimmed = text::trim(value);
    let count: usize = text::char_count(trimmed.as_str());
    proof {
        reveal_strlit("ms");
        reveal_strlit("s");
        reveal_strlit("m");
        reveal_strlit("h");
    }
    let unit: u64;
    let number: String;
    if text::ends_with(trimmed.as_str(), "ms") {
        unit = 0;
        number = text::take_chars(trimmed.as_str(), count - 2);
    } else if text::ends_with(trimmed.as_str(), "s") {
        unit = 1;
        number = text::take_chars(trimmed.as_str(), count - 1);
    } else if text::ends_with(trimmed.as_str(), "m") {
        unit = 60;
        number = text::take_chars(trimmed.as_str(), count - 1);
    } else if text::ends_with(trimmed.as_str(), "h") {
        unit = 3600;
        number = text::take_chars(trimmed.as_str(), count - 1);
    } else {
        unit = 1;
        number = trimmed.clone();
    }
    assert(number@ =~= duration_parts(trimmed@).0);
    assert(unit == duration_parts(trimmed@).1);
    let n: u64 = match text::parse_unsigned(number.as_str(), u64::MAX) {
        None => {
            return Err(DurationRefusal::NotANumber(number));
        },
        Some(n) => n,
    };
    if unit == 0 || n == 0 {
        return Err(DurationRefusal::TooShort);
    }
    match n.checked_mul(unit) {
        Some(seconds) => Ok(seconds),
        None => Err(DurationRefusal::TooLong),
    }
}

/// The text of a message, where it says something.
pub fn message_input(message: &str) -> (r: Option<String>)
    ensures
        match r {
            Some(kept) => text::trimmed(message@).len() > 0 && kept@ == text::trimmed(message@),
            None => text::trimmed(message@).len() == 0,
        },
{
    let trimmed = text::trim(message);
    if text::char_count(trimmed.as_str()) == 0 {
        None
    } else {
        Some(trimmed)
    }
}

/// The refusal of a condition that there is not.
pub fn require_condition(condition: &str) -> (r: Result<(), String>)
    ensures
        match r {
            Ok(()) => conditions::known(condition@),
            Err(message) => !conditions::known(condition@) && message@
                == "unknown policy condition: "@ + condition@
                + "; run `watchcat config policy list`"@,
        },
{
    if conditions::is_known(condition) {
        Ok(())
    } else {
        Err(
            "unknown policy condition: ".to_owned().concat(condition).concat(
                "; run `watchcat config policy list`",
            ),
        )
    }
}

/// Whether a change of a policy changes anything.
pub fn changes_something(change: &PolicyOverride) -> (r: bool)
    ensures
        r == !(change.action is None && change.backoff is None && change.initial_delay_seconds
            is None && change.max_delay_seconds is None && change.max_attempts is None
            && change.prompt is None),
{
    change.action.is_some() || change.backoff.is_some() || change.initial_delay_seconds.is_some()
        || change.max_delay_seconds.is_some() || change.max_attempts.is_some()
        || change.prompt.is_some()
}

/// The policy is of a category.
pub open spec fn is_of_category(policy: ResolvedPolicy, category: Option<Seq<char>>) -> bool {
    category is None || events::category_of(policy.condition@) == category->0
}

/// Whether a policy is of a category, where one is wanted.
pub fn in_category(policy: &ResolvedPolicy, category: Option<&str>) -> (r: bool)
    ensures
        r == is_of_category(
            *policy,
            match category {
                Some(category) => Some(category@),
                None => None,
            },
        ),
{
    match category {
        None => true,
        Some(category) => {
            let found = events::condition_category(policy.condition.as_str());
            text::same(found.as_str(), category)
        },
    }
}

/// An action's name.
pub open spec fn action_view(action: PolicyAction) -> Seq<char> {
    match action {
        PolicyAction::Retry => "retry"@,
        PolicyAction::Skip => "skip"@,
    }
}

/// The name of a way to wait, or a dash where there is none.
pub open spec fn backoff_view(backoff: Option<BackoffKind>) -> Seq<char> {
    match backoff {
        Some(BackoffKind::Fixed) => "fixed"@,
        Some(BackoffKind::Exponential) => "exponential"@,
        None => "-"@,
    }
}

pub(crate) fn action_name(action: PolicyAction) -> (r: String)
    ensures
        r@ == action_view(action),
{
    match action {
        PolicyAction::Retry => "retry".to_owned(),
        PolicyAction::Skip => "skip".to_owned(),
    }
}

pub(crate) fn backoff_name(backoff: Option<BackoffKind>) -> (r: String)
    ensures
        r@ == backoff_view(backoff),
{
    match backoff {
        Some(BackoffKind::Fixed) => "fixed".to_owned(),
        Some(BackoffKind::Exponential) => "exponential".to_owned(),
        None => "-".to_owned(),
    }
}

fn is_retry(action: PolicyAction) -> (r: bool)
    ensures
        r == (action == PolicyAction::Retry),
{
    match action {
        PolicyAction::Retry => true,
        PolicyAction::Skip => false,
    }
}

/// The headers of the table of policies.
pub fn policy_headers() -> (r: Vec<&'static str>)
    ensures
        r@ == seq!["CONDITION", "ACTION", "BACKOFF", "MAX", "CUSTOM"],
{
    let r: Vec<&'static str> = vec!["CONDITION", "ACTION", "BACKOFF", "MAX", "CUSTOM"];
    assert(r@ =~= seq!["CONDITION", "ACTION", "BACKOFF", "MAX", "CUSTOM"]);
    r
}

/// The cells of a policy.
pub open spec fn policy_cells(policy: ResolvedPolicy) -> Seq<Seq<char>> {
    seq![
        policy.condition@,
        action_view(policy.action),
        backoff_view(policy.backoff),
        if policy.action == PolicyAction::Retry {
            text::decimal_view(policy.max_attempts as nat)
        } else {
            "-"@
        },
        if policy.customized {
            "yes"@
        } else {
            "no"@
        },
    ]
}

/// The cells of a policy.
pub fn policy_row(policy: &ResolvedPolicy) -> (r: Vec<String>)
    ensures
        text::views(r@) == policy_cells(*policy),
{
    let mut row: Vec<String> = Vec::new();
    row.push(policy.condition.clone());
    row.push(action_name(policy.action));
    row.push(backoff_name(policy.backoff));
    row.push(
        if is_retry(policy.action) {
            text::decimal(policy.max_attempts as u64)
        } else {
            "-".to_owned()
        },
    );
    row.push(
        if policy.customized {
            "yes".to_owned()
        } else {
            "no".to_owned()
        },
    );
    assert(text::views(row@) =~= policy_cells(*policy));
    row
}

/// The fields of a policy with their values.
pub open spec fn policy_fields(policy: ResolvedPolicy) -> Seq<(Seq<char>, Seq<char>)> {
    seq![
        ("condition"@, policy.condition@),
        ("description"@, policy.description@),
        ("action"@, action_view(policy.action)),
        ("backoff"@, backoff_view(policy.backoff)),
        ("initial delay"@, text::decimal_view(policy.initial_delay_seconds as nat) + "s"@),
        ("max delay"@, text::decimal_view(policy.max_delay_seconds as nat) + "s"@),
        ("max attempts"@, text::decimal_view(policy.max_attempts as nat)),
        (
            "prompt"@,
            if policy.action == PolicyAction::Retry {
                policy.prompt@
            } else {
                "-"@
            },
        ),
        (
            "customized"@,
            if policy.customized {
                "true"@
            } else {
                "false"@
            },
        ),
    ]
}

/// `rows` hold pairs, two cells each.
pub open spec fn hold_pairs(rows: Seq<Vec<String>>, pairs: Seq<(Seq<char>, Seq<char>)>) -> bool {
    &&& rows.len() == pairs.len()
    &&& forall|i: int|
        0 <= i < rows.len() ==> text::views((#[trigger] rows[i])@) == seq![pairs[i].0, pairs[i].1]
}

fn pair(name: &str, value: String) -> (r: Vec<String>)
    ensures
        text::views(r@) == seq![name@, value@],
{
    let mut row: Vec<String> = Vec::new();
    row.push(name.to_owned());
    row.push(value);
    assert(text::views(row@) =~= seq![name@, value@]);
    row
}

/// The fields of a policy with their values, a row for each.
pub fn policy_details(policy: &ResolvedPolicy) -> (r: Vec<Vec<String>>)
    ensures
        hold_pairs(r@, policy_fields(*policy)),
{
    let mut rows: Vec<Vec<String>> = Vec::new();
    rows.push(pair("condition", policy.condition.clone()));
    rows.push(pair("description", policy.description.clone()));
    rows.push(pair("action", action_name(policy.action)));
    rows.push(pair("backoff", backoff_name(policy.backoff)));
    rows.push(
        pair("initial delay", text::decimal(policy.initial_delay_seconds).concat("s")),
    );
    rows.push(pair("max delay", text::decimal(policy.max_delay_seconds).concat("s")));
    rows.push(pair("max attempts", text::decimal(policy.max_attempts as u64)));
    rows.push(
        pair(
            "prompt",
            if is_retry(policy.action) {
                policy.prompt.clone()
            } else {
                "-".to_owned()
            },
        ),
    );
    rows.push(
        pair(
            "customized",
            if policy.customized {
                "true".to_owned()
            } else {
                "false".to_owned()
            },
        ),
    );
    rows
}

/// A text, or a dash where there is none.
pub open spec fn or_dash(s: Option<String>) -> Seq<char> {
    match s {
        Some(s) => s@,
        None => "-"@,
    }
}

/// The cells of a line of activity.
pub open spec fn log_cells(entry: SessionLog) -> Seq<Seq<char>> {
    seq![
        match entry.timestamp {
            Some(time) => time::rfc3339_text(time),
            None => "-"@,
        },
        entry.source@,
        entry.kind@,
        or_dash(entry.condition),
        entry.message@,
    ]
}

/// The cells of a line of activity. There are none where its time cannot be written.
pub fn log_row(entry: &SessionLog) -> (r: Option<Vec<String>>)
    ensures
        match r {
            Some(row) => text::views(row@) == log_cells(*entry) && (entry.timestamp is Some
                ==> entry.timestamp->0.writable()),
            None => entry.timestamp is Some && !entry.timestamp->0.writable(),
        },
{
    let time: String = match entry.timestamp {
        Some(time) => if time.is_writable() {
            time::write_rfc3339(time)
        } else {
            return None;
        },
        None => "-".to_owned(),
    };
    let mut row: Vec<String> = Vec::new();
    row.push(time);
    row.push(entry.source.clone());
    row.push(entry.kind.clone());
    row.push(
        match &entry.condition {
            Some(condition) => condition.clone(),
            None => "-".to_owned(),
        },
    );
    row.push(entry.message.clone());
    assert(text::views(row@) =~= log_cells(*entry));
    Some(row)
}

/// The cells of a line of the log of dialogs.
pub open spec fn dialog_cells(event: Event) -> Seq<Seq<char>> {
    seq![
        time::rfc3339_text(event.timestamp),
        event.kind@,
        event.app@,
        or_dash(event.rule),
        or_dash(event.button),
        event.detail@,
    ]
}

/// The cells of a line of the log of dialogs. There are none where its time cannot be written.
pub fn dialog_row(event: &Event) -> (r: Option<Vec<String>>)
    ensures
        match r {
            Some(row) => text::views(row@) == dialog_cells(*event) && event.timestamp.writable(),
            None => !event.timestamp.writable(),
        },
{
    if !event.timestamp.is_writable() {
        return None;
    }
    let mut row: Vec<String> = Vec::new();
    row.push(time::write_rfc3339(event.timestamp));
    row.push(event.kind.clone());
    row.push(event.app.clone());
    row.push(
        match &event.rule {
            Some(rule) => rule.clone(),
            None => "-".to_owned(),
        },
    );
    row.push(
        match &event.button {
            Some(button) => button.clone(),
            None => "-".to_owned(),
        },
    );
    row.push(event.detail.clone());
    assert(text::views(row@) =~= dialog_cells(*event));
    Some(row)
}

/// The cells of a watched session: its label, or else its title, comes last.
pub open spec fn target_cells(target: WatchTarget) -> Seq<Seq<char>> {
    seq![
        target.provider@,
        target.session_id@,
        if target.provider@ == "codex"@ {
            "recovery"@
        } else {
            "observe"@
        },
        match target.last_activity_at {
            Some(time) => time::rfc3339_text(time),
            None => ""@,
        },
        match (target.label, target.title) {
            (Some(label), _) => label@,
            (None, Some(title)) => title@,
            (None, None) => ""@,
        },
    ]
}

/// The cells of a watched session. There are none where the time of its activity cannot be written.
pub fn target_row(target: &WatchTarget) -> (r: Option<Vec<String>>)
    ensures
        match r {
            Some(row) => text::views(row@) == target_cells(*target) && (target.last_activity_at
                is Some ==> target.last_activity_at->0.writable()),
            None => target.last_activity_at is Some && !target.last_activity_at->0.writable(),
        },
{
    let activity: String = match target.last_activity_at {
        Some(time) => if time.is_writable() {
            time::write_rfc3339(time)
        } else {
            return None;
        },
        None => "".to_owned(),
    };
    let mut row: Vec<String> = Vec::new();
    row.push(target.provider.clone());
    row.push(target.session_id.clone());
    row.push(
        if providers::supports_recovery(target.provider.as_str()) {
            "recovery".to_owned()
        } else {
            "observe".to_owned()
        },
    );
    row.push(activity);
    row.push(
        match (&target.label, &target.title) {
            (Some(label), _) => label.clone(),
            (None, Some(title)) => title.clone(),
            (None, None) => "".to_owned(),
        },
    );
    assert(text::views(row@) =~= target_cells(*target));
    Some(row)
}

/// A text of a found session, empty where it has none.
pub open spec fn session_text(item: Json, key: Seq<char>) -> Seq<char> {
    match item.nested("session"@, key) {
        Some(value) => match value.text() {
            Some(s) => s,
            None => ""@,
        },
        None => ""@,
    }
}

/// The cells of a found session: a star where it is watched.
pub open spec fn found_cells(item: Json) -> Seq<Seq<char>> {
    seq![
        if item.member("watched"@) == Some(Json::Bool(true)) {
            "*"@
        } else {
            ""@
        },
        session_text(item, "id"@),
        session_text(item, "state"@),
        session_text(item, "title"@),
    ]
}

fn read_session_text(item: &Json, key: &str) -> (r: String)
    ensures
        r@ == session_text(*item, key@),
{
    match item.get_nested("session", key) {
        Some(value) => match value.as_str() {
            Some(s) => s.to_owned(),
            None => "".to_owned(),
        },
        None => "".to_owned(),
    }
}

/// The cells of a found session.
pub fn found_row(item: &Json) -> (r: Vec<String>)
    ensures
        text::views(r@) == found_cells(*item),
{
    let mut row: Vec<String> = Vec::new();
    row.push(
        if item.is_true("watched") {
            "*".to_owned()
        } else {
            "".to_owned()
        },
    );
    row.push(read_session_text(item, "id"));
    row.push(read_session_text(item, "state"));
    row.push(read_session_text(item, "title"));
    assert(text::views(row@) =~= found_cells(*item));
    row
}

/// The members of an object with their texts, empty where a member is none.
pub open spec fn member_texts(entries: Seq<(String, Json)>) -> Seq<(Seq<char>, Seq<char>)> {
    entries.map_values(
        |entry: (String, Json)|
            (
                entry.0@,
                match entry.1.text() {
                    Some(s) => s,
                    None => ""@,
                },
            ),
    )
}

/// The members of an object with their texts, a row for each. Another value has no rows.
pub fn object_rows(value: &Json) -> (r: Option<Vec<Vec<String>>>)
    ensures
        match value {
            Json::Object(members) => r is Some && hold_pairs(
                r->0@,
                member_texts(members.entries()),
            ),
            _ => r is None,
        },
{
    let members = match value {
        Json::Object(members) => members,
        _ => {
            return None;
        },
    };
    let ghost pairs = member_texts(members.entries());
    let count: usize = members.len();
    let mut rows: Vec<Vec<String>> = Vec::new();
    let mut i: usize = 0;
    while i < count
        invariant
            i <= count,
            count == members.entries().len(),
            pairs == member_texts(members.entries()),
            rows@.len() == i,
            forall|k: int|
                0 <= k < i ==> text::views((#[trigger] rows@[k])@) == seq![pairs[k].0, pairs[k].1],
        decreases count - i,
    {
        let shown: String = match members.value_at(i).as_str() {
            Some(s) => s.to_owned(),
            None => "".to_owned(),
        };
        rows.push(pair(members.key_at(i).as_str(), shown));
        i += 1;
    }
    Some(rows)
}

/// The paths as they are shown.
pub fn path_value(paths: &Paths) -> (r: Json)
    ensures
        json::shows(
            r,
            Plain::Object(
                map![
                    "config"@ => Plain::Text(paths.config_file@),
                    "watchlist"@ => Plain::Text(paths.watchlist_file@),
                    "state"@ => Plain::Text(paths.state_file@),
                    "control"@ => Plain::Text(paths.control_state_file@),
                    "events"@ => Plain::Text(paths.event_log_file@),
                    "retry_operations"@ => Plain::Text(paths.retry_operations_file@),
                    "lock"@ => Plain::Text(paths.lock_file@),
                ],
            ),
        ),
{
    Json::object().with("config", json::text_value(paths.config_file.as_str())).with(
        "watchlist",
        json::text_value(paths.watchlist_file.as_str()),
    ).with("state", json::text_value(paths.state_file.as_str())).with(
        "control",
        json::text_value(paths.control_state_file.as_str()),
    ).with("events", json::text_value(paths.event_log_file.as_str())).with(
        "retry_operations",
        json::text_value(paths.retry_operations_file.as_str()),
    ).with("lock", json::text_value(paths.lock_file.as_str())).build()
}

} // verus!
