//! The bounded log of what the engine did.

use vstd::prelude::*;
use vstd::string::*;

use crate::models;
use crate::models::{EngineEvent, SessionLog};
use crate::text;

verus! {

/// Where the log is kept, and how many lines of it are.
#[derive(Debug)]
pub struct EventLogStore {
    path: String,
    retention: usize,
}

/// The category of a condition: what stands before its first dot.
pub open spec fn category_of(condition: Seq<char>) -> Seq<char> {
    text::before_char(condition, '.')
}

/// The category of a condition.
pub fn condition_category(condition: &str) -> (r: String)
    ensures
        r@ == category_of(condition@),
{
    text::before(condition, '.')
}

/// The event belongs to a category: its condition does, or its kind does.
pub open spec fn in_category(event: EngineEvent, category: Option<Seq<char>>) -> bool {
    match category {
        None => true,
        Some(wanted) => {
            ||| event.condition is Some && category_of(event.condition->0@) == wanted
            ||| category_of(event.kind@) == wanted
        },
    }
}

/// The event is about a session and belongs to a category.
pub open spec fn selected(
    event: EngineEvent,
    provider: Seq<char>,
    session_id: Seq<char>,
    category: Option<Seq<char>>,
) -> bool {
    text::split_once_view(event.target@, ":"@) == Some((provider, session_id)) && in_category(
        event,
        category,
    )
}

/// The events about a session that belong to a category, in their order.
pub open spec fn selection(
    events: Seq<EngineEvent>,
    provider: Seq<char>,
    session_id: Seq<char>,
    category: Option<Seq<char>>,
) -> Seq<EngineEvent> {
    events.filter(|event: EngineEvent| selected(event, provider, session_id, category))
}

/// `logs` are the activity lines for the last `limit` of `events`.
pub open spec fn are_last_logs(
    logs: Seq<SessionLog>,
    events: Seq<EngineEvent>,
    provider: Seq<char>,
    session_id: Seq<char>,
    limit: nat,
) -> bool {
    &&& logs.len() == (if events.len() <= limit {
        events.len()
    } else {
        limit
    })
    &&& forall|i: int|
        0 <= i < logs.len() ==> models::is_event_log(
            #[trigger] logs[i],
            events[events.len() - logs.len() + i],
            provider,
            session_id,
        )
}

/// The view of an optional text.
pub open spec fn optional_str(s: Option<&str>) -> Option<Seq<char>> {
    match s {
        Some(s) => Some(s@),
        None => None,
    }
}

/// The lines that stay: the last `count`.
pub open spec fn last_lines(lines: Seq<String>, count: nat) -> Seq<String> {
    if lines.len() <= count {
        lines
    } else {
        lines.skip(lines.len() - count)
    }
}

/// The lines, each with a line break behind it.
pub open spec fn joined_lines(lines: Seq<String>) -> Seq<char>
    decreases lines.len(),
{
    if lines.len() == 0 {
        Seq::empty()
    } else {
        joined_lines(lines.drop_last()) + lines.last()@ + "\n"@
    }
}

/// What the log holds after lines were added to it: all lines, or the last ones where there would be
/// more than twice what is kept.
pub open spec fn log_after(lines: Seq<String>, added: Seq<String>, retention: nat) -> Seq<String> {
    if added.len() > 0 && lines.len() + added.len() > 2 * retention {
        last_lines(lines + added, retention)
    } else {
        lines + added
    }
}

/// What is written to add lines to the log.
#[derive(Debug)]
pub enum LogWrite {
    /// There is nothing to add.
    Nothing,
    /// The text is appended.
    Append(String),
    /// The text is appended, and then the log is replaced by the content.
    Shorten { appended: String, content: String },
}

impl LogWrite {
    /// The text of the log after the write.
    pub open spec fn leaves(self, before: Seq<char>) -> Seq<char> {
        match self {
            LogWrite::Nothing => before,
            LogWrite::Append(appended) => before + appended@,
            LogWrite::Shorten { content, .. } => content@,
        }
    }
}

/// `write` adds lines to a log of so many that are kept.
pub open spec fn adds(
    write: LogWrite,
    lines: Seq<String>,
    added: Seq<String>,
    retention: nat,
) -> bool {
    match write {
        LogWrite::Nothing => added.len() == 0,
        LogWrite::Append(appended) => {
            &&& added.len() > 0
            &&& lines.len() + added.len() <= 2 * retention
            &&& appended@ == joined_lines(added)
        },
        LogWrite::Shorten { appended, content } => {
            &&& added.len() > 0
            &&& lines.len() + added.len() > 2 * retention
            &&& appended@ == joined_lines(added)
            &&& content@ == joined_lines(last_lines(lines + added, retention))
        },
    }
}

proof fn lemma_lines_join(a: Seq<String>, b: Seq<String>)
    ensures
        joined_lines(a + b) == joined_lines(a) + joined_lines(b),
    decreases b.len(),
{
    if b.len() == 0 {
        assert(a + b =~= a);
        assert(joined_lines(a) + joined_lines(b) =~= joined_lines(a));
    } else {
        assert((a + b).drop_last() =~= a + b.drop_last());
        assert((a + b).last() == b.last());
        lemma_lines_join(a, b.drop_last());
        assert(joined_lines(a + b) =~= joined_lines(a) + joined_lines(b));
    }
}

/// What is written leaves the lines of the log and the added ones, of which only the oldest are
/// dropped. The log then holds at most twice what is kept, and whatever of it is new enough to be
/// kept.
pub proof fn logs_are_bounded(
    write: LogWrite,
    lines: Seq<String>,
    added: Seq<String>,
    retention: nat,
)
    requires
        adds(write, lines, added, retention),
    ensures
        write.leaves(joined_lines(lines)) == joined_lines(log_after(lines, added, retention)),
        added.len() > 0 ==> log_after(lines, added, retention).len() <= 2 * retention,
        added.len() == 0 ==> log_after(lines, added, retention) == lines,
        exists|dropped: int|
            0 <= dropped <= lines.len() + added.len() && log_after(lines, added, retention)
                == #[trigger] (lines + added).skip(dropped),
        log_after(lines, added, retention).len() >= retention || log_after(
            lines,
            added,
            retention,
        ) == lines + added,
{
    let all = lines + added;
    lemma_lines_join(lines, added);
    if added.len() == 0 {
        assert(all =~= lines);
    }
    assert(all.skip(0) =~= all);
}

impl EventLogStore {
    /// Where the log is kept.
    pub closed spec fn path_view(&self) -> String {
        self.path
    }

    /// How many lines are kept.
    pub closed spec fn retention_view(&self) -> usize {
        self.retention
    }

    /// A log that is kept at `path`.
    pub fn new(path: String, retention: usize) -> (r: Self)
        ensures
            r.path_view() == path,
            r.retention_view() == retention,
    {
        EventLogStore { path, retention }
    }

    /// Where the log is kept.
    pub fn path(&self) -> (r: &String)
        ensures
            *r == self.path_view(),
    {
        &self.path
    }

    /// Changes how many lines are kept.
    pub fn set_retention(&mut self, retention: usize)
        ensures
            final(self).retention_view() == retention,
            final(self).path_view() == old(self).path_view(),
    {
        self.retention = retention;
    }

    /// Whether a log of so many lines is to be shortened: not before it holds more than twice what
    /// is kept.
    pub fn needs_compaction(&self, lines: usize) -> (r: bool)
        ensures
            r == (lines > 2 * self.retention_view()),
    {
        lines / 2 > self.retention || (lines / 2 == self.retention && lines % 2 == 1)
    }

    /// What is written to add lines to those that the log has.
    pub fn append(&self, lines: &Vec<String>, added: &Vec<String>) -> (r: LogWrite)
        ensures
            adds(r, lines@, added@, self.retention_view() as nat),
    {
        if added.len() == 0 {
            return LogWrite::Nothing;
        }
        let appended = join_from(added, 0);
        assert(added@.skip(0) =~= added@);
        let mut all: Vec<String> = Vec::new();
        copy_lines(&mut all, lines);
        copy_lines(&mut all, added);
        assert(all@ =~= lines@ + added@);
        if self.needs_compaction(all.len()) {
            LogWrite::Shorten { appended, content: self.compact(&all) }
        } else {
            LogWrite::Append(appended)
        }
    }

    /// What the log holds after it is shortened.
    pub fn compact(&self, lines: &Vec<String>) -> (r: String)
        ensures
            r@ == joined_lines(last_lines(lines@, self.retention_view() as nat)),
    {
        let start: usize = if lines.len() <= self.retention {
            0
        } else {
            lines.len() - self.retention
        };
        assert(lines@.skip(start as int) =~= last_lines(lines@, self.retention as nat));
        join_from(lines, start)
    }

    /// The last `limit` events about a session that belong to a category, as lines of activity.
    pub fn session_logs(
        &self,
        events: &Vec<EngineEvent>,
        provider: &str,
        session_id: &str,
        category: Option<&str>,
        limit: usize,
    ) -> (r: Vec<SessionLog>)
        ensures
            are_last_logs(
                r@,
                selection(events@, provider@, session_id@, optional_str(category)),
                provider@,
                session_id@,
                limit as nat,
            ),
    {
        let ghost all = events@;
        let ghost wanted = optional_str(category);
        let ghost pick = |event: EngineEvent| selected(event, provider@, session_id@, wanted);
        let mut logs: Vec<SessionLog> = Vec::new();
        let mut i: usize = 0;
        assert(all.take(0).filter(pick) =~= Seq::empty()) by {
            reveal(Seq::filter);
        }
        while i < events.len()
            invariant
                i <= all.len(),
                events@ == all,
                wanted == optional_str(category),
                pick == (|event: EngineEvent| selected(event, provider@, session_id@, wanted)),
                are_last_logs(
                    logs@,
                    all.take(i as int).filter(pick),
                    provider@,
                    session_id@,
                    limit as nat,
                ),
            decreases all.len() - i,
        {
            let event = &events[i];
            let ghost picked = all.take(i as int).filter(pick);
            proof {
                all.take(i as int).lemma_filter_push(all[i as int], pick);
                assert(all.take(i + 1) =~= all.take(i as int).push(all[i as int]));
            }
            i += 1;
            match event.as_session_log() {
                None => {},
                Some(entry) => {
                    if text::same(entry.provider.as_str(), provider) && text::same(
                        entry.session_id.as_str(),
                        session_id,
                    ) && is_in_category(event, category) {
                        let ghost before = logs@;
                        logs.push(entry);
                        if logs.len() > limit {
                            logs.remove(0);
                        }
                        proof {
                            let now = picked.push(*event);
                            assert(all.take(i as int).filter(pick) == now);
                            assert forall|k: int| 0 <= k < logs@.len() implies models::is_event_log(
                                #[trigger] logs@[k],
                                now[now.len() - logs@.len() + k],
                                provider@,
                                session_id@,
                            ) by {
                                if before.len() + 1 > limit {
                                    if k + 1 < before.len() {
                                        assert(logs@[k] == before[k + 1]);
                                    } else if k + 1 == before.len() {
                                        assert(logs@[k] == entry);
                                    }
                                } else if k < before.len() {
                                    assert(logs@[k] == before[k]);
                                }
                            }
                        }
                    }
                },
            }
        }
        assert(all.take(i as int) =~= all);
        logs
    }
}

fn copy_lines(all: &mut Vec<String>, lines: &Vec<String>)
    ensures
        final(all)@ == old(all)@ + lines@,
{
    let ghost first = all@;
    let mut i: usize = 0;
    assert(first + lines@.take(0) =~= first);
    while i < lines.len()
        invariant
            i <= lines@.len(),
            all@ == first + lines@.take(i as int),
        decreases lines@.len() - i,
    {
        all.push(lines[i].clone());
        assert(lines@.take(i + 1) =~= lines@.take(i as int).push(lines@[i as int]));
        assert(all@ =~= first + lines@.take(i + 1));
        i += 1;
    }
    assert(lines@.take(i as int) =~= lines@);
}

fn join_from(lines: &Vec<String>, start: usize) -> (r: String)
    requires
        start <= lines@.len(),
    ensures
        r@ == joined_lines(lines@.skip(start as int)),
{
    let ghost kept = lines@.skip(start as int);
    let mut r = String::new();
    let mut i: usize = start;
    while i < lines.len()
        invariant
            start <= i <= lines@.len(),
            kept == lines@.skip(start as int),
            r@ == joined_lines(kept.take(i - start)),
        decreases lines@.len() - i,
    {
        r.append(lines[i].as_str());
        r.append("\n");
        proof {
            let next = kept.take(i - start + 1);
            assert(next.drop_last() =~= kept.take(i - start));
            assert(next.last() == lines@[i as int]);
        }
        i += 1;
    }
    assert(kept.take(i - start) =~= kept);
    r
}

fn is_in_category(event: &EngineEvent, category: Option<&str>) -> (r: bool)
    ensures
        r == in_category(*event, optional_str(category)),
{
    match category {
        None => true,
        Some(wanted) => {
            let by_condition = match &event.condition {
                Some(condition) => text::same(
                    condition_category(condition.as_str()).as_str(),
                    wanted,
                ),
                None => false,
            };
            by_condition || text::same(condition_category(event.kind.as_str()).as_str(), wanted)
        },
    }
}

} // verus!
