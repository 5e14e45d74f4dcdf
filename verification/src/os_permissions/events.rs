//! The log of what the dialog handler observed and pressed.

use vstd::prelude::*;
use vstd::string::*;

use crate::text;
use crate::time::Timestamp;

verus! {

/// A line of the log.
#[derive(Debug)]
pub struct Event {
    pub timestamp: Timestamp,
    pub kind: String,
    pub pid: Option<i32>,
    pub app: String,
    pub rule: Option<String>,
    pub button: Option<String>,
    pub detail: String,
}

impl Clone for Event {
    fn clone(&self) -> (r: Self)
        ensures
            r == *self,
    {
        Event {
            timestamp: self.timestamp,
            kind: self.kind.clone(),
            pid: self.pid,
            app: self.app.clone(),
            rule: self.rule.clone(),
            button: self.button.clone(),
            detail: self.detail.clone(),
        }
    }
}

/// The directory of a path, with the slash that ends it: what stands up to the last slash.
pub open spec fn directory_of(path: Seq<char>) -> Seq<char>
    decreases path.len(),
{
    if path.len() == 0 || path.last() == '/' {
        path
    } else {
        directory_of(path.drop_last())
    }
}

/// A path names a file: it does not end in a slash, and its last part is neither `.` nor `..`.
pub open spec fn names_file(path: Seq<char>) -> bool {
    let name = path.skip(directory_of(path).len() as int);
    name.len() > 0 && name != "."@ && name != ".."@
}

/// The directory of a path ends behind its last slash.
pub proof fn lemma_directory(path: Seq<char>, at: int)
    requires
        0 <= at <= path.len(),
        at > 0 ==> path[at - 1] == '/',
        forall|k: int| at <= k < path.len() ==> path[k] != '/',
    ensures
        directory_of(path) == path.take(at),
    decreases path.len(),
{
    if at == path.len() {
        assert(path.take(at) =~= path);
    } else {
        assert(path.last() != '/');
        lemma_directory(path.drop_last(), at);
        assert(path.drop_last().take(at) =~= path.take(at));
    }
}

/// Where the log is kept: beside the control socket.
pub fn path(state_socket: &str) -> (r: String)
    requires
        names_file(state_socket@),
    ensures
        r@ == directory_of(state_socket@) + "dialog-events.jsonl"@,
{
    let chars = text::chars_of(state_socket);
    let mut at: usize = chars.len();
    while at > 0 && chars[at - 1] != '/'
        invariant
            at <= chars@.len(),
            chars@ == state_socket@,
            forall|k: int| at <= k < chars@.len() ==> chars@[k] != '/',
        decreases at,
    {
        at -= 1;
    }
    proof {
        lemma_directory(state_socket@, at as int);
    }
    let directory = text::from_chars(vstd::slice::slice_subrange(chars.as_slice(), 0, at));
    assert(directory@ =~= state_socket@.take(at as int));
    directory.concat("dialog-events.jsonl")
}

/// The event is about a click.
pub open spec fn is_click(event: Event) -> bool {
    text::occurs_at(event.kind@, "click."@, 0)
}

/// The events that are wanted.
pub open spec fn wanted(events: Seq<Event>, clicks_only: bool) -> Seq<Event> {
    if clicks_only {
        events.filter(|event: Event| is_click(event))
    } else {
        events
    }
}

/// The last `limit` events.
pub open spec fn last_events(events: Seq<Event>, limit: nat) -> Seq<Event> {
    if events.len() <= limit {
        events
    } else {
        events.skip(events.len() - limit)
    }
}

fn clicks(events: Vec<Event>) -> (r: Vec<Event>)
    ensures
        r@ == events@.filter(|event: Event| is_click(event)),
{
    let ghost all = events@;
    let ghost keep = |event: Event| is_click(event);
    let mut r: Vec<Event> = Vec::new();
    let mut i: usize = 0;
    assert(all.take(0).filter(keep) =~= Seq::empty()) by {
        reveal(Seq::filter);
    }
    while i < events.len()
        invariant
            i <= all.len(),
            events@ == all,
            keep == (|event: Event| is_click(event)),
            r@ == all.take(i as int).filter(keep),
        decreases all.len() - i,
    {
        proof {
            all.take(i as int).lemma_filter_push(all[i as int], keep);
            assert(all.take(i + 1) =~= all.take(i as int).push(all[i as int]));
        }
        if text::starts_with(events[i].kind.as_str(), "click.") {
            r.push(events[i].clone());
        }
        i += 1;
    }
    assert(all.take(i as int) =~= all);
    r
}

/// The last events of the log, in their order, only those about clicks where that is wanted.
pub fn read(events: Vec<Event>, clicks_only: bool, limit: usize) -> (r: Vec<Event>)
    ensures
        r@ == last_events(wanted(events@, clicks_only), limit as nat),
{
    let mut kept = if clicks_only {
        clicks(events)
    } else {
        events
    };
    let count: usize = kept.len();
    if count <= limit {
        return kept;
    }
    let ghost all = kept@;
    let r = kept.split_off(count - limit);
    assert(r@ =~= all.skip(count - limit));
    r
}

/// Where the complete lines of the log end.
pub open spec fn complete_end(bytes: Seq<u8>) -> int
    decreases bytes.len(),
{
    if bytes.len() == 0 || bytes.last() == 10 {
        bytes.len() as int
    } else {
        complete_end(bytes.drop_last())
    }
}

/// Where the complete lines of the log end. What follows is a line whose writing broke off.
pub fn complete_length(bytes: &Vec<u8>) -> (r: usize)
    ensures
        r == complete_end(bytes@),
        r <= bytes@.len(),
{
    let mut at: usize = bytes.len();
    assert(bytes@.take(at as int) =~= bytes@);
    while at > 0 && bytes[at - 1] != 10
        invariant
            at <= bytes@.len(),
            complete_end(bytes@.take(at as int)) == complete_end(bytes@),
        decreases at,
    {
        assert(bytes@.take(at as int).last() == bytes@[at - 1]);
        assert(bytes@.take(at as int).drop_last() =~= bytes@.take(at - 1));
        at -= 1;
    }
    assert(at > 0 ==> bytes@.take(at as int).last() == bytes@[at - 1]);
    at
}

/// Cutting off a line whose writing broke off keeps all lines before it, and what is written next
/// starts a line of its own.
pub proof fn repair_keeps_complete_lines(bytes: Seq<u8>)
    ensures
        ({
            let kept = bytes.take(complete_end(bytes));
            &&& 0 <= complete_end(bytes) <= bytes.len()
            &&& kept.len() == 0 || kept.last() == 10
            &&& forall|k: int| complete_end(bytes) <= k < bytes.len() ==> bytes[k] != 10
        }),
    decreases bytes.len(),
{
    if bytes.len() > 0 && bytes.last() != 10 {
        let rest = bytes.drop_last();
        repair_keeps_complete_lines(rest);
        let end = complete_end(bytes);
        assert(rest.take(end) =~= bytes.take(end));
        assert forall|k: int| end <= k < bytes.len() implies bytes[k] != 10 by {
            if k < rest.len() {
                assert(rest[k] != 10);
            }
        }
    } else {
        assert(bytes.take(complete_end(bytes)) =~= bytes);
    }
}

/// The state of the log.
#[derive(Clone, Copy, Debug, PartialEq, Eq, Structural)]
pub struct Log {
    /// How many lines it holds.
    pub count: usize,
    /// How many lines are kept.
    pub retention: usize,
    /// Whether part of a line could not be taken back, so that nothing may be added.
    pub repair_required: bool,
}

/// How adding a line ended.
#[derive(Clone, Copy, Debug, PartialEq, Eq, Structural)]
pub enum Appended {
    /// The line was written.
    Written,
    /// It was not, and what was written of it was taken back.
    TakenBack,
    /// It was not, and part of it may be left.
    Broken,
}

impl Log {
    /// The state of a log of so many lines.
    pub fn new(count: usize, retention: usize) -> (r: Self)
        ensures
            r == (Log { count, retention, repair_required: false }),
    {
        Log { count, retention, repair_required: false }
    }

    /// The log is to be shortened: it holds more than twice what is kept.
    pub open spec fn is_long(self) -> bool {
        self.count > 2 * self.retention
    }

    /// Whether a line may be added.
    pub fn may_append(&self) -> (r: bool)
        ensures
            r == !self.repair_required,
    {
        !self.repair_required
    }

    /// Notes how adding a line ended, and tells whether the log is to be shortened.
    pub fn append(&mut self, appended: Appended) -> (r: bool)
        requires
            old(self).count < usize::MAX,
        ensures
            final(self).retention == old(self).retention,
            final(self).count == (if appended is Written {
                old(self).count + 1
            } else {
                old(self).count as int
            }),
            final(self).repair_required == (old(self).repair_required || appended is Broken),
            r == (appended is Written && final(self).is_long()),
    {
        match appended {
            Appended::Written => {
                self.count = self.count + 1;
                self.count / 2 > self.retention || (self.count / 2 == self.retention && self.count
                    % 2 == 1)
            },
            Appended::TakenBack => false,
            Appended::Broken => {
                self.repair_required = true;
                false
            },
        }
    }

    /// Notes that the log was shortened to so many lines.
    pub fn compacted(&mut self, count: usize)
        ensures
            final(self).count == count,
            final(self).retention == old(self).retention,
            final(self).repair_required == old(self).repair_required,
    {
        self.count = count;
    }
}

} // verus!
