//! The activity of a session: what its provider tells and what the service did.

use vstd::prelude::*;
use vstd::string::*;

use crate::daemon::methods;
use crate::json::Json;
use crate::models::SessionLog;
use crate::order;
use crate::protocol::{ActivityQuery, SessionQuery, SessionRef};
use crate::text;
use crate::time;
use crate::time::Timestamp;

verus! {

/// The most sessions that a search hands out at once.
pub const MAX_SEARCH_ITEMS: usize = 500;

/// A line stands before another: it has no time, or its time is not later.
pub open spec fn by_time() -> spec_fn(SessionLog, SessionLog) -> bool {
    |a: SessionLog, b: SessionLog| time::not_after(a.timestamp, b.timestamp)
}

/// The lines in the order of their times; those of one time stay in their order.
pub open spec fn in_order(logs: Seq<SessionLog>) -> Seq<SessionLog> {
    order::arranged(logs, by_time())
}

/// Ordering lines loses none and adds none, and puts them in the order of their times.
pub proof fn ordering_keeps_lines(logs: Seq<SessionLog>)
    ensures
        in_order(logs).to_multiset() == logs.to_multiset(),
        in_order(logs).len() == logs.len(),
        order::ascending(in_order(logs), by_time()),
{
    order::arranging_keeps_values(logs, by_time());
}

fn sort_logs(logs: Vec<SessionLog>) -> (r: Vec<SessionLog>)
    ensures
        r@ == in_order(logs@),
{
    let mut r: Vec<SessionLog> = Vec::new();
    let mut i: usize = 0;
    assert(in_order(logs@.take(0)) =~= Seq::<SessionLog>::empty());
    while i < logs.len()
        invariant
            i <= logs@.len(),
            r@ == in_order(logs@.take(i as int)),
        decreases logs@.len() - i,
    {
        let entry = logs[i].clone();
        let ghost before = r@;
        let mut at: usize = r.len();
        assert(before.take(at as int) =~= before);
        while at > 0 && !time::is_not_after(r[at - 1].timestamp, entry.timestamp)
            invariant
                at <= r@.len(),
                r@ == before,
                order::place(before.take(at as int), entry, by_time()) == order::place(
                    before,
                    entry,
                    by_time(),
                ),
            decreases at,
        {
            assert(before.take(at as int).last() == before[at - 1]);
            assert(before.take(at as int).drop_last() =~= before.take(at - 1));
            at -= 1;
        }
        assert(at > 0 ==> before.take(at as int).last() == before[at - 1]);
        assert(logs@.take(i + 1).drop_last() =~= logs@.take(i as int));
        r.insert(at, entry);
        i += 1;
    }
    assert(logs@.take(i as int) =~= logs@);
    r
}

/// The lines that tell of reliability, where only those are wanted.
pub open spec fn wanted(logs: Seq<SessionLog>, reliability_only: bool) -> Seq<SessionLog> {
    if reliability_only {
        logs.filter(|log: SessionLog| methods::tells_reliability(log))
    } else {
        logs
    }
}

fn keep_wanted(logs: Vec<SessionLog>, reliability_only: bool) -> (r: Vec<SessionLog>)
    ensures
        r@ == wanted(logs@, reliability_only),
{
    if !reliability_only {
        return logs;
    }
    let ghost all = logs@;
    let ghost keep = |log: SessionLog| methods::tells_reliability(log);
    let mut r: Vec<SessionLog> = Vec::new();
    let mut i: usize = 0;
    assert(all.take(0).filter(keep) =~= Seq::empty()) by {
        reveal(Seq::filter);
    }
    while i < logs.len()
        invariant
            i <= all.len(),
            logs@ == all,
            keep == (|log: SessionLog| methods::tells_reliability(log)),
            r@ == all.take(i as int).filter(keep),
        decreases all.len() - i,
    {
        proof {
            all.take(i as int).lemma_filter_push(all[i as int], keep);
            assert(all.take(i + 1) =~= all.take(i as int).push(all[i as int]));
        }
        if methods::is_reliability_log(&logs[i]) {
            r.push(logs[i].clone());
        }
        i += 1;
    }
    assert(all.take(i as int) =~= all);
    r
}

/// The last `limit` lines.
pub open spec fn newest(logs: Seq<SessionLog>, limit: nat) -> Seq<SessionLog> {
    if logs.len() <= limit {
        logs
    } else {
        logs.skip(logs.len() - limit)
    }
}

/// The activity of a session: what is wanted of the provider's lines and of the service's own, in
/// the order of their times, the last ones only.
pub open spec fn activity(
    provider_logs: Seq<SessionLog>,
    local_logs: Seq<SessionLog>,
    limit: nat,
    reliability_only: bool,
) -> Seq<SessionLog> {
    newest(
        in_order(wanted(provider_logs, reliability_only) + wanted(local_logs, reliability_only)),
        limit,
    )
}

/// Puts the activity of a session together.
pub fn merge_activity(
    provider_logs: Vec<SessionLog>,
    local_logs: Vec<SessionLog>,
    query: &ActivityQuery,
) -> (r: Vec<SessionLog>)
    ensures
        r@ == activity(
            provider_logs@,
            local_logs@,
            query.limit as nat,
            query.reliability_only,
        ),
        r@.len() <= query.limit,
{
    let mut all = keep_wanted(provider_logs, query.reliability_only);
    let mut local = keep_wanted(local_logs, query.reliability_only);
    all.append(&mut local);
    let mut sorted = sort_logs(all);
    if sorted.len() > query.limit {
        let cut: usize = sorted.len() - query.limit;
        sorted.split_off(cut)
    } else {
        sorted
    }
}

/// The line that stands for the activity of a provider that could not be asked.
pub fn provider_failure_log(session: &SessionRef, reason: String, now: Timestamp) -> (r: SessionLog)
    ensures
        r.timestamp == Some(now),
        r.provider == session.provider,
        r.session_id == session.session_id,
        r.source@ == "provider"@,
        r.kind@ == "provider.error"@,
        r.role is None,
        r.turn_id is None,
        r.condition is None,
        r.message == reason,
        r.metadata == Json::Null,
        methods::tells_reliability(r),
{
    SessionLog {
        timestamp: Some(now),
        provider: session.provider.clone(),
        session_id: session.session_id.clone(),
        source: "provider".to_owned(),
        kind: "provider.error".to_owned(),
        role: None,
        turn_id: None,
        condition: None,
        message: reason,
        metadata: Json::Null,
    }
}

/// How many sessions a search is asked for: at least one, at most what is handed out at once.
pub fn search_limit(query: &SessionQuery) -> (r: usize)
    ensures
        r == (if query.limit < 1 {
            1
        } else if query.limit > MAX_SEARCH_ITEMS {
            MAX_SEARCH_ITEMS
        } else {
            query.limit
        }),
{
    if query.limit < 1 {
        1
    } else if query.limit > MAX_SEARCH_ITEMS {
        MAX_SEARCH_ITEMS
    } else {
        query.limit
    }
}

/// A message that is sent to a session: without white space around it, and not empty.
pub fn message_to_send(message: &str) -> (r: Option<String>)
    ensures
        match r {
            Some(trimmed) => trimmed@ == text::trimmed(message@) && trimmed@.len() > 0,
            None => text::blank(message@),
        },
{
    let trimmed = text::trim(message);
    proof {
        text::lemma_trimmed_is_empty(message@);
    }
    if trimmed.as_str().is_empty() {
        None
    } else {
        Some(trimmed)
    }
}

} // verus!
