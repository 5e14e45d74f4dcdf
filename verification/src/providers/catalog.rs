//! A provider's sessions in the order in which they are listed and searched.

use vstd::prelude::*;
use vstd::string::*;

use crate::models::Session;
use crate::order;
use crate::providers::SessionSearchPage;
use crate::text;
use crate::textmap;
use crate::time;
use crate::time::Timestamp;

verus! {

/// A session is listed before another: its activity is later, or, where both are of one time, its
/// identifier is not greater. A session of unknown activity comes last.
pub open spec fn by_activity() -> spec_fn(Session, Session) -> bool {
    |a: Session, b: Session|
        if a.updated_at == b.updated_at {
            !textmap::text_less(b.id@, a.id@)
        } else {
            time::not_after(b.updated_at, a.updated_at)
        }
}

/// The sessions as they are listed.
pub open spec fn listing(sessions: Seq<Session>) -> Seq<Session> {
    order::arranged(sessions, by_activity())
}

/// The first `limit` of a listing.
pub open spec fn first_of(sessions: Seq<Session>, limit: nat) -> Seq<Session> {
    if sessions.len() <= limit {
        sessions
    } else {
        sessions.take(limit as int)
    }
}

proof fn lemma_activity_orders()
    ensures
        order::is_order(by_activity()),
{
    let le = by_activity();
    assert forall|a: Session, b: Session| #[trigger] le(a, b) || le(b, a) by {
        textmap::lemma_text_order_is_total(a.id@, b.id@);
    }
    assert forall|a: Session, b: Session, c: Session| #[trigger]
        le(a, b) && #[trigger] le(b, c) implies le(a, c) by {
        textmap::lemma_text_order_is_total(a.id@, b.id@);
        if textmap::text_less(c.id@, a.id@) && textmap::text_less(a.id@, b.id@) {
            textmap::lemma_text_order_is_transitive(c.id@, a.id@, b.id@);
        }
    }
}

/// Listing sessions loses none and adds none; they stand newest first, and those of unknown
/// activity last.
pub proof fn listing_keeps_sessions(sessions: Seq<Session>)
    ensures
        listing(sessions).to_multiset() == sessions.to_multiset(),
        order::ascending(listing(sessions), by_activity()),
        crate::providers::newest_first(listing(sessions)),
{
    lemma_activity_orders();
    order::arranging_keeps_values(sessions, by_activity());
    let listed = listing(sessions);
    assert forall|i: int, j: int|
        #![trigger listed[i], listed[j]]
        0 <= i <= j < listed.len() && listed[i].updated_at is Some
            && listed[j].updated_at is Some implies listed[i].updated_at->0.is_not_before(
        listed[j].updated_at->0,
        0,
    ) by {
        let le = by_activity();
        assert(le(listed[i], listed[j]));
    }
}

fn same_time(a: Option<Timestamp>, b: Option<Timestamp>) -> (r: bool)
    ensures
        r == (a == b),
{
    match (a, b) {
        (Some(x), Some(y)) => x == y,
        (None, None) => true,
        _ => false,
    }
}

fn listed_before(a: &Session, b: &Session) -> (r: bool)
    ensures
        r == by_activity()(*a, *b),
{
    if same_time(a.updated_at, b.updated_at) {
        !textmap::less(b.id.as_str(), a.id.as_str())
    } else {
        time::is_not_after(b.updated_at, a.updated_at)
    }
}

fn arrange(sessions: &Vec<Session>) -> (r: Vec<Session>)
    ensures
        r@ == listing(sessions@),
{
    let ghost all = sessions@;
    let mut r: Vec<Session> = Vec::new();
    let mut i: usize = 0;
    assert(listing(all.take(0)) =~= Seq::<Session>::empty());
    while i < sessions.len()
        invariant
            i <= all.len(),
            sessions@ == all,
            r@ == listing(all.take(i as int)),
        decreases all.len() - i,
    {
        let entry = sessions[i].clone();
        let ghost before = r@;
        let mut at: usize = r.len();
        assert(before.take(at as int) =~= before);
        while at > 0 && !listed_before(&r[at - 1], &entry)
            invariant
                at <= r@.len(),
                r@ == before,
                order::place(before.take(at as int), entry, by_activity()) == order::place(
                    before,
                    entry,
                    by_activity(),
                ),
            decreases at,
        {
            assert(before.take(at as int).last() == before[at - 1]);
            assert(before.take(at as int).drop_last() =~= before.take(at - 1));
            at -= 1;
        }
        assert(at > 0 ==> before.take(at as int).last() == before[at - 1]);
        assert(all.take(i + 1).drop_last() =~= all.take(i as int));
        r.insert(at, entry);
        i += 1;
    }
    assert(all.take(i as int) =~= all);
    r
}

/// The sessions in the order of a listing, at most `limit` of them.
pub fn list_sessions(sessions: &Vec<Session>, limit: usize) -> (r: Vec<Session>)
    ensures
        r@ == first_of(listing(sessions@), limit as nat),
{
    let mut r = arrange(sessions);
    if r.len() > limit {
        r.truncate(limit);
    }
    r
}

/// A session may have been active since the cutoff.
pub open spec fn maybe_recent(session: Session, cutoff: Timestamp) -> bool {
    session.updated_at is None || session.updated_at->0.is_not_before(cutoff, 0)
}

/// The sessions that may have been active since the cutoff, in the order of a listing. One of
/// unknown activity is always among them.
pub fn recent_sessions(sessions: &Vec<Session>, cutoff: Timestamp) -> (r: Vec<Session>)
    ensures
        r@ == listing(sessions@).filter(|session: Session| maybe_recent(session, cutoff)),
{
    let listed = arrange(sessions);
    let ghost all = listing(sessions@);
    let ghost keep = |session: Session| maybe_recent(session, cutoff);
    let mut r: Vec<Session> = Vec::new();
    let mut i: usize = 0;
    assert(all.take(0).filter(keep) =~= Seq::empty()) by {
        reveal(Seq::filter);
    }
    while i < listed.len()
        invariant
            i <= all.len(),
            listed@ == all,
            keep == (|session: Session| maybe_recent(session, cutoff)),
            r@ == all.take(i as int).filter(keep),
        decreases all.len() - i,
    {
        proof {
            all.take(i as int).lemma_filter_push(all[i as int], keep);
            assert(all.take(i + 1) =~= all.take(i as int).push(all[i as int]));
        }
        let recent = match listed[i].updated_at {
            Some(time) => time.not_before(cutoff, 0),
            None => true,
        };
        if recent {
            r.push(listed[i].clone());
        }
        i += 1;
    }
    assert(all.take(i as int) =~= all);
    r
}

/// A session answers a query: its identifier holds the query in lower case, or its title in lower
/// case does.
pub open spec fn answers(session: Session, query: Seq<char>) -> bool {
    let wanted = text::lowercased(query);
    text::contains_text(session.id@, wanted) || text::contains_text(
        text::lowercased(session.title@),
        wanted,
    )
}

/// The sessions that answer a query, in the order of a listing.
pub open spec fn found(sessions: Seq<Session>, query: Seq<char>) -> Seq<Session> {
    listing(sessions).filter(|session: Session| answers(session, query))
}

/// Where a search starts: at the number in the cursor.
pub open spec fn search_start(cursor: Option<Seq<char>>) -> Option<nat> {
    match cursor {
        Some(cursor) => text::unsigned_value(cursor, usize::MAX as nat),
        None => Some(0),
    }
}

/// Where the part of a search that starts at `start` ends.
pub open spec fn search_end(start: nat, limit: nat, count: nat) -> nat {
    if start + limit <= count {
        start + limit
    } else {
        count
    }
}

/// The sessions that answer a query, in the order of a listing.
pub fn find(sessions: &Vec<Session>, query: &str) -> (r: Vec<Session>)
    ensures
        r@ == found(sessions@, query@),
{
    let listed = arrange(sessions);
    let ghost all = listing(sessions@);
    let wanted = text::to_lowercase(query);
    let ghost keep = |session: Session| answers(session, query@);
    let mut r: Vec<Session> = Vec::new();
    let mut i: usize = 0;
    assert(all.take(0).filter(keep) =~= Seq::empty()) by {
        reveal(Seq::filter);
    }
    while i < listed.len()
        invariant
            i <= all.len(),
            listed@ == all,
            wanted@ == text::lowercased(query@),
            keep == (|session: Session| answers(session, query@)),
            r@ == all.take(i as int).filter(keep),
        decreases all.len() - i,
    {
        proof {
            all.take(i as int).lemma_filter_push(all[i as int], keep);
            assert(all.take(i + 1) =~= all.take(i as int).push(all[i as int]));
        }
        let title = text::to_lowercase(listed[i].title.as_str());
        if text::contains(listed[i].id.as_str(), wanted.as_str()) || text::contains(
            title.as_str(),
            wanted.as_str(),
        ) {
            r.push(listed[i].clone());
        }
        i += 1;
    }
    assert(all.take(i as int) =~= all);
    r
}

/// The part of what a query finds that starts at the cursor, at most `limit` sessions, and the
/// cursor of what follows. There is none where the cursor is no number.
pub fn search_sessions(
    sessions: &Vec<Session>,
    query: &str,
    cursor: Option<&str>,
    limit: usize,
) -> (r: Option<SessionSearchPage>)
    ensures
        ({
            let all = found(sessions@, query@);
            match search_start(
                match cursor {
                    Some(cursor) => Some(cursor@),
                    None => None,
                },
            ) {
                None => r is None,
                Some(start) => {
                    let end = search_end(start, limit as nat, all.len());
                    &&& r is Some
                    &&& r->0.sessions@ == (if start <= end {
                        all.subrange(start as int, end as int)
                    } else {
                        Seq::empty()
                    })
                    &&& text::option_view(r->0.next_cursor) == (if end < all.len() {
                        Some(text::decimal_view(end))
                    } else {
                        None
                    })
                },
            }
        }),
{
    let matching = find(sessions, query);
    let count: usize = matching.len();
    let start: usize = match cursor {
        None => 0,
        Some(cursor) => match text::parse_unsigned(cursor, usize::MAX as u64) {
            Some(start) => start as usize,
            None => {
                return None;
            },
        },
    };
    let end: usize = if start <= count && limit <= count - start {
        start + limit
    } else {
        count
    };
    let mut page: Vec<Session> = Vec::new();
    let mut i: usize = start;
    let ghost all = matching@;
    while i < end
        invariant
            start <= i,
            i <= end || start > end,
            end <= count,
            count == matching@.len(),
            matching@ == all,
            page@ == (if start <= end {
                all.subrange(start as int, i as int)
            } else {
                Seq::empty()
            }),
        decreases end - i,
    {
        page.push(matching[i].clone());
        i += 1;
    }
    let next_cursor = if end < count {
        Some(text::decimal(end as u64))
    } else {
        None
    };
    Some(SessionSearchPage { sessions: page, next_cursor })
}

} // verus!
