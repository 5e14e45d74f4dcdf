//! The retries that users asked for: each is accepted once, kept until its result is known, and
//! never forgotten while it may still be sent.

use vstd::prelude::*;
use vstd::string::*;

use crate::ids;
use crate::json::Json;
use crate::order;
use crate::protocol::SessionRef;
use crate::text;
use crate::textmap;
use crate::textmap::TextMap;
use crate::time;
use crate::time::Timestamp;

verus! {

/// The only schema version of the stored operations that is accepted.
pub const OPERATIONS_VERSION: u32 = 1;

/// The most operations that may wait for their result.
pub const MAX_PENDING_OPERATIONS: usize = 32;

/// The most operations that are kept.
pub const MAX_OPERATIONS: usize = 256;

/// A retry that a user asked for.
#[derive(Debug)]
pub struct RetryOperation {
    pub operation_id: String,
    pub provider: String,
    pub session_id: String,
    pub request_key: String,
    pub status: String,
    pub result: Option<Json>,
    pub error: Option<String>,
    pub updated_at: Timestamp,
}

impl Clone for RetryOperation {
    fn clone(&self) -> (r: Self)
        ensures
            r == *self,
    {
        RetryOperation {
            operation_id: self.operation_id.clone(),
            provider: self.provider.clone(),
            session_id: self.session_id.clone(),
            request_key: self.request_key.clone(),
            status: self.status.clone(),
            result: self.result.clone(),
            error: self.error.clone(),
            updated_at: self.updated_at,
        }
    }
}

/// The operation still waits for its result.
pub open spec fn open_operation(operation: RetryOperation) -> bool {
    operation.status@ == "accepted"@ || operation.status@ == "running"@
}

/// The operation is one on this session.
pub open spec fn on_session(operation: RetryOperation, session: SessionRef) -> bool {
    operation.provider@ == session.provider@ && operation.session_id@ == session.session_id@
}

/// The operation was asked for under this key.
pub open spec fn under_key(operation: RetryOperation, key: Seq<char>) -> bool {
    operation.request_key@ == key
}

impl RetryOperation {
    fn is_open(&self) -> (r: bool)
        ensures
            r == open_operation(*self),
    {
        text::same(self.status.as_str(), "accepted") || text::same(self.status.as_str(), "running")
    }

    fn is_on(&self, session: &SessionRef) -> (r: bool)
        ensures
            r == on_session(*self, *session),
    {
        text::same(self.provider.as_str(), session.provider.as_str()) && text::same(
            self.session_id.as_str(),
            session.session_id.as_str(),
        )
    }

    /// The operation as clients see it. A time that the calendar does not have cannot be written.
    pub fn value(&self) -> (r: Option<Json>)
        ensures
            r is Some <==> self.updated_at.writable(),
            r is Some ==> is_operation_json(r->0, *self),
    {
        if !self.updated_at.is_writable() {
            return None;
        }
        proof {
            lemma_operation_names_differ();
        }
        let error = match &self.error {
            Some(error) => Json::Text(error.clone()),
            None => Json::Null,
        };
        let result = match &self.result {
            Some(result) => result.clone(),
            None => Json::Null,
        };
        let built = Json::object().with(
            "operation_id",
            Json::Text(self.operation_id.clone()),
        ).with("provider", Json::Text(self.provider.clone())).with(
            "session_id",
            Json::Text(self.session_id.clone()),
        ).with("status", Json::Text(self.status.clone())).with("result", result).with(
            "error",
            error,
        ).with("updated_at", Json::Text(time::write_json_time(self.updated_at)));
        assert(built@.dom() =~= operation_members());
        Some(built.build())
    }
}

/// The members of an operation as clients see it.
pub open spec fn operation_members() -> Set<Seq<char>> {
    set![
        "operation_id"@,
        "provider"@,
        "session_id"@,
        "status"@,
        "result"@,
        "error"@,
        "updated_at"@,
    ]
}

/// `value` is the operation as clients see it: the request key is not among its members.
pub open spec fn is_operation_json(value: Json, operation: RetryOperation) -> bool {
    &&& value is Object
    &&& value->Object_0@.dom() == operation_members()
    &&& value.member("operation_id"@) == Some(Json::Text(operation.operation_id))
    &&& value.member("provider"@) == Some(Json::Text(operation.provider))
    &&& value.member("session_id"@) == Some(Json::Text(operation.session_id))
    &&& value.member("status"@) == Some(Json::Text(operation.status))
    &&& value.member("result"@) == Some(match operation.result {
        Some(result) => result,
        None => Json::Null,
    })
    &&& value.member("error"@) == Some(match operation.error {
        Some(error) => Json::Text(error),
        None => Json::Null,
    })
    &&& value.member_text("updated_at"@) == Some(time::json_time(operation.updated_at))
}

proof fn lemma_operation_names_differ()
    ensures
        "operation_id"@ != "provider"@,
        "operation_id"@ != "session_id"@,
        "operation_id"@ != "status"@,
        "operation_id"@ != "result"@,
        "operation_id"@ != "error"@,
        "operation_id"@ != "updated_at"@,
        "provider"@ != "session_id"@,
        "provider"@ != "status"@,
        "provider"@ != "result"@,
        "provider"@ != "error"@,
        "provider"@ != "updated_at"@,
        "session_id"@ != "status"@,
        "session_id"@ != "result"@,
        "session_id"@ != "error"@,
        "session_id"@ != "updated_at"@,
        "status"@ != "result"@,
        "status"@ != "error"@,
        "status"@ != "updated_at"@,
        "result"@ != "error"@,
        "result"@ != "updated_at"@,
        "error"@ != "updated_at"@,
{
    reveal_strlit("operation_id");
    reveal_strlit("provider");
    reveal_strlit("session_id");
    reveal_strlit("status");
    reveal_strlit("result");
    reveal_strlit("error");
    reveal_strlit("updated_at");
    assert("operation_id"@.len() == 12 && "provider"@.len() == 8 && "error"@.len() == 5);
    assert("session_id"@[0] == 's' && "updated_at"@[0] == 'u');
    assert("status"@[0] == 's' && "result"@[0] == 'r');
    assert("session_id"@.len() == 10 && "status"@.len() == 6 && "result"@.len() == 6);
}

/// Why a retry is not accepted.
#[derive(Clone, Copy, Debug, PartialEq, Eq, Structural)]
pub enum AcceptError {
    /// The request has no key.
    KeyRequired,
    /// The key was used for another session.
    KeyTaken,
    /// Too many operations wait for their result.
    TooManyPending,
}

impl AcceptError {
    /// The error in words.
    pub open spec fn message_view(self) -> Seq<char> {
        match self {
            AcceptError::KeyRequired => "request_key is required for manual retry"@,
            AcceptError::KeyTaken => "request_key already belongs to another session"@,
            AcceptError::TooManyPending =>
                "too many manual retry operations are already pending"@,
        }
    }

    /// The error in words.
    pub fn message(&self) -> (r: String)
        ensures
            r@ == self.message_view(),
    {
        match self {
            AcceptError::KeyRequired => "request_key is required for manual retry".to_owned(),
            AcceptError::KeyTaken => "request_key already belongs to another session".to_owned(),
            AcceptError::TooManyPending =>
                "too many manual retry operations are already pending".to_owned(),
        }
    }
}

/// What takes a change of the operations back: an operation to forget, then one to put back in its
/// place, then one that had to make room.
#[derive(Debug)]
pub struct Undo {
    pub forget: Option<String>,
    pub restore: Option<(String, RetryOperation)>,
    pub evicted: Option<(String, RetryOperation)>,
}

impl Undo {
    /// The operations after the change is taken back.
    pub open spec fn applied(self, operations: Map<Seq<char>, RetryOperation>) -> Map<
        Seq<char>,
        RetryOperation,
    > {
        let kept = match self.forget {
            Some(id) => operations.remove(id@),
            None => operations,
        };
        let restored = match self.restore {
            Some((id, operation)) => kept.insert(id@, operation),
            None => kept,
        };
        match self.evicted {
            Some((id, operation)) => restored.insert(id@, operation),
            None => restored,
        }
    }
}

/// How a retry was accepted.
#[derive(Debug)]
pub enum Accepted {
    /// It was accepted before, as this operation.
    Existing(String),
    /// It is a new operation, which is to be started.
    Started { operation_id: String, undo: Undo },
}

/// Some operation satisfies a predicate.
pub open spec fn some_operation(
    operations: Map<Seq<char>, RetryOperation>,
    holds: spec_fn(RetryOperation) -> bool,
) -> bool {
    exists|id: Seq<char>| #[trigger] operations.contains_key(id) && holds(operations[id])
}

/// The operations that wait for their result.
pub open spec fn pending_count(entries: Seq<(String, RetryOperation)>) -> nat {
    entries.filter(|entry: (String, RetryOperation)| open_operation(entry.1)).len()
}

/// The operations that users asked for.
#[derive(Debug)]
pub struct RetryOperationRegistry {
    pub operations: TextMap<RetryOperation>,
    pub path: String,
}

/// The operation as it is after a restart: what waited for a result will not get one.
pub open spec fn is_restarted(
    before: RetryOperation,
    now: Timestamp,
    after: RetryOperation,
) -> bool {
    if open_operation(before) {
        &&& after.status@ == "unknown"@
        &&& after.error is Some
        &&& after.error->0@
            == "Watchcat restarted before this retry reached a confirmed result"@
        &&& after.updated_at == now
        &&& after.operation_id == before.operation_id
        &&& after.provider == before.provider
        &&& after.session_id == before.session_id
        &&& after.request_key == before.request_key
        &&& after.result == before.result
    } else {
        after == before
    }
}

/// The stored operations have another version than the one that is accepted.
#[derive(Clone, Copy, Debug, PartialEq, Eq, Structural)]
pub struct UnsupportedOperations {
    pub found: u32,
}

/// The last stored operation with an identifier is at `index`.
pub open spec fn last_stored(stored: Seq<RetryOperation>, index: int, id: Seq<char>) -> bool {
    &&& 0 <= index < stored.len()
    &&& stored[index].operation_id@ == id
    &&& forall|k: int| index < k < stored.len() ==> (#[trigger] stored[k]).operation_id@ != id
}

/// An operation is stored before another: it did not change later.
pub open spec fn by_change() -> spec_fn(RetryOperation, RetryOperation) -> bool {
    |a: RetryOperation, b: RetryOperation| b.updated_at.is_not_before(a.updated_at, 0)
}

/// The operations of entries, in their order.
pub open spec fn entry_operations(entries: Seq<(String, RetryOperation)>) -> Seq<RetryOperation> {
    entries.map_values(|entry: (String, RetryOperation)| entry.1)
}

proof fn lemma_changes_order()
    ensures
        order::is_order(by_change()),
{
    let le = by_change();
    assert forall|a: RetryOperation, b: RetryOperation| #[trigger] le(a, b) || le(b, a) by {
        time::lemma_time_order(a.updated_at, b.updated_at);
    }
    assert forall|a: RetryOperation, b: RetryOperation, c: RetryOperation| #[trigger]
        le(a, b) && #[trigger] le(b, c) implies le(a, c) by {
        time::lemma_later_reaches_earlier(c.updated_at, b.updated_at, a.updated_at, 0);
    }
}

impl RetryOperationRegistry {
    /// The operations as they are stored: in the order in which they last changed.
    pub open spec fn stored_view(self) -> Seq<RetryOperation> {
        order::arranged(entry_operations(self.operations.entries()), by_change())
    }

    /// The operations as they are stored.
    pub fn stored(&self) -> (r: Vec<RetryOperation>)
        ensures
            r@ == self.stored_view(),
    {
        let count: usize = self.operations.len();
        let ghost all = entry_operations(self.operations.entries());
        let mut r: Vec<RetryOperation> = Vec::new();
        let mut i: usize = 0;
        assert(order::arranged(all.take(0), by_change()) =~= Seq::<RetryOperation>::empty());
        while i < count
            invariant
                i <= count,
                count == all.len(),
                all == entry_operations(self.operations.entries()),
                r@ == order::arranged(all.take(i as int), by_change()),
            decreases count - i,
        {
            let operation = self.operations.value_at(i).clone();
            assert(operation == all[i as int]);
            let ghost before = r@;
            let mut at: usize = r.len();
            assert(before.take(at as int) =~= before);
            while at > 0 && !operation.updated_at.not_before(r[at - 1].updated_at, 0)
                invariant
                    at <= r@.len(),
                    r@ == before,
                    order::place(before.take(at as int), operation, by_change()) == order::place(
                        before,
                        operation,
                        by_change(),
                    ),
                decreases at,
            {
                assert(before.take(at as int).last() == before[at - 1]);
                assert(before.take(at as int).drop_last() =~= before.take(at - 1));
                at -= 1;
            }
            assert(at > 0 ==> before.take(at as int).last() == before[at - 1]);
            assert(all.take(i + 1).drop_last() =~= all.take(i as int));
            r.insert(at, operation);
            i += 1;
        }
        assert(all.take(i as int) =~= all);
        r
    }

    /// No operations yet.
    pub fn new(path: String) -> (r: Self)
        ensures
            r.path == path,
            keys_differ(r.operations@),
            r.operations@ == Map::<Seq<char>, RetryOperation>::empty(),
            r.operations.entries().len() == 0,
    {
        RetryOperationRegistry { operations: TextMap::new(), path }
    }

    /// Takes the stored operations over, if their version is accepted. What waited for a result
    /// when they were stored has an unknown one now.
    pub fn load(path: String, version: u32, stored: Vec<RetryOperation>, now: Timestamp) -> (r:
        Result<Self, UnsupportedOperations>)
        ensures
            match r {
                Ok(registry) => {
                    &&& version == OPERATIONS_VERSION
                    &&& registry.path == path
                    &&& is_loaded(stored@, now, registry)
                    &&& filed(registry.operations@)
                    &&& one_pending_per_session(registry.operations@)
                },
                Err(error) => version != OPERATIONS_VERSION && error.found == version,
            },
    {
        if version != OPERATIONS_VERSION {
            return Err(UnsupportedOperations { found: version });
        }
        let mut operations: TextMap<RetryOperation> = TextMap::new();
        let mut i: usize = 0;
        while i < stored.len()
            invariant
                i <= stored@.len(),
                forall|id: Seq<char>| #[trigger]
                    operations@.contains_key(id) ==> exists|k: int| #[trigger]
                        last_stored(stored@.take(i as int), k, id) && is_restarted(
                            stored@[k],
                            now,
                            operations@[id],
                        ),
                forall|k: int|
                    0 <= k < i ==> operations@.contains_key((#[trigger] stored@[k]).operation_id@),
            decreases stored@.len() - i,
        {
            let mut operation = stored[i].clone();
            if operation.is_open() {
                operation.status = "unknown".to_owned();
                operation.error = Some(
                    "Watchcat restarted before this retry reached a confirmed result".to_owned(),
                );
                operation.updated_at = now;
            }
            let ghost before = operations@;
            let ghost added = operation;
            let ghost here = stored@[i as int].operation_id@;
            operations.insert(operation.operation_id.clone(), operation);
            proof {
                let seen = stored@.take(i as int);
                let next = stored@.take(i + 1);
                assert forall|id: Seq<char>| #[trigger] operations@.contains_key(id) implies exists|
                    k: int,
                | #[trigger]
                    last_stored(next, k, id) && is_restarted(stored@[k], now, operations@[id]) by {
                    if id == here {
                        assert(last_stored(next, i as int, id));
                    } else {
                        assert(before.contains_key(id));
                        let k = choose|k: int| #[trigger]
                            last_stored(seen, k, id) && is_restarted(stored@[k], now, before[id]);
                        assert(last_stored(next, k, id)) by {
                            assert forall|m: int| k < m < next.len() implies (
                            #[trigger] next[m]).operation_id@ != id by {
                                if m < i {
                                    assert(seen[m].operation_id@ != id);
                                }
                            }
                        }
                    }
                }
            }
            i += 1;
        }
        assert(stored@.take(i as int) =~= stored@);
        let registry = RetryOperationRegistry { operations, path };
        proof {
            restarts_leave_nothing_pending(stored@, now, registry);
        }
        Ok(registry)
    }

    fn find(&self, request_key: &str) -> (r: Option<usize>)
        ensures
            match r {
                Some(i) => i < self.operations.entries().len() && under_key(
                    self.operations.entries()[i as int].1,
                    request_key@,
                ) && self.operations@.contains_key(self.operations.entries()[i as int].0@)
                    && self.operations@[self.operations.entries()[i as int].0@]
                    == self.operations.entries()[i as int].1,
                None => !some_operation(
                    self.operations@,
                    |operation: RetryOperation| under_key(operation, request_key@),
                ),
            },
    {
        let count: usize = self.operations.len();
        let ghost entries = self.operations.entries();
        let ghost holds = |operation: RetryOperation| under_key(operation, request_key@);
        let mut i: usize = 0;
        while i < count
            invariant
                i <= count,
                count == entries.len(),
                entries == self.operations.entries(),
                textmap::ordered(entries),
                self.operations@ == textmap::map_of(entries),
                forall|k: int| 0 <= k < i ==> !under_key((#[trigger] entries[k]).1, request_key@),
            decreases count - i,
        {
            if text::same(self.operations.value_at(i).request_key.as_str(), request_key) {
                proof {
                    textmap::lemma_key_is_unique(entries, i as int);
                }
                return Some(i);
            }
            i += 1;
        }
        proof {
            if some_operation(self.operations@, holds) {
                let id = choose|id: Seq<char>| #[trigger]
                    self.operations@.contains_key(id) && holds(self.operations@[id]);
                let k = textmap::key_index(entries, id);
                assert(entries[k].0@ == id);
                textmap::lemma_key_is_unique(entries, k);
            }
        }
        None
    }

    fn find_open(&self, session: &SessionRef) -> (r: Option<usize>)
        ensures
            match r {
                Some(i) => i < self.operations.entries().len() && open_operation(
                    self.operations.entries()[i as int].1,
                ) && on_session(self.operations.entries()[i as int].1, *session)
                    && self.operations@.contains_key(self.operations.entries()[i as int].0@)
                    && self.operations@[self.operations.entries()[i as int].0@]
                    == self.operations.entries()[i as int].1,
                None => !some_operation(
                    self.operations@,
                    |operation: RetryOperation|
                        open_operation(operation) && on_session(operation, *session),
                ),
            },
    {
        let count: usize = self.operations.len();
        let ghost entries = self.operations.entries();
        let ghost holds = |operation: RetryOperation|
            open_operation(operation) && on_session(operation, *session);
        let mut i: usize = 0;
        while i < count
            invariant
                i <= count,
                count == entries.len(),
                entries == self.operations.entries(),
                textmap::ordered(entries),
                self.operations@ == textmap::map_of(entries),
                forall|k: int|
                    0 <= k < i ==> !(open_operation((#[trigger] entries[k]).1) && on_session(
                        entries[k].1,
                        *session,
                    )),
            decreases count - i,
        {
            let operation = self.operations.value_at(i);
            if operation.is_open() && operation.is_on(session) {
                proof {
                    textmap::lemma_key_is_unique(entries, i as int);
                }
                return Some(i);
            }
            i += 1;
        }
        proof {
            if some_operation(self.operations@, holds) {
                let id = choose|id: Seq<char>| #[trigger]
                    self.operations@.contains_key(id) && holds(self.operations@[id]);
                let k = textmap::key_index(entries, id);
                assert(entries[k].0@ == id);
                textmap::lemma_key_is_unique(entries, k);
            }
        }
        None
    }

    fn count_open(&self) -> (r: usize)
        ensures
            r == pending_count(self.operations.entries()),
    {
        let count: usize = self.operations.len();
        let ghost entries = self.operations.entries();
        let ghost waits = |entry: (String, RetryOperation)| open_operation(entry.1);
        let mut open: usize = 0;
        let mut i: usize = 0;
        assert(entries.take(0).filter(waits).len() == 0) by {
            reveal(Seq::filter);
        }
        while i < count
            invariant
                i <= count,
                count == entries.len(),
                entries == self.operations.entries(),
                waits == (|entry: (String, RetryOperation)| open_operation(entry.1)),
                open == entries.take(i as int).filter(waits).len(),
                open <= i,
            decreases count - i,
        {
            proof {
                entries.take(i as int).lemma_filter_push(entries[i as int], waits);
                assert(entries.take(i + 1) =~= entries.take(i as int).push(entries[i as int]));
            }
            if self.operations.value_at(i).is_open() {
                open += 1;
            }
            i += 1;
        }
        assert(entries.take(i as int) =~= entries);
        open
    }

    /// The finished operation at `index` is the one that was finished first.
    pub open spec fn oldest_finished(self, index: int) -> bool {
        let entries = self.operations.entries();
        &&& 0 <= index < entries.len()
        &&& !open_operation(entries[index].1)
        &&& forall|k: int|
            0 <= k < entries.len() && !open_operation((#[trigger] entries[k]).1)
                ==> entries[k].1.updated_at.is_not_before(entries[index].1.updated_at, 0)
    }

    fn find_oldest_finished(&self) -> (r: Option<usize>)
        ensures
            match r {
                Some(i) => self.oldest_finished(i as int),
                None => forall|k: int|
                    0 <= k < self.operations.entries().len() ==> open_operation(
                        (#[trigger] self.operations.entries()[k]).1,
                    ),
            },
    {
        let count: usize = self.operations.len();
        let ghost entries = self.operations.entries();
        let mut oldest: Option<usize> = None;
        let mut i: usize = 0;
        while i < count
            invariant
                i <= count,
                count == entries.len(),
                entries == self.operations.entries(),
                match oldest {
                    Some(o) => o < i && !open_operation(entries[o as int].1) && forall|k: int|
                        0 <= k < i && !open_operation((#[trigger] entries[k]).1)
                            ==> entries[k].1.updated_at.is_not_before(
                            entries[o as int].1.updated_at,
                            0,
                        ),
                    None => forall|k: int|
                        0 <= k < i ==> open_operation((#[trigger] entries[k]).1),
                },
            decreases count - i,
        {
            let operation = self.operations.value_at(i);
            if !operation.is_open() {
                let older = match oldest {
                    None => true,
                    Some(o) => !operation.updated_at.not_before(
                        self.operations.value_at(o).updated_at,
                        0,
                    ),
                };
                if older {
                    oldest = Some(i);
                }
            }
            i += 1;
        }
        oldest
    }

    /// `operation` is a new operation on a session.
    pub open spec fn is_new(
        operation: RetryOperation,
        id: Seq<char>,
        session: SessionRef,
        request_key: Seq<char>,
        now: Timestamp,
    ) -> bool {
        &&& operation.operation_id@ == id
        &&& operation.provider == session.provider
        &&& operation.session_id == session.session_id
        &&& operation.request_key@ == request_key
        &&& operation.status@ == "accepted"@
        &&& operation.result is None
        &&& operation.error is None
        &&& operation.updated_at == now
    }

    /// The operations that are left when there is no room: all but one that was finished first.
    pub open spec fn makes_room(self, left: Map<Seq<char>, RetryOperation>) -> bool {
        if self.operations.entries().len() < MAX_OPERATIONS {
            left == self.operations@
        } else {
            ||| exists|i: int| #[trigger]
                self.oldest_finished(i) && left == self.operations@.remove(
                    self.operations.entries()[i].0@,
                )
            ||| left == self.operations@ && forall|k: int|
                0 <= k < self.operations.entries().len() ==> open_operation(
                    (#[trigger] self.operations.entries()[k]).1,
                )
        }
    }

    /// A new operation begins for a retry: its key says something and is new, nothing of its
    /// session waits for a result, and there is room for another that does.
    pub open spec fn begins(self, session: SessionRef, request_key: Seq<char>) -> bool {
        &&& !text::blank(request_key)
        &&& !some_operation(
            self.operations@,
            |operation: RetryOperation| under_key(operation, request_key),
        )
        &&& !some_operation(
            self.operations@,
            |operation: RetryOperation|
                open_operation(operation) && on_session(operation, session),
        )
        &&& pending_count(self.operations.entries()) < MAX_PENDING_OPERATIONS
    }

    fn settled(&self, session: &SessionRef, request_key: &str) -> (r: Option<
        Result<Accepted, AcceptError>,
    >)
        ensures
            match r {
                Some(outcome) => {
                    &&& !self.begins(*session, request_key@)
                    &&& forall|id: Seq<char>, now: Timestamp| #[trigger]
                        self.accepts(*session, request_key@, id, now, *self, outcome)
                },
                None => self.begins(*session, request_key@),
            },
    {
        if text::is_blank(request_key) {
            return Some(Err(AcceptError::KeyRequired));
        }
        match self.find(request_key) {
            Some(i) => {
                let operation = self.operations.value_at(i);
                assert(self.operations@.contains_key(self.operations.entries()[i as int].0@));
                if !operation.is_on(session) {
                    return Some(Err(AcceptError::KeyTaken));
                }
                return Some(Ok(Accepted::Existing(self.operations.key_at(i).clone())));
            },
            None => {},
        }
        match self.find_open(session) {
            Some(i) => {
                return Some(Ok(Accepted::Existing(self.operations.key_at(i).clone())));
            },
            None => {},
        }
        if self.count_open() >= MAX_PENDING_OPERATIONS {
            return Some(Err(AcceptError::TooManyPending));
        }
        None
    }

    /// Accepts a retry under an identifier. The same key gives the same operation again, and a
    /// session has at most one operation that waits for its result. What is kept under the
    /// identifier of a new operation gives way to it.
    pub fn accept_as(
        &mut self,
        session: &SessionRef,
        request_key: &str,
        operation_id: String,
        now: Timestamp,
    ) -> (r: Result<Accepted, AcceptError>)
        ensures
            old(self).accepts(*session, request_key@, operation_id@, now, *final(self), r),
            old(self).operations.entries().len() <= MAX_OPERATIONS ==> final(
                self).operations.entries().len() <= MAX_OPERATIONS,
            keys_differ(old(self).operations@) ==> keys_differ(final(self).operations@),
            one_pending_per_session(old(self).operations@) ==> one_pending_per_session(
                final(self).operations@,
            ),
    {
        match self.settled(session, request_key) {
            Some(outcome) => {
                return outcome;
            },
            None => {},
        }
        let ghost before = *self;
        let mut evicted: Option<(String, RetryOperation)> = None;
        if self.operations.len() >= MAX_OPERATIONS {
            match self.find_oldest_finished() {
                Some(i) => {
                    proof {
                        textmap::lemma_key_is_unique(self.operations.entries(), i as int);
                    }
                    let removed = self.operations.remove_at(i);
                    assert(before.oldest_finished(i as int));
                    evicted = Some(removed);
                },
                None => {
                    proof {
                        lemma_all_pending(self.operations.entries());
                    }
                },
            }
        }
        let ghost left = self.operations@;
        assert(before.makes_room(left));
        let operation = RetryOperation {
            operation_id: operation_id.clone(),
            provider: session.provider.clone(),
            session_id: session.session_id.clone(),
            request_key: request_key.to_owned(),
            status: "accepted".to_owned(),
            result: None,
            error: None,
            updated_at: now,
        };
        let restore = match self.operations.insert(operation_id.clone(), operation) {
            Some(replaced) => Some((operation_id.clone(), replaced)),
            None => None,
        };
        let undo = Undo { forget: Some(operation_id.clone()), restore, evicted };
        proof {
            assert(self.operations@ == left.insert(operation_id@, operation));
            assert(undo.applied(self.operations@) =~= before.operations@);
            assert(Self::is_new(operation, operation_id@, *session, request_key@, now));
            if keys_differ(before.operations@) {
                lemma_new_key_differs(before.operations@, left, self.operations@, operation_id@);
            }
        }
        let ghost id = operation_id@;
        let r = Ok(Accepted::Started { operation_id, undo });
        proof {
            assert(before.accepts(*session, request_key@, id, now, *self, r));
            if one_pending_per_session(before.operations@) {
                sessions_have_one_pending_operation(
                    before,
                    *session,
                    request_key@,
                    id,
                    now,
                    *self,
                    r,
                );
            }
        }
        r
    }

    /// What becomes of a retry that is to be accepted.
    pub open spec fn accepts(
        self,
        session: SessionRef,
        request_key: Seq<char>,
        operation_id: Seq<char>,
        now: Timestamp,
        after: Self,
        r: Result<Accepted, AcceptError>,
    ) -> bool {
        let known = some_operation(
            self.operations@,
            |operation: RetryOperation| under_key(operation, request_key),
        );
        let waiting = some_operation(
            self.operations@,
            |operation: RetryOperation|
                open_operation(operation) && on_session(operation, session),
        );
        let full = pending_count(self.operations.entries()) >= MAX_PENDING_OPERATIONS;
        match r {
            Err(AcceptError::KeyRequired) => text::blank(request_key) && after == self,
            Err(AcceptError::KeyTaken) => !text::blank(request_key) && after == self
                && some_operation(
                self.operations@,
                |operation: RetryOperation|
                    under_key(operation, request_key) && !on_session(operation, session),
            ),
            Err(AcceptError::TooManyPending) => !text::blank(request_key) && !known && !waiting
                && full && after == self,
            Ok(Accepted::Existing(id)) => {
                &&& !text::blank(request_key)
                &&& after == self
                &&& self.operations@.contains_key(id@)
                &&& on_session(self.operations@[id@], session)
                &&& known ==> under_key(self.operations@[id@], request_key)
                &&& !known ==> open_operation(self.operations@[id@])
            },
            Ok(Accepted::Started { operation_id: id, undo }) => {
                &&& !text::blank(request_key) && !known && !waiting && !full
                &&& id@ == operation_id
                &&& after.path == self.path
                &&& after.operations@.contains_key(operation_id)
                &&& Self::is_new(
                    after.operations@[operation_id],
                    operation_id,
                    session,
                    request_key,
                    now,
                )
                &&& exists|left: Map<Seq<char>, RetryOperation>| #[trigger]
                    self.makes_room(left) && after.operations@ == left.insert(
                        operation_id,
                        after.operations@[operation_id],
                    )
                &&& undo.applied(after.operations@) == self.operations@
            },
        }
    }

    /// Accepts a retry, a new operation under a random identifier.
    pub fn accept(&mut self, session: &SessionRef, request_key: &str, now: Timestamp) -> (r: Result<
        Accepted,
        AcceptError,
    >)
        ensures
            exists|id: Seq<char>|
                id.len() == 36 && #[trigger] old(self).accepts(
                    *session,
                    request_key@,
                    id,
                    now,
                    *final(self),
                    r,
                ),
            old(self).begins(*session, request_key@) <==> r matches Ok(Accepted::Started { .. }),
            old(self).operations.entries().len() <= MAX_OPERATIONS ==> final(
                self).operations.entries().len() <= MAX_OPERATIONS,
            keys_differ(old(self).operations@) ==> keys_differ(final(self).operations@),
            one_pending_per_session(old(self).operations@) ==> one_pending_per_session(
                final(self).operations@,
            ),
    {
        let id = ids::random_id();
        let ghost id_view = id@;
        let ghost before = *self;
        let r = self.accept_as(session, request_key, id, now);
        assert(before.accepts(*session, request_key@, id_view, now, *self, r));
        r
    }

    /// Finds the operation that was accepted under a key.
    pub fn find_request(&self, session: &SessionRef, request_key: &str) -> (r: Result<
        Option<&RetryOperation>,
        AcceptError,
    >)
        ensures
            match r {
                Ok(None) => !some_operation(
                    self.operations@,
                    |operation: RetryOperation| under_key(operation, request_key@),
                ),
                Ok(Some(found)) => under_key(*found, request_key@) && on_session(*found, *session)
                    && exists|id: Seq<char>| #[trigger]
                    self.operations@.contains_key(id) && self.operations@[id] == *found,
                Err(AcceptError::KeyTaken) => some_operation(
                    self.operations@,
                    |operation: RetryOperation|
                        under_key(operation, request_key@) && !on_session(operation, *session),
                ),
                Err(_) => false,
            },
    {
        match self.find(request_key) {
            None => Ok(None),
            Some(i) => {
                let operation = self.operations.value_at(i);
                assert(self.operations@.contains_key(self.operations.entries()[i as int].0@));
                if operation.is_on(session) {
                    Ok(Some(operation))
                } else {
                    Err(AcceptError::KeyTaken)
                }
            },
        }
    }

    /// Marks an operation as being sent.
    pub fn set_running(&mut self, operation_id: &str, now: Timestamp) -> (r: Option<Undo>)
        ensures
            final(self).path == old(self).path,
            keys_differ(old(self).operations@) ==> keys_differ(final(self).operations@),
            one_pending_per_session(old(self).operations@) && (old(
                self,
            ).operations@.contains_key(operation_id@) ==> open_operation(
                old(self).operations@[operation_id@],
            )) ==> one_pending_per_session(final(self).operations@),
            match r {
                None => !old(self).operations@.contains_key(operation_id@) && final(
                    self).operations@ == old(self).operations@,
                Some(undo) => {
                    let before = old(self).operations@[operation_id@];
                    let after = final(self).operations@[operation_id@];
                    &&& old(self).operations@.contains_key(operation_id@)
                    &&& final(self).operations@.contains_key(operation_id@)
                    &&& final(self).operations@.remove(operation_id@) == old(
                        self).operations@.remove(operation_id@)
                    &&& after.status@ == "running"@
                    &&& after == (RetryOperation { status: after.status, updated_at: now, ..before })
                    &&& undo.applied(final(self).operations@) == old(self).operations@
                },
            },
    {
        let ghost first = self.operations@;
        match self.operations.remove(operation_id) {
            None => None,
            Some(previous) => {
                let mut operation = previous.clone();
                operation.status = "running".to_owned();
                operation.updated_at = now;
                self.operations.insert(operation_id.to_owned(), operation);
                let undo = Undo {
                    forget: None,
                    restore: Some((operation_id.to_owned(), previous)),
                    evicted: None,
                };
                proof {
                    assert(self.operations@.remove(operation_id@) =~= first.remove(operation_id@));
                    assert(undo.applied(self.operations@) =~= first);
                    lemma_change_keeps_keys(first, operation_id@, self.operations@);
                    if one_pending_per_session(first) && open_operation(first[operation_id@]) {
                        changes_keep_one_pending_operation(first, operation_id@, self.operations@);
                    }
                }
                Some(undo)
            },
        }
    }

    /// Gives an operation its result: what the provider answered, that its acknowledgement was
    /// lost, or why it failed.
    pub fn finish(&mut self, operation_id: &str, outcome: RetryResult, now: Timestamp) -> (r: Option<
        Undo,
    >)
        ensures
            final(self).path == old(self).path,
            keys_differ(old(self).operations@) ==> keys_differ(final(self).operations@),
            one_pending_per_session(old(self).operations@) ==> one_pending_per_session(
                final(self).operations@,
            ),
            match r {
                None => !old(self).operations@.contains_key(operation_id@) && final(
                    self).operations@ == old(self).operations@,
                Some(undo) => {
                    let before = old(self).operations@[operation_id@];
                    let after = final(self).operations@[operation_id@];
                    &&& old(self).operations@.contains_key(operation_id@)
                    &&& final(self).operations@.contains_key(operation_id@)
                    &&& final(self).operations@.remove(operation_id@) == old(
                        self).operations@.remove(operation_id@)
                    &&& is_finished(before, outcome, now, after)
                    &&& undo.applied(final(self).operations@) == old(self).operations@
                },
            },
    {
        let ghost first = self.operations@;
        match self.operations.remove(operation_id) {
            None => None,
            Some(previous) => {
                let mut operation = previous.clone();
                match outcome {
                    RetryResult::Succeeded(result) => {
                        operation.status = "succeeded".to_owned();
                        operation.result = Some(result);
                        operation.error = None;
                    },
                    RetryResult::Unknown(reason) => {
                        operation.status = "unknown".to_owned();
                        operation.result = None;
                        operation.error = Some(reason);
                    },
                    RetryResult::Failed(reason) => {
                        operation.status = "failed".to_owned();
                        operation.result = None;
                        operation.error = Some(reason);
                    },
                }
                operation.updated_at = now;
                self.operations.insert(operation_id.to_owned(), operation);
                let undo = Undo {
                    forget: None,
                    restore: Some((operation_id.to_owned(), previous)),
                    evicted: None,
                };
                proof {
                    assert(self.operations@.remove(operation_id@) =~= first.remove(operation_id@));
                    assert(undo.applied(self.operations@) =~= first);
                    lemma_change_keeps_keys(first, operation_id@, self.operations@);
                    lemma_results_are_final();
                    if one_pending_per_session(first) {
                        changes_keep_one_pending_operation(first, operation_id@, self.operations@);
                    }
                }
                Some(undo)
            },
        }
    }

    /// Takes a change back that could not be stored.
    pub fn undo(&mut self, undo: Undo)
        ensures
            final(self).path == old(self).path,
            final(self).operations@ == undo.applied(old(self).operations@),
    {
        match undo.forget {
            Some(id) => {
                self.operations.remove(id.as_str());
            },
            None => {},
        }
        match undo.restore {
            Some((id, operation)) => {
                self.operations.insert(id, operation);
            },
            None => {},
        }
        match undo.evicted {
            Some((id, operation)) => {
                self.operations.insert(id, operation);
            },
            None => {},
        }
    }

    /// Forgets an operation, such as one whose acceptance its client was not told of.
    pub fn forget(&mut self, operation_id: &str) -> (r: Option<Undo>)
        ensures
            final(self).path == old(self).path,
            final(self).operations@ == old(self).operations@.remove(operation_id@),
            keys_differ(old(self).operations@) ==> keys_differ(final(self).operations@),
            one_pending_per_session(old(self).operations@) ==> one_pending_per_session(
                final(self).operations@,
            ),
            match r {
                None => !old(self).operations@.contains_key(operation_id@),
                Some(undo) => {
                    &&& old(self).operations@.contains_key(operation_id@)
                    &&& undo.applied(final(self).operations@) == old(self).operations@
                },
            },
    {
        let ghost first = self.operations@;
        match self.operations.remove(operation_id) {
            None => None,
            Some(previous) => {
                let undo = Undo {
                    forget: None,
                    restore: Some((operation_id.to_owned(), previous)),
                    evicted: None,
                };
                assert(undo.applied(self.operations@) =~= first);
                Some(undo)
            },
        }
    }
}

proof fn lemma_all_pending(entries: Seq<(String, RetryOperation)>)
    ensures
        (forall|k: int| 0 <= k < entries.len() ==> open_operation((#[trigger] entries[k]).1))
            ==> pending_count(entries) == entries.len(),
    decreases entries.len(),
{
    reveal(Seq::filter);
    if entries.len() > 0 {
        if forall|k: int| 0 <= k < entries.len() ==> open_operation((#[trigger] entries[k]).1) {
            let rest = entries.drop_last();
            assert forall|k: int| 0 <= k < rest.len() implies open_operation(
                (#[trigger] rest[k]).1,
            ) by {
                assert(open_operation(entries[k].1));
            }
            lemma_all_pending(rest);
            assert(open_operation(entries[entries.len() - 1].1));
        }
    }
}

/// The identifiers of the operations that wait for their result.
pub open spec fn pending_ids(operations: Map<Seq<char>, RetryOperation>) -> Set<Seq<char>> {
    Set::new(|id: Seq<char>| operations.contains_key(id) && open_operation(operations[id]))
}

proof fn lemma_pending_count(entries: Seq<(String, RetryOperation)>)
    requires
        textmap::ordered(entries),
    ensures
        pending_ids(textmap::map_of(entries)).finite(),
        pending_ids(textmap::map_of(entries)).len() == pending_count(entries),
    decreases entries.len(),
{
    reveal(Seq::filter);
    let ids = pending_ids(textmap::map_of(entries));
    if entries.len() == 0 {
        assert(ids =~= Set::empty());
    } else {
        let rest = entries.drop_last();
        let last = entries.last();
        assert forall|i: int, j: int|
            #![trigger rest[i], rest[j]]
            0 <= i < j < rest.len() implies textmap::text_less(rest[i].0@, rest[j].0@) by {
            assert(textmap::text_less(entries[i].0@, entries[j].0@));
        }
        lemma_pending_count(rest);
        assert forall|i: int| 0 <= i < rest.len() implies textmap::text_less(
            #[trigger] rest[i].0@,
            last.0@,
        ) by {
            assert(textmap::text_less(entries[i].0@, entries[entries.len() - 1].0@));
        }
        textmap::lemma_insert_entry(rest, rest.len() as int, last);
        assert(rest.insert(rest.len() as int, last) =~= entries);
        let before = pending_ids(textmap::map_of(rest));
        assert(!textmap::map_of(rest).contains_key(last.0@)) by {
            if textmap::map_of(rest).contains_key(last.0@) {
                let i = textmap::key_index(rest, last.0@);
                assert(rest[i].0@ == last.0@);
                textmap::lemma_text_order_is_total(last.0@, last.0@);
            }
        }
        if open_operation(last.1) {
            assert(ids =~= before.insert(last.0@));
        } else {
            assert(ids =~= before);
        }
    }
}

/// A new operation leaves at most so many that wait for their result as there may be.
pub proof fn pending_operations_are_bounded(
    before: RetryOperationRegistry,
    session: SessionRef,
    request_key: Seq<char>,
    id: Seq<char>,
    now: Timestamp,
    after: RetryOperationRegistry,
    r: Result<Accepted, AcceptError>,
)
    requires
        textmap::ordered(before.operations.entries()),
        before.operations@ == textmap::map_of(before.operations.entries()),
        pending_count(before.operations.entries()) <= MAX_PENDING_OPERATIONS,
        before.accepts(session, request_key, id, now, after, r),
    ensures
        pending_ids(after.operations@).finite(),
        pending_ids(after.operations@).len() <= MAX_PENDING_OPERATIONS,
{
    lemma_pending_count(before.operations.entries());
    let ids = pending_ids(before.operations@);
    match r {
        Ok(Accepted::Started { .. }) => {
            let left = room_for(before, id, after);
            lemma_room_keeps_pending(before, left);
            assert(pending_ids(after.operations@) =~= pending_ids(left).insert(id));
        },
        _ => {},
    }
}

/// What was left of the operations when a new one was put among them.
spec fn room_for(
    before: RetryOperationRegistry,
    id: Seq<char>,
    after: RetryOperationRegistry,
) -> Map<Seq<char>, RetryOperation> {
    choose|left: Map<Seq<char>, RetryOperation>| #[trigger]
        before.makes_room(left) && after.operations@ == left.insert(id, after.operations@[id])
}

proof fn lemma_room_keeps_pending(
    before: RetryOperationRegistry,
    left: Map<Seq<char>, RetryOperation>,
)
    requires
        textmap::ordered(before.operations.entries()),
        before.operations@ == textmap::map_of(before.operations.entries()),
        before.makes_room(left),
    ensures
        pending_ids(left) == pending_ids(before.operations@),
        left.submap_of(before.operations@),
{
    if before.operations.entries().len() >= MAX_OPERATIONS {
        if exists|i: int| #[trigger]
            before.oldest_finished(i) && left == before.operations@.remove(
                before.operations.entries()[i].0@,
            ) {
            let i = choose|i: int| #[trigger]
                before.oldest_finished(i) && left == before.operations@.remove(
                    before.operations.entries()[i].0@,
                );
            textmap::lemma_key_is_unique(before.operations.entries(), i);
            assert(pending_ids(left) =~= pending_ids(before.operations@));
        }
    }
}

/// A retry is started once: asked for again under its key, it gives the operation that it has.
pub proof fn a_request_starts_one_operation(
    before: RetryOperationRegistry,
    session: SessionRef,
    request_key: Seq<char>,
    id: Seq<char>,
    now: Timestamp,
    after: RetryOperationRegistry,
    first: Result<Accepted, AcceptError>,
    later_id: Seq<char>,
    later: Timestamp,
    finally: RetryOperationRegistry,
    again: Result<Accepted, AcceptError>,
)
    requires
        textmap::ordered(before.operations.entries()),
        before.operations@ == textmap::map_of(before.operations.entries()),
        before.accepts(session, request_key, id, now, after, first),
        first matches Ok(Accepted::Started { .. }),
        after.accepts(session, request_key, later_id, later, finally, again),
    ensures
        again matches Ok(Accepted::Existing(found)) && found@ == id,
        finally == after,
{
    let left = room_for(before, id, after);
    lemma_room_keeps_pending(before, left);
    let holds = |operation: RetryOperation| under_key(operation, request_key);
    assert(holds(after.operations@[id]));
    assert(some_operation(after.operations@, holds));
    assert forall|other: Seq<char>| #[trigger]
        after.operations@.contains_key(other) && under_key(
            after.operations@[other],
            request_key,
        ) implies other == id by {
        if other != id {
            assert(left.contains_key(other));
            assert(before.operations@.contains_key(other));
            assert(holds(before.operations@[other]));
        }
    }
    let elsewhere = |operation: RetryOperation|
        under_key(operation, request_key) && !on_session(operation, session);
    if some_operation(after.operations@, elsewhere) {
        let other = choose|other: Seq<char>| #[trigger]
            after.operations@.contains_key(other) && elsewhere(after.operations@[other]);
        assert(under_key(after.operations@[other], request_key));
    }
}

/// No two operations were asked for under one key.
pub open spec fn keys_differ(operations: Map<Seq<char>, RetryOperation>) -> bool {
    forall|a: Seq<char>, b: Seq<char>|
        #![trigger operations.contains_key(a), operations.contains_key(b)]
        operations.contains_key(a) && operations.contains_key(b) && operations[a].request_key@
            == operations[b].request_key@ ==> a == b
}

proof fn lemma_new_key_differs(
    before: Map<Seq<char>, RetryOperation>,
    left: Map<Seq<char>, RetryOperation>,
    after: Map<Seq<char>, RetryOperation>,
    id: Seq<char>,
)
    requires
        keys_differ(before),
        left.submap_of(before),
        after == left.insert(id, after[id]),
        !some_operation(
            before,
            |operation: RetryOperation| under_key(operation, after[id].request_key@),
        ),
    ensures
        keys_differ(after),
{
    let holds = |operation: RetryOperation| under_key(operation, after[id].request_key@);
    assert forall|other: Seq<char>| #[trigger] after.contains_key(other) && other != id implies
        before.contains_key(other) && before[other] == after[other] && after[other].request_key@
        != after[id].request_key@ by {
        assert(left.contains_key(other));
        assert(left[other] == after[other]);
        assert(before.contains_key(other));
        if holds(before[other]) {
            assert(some_operation(before, holds));
        }
    }
}

/// `after` holds what `before` holds, but that one operation has gone on: it was asked for as
/// before.
pub open spec fn goes_on(
    before: Map<Seq<char>, RetryOperation>,
    id: Seq<char>,
    after: Map<Seq<char>, RetryOperation>,
) -> bool {
    &&& before.contains_key(id)
    &&& after.contains_key(id)
    &&& after.remove(id) == before.remove(id)
    &&& same_request(before[id], after[id])
}

/// Two operations were asked for alike.
pub open spec fn same_request(a: RetryOperation, b: RetryOperation) -> bool {
    &&& a.operation_id@ == b.operation_id@
    &&& a.provider@ == b.provider@
    &&& a.session_id@ == b.session_id@
    &&& a.request_key@ == b.request_key@
}

proof fn lemma_change_keeps_others(
    before: Map<Seq<char>, RetryOperation>,
    id: Seq<char>,
    after: Map<Seq<char>, RetryOperation>,
)
    requires
        goes_on(before, id, after),
    ensures
        forall|other: Seq<char>| #[trigger]
            after.contains_key(other) <==> before.contains_key(other),
        forall|other: Seq<char>| #[trigger]
            after.contains_key(other) ==> same_request(before[other], after[other]),
{
    assert forall|other: Seq<char>| #[trigger]
        after.contains_key(other) <==> before.contains_key(other) by {
        assert(other != id ==> after.remove(id).contains_key(other) == after.contains_key(other));
        assert(other != id ==> before.remove(id).contains_key(other) == before.contains_key(
            other,
        ));
    }
    assert forall|other: Seq<char>| #[trigger] after.contains_key(other) implies same_request(
        before[other],
        after[other],
    ) by {
        if other != id {
            assert(after.remove(id).contains_key(other));
            assert(after.remove(id)[other] == before.remove(id)[other]);
        }
    }
}

proof fn lemma_change_keeps_keys(
    before: Map<Seq<char>, RetryOperation>,
    id: Seq<char>,
    after: Map<Seq<char>, RetryOperation>,
)
    requires
        goes_on(before, id, after),
    ensures
        keys_differ(before) ==> keys_differ(after),
{
    lemma_change_keeps_others(before, id, after);
    if keys_differ(before) {
        assert forall|a: Seq<char>, b: Seq<char>|
            #![trigger after.contains_key(a), after.contains_key(b)]
            after.contains_key(a) && after.contains_key(b) && after[a].request_key@
                == after[b].request_key@ implies a == b by {
            assert(before.contains_key(a) && before.contains_key(b));
        }
    }
}

/// The entries of a registry are in the order of their keys, as every map of texts has them.
pub open spec fn in_order(registry: RetryOperationRegistry) -> bool {
    &&& textmap::ordered(registry.operations.entries())
    &&& registry.operations@ == textmap::map_of(registry.operations.entries())
}

/// A registry is what another has become: a retry was accepted, under an identifier that was free, or
/// not, an operation went on, one was forgotten, or the service was started again with what it had stored.
pub open spec fn becomes(before: RetryOperationRegistry, after: RetryOperationRegistry) -> bool {
    ||| exists|
        session: SessionRef,
        request_key: Seq<char>,
        id: Seq<char>,
        now: Timestamp,
        r: Result<Accepted, AcceptError>,
    | #[trigger]
        before.accepts(session, request_key, id, now, after, r) && (r matches Ok(
            Accepted::Started { .. },
        ) ==> !before.operations@.contains_key(id))
    ||| exists|id: Seq<char>| #[trigger] goes_on(before.operations@, id, after.operations@)
    ||| exists|id: Seq<char>| after.operations@ == #[trigger] before.operations@.remove(id)
    ||| exists|now: Timestamp| #[trigger] is_loaded(before.stored_view(), now, after)
}

/// Whatever a registry becomes, no two of its operations were asked for under one key, each is kept
/// under its identifier, and what is still registered was asked for as before.
pub proof fn request_keys_stay_unique(
    before: RetryOperationRegistry,
    after: RetryOperationRegistry,
)
    requires
        in_order(before),
        filed(before.operations@),
        keys_differ(before.operations@),
        becomes(before, after),
    ensures
        filed(after.operations@),
        keys_differ(after.operations@),
        forall|id: Seq<char>| #[trigger]
            after.operations@.contains_key(id) && before.operations@.contains_key(id)
                ==> same_request(before.operations@[id], after.operations@[id]),
{
    if exists|id: Seq<char>| #[trigger] goes_on(before.operations@, id, after.operations@) {
        let id = choose|id: Seq<char>| #[trigger]
            goes_on(before.operations@, id, after.operations@);
        lemma_change_keeps_others(before.operations@, id, after.operations@);
        lemma_change_keeps_keys(before.operations@, id, after.operations@);
    } else if exists|id: Seq<char>| after.operations@ == #[trigger] before.operations@.remove(id) {
        let id = choose|id: Seq<char>|
            after.operations@ == #[trigger] before.operations@.remove(id);
        assert forall|other: Seq<char>| #[trigger] after.operations@.contains_key(other) implies
            before.operations@.contains_key(other) && before.operations@[other]
            == after.operations@[other] by {}
    } else if exists|now: Timestamp| #[trigger] is_loaded(before.stored_view(), now, after) {
        let now = choose|now: Timestamp| #[trigger] is_loaded(before.stored_view(), now, after);
        assert forall|id: Seq<char>| #[trigger] after.operations@.contains_key(id) implies
            before.operations@.contains_key(id) && same_request(
            before.operations@[id],
            after.operations@[id],
        ) by {
            restarts_keep_operations(before, now, after, id);
        }
    } else {
        let (session, request_key, id, now, r) = choose|
            session: SessionRef,
            request_key: Seq<char>,
            id: Seq<char>,
            now: Timestamp,
            r: Result<Accepted, AcceptError>,
        | #[trigger]
            before.accepts(session, request_key, id, now, after, r) && (r matches Ok(
                Accepted::Started { .. },
            ) ==> !before.operations@.contains_key(id));
        operations_stay_filed(before, session, request_key, id, now, after, r);
        if r matches Ok(Accepted::Started { .. }) {
            let left = room_for(before, id, after);
            lemma_room_keeps_pending(before, left);
            lemma_new_key_differs(before.operations@, left, after.operations@, id);
            assert forall|other: Seq<char>| #[trigger]
                after.operations@.contains_key(other) && before.operations@.contains_key(
                    other,
                ) implies same_request(before.operations@[other], after.operations@[other]) by {
                assert(left.contains_key(other));
                assert(left[other] == after.operations@[other]);
            }
        }
    }
}

/// A retry that is to be accepted is an operation that there is.
pub open spec fn gives(r: Result<Accepted, AcceptError>, id: Seq<char>) -> bool {
    match r {
        Ok(Accepted::Existing(found)) => found@ == id,
        _ => false,
    }
}

/// While an operation is registered, its request asked for again gives it, whatever its status is;
/// its key is refused to every other session; and while it waits for its result, another key of its
/// session gives it too. None of that changes anything.
pub proof fn requests_give_their_operation(
    registry: RetryOperationRegistry,
    id: Seq<char>,
    session: SessionRef,
    request_key: Seq<char>,
    new_id: Seq<char>,
    now: Timestamp,
    after: RetryOperationRegistry,
    r: Result<Accepted, AcceptError>,
)
    requires
        keys_differ(registry.operations@),
        registry.operations@.contains_key(id),
        !text::blank(request_key),
        registry.accepts(session, request_key, new_id, now, after, r),
    ensures
        ({
            let operation = registry.operations@[id];
            &&& under_key(operation, request_key) && on_session(operation, session) ==> gives(r, id)
                && after == registry
            &&& under_key(operation, request_key) && !on_session(operation, session) ==> r == Err::<
                Accepted,
                AcceptError,
            >(AcceptError::KeyTaken) && after == registry
            &&& one_pending_per_session(registry.operations@) && open_operation(operation)
                && on_session(operation, session) && !some_operation(
                registry.operations@,
                |other: RetryOperation| under_key(other, request_key),
            ) ==> gives(r, id) && after == registry
        }),
        r is Err ==> after == registry,
{
    let operations = registry.operations@;
    let operation = operations[id];
    let holds = |other: RetryOperation| under_key(other, request_key);
    let waits = |other: RetryOperation| open_operation(other) && on_session(other, session);
    let elsewhere = |other: RetryOperation|
        under_key(other, request_key) && !on_session(other, session);
    if under_key(operation, request_key) {
        assert(holds(operations[id]));
        assert(some_operation(operations, holds));
        if some_operation(operations, elsewhere) {
            let other = choose|other: Seq<char>| #[trigger]
                operations.contains_key(other) && elsewhere(operations[other]);
            assert(other == id);
        }
    }
    if open_operation(operation) && on_session(operation, session) {
        assert(waits(operations[id]));
        assert(some_operation(operations, waits));
    }
    if some_operation(operations, elsewhere) {
        let other = choose|other: Seq<char>| #[trigger]
            operations.contains_key(other) && elsewhere(operations[other]);
        assert(holds(operations[other]));
    }
}

proof fn lemma_states_keep_request(
    states: Seq<RetryOperationRegistry>,
    id: Seq<char>,
)
    requires
        states.len() > 0,
        forall|i: int| 0 <= i < states.len() ==> in_order(#[trigger] states[i]),
        forall|i: int|
            0 <= i < states.len() ==> (#[trigger] states[i]).operations@.contains_key(id),
        forall|i: int|
            0 <= i < states.len() - 1 ==> becomes(#[trigger] states[i], states[i + 1]),
        filed(states[0].operations@),
        keys_differ(states[0].operations@),
    ensures
        filed(states.last().operations@),
        keys_differ(states.last().operations@),
        same_request(states[0].operations@[id], states.last().operations@[id]),
    decreases states.len(),
{
    if states.len() > 1 {
        let rest = states.drop_last();
        assert forall|i: int| 0 <= i < rest.len() - 1 implies becomes(
            #[trigger] rest[i],
            rest[i + 1],
        ) by {
            assert(becomes(states[i], states[i + 1]));
        }
        lemma_states_keep_request(rest, id);
        let last = states.len() - 1;
        assert(becomes(states[last - 1], states[last]));
        assert(rest.last() == states[last - 1]);
        request_keys_stay_unique(states[last - 1], states[last]);
    }
}

/// A repeated request gives the same operation in every later state: whatever was accepted, sent,
/// finished or loaded since, as long as the operation stayed registered.
pub proof fn repeated_requests_give_the_same_operation(
    states: Seq<RetryOperationRegistry>,
    id: Seq<char>,
    session: SessionRef,
    request_key: Seq<char>,
    new_id: Seq<char>,
    now: Timestamp,
    after: RetryOperationRegistry,
    r: Result<Accepted, AcceptError>,
)
    requires
        states.len() > 0,
        forall|i: int| 0 <= i < states.len() ==> in_order(#[trigger] states[i]),
        forall|i: int|
            0 <= i < states.len() ==> (#[trigger] states[i]).operations@.contains_key(id),
        forall|i: int|
            0 <= i < states.len() - 1 ==> becomes(#[trigger] states[i], states[i + 1]),
        filed(states[0].operations@),
        keys_differ(states[0].operations@),
        under_key(states[0].operations@[id], request_key),
        on_session(states[0].operations@[id], session),
        !text::blank(request_key),
        states.last().accepts(session, request_key, new_id, now, after, r),
    ensures
        gives(r, id),
        after == states.last(),
{
    lemma_states_keep_request(states, id);
    requests_give_their_operation(
        states.last(),
        id,
        session,
        request_key,
        new_id,
        now,
        after,
        r,
    );
}

/// No two operations on one session wait for their result.
pub open spec fn one_pending_per_session(operations: Map<Seq<char>, RetryOperation>) -> bool {
    forall|a: Seq<char>, b: Seq<char>|
        #![trigger operations.contains_key(a), operations.contains_key(b)]
        operations.contains_key(a) && operations.contains_key(b) && open_operation(operations[a])
            && open_operation(operations[b]) && operations[a].provider@ == operations[b].provider@
            && operations[a].session_id@ == operations[b].session_id@ ==> a == b
}

/// Where no session has two operations that wait for their result, accepting another keeps it so.
pub proof fn sessions_have_one_pending_operation(
    before: RetryOperationRegistry,
    session: SessionRef,
    request_key: Seq<char>,
    id: Seq<char>,
    now: Timestamp,
    after: RetryOperationRegistry,
    r: Result<Accepted, AcceptError>,
)
    requires
        textmap::ordered(before.operations.entries()),
        before.operations@ == textmap::map_of(before.operations.entries()),
        one_pending_per_session(before.operations@),
        before.accepts(session, request_key, id, now, after, r),
    ensures
        one_pending_per_session(after.operations@),
{
    match r {
        Ok(Accepted::Started { .. }) => {
            let left = room_for(before, id, after);
            lemma_room_keeps_pending(before, left);
            let waits = |operation: RetryOperation|
                open_operation(operation) && on_session(operation, session);
            assert(!some_operation(before.operations@, waits));
            assert forall|a: Seq<char>, b: Seq<char>|
                #![trigger after.operations@.contains_key(a), after.operations@.contains_key(b)]
                after.operations@.contains_key(a) && after.operations@.contains_key(b)
                    && open_operation(after.operations@[a]) && open_operation(after.operations@[b])
                    && after.operations@[a].provider@ == after.operations@[b].provider@
                    && after.operations@[a].session_id@
                    == after.operations@[b].session_id@ implies a == b by {
                if a != id && b != id {
                    assert(left.contains_key(a) && left.contains_key(b));
                    assert(before.operations@.contains_key(a) && before.operations@.contains_key(b));
                } else if a != id {
                    assert(left.contains_key(a));
                    assert(before.operations@.contains_key(a));
                    assert(waits(before.operations@[a]));
                } else if b != id {
                    assert(left.contains_key(b));
                    assert(before.operations@.contains_key(b));
                    assert(waits(before.operations@[b]));
                }
            }
        },
        _ => {},
    }
}

/// A status that says how a retry went does not say that it waits for its result.
proof fn lemma_results_are_final()
    ensures
        forall|operation: RetryOperation|
            operation.status@ == "succeeded"@ || operation.status@ == "failed"@
                || operation.status@ == "unknown"@ ==> !#[trigger] open_operation(operation),
{
    reveal_strlit("accepted");
    reveal_strlit("running");
    reveal_strlit("succeeded");
    reveal_strlit("failed");
    reveal_strlit("unknown");
    assert("running"@[0] == 'r' && "unknown"@[0] == 'u');
    assert("running"@.len() == 7 && "unknown"@.len() == 7 && "accepted"@.len() == 8
        && "succeeded"@.len() == 9 && "failed"@.len() == 6);
}

proof fn lemma_old_requests_keep_one_pending(
    before: Map<Seq<char>, RetryOperation>,
    after: Map<Seq<char>, RetryOperation>,
)
    requires
        one_pending_per_session(before),
        forall|id: Seq<char>| #[trigger]
            after.contains_key(id) ==> before.contains_key(id) && same_request(before[id], after[id])
                && (open_operation(after[id]) ==> open_operation(before[id])),
    ensures
        one_pending_per_session(after),
{
    assert forall|a: Seq<char>, b: Seq<char>|
        #![trigger after.contains_key(a), after.contains_key(b)]
        after.contains_key(a) && after.contains_key(b) && open_operation(after[a])
            && open_operation(after[b]) && after[a].provider@ == after[b].provider@
            && after[a].session_id@ == after[b].session_id@ implies a == b by {
        assert(before.contains_key(a) && before.contains_key(b));
    }
}

/// Where no session has two operations that wait for their result, an operation that goes on keeps
/// it so: one that waited goes on waiting, or any gets its result.
pub proof fn changes_keep_one_pending_operation(
    before: Map<Seq<char>, RetryOperation>,
    id: Seq<char>,
    after: Map<Seq<char>, RetryOperation>,
)
    requires
        one_pending_per_session(before),
        goes_on(before, id, after),
        open_operation(after[id]) ==> open_operation(before[id]),
    ensures
        one_pending_per_session(after),
{
    lemma_change_keeps_others(before, id, after);
    assert forall|other: Seq<char>| #[trigger] after.contains_key(other) implies
        before.contains_key(other) && same_request(before[other], after[other]) && (open_operation(
        after[other],
    ) ==> open_operation(before[other])) by {
        if other != id {
            assert(after.remove(id).contains_key(other));
            assert(after.remove(id)[other] == before.remove(id)[other]);
        }
    }
    lemma_old_requests_keep_one_pending(before, after);
}

/// After a restart no operation waits for its result, whatever was stored.
pub proof fn restarts_leave_nothing_pending(
    stored: Seq<RetryOperation>,
    now: Timestamp,
    after: RetryOperationRegistry,
)
    requires
        is_loaded(stored, now, after),
    ensures
        forall|id: Seq<char>| #[trigger]
            after.operations@.contains_key(id) ==> !open_operation(after.operations@[id]),
        one_pending_per_session(after.operations@),
{
    lemma_results_are_final();
    assert forall|id: Seq<char>| #[trigger] after.operations@.contains_key(id) implies
        !open_operation(after.operations@[id]) by {
        let i = choose|i: int| #[trigger]
            last_stored(stored, i, id) && is_restarted(stored[i], now, after.operations@[id]);
        assert(is_restarted(stored[i], now, after.operations@[id]));
    }
}

/// Whatever a registry becomes, no session has two operations that wait for their result, unless one
/// that had its result was made to wait again.
pub proof fn sessions_keep_one_pending_operation(
    before: RetryOperationRegistry,
    after: RetryOperationRegistry,
)
    requires
        in_order(before),
        one_pending_per_session(before.operations@),
        becomes(before, after),
        forall|id: Seq<char>| #[trigger]
            after.operations@.contains_key(id) && before.operations@.contains_key(id)
                && open_operation(after.operations@[id]) ==> open_operation(before.operations@[id]),
    ensures
        one_pending_per_session(after.operations@),
{
    if exists|id: Seq<char>| #[trigger] goes_on(before.operations@, id, after.operations@) {
        let id = choose|id: Seq<char>| #[trigger]
            goes_on(before.operations@, id, after.operations@);
        changes_keep_one_pending_operation(before.operations@, id, after.operations@);
    } else if exists|id: Seq<char>| after.operations@ == #[trigger] before.operations@.remove(id) {
        let id = choose|id: Seq<char>|
            after.operations@ == #[trigger] before.operations@.remove(id);
        lemma_old_requests_keep_one_pending(before.operations@, after.operations@);
    } else if exists|now: Timestamp| #[trigger] is_loaded(before.stored_view(), now, after) {
        let now = choose|now: Timestamp| #[trigger] is_loaded(before.stored_view(), now, after);
        restarts_leave_nothing_pending(before.stored_view(), now, after);
    } else {
        let (session, request_key, id, now, r) = choose|
            session: SessionRef,
            request_key: Seq<char>,
            id: Seq<char>,
            now: Timestamp,
            r: Result<Accepted, AcceptError>,
        | #[trigger]
            before.accepts(session, request_key, id, now, after, r) && (r matches Ok(
                Accepted::Started { .. },
            ) ==> !before.operations@.contains_key(id));
        sessions_have_one_pending_operation(before, session, request_key, id, now, after, r);
    }
}

/// How a retry went.
#[derive(Debug)]
pub enum RetryResult {
    Succeeded(Json),
    /// The provider may have started the turn, but its acknowledgement was lost.
    Unknown(String),
    Failed(String),
}

/// How a retry went that was not begun, since the service is ending: it is cancelled.
pub fn cancelled(shutting_down: bool) -> (r: Option<RetryResult>)
    ensures
        match r {
            Some(RetryResult::Failed(message)) => shutting_down && message@
                == "manual retry was cancelled because Watchcat is shutting down"@,
            Some(_) => false,
            None => !shutting_down,
        },
{
    if shutting_down {
        Some(
            RetryResult::Failed(
                "manual retry was cancelled because Watchcat is shutting down".to_owned(),
            ),
        )
    } else {
        None
    }
}

/// `after` is the operation with its result.
pub open spec fn is_finished(
    before: RetryOperation,
    outcome: RetryResult,
    now: Timestamp,
    after: RetryOperation,
) -> bool {
    &&& after == (RetryOperation {
        status: after.status,
        result: after.result,
        error: after.error,
        updated_at: now,
        ..before
    })
    &&& match outcome {
        RetryResult::Succeeded(result) => after.status@ == "succeeded"@ && after.result == Some(
            result,
        ) && after.error is None,
        RetryResult::Unknown(reason) => after.status@ == "unknown"@ && after.result is None
            && after.error == Some(reason),
        RetryResult::Failed(reason) => after.status@ == "failed"@ && after.result is None
            && after.error == Some(reason),
    }
}

/// Each operation is kept under its identifier.
pub open spec fn filed(operations: Map<Seq<char>, RetryOperation>) -> bool {
    forall|id: Seq<char>| #[trigger]
        operations.contains_key(id) ==> operations[id].operation_id@ == id
}

/// `r` is what is taken over from stored operations, as `load` gives it.
pub open spec fn is_loaded(
    stored: Seq<RetryOperation>,
    now: Timestamp,
    loaded: RetryOperationRegistry,
) -> bool {
    &&& forall|id: Seq<char>| #[trigger]
        loaded.operations@.contains_key(id) ==> exists|i: int| #[trigger]
            last_stored(stored, i, id) && is_restarted(stored[i], now, loaded.operations@[id])
    &&& forall|i: int|
        0 <= i < stored.len() ==> loaded.operations@.contains_key(
            (#[trigger] stored[i]).operation_id@,
        )
}

/// A restart keeps every operation under its identifier and adds none; what waited for a result
/// has an unknown one, and all else is as it was.
pub proof fn restarts_keep_operations(
    before: RetryOperationRegistry,
    now: Timestamp,
    after: RetryOperationRegistry,
    id: Seq<char>,
)
    requires
        textmap::ordered(before.operations.entries()),
        before.operations@ == textmap::map_of(before.operations.entries()),
        filed(before.operations@),
        is_loaded(before.stored_view(), now, after),
    ensures
        after.operations@.contains_key(id) <==> before.operations@.contains_key(id),
        before.operations@.contains_key(id) ==> is_restarted(
            before.operations@[id],
            now,
            after.operations@[id],
        ),
{
    broadcast use vstd::seq_lib::group_to_multiset_ensures;

    let entries = before.operations.entries();
    let all = entry_operations(entries);
    let stored = before.stored_view();
    lemma_changes_order();
    order::arranging_keeps_values(all, by_change());
    if before.operations@.contains_key(id) {
        let k = textmap::key_index(entries, id);
        assert(entries[k].0@ == id);
        textmap::lemma_key_is_unique(entries, k);
        assert(all[k] == entries[k].1);
        assert(all.contains(all[k]));
        assert(stored.to_multiset().count(all[k]) > 0);
        assert(stored.contains(all[k]));
        let i = choose|i: int| 0 <= i < stored.len() && stored[i] == all[k];
        assert(stored[i].operation_id@ == id);
        assert(after.operations@.contains_key(stored[i].operation_id@));
    }
    if after.operations@.contains_key(id) {
        let i = choose|i: int| #[trigger]
            last_stored(stored, i, id) && is_restarted(stored[i], now, after.operations@[id]);
        assert(stored.contains(stored[i]));
        assert(all.to_multiset().count(stored[i]) > 0);
        assert(all.contains(stored[i]));
        let k = choose|k: int| 0 <= k < all.len() && all[k] == stored[i];
        assert(entries[k].1 == stored[i]);
        textmap::lemma_key_is_unique(entries, k);
        assert(before.operations@.contains_key(entries[k].0@));
        assert(entries[k].0@ == id);
    }
}

/// Accepting a retry keeps each operation under its identifier.
pub proof fn operations_stay_filed(
    before: RetryOperationRegistry,
    session: SessionRef,
    request_key: Seq<char>,
    id: Seq<char>,
    now: Timestamp,
    after: RetryOperationRegistry,
    r: Result<Accepted, AcceptError>,
)
    requires
        filed(before.operations@),
        before.accepts(session, request_key, id, now, after, r),
    ensures
        filed(after.operations@),
{
    assert forall|other: Seq<char>| #[trigger] after.operations@.contains_key(other) implies
        after.operations@[other].operation_id@ == other by {
        if r matches Ok(Accepted::Started { .. }) {
            let left = room_for(before, id, after);
            if other != id {
                assert(left.contains_key(other));
                assert(left[other] == after.operations@[other]);
                assert(before.operations@.contains_key(other));
                assert(before.operations@[other] == left[other]);
            }
        }
    }
}

} // verus!
