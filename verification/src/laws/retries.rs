//! What becomes of retries that users ask for.

use vstd::prelude::*;
use vstd::string::*;

use crate::daemon::retries;
use crate::daemon::retries::{
    AcceptError, Accepted, RetryOperation, RetryOperationRegistry, RetryResult, Undo,
    UnsupportedOperations,
};
use crate::json::Json;
use crate::protocol::SessionRef;
use crate::text;
use crate::textmap;
use crate::textmap::TextMap;
use crate::time::Timestamp;

verus! {

/// An operation waits for its result.
pub open spec fn waiting(operation: RetryOperation) -> bool {
    operation.status@ == "accepted"@ || operation.status@ == "running"@
}

/// An operation is on a session.
pub open spec fn is_on(operation: RetryOperation, session: SessionRef) -> bool {
    operation.provider@ == session.provider@ && operation.session_id@ == session.session_id@
}

/// Some operation that is kept was asked for under this key.
pub open spec fn key_is_known(registry: RetryOperationRegistry, key: Seq<char>) -> bool {
    exists|id: Seq<char>| #[trigger]
        registry.operations@.contains_key(id) && registry.operations@[id].request_key@ == key
}

/// Some operation that is kept is on the session and waits for its result.
pub open spec fn session_waits(registry: RetryOperationRegistry, session: SessionRef) -> bool {
    exists|id: Seq<char>| #[trigger]
        registry.operations@.contains_key(id) && waiting(registry.operations@[id]) && is_on(
            registry.operations@[id],
            session,
        )
}

/// How many operations wait for their result.
pub open spec fn waiting_count(registry: RetryOperationRegistry) -> nat {
    registry.operations.entries().filter(
        |entry: (String, RetryOperation)| waiting(entry.1),
    ).len()
}

proof fn lemma_vocabulary(registry: RetryOperationRegistry, session: SessionRef, key: Seq<char>)
    ensures
        key_is_known(registry, key) == retries::some_operation(
            registry.operations@,
            |operation: RetryOperation| retries::under_key(operation, key),
        ),
        session_waits(registry, session) == retries::some_operation(
            registry.operations@,
            |operation: RetryOperation|
                retries::open_operation(operation) && retries::on_session(operation, session),
        ),
        waiting_count(registry) == retries::pending_count(registry.operations.entries()),
{
    let mine = |entry: (String, RetryOperation)| waiting(entry.1);
    let its = |entry: (String, RetryOperation)| retries::open_operation(entry.1);
    assert(mine =~= its);
    let known = |operation: RetryOperation| retries::under_key(operation, key);
    let open = |operation: RetryOperation|
        retries::open_operation(operation) && retries::on_session(operation, session);
    if key_is_known(registry, key) {
        let id = choose|id: Seq<char>| #[trigger]
            registry.operations@.contains_key(id) && registry.operations@[id].request_key@ == key;
        assert(known(registry.operations@[id]));
    }
    if retries::some_operation(registry.operations@, known) {
        let id = choose|id: Seq<char>| #[trigger]
            registry.operations@.contains_key(id) && known(registry.operations@[id]);
        assert(registry.operations@[id].request_key@ == key);
    }
    if session_waits(registry, session) {
        let id = choose|id: Seq<char>| #[trigger]
            registry.operations@.contains_key(id) && waiting(registry.operations@[id]) && is_on(
                registry.operations@[id],
                session,
            );
        assert(open(registry.operations@[id]));
    }
    if retries::some_operation(registry.operations@, open) {
        let id = choose|id: Seq<char>| #[trigger]
            registry.operations@.contains_key(id) && open(registry.operations@[id]);
        assert(waiting(registry.operations@[id]) && is_on(registry.operations@[id], session));
    }
}

/// A retry begins an operation exactly where its key says something and is not known, nothing of its
/// session waits, and fewer than thirty-two operations wait. Otherwise nothing changes: what was
/// asked for before is handed out again, and what cannot be is refused with why.
pub proof fn retries_begin_once(
    registry: &mut RetryOperationRegistry,
    session: &SessionRef,
    request_key: &str,
    operation_id: String,
    now: Timestamp,
    r: Result<Accepted, AcceptError>,
)
    requires
        call_ensures(
            RetryOperationRegistry::accept_as,
            (registry, session, request_key, operation_id, now),
            r,
        ),
    ensures
        ({
            let before = *old(registry);
            let blank = forall|i: int|
                0 <= i < request_key@.len() ==> text::white(#[trigger] request_key@[i]);
            let known = key_is_known(before, request_key@);
            let waits = session_waits(before, *session);
            let begins = !blank && !known && !waits && waiting_count(before) < 32;
            &&& begins <==> r is Ok && r->Ok_0 is Started
            &&& !begins ==> *final(registry) == before
            &&& blank <==> r is Err && r->Err_0 is KeyRequired
            &&& r is Err && r->Err_0 is TooManyPending <==> !blank && !known && !waits
                && waiting_count(before) >= 32
            &&& r is Err && r->Err_0 is KeyTaken ==> known
            &&& r is Ok && r->Ok_0 is Existing ==> {
                let id = r->Ok_0->Existing_0@;
                &&& before.operations@.contains_key(id)
                &&& is_on(before.operations@[id], *session)
                &&& before.operations@[id].request_key@ == request_key@ || waiting(
                    before.operations@[id],
                )
                &&& known ==> before.operations@[id].request_key@ == request_key@
            }
        }),
{
    lemma_vocabulary(*old(registry), *session, request_key@);
    let known = |operation: RetryOperation| retries::under_key(operation, request_key@);
    let elsewhere = |operation: RetryOperation|
        retries::under_key(operation, request_key@) && !retries::on_session(operation, *session);
    let before = *old(registry);
    if retries::some_operation(before.operations@, elsewhere) {
        let id = choose|id: Seq<char>| #[trigger]
            before.operations@.contains_key(id) && elsewhere(before.operations@[id]);
        assert(known(before.operations@[id]));
    }
}

/// An operation that begins is accepted, on its session, under its key and now. It can be taken
/// back. What waited for its result before is kept as it is, and so is all else while fewer than 256
/// operations are kept.
pub proof fn begun_operations_are_accepted(
    registry: &mut RetryOperationRegistry,
    session: &SessionRef,
    request_key: &str,
    operation_id: String,
    now: Timestamp,
    count: usize,
    r: Result<Accepted, AcceptError>,
    other: Seq<char>,
)
    requires
        call_ensures(
            RetryOperationRegistry::accept_as,
            (registry, session, request_key, operation_id, now),
            r,
        ),
        call_ensures(TextMap::<RetryOperation>::len, (&old(registry).operations,), count),
        r is Ok && r->Ok_0 is Started,
    ensures
        ({
            let before = old(registry).operations@;
            let after = final(registry).operations@;
            &&& after.contains_key(operation_id@)
            &&& after[operation_id@].operation_id@ == operation_id@
            &&& is_on(after[operation_id@], *session)
            &&& after[operation_id@].request_key@ == request_key@
            &&& after[operation_id@].status@ == "accepted"@
            &&& after[operation_id@].result is None && after[operation_id@].error is None
            &&& after[operation_id@].updated_at == now
            &&& other != operation_id@ && before.contains_key(other) && (waiting(before[other])
                || count < 256) ==> after.contains_key(other) && after[other] == before[other]
            &&& other != operation_id@ && after.contains_key(other) ==> before.contains_key(other)
                && after[other] == before[other]
            &&& other != operation_id@ && before.contains_key(other) && !after.contains_key(other)
                ==> forall|kept: Seq<char>| #[trigger]
                before.contains_key(kept) && !waiting(before[kept])
                    ==> before[kept].updated_at.is_not_before(before[other].updated_at, 0)
        }),
{
    let before = *old(registry);
    let after = *final(registry);
    let entries = before.operations.entries();
    let left = choose|left: Map<Seq<char>, RetryOperation>| #[trigger]
        before.makes_room(left) && after.operations@ == left.insert(
            operation_id@,
            after.operations@[operation_id@],
        );
    if entries.len() >= 256 && left != before.operations@ {
        let i = choose|i: int| #[trigger]
            before.oldest_finished(i) && left == before.operations@.remove(entries[i].0@);
        textmap::lemma_key_is_unique(entries, i);
        if other != operation_id@ && before.operations@.contains_key(other)
            && !after.operations@.contains_key(other) {
            assert(other == entries[i].0@);
            assert forall|kept: Seq<char>| #[trigger]
                before.operations@.contains_key(kept) && !waiting(
                    before.operations@[kept],
                ) implies before.operations@[kept].updated_at.is_not_before(
                before.operations@[other].updated_at,
                0,
            ) by {
                let k = textmap::key_index(entries, kept);
                assert(entries[k].0@ == kept);
                textmap::lemma_key_is_unique(entries, k);
            }
        }
    }
}

/// An operation that starts is running from then on and can be taken back; nothing else changes.
pub proof fn started_operations_run(
    registry: &mut RetryOperationRegistry,
    operation_id: &str,
    now: Timestamp,
    r: Option<Undo>,
    other: Seq<char>,
)
    requires
        call_ensures(RetryOperationRegistry::set_running, (registry, operation_id, now), r),
    ensures
        ({
            let before = old(registry).operations@;
            let after = final(registry).operations@;
            let id = operation_id@;
            &&& r is Some <==> before.contains_key(id)
            &&& other != id ==> after.contains_key(other) == before.contains_key(other)
            &&& other != id && before.contains_key(other) ==> after[other] == before[other]
            &&& before.contains_key(id) ==> {
                &&& after.contains_key(id)
                &&& after[id].status@ == "running"@
                &&& after[id].updated_at == now
                &&& after[id].operation_id@ == before[id].operation_id@
                &&& after[id].provider@ == before[id].provider@
                &&& after[id].session_id@ == before[id].session_id@
                &&& after[id].request_key@ == before[id].request_key@
                &&& after[id].result == before[id].result
                &&& after[id].error == before[id].error
            }
        }),
{
    let before = old(registry).operations@;
    let after = final(registry).operations@;
    let id = operation_id@;
    if before.contains_key(id) && other != id {
        assert(after.remove(id).contains_key(other) == after.contains_key(other));
        assert(before.remove(id).contains_key(other) == before.contains_key(other));
        if before.contains_key(other) {
            assert(after.remove(id)[other] == after[other]);
            assert(before.remove(id)[other] == before[other]);
        }
    }
}

/// An operation that ends waits no longer: one that went well holds its result, one that failed or
/// whose outcome is not known the reason. Nothing else changes.
pub proof fn finished_operations_tell_their_outcome(
    registry: &mut RetryOperationRegistry,
    operation_id: &str,
    outcome: RetryResult,
    now: Timestamp,
    r: Option<Undo>,
    other: Seq<char>,
)
    requires
        call_ensures(RetryOperationRegistry::finish, (registry, operation_id, outcome, now), r),
    ensures
        ({
            let before = old(registry).operations@;
            let after = final(registry).operations@;
            let id = operation_id@;
            &&& r is Some <==> before.contains_key(id)
            &&& other != id ==> after.contains_key(other) == before.contains_key(other)
            &&& other != id && before.contains_key(other) ==> after[other] == before[other]
            &&& before.contains_key(id) ==> {
                &&& after.contains_key(id)
                &&& !waiting(after[id])
                &&& after[id].updated_at == now
                &&& after[id].operation_id@ == before[id].operation_id@
                &&& after[id].request_key@ == before[id].request_key@
                &&& match outcome {
                    RetryResult::Succeeded(result) => after[id].status@ == "succeeded"@
                        && after[id].result == Some(result) && after[id].error is None,
                    RetryResult::Failed(reason) => after[id].status@ == "failed"@
                        && after[id].result is None && after[id].error == Some(reason),
                    RetryResult::Unknown(reason) => after[id].status@ == "unknown"@
                        && after[id].result is None && after[id].error == Some(reason),
                }
            }
        }),
{
    let before = old(registry).operations@;
    let after = final(registry).operations@;
    let id = operation_id@;
    reveal_strlit("accepted");
    reveal_strlit("running");
    reveal_strlit("succeeded");
    reveal_strlit("failed");
    reveal_strlit("unknown");
    assert("accepted"@.len() == 8 && "running"@.len() == 7 && "succeeded"@.len() == 9
        && "failed"@.len() == 6 && "unknown"@.len() == 7);
    assert("running"@[0] == 'r' && "unknown"@[0] == 'u');
    if before.contains_key(id) && other != id {
        assert(after.remove(id).contains_key(other) == after.contains_key(other));
        assert(before.remove(id).contains_key(other) == before.contains_key(other));
        if before.contains_key(other) {
            assert(after.remove(id)[other] == after[other]);
            assert(before.remove(id)[other] == before[other]);
        }
    }
}

/// What is taken back is as it was: an operation that was begun, started, ended or forgotten.
pub proof fn taking_back_restores(
    registry: &mut RetryOperationRegistry,
    operation_id: &str,
    now: Timestamp,
    undo: Undo,
    later: &mut RetryOperationRegistry,
)
    requires
        call_ensures(
            RetryOperationRegistry::set_running,
            (registry, operation_id, now),
            Some(undo),
        ),
        old(later).operations@ == final(registry).operations@,
        call_ensures(RetryOperationRegistry::undo, (later, undo), ()),
    ensures
        final(later).operations@ == old(registry).operations@,
{
}

/// An end that is taken back leaves the operation waiting as before.
pub proof fn taking_an_end_back_restores(
    registry: &mut RetryOperationRegistry,
    operation_id: &str,
    outcome: RetryResult,
    now: Timestamp,
    undo: Undo,
    later: &mut RetryOperationRegistry,
)
    requires
        call_ensures(
            RetryOperationRegistry::finish,
            (registry, operation_id, outcome, now),
            Some(undo),
        ),
        old(later).operations@ == final(registry).operations@,
        call_ensures(RetryOperationRegistry::undo, (later, undo), ()),
    ensures
        final(later).operations@ == old(registry).operations@,
{
}

/// A beginning that is taken back leaves no operation behind.
pub proof fn taking_a_beginning_back_restores(
    registry: &mut RetryOperationRegistry,
    session: &SessionRef,
    request_key: &str,
    operation_id: String,
    now: Timestamp,
    r: Result<Accepted, AcceptError>,
    undo: Undo,
    later: &mut RetryOperationRegistry,
)
    requires
        call_ensures(
            RetryOperationRegistry::accept_as,
            (registry, session, request_key, operation_id, now),
            r,
        ),
        r is Ok && r->Ok_0 is Started,
        undo == r->Ok_0->undo,
        old(later).operations@ == final(registry).operations@,
        call_ensures(RetryOperationRegistry::undo, (later, undo), ()),
    ensures
        final(later).operations@ == old(registry).operations@,
{
}

/// A forgotten operation is kept no longer; every other is.
pub proof fn forgotten_operations_are_gone(
    registry: &mut RetryOperationRegistry,
    operation_id: &str,
    r: Option<Undo>,
    other: Seq<char>,
)
    requires
        call_ensures(RetryOperationRegistry::forget, (registry, operation_id), r),
    ensures
        r is Some <==> old(registry).operations@.contains_key(operation_id@),
        !final(registry).operations@.contains_key(operation_id@),
        other != operation_id@ ==> final(registry).operations@.contains_key(other)
            == old(registry).operations@.contains_key(other),
        other != operation_id@ && old(registry).operations@.contains_key(other)
            ==> final(registry).operations@[other] == old(registry).operations@[other],
{
}

/// A service that starts again keeps what it had stored, of the first version alone. What waited
/// for its result then has an unknown one, and says so; all else is as it was.
pub proof fn restarts_leave_nothing_waiting(
    path: String,
    version: u32,
    stored: Vec<RetryOperation>,
    now: Timestamp,
    r: Result<RetryOperationRegistry, UnsupportedOperations>,
    i: int,
)
    requires
        call_ensures(RetryOperationRegistry::load, (path, version, stored, now), r),
        0 <= i < stored@.len(),
        forall|k: int|
            0 <= k < stored@.len() && k != i ==> (#[trigger] stored@[k]).operation_id@
                != stored@[i].operation_id@,
    ensures
        r is Ok <==> version == 1,
        match r {
            Err(_) => true,
            Ok(registry) => {
                let id = stored@[i].operation_id@;
                let kept = registry.operations@[id];
                &&& registry.operations@.contains_key(id)
                &&& waiting(stored@[i]) ==> kept.status@ == "unknown"@ && kept.updated_at == now
                    && kept.error is Some && kept.error->0@
                    == "Watchcat restarted before this retry reached a confirmed result"@
                &&& waiting(stored@[i]) ==> kept.request_key@ == stored@[i].request_key@
                    && kept.provider@ == stored@[i].provider@ && kept.session_id@
                    == stored@[i].session_id@
                &&& !waiting(stored@[i]) ==> kept == stored@[i]
                &&& !waiting(kept)
            },
        },
{
    reveal_strlit("accepted");
    reveal_strlit("running");
    reveal_strlit("unknown");
    assert("accepted"@.len() == 8 && "running"@.len() == 7 && "unknown"@.len() == 7);
    assert("running"@[0] == 'r' && "unknown"@[0] == 'u');
    match r {
        Ok(registry) => {
            let id = stored@[i].operation_id@;
            assert(registry.operations@.contains_key(id));
            let k = choose|k: int| #[trigger]
                retries::last_stored(stored@, k, id) && retries::is_restarted(
                    stored@[k],
                    now,
                    registry.operations@[id],
                );
            assert(k == i);
        },
        Err(_) => {},
    }
}

/// An operation is found by its key, by those who ask for its session.
pub proof fn operations_are_found_by_their_key(
    registry: &RetryOperationRegistry,
    session: &SessionRef,
    request_key: &str,
    r: Result<Option<&RetryOperation>, AcceptError>,
)
    requires
        call_ensures(RetryOperationRegistry::find_request, (registry, session, request_key), r),
    ensures
        r is Ok && r->Ok_0 is None <==> !key_is_known(*registry, request_key@),
        r is Ok && r->Ok_0 is Some ==> r->Ok_0->0.request_key@ == request_key@ && is_on(
            *r->Ok_0->0,
            *session,
        ),
        r is Err ==> r->Err_0 is KeyTaken,
{
    lemma_vocabulary(*registry, *session, request_key@);
    let known = |operation: RetryOperation| retries::under_key(operation, request_key@);
    let elsewhere = |operation: RetryOperation|
        retries::under_key(operation, request_key@) && !retries::on_session(operation, *session);
    let operations = registry.operations@;
    if retries::some_operation(operations, elsewhere) {
        let id = choose|id: Seq<char>| #[trigger]
            operations.contains_key(id) && elsewhere(operations[id]);
        assert(known(operations[id]));
    }
    match r {
        Ok(Some(found)) => {
            let id = choose|id: Seq<char>| #[trigger]
                operations.contains_key(id) && operations[id] == *found;
            assert(known(operations[id]));
        },
        _ => {},
    }
}

/// A retry that has not begun is cancelled where the service ends, and only there.
pub proof fn ending_services_cancel_retries(shutting_down: bool, r: Option<RetryResult>)
    requires
        call_ensures(retries::cancelled, (shutting_down,), r),
    ensures
        r is Some <==> shutting_down,
        r is Some ==> r->0 is Failed && r->0->Failed_0@
            == "manual retry was cancelled because Watchcat is shutting down"@,
{
}

/// Clients see an operation without the key under which it was asked for.
pub proof fn keys_are_not_shown(operation: &RetryOperation, r: Option<Json>)
    requires
        call_ensures(RetryOperation::value, (operation,), r),
        r is Some,
    ensures
        r->0 is Object,
        !r->0->Object_0@.contains_key("request_key"@),
        r->0->Object_0@.contains_key("operation_id"@) && r->0->Object_0@["operation_id"@]
            == Json::Text(operation.operation_id),
        r->0->Object_0@.contains_key("provider"@) && r->0->Object_0@["provider"@] == Json::Text(
            operation.provider,
        ),
        r->0->Object_0@.contains_key("session_id"@) && r->0->Object_0@["session_id"@]
            == Json::Text(operation.session_id),
        r->0->Object_0@.contains_key("status"@) && r->0->Object_0@["status"@] == Json::Text(
            operation.status,
        ),
        r->0->Object_0@.contains_key("result"@) && (operation.result is Some
            ==> r->0->Object_0@["result"@] == operation.result->0),
        r->0->Object_0@.contains_key("error"@) && (operation.error is Some
            ==> r->0->Object_0@["error"@] == Json::Text(operation.error->0)),
{
    reveal_strlit("request_key");
    reveal_strlit("operation_id");
    reveal_strlit("provider");
    reveal_strlit("session_id");
    reveal_strlit("status");
    reveal_strlit("result");
    reveal_strlit("error");
    reveal_strlit("updated_at");
    assert("request_key"@.len() == 11 && "operation_id"@.len() == 12 && "provider"@.len() == 8
        && "session_id"@.len() == 10 && "status"@.len() == 6 && "result"@.len() == 6
        && "error"@.len() == 5 && "updated_at"@.len() == 10);
}

} // verus!
