//! What is sent to providers and clients, and what is made of their answers.

use vstd::prelude::*;
use vstd::string::*;

use crate::client;
use crate::client::{ClientError, FrameRead, FrameTooLarge};
use crate::json;
use crate::json::Json;
use crate::laws::failures;
use crate::laws::providers;
use crate::protocol::{RpcRequest, RpcResponse};
use crate::text;
use crate::transport;
use crate::transport::codex_desktop;
use crate::transport::codex_desktop::{
    DesktopCall, DesktopError, DesktopGoal, DesktopMessageDelivery, DesktopRequest, DesktopStep,
    EndpointFacts, EndpointRefusal, InvalidFrameSize, Routed, Stage, TurnStateConflict,
};
use crate::transport::jsonrpc;
use crate::transport::jsonrpc::{Incoming, JsonRpcClient, JsonRpcError, RequestEnd};
use crate::transport::TransportError;

verus! {

/// What an answer says where nothing runs in a thread.
pub open spec fn says_inactive(s: Seq<char>) -> bool {
    ||| text::contains_text(s, "no active turn"@)
    ||| text::contains_text(s, "without an active turn"@)
    ||| text::contains_text(s, "not being streamed"@)
    ||| text::contains_text(s, "not currently active"@)
    ||| text::contains_text(s, "is not active"@)
    ||| text::contains_text(s, "active turn already ended"@)
}

/// What an answer says where something runs in a thread.
pub open spec fn says_active(s: Seq<char>) -> bool {
    ||| text::contains_text(s, "active turn"@)
    ||| text::contains_text(s, "already active"@)
    ||| text::contains_text(s, "already in progress"@)
}

proof fn lemma_phrases(s: Seq<char>)
    ensures
        codex_desktop::holds_phrase(s, codex_desktop::inactive_phrases()) <==> says_inactive(s),
        codex_desktop::holds_phrase(s, codex_desktop::active_phrases()) <==> says_active(s),
{
    let idle = codex_desktop::inactive_phrases();
    assert(idle.len() == 6 && idle[0]@ == "no active turn"@ && idle[1]@
        == "without an active turn"@ && idle[2]@ == "not being streamed"@ && idle[3]@
        == "not currently active"@ && idle[4]@ == "is not active"@ && idle[5]@
        == "active turn already ended"@);
    if codex_desktop::holds_phrase(s, idle) {
        let i = choose|i: int|
            0 <= i < idle.len() && text::contains_text(s, (#[trigger] idle[i])@);
        assert(i == 0 || i == 1 || i == 2 || i == 3 || i == 4 || i == 5);
    }
    let busy = codex_desktop::active_phrases();
    assert(busy.len() == 3 && busy[0]@ == "active turn"@ && busy[1]@ == "already active"@
        && busy[2]@ == "already in progress"@);
    if codex_desktop::holds_phrase(s, busy) {
        let i = choose|i: int|
            0 <= i < busy.len() && text::contains_text(s, (#[trigger] busy[i])@);
        assert(i == 0 || i == 1 || i == 2);
    }
}

/// An answer tells of the thread what it says, without regard to capitals; nothing else does.
pub proof fn refusals_tell_whether_a_turn_runs(
    error: &DesktopError,
    message: &str,
    lowered: String,
    r: Option<TurnStateConflict>,
)
    requires
        call_ensures(codex_desktop::turn_state_conflict, (error,), r),
        *error is Remote ==> message@ == (*error)->Remote_0.message@,
        call_ensures(text::to_ascii_lowercase, (message,), lowered),
    ensures
        !(*error is Remote) ==> r is None,
        *error is Remote && says_inactive(lowered@) ==> r == Some(TurnStateConflict::Inactive),
        *error is Remote && !says_inactive(lowered@) && says_active(lowered@) ==> r == Some(
            TurnStateConflict::Active,
        ),
        *error is Remote && !says_inactive(lowered@) && !says_active(lowered@) ==> r is None,
{
    lemma_phrases(lowered@);
}

/// What is to be done with a session begins with asking who owns it.
pub proof fn owners_are_asked_for_first(
    goal: DesktopGoal,
    message_id: String,
    r: (DesktopCall, DesktopRequest),
)
    requires
        call_ensures(DesktopCall::begin_as, (goal, message_id), r),
    ensures
        r.0.goal == goal,
        r.0.stage == Stage::Discovering,
        r.1 is DiscoverOwner,
        match goal {
            DesktopGoal::Message { session_id, .. } => r.1->DiscoverOwner_session_id@
                == session_id@,
            DesktopGoal::Recovery { session_id, .. } => r.1->DiscoverOwner_session_id@
                == session_id@,
            DesktopGoal::Interrupt { session_id, .. } => r.1->DiscoverOwner_session_id@
                == session_id@,
        },
{
}

/// Once the owner is known, a message is given to the turn that runs, a recovery starts a turn, and
/// an interruption stops the turn that it names: each goes to the owner, with its own text.
pub proof fn owners_are_sent_what_is_to_be_done(
    call: &mut DesktopCall,
    response: Json,
    now: u64,
    owner: Seq<char>,
    r: DesktopStep,
)
    requires
        call_ensures(DesktopCall::answer, (call, Ok(response), now), r),
        old(call).stage is Discovering,
        response is Object,
        response->Object_0@.contains_key("result"@),
        failures::tells(response->Object_0@["result"@], "handledByClientId"@, owner),
    ensures
        r is Send,
        match old(call).goal {
            DesktopGoal::Message { session_id, message, cwd } => {
                &&& r->Send_0 is Steer
                &&& r->Send_0->Steer_owner@ == owner
                &&& r->Send_0->Steer_session_id@ == session_id@
                &&& r->Send_0->Steer_message@ == message@
                &&& r->Send_0->Steer_message_id@ == old(call).message_id@
            },
            DesktopGoal::Recovery { session_id, message } => {
                &&& r->Send_0 is StartTurn
                &&& r->Send_0->StartTurn_owner@ == owner
                &&& r->Send_0->StartTurn_session_id@ == session_id@
                &&& r->Send_0->StartTurn_message@ == message@
                &&& r->Send_0->StartTurn_message_id@ == old(call).message_id@
            },
            DesktopGoal::Interrupt { session_id, turn_id } => {
                &&& r->Send_0 is Interrupt
                &&& r->Send_0->Interrupt_owner@ == owner
                &&& r->Send_0->Interrupt_session_id@ == session_id@
                &&& r->Send_0->Interrupt_turn_id@ == turn_id@
            },
        },
{
    assert(codex_desktop::owner_in(response) == Some(owner));
}

/// A message that no running turn takes starts one, once; a turn that runs after all is given the
/// message, once. A recovery never disturbs a running turn. Every other refusal is final.
pub proof fn messages_find_their_turn(
    call: &mut DesktopCall,
    error: DesktopError,
    conflict: Option<TurnStateConflict>,
    now: u64,
    r: DesktopStep,
)
    requires
        call_ensures(DesktopCall::answer, (call, Err(error), now), r),
        call_ensures(codex_desktop::turn_state_conflict, (&error,), conflict),
    ensures
        ({
            let stage = old(call).stage;
            let starts = stage == (Stage::Steering { again: false }) && conflict == Some(
                TurnStateConflict::Inactive,
            );
            let steers = stage == Stage::Starting && old(call).goal is Message && conflict == Some(
                TurnStateConflict::Active,
            );
            &&& starts ==> r is Send && r->Send_0 is StartTurn && final(call).stage
                == Stage::Starting
            &&& steers ==> r is Send && r->Send_0 is Steer && final(call).stage
                == (Stage::Steering { again: true })
            &&& r is Send ==> starts || steers
            &&& old(call).goal is Recovery && stage == Stage::Starting ==> r == DesktopStep::Failed(
                error,
            )
            &&& stage is Discovering && error is Remote && error->Remote_0.message@
                == "no-client-found"@ ==> r is NoOwner
            &&& r is NoOwner ==> stage is Discovering && error is Remote
            &&& !(r is Send) && !(r is NoOwner) ==> r == DesktopStep::Failed(error)
        }),
        final(call).message_id == old(call).message_id,
        final(call).goal == old(call).goal,
{
}

/// What was taken is told with the turn that took it, and how.
pub proof fn taken_messages_are_told(
    call: &mut DesktopCall,
    response: Json,
    now: u64,
    r: DesktopStep,
)
    requires
        call_ensures(DesktopCall::answer, (call, Ok(response), now), r),
        !(old(call).stage is Discovering),
    ensures
        r is Delivered || r is Interrupted || r is Failed,
        r is Delivered ==> (r->Delivered_0.delivery == DesktopMessageDelivery::Started <==> old(call).stage == Stage::Starting) && (r->Delivered_0.delivery == DesktopMessageDelivery::Steered
            <==> old(call).stage is Steering),
        r is Interrupted ==> old(call).stage == Stage::Interrupting,
        old(call).stage == Stage::Interrupting ==> !(r is Delivered),
        r is Failed ==> r->Failed_0 is MissingSteeredTurn || r->Failed_0 is MissingStartedTurn
            || r->Failed_0 is MissingInterruptedTurn,
{
}

/// A request that may have had an effect and whose answer was lost leaves open whether it had; any
/// other failure is one.
pub proof fn lost_answers_leave_effects_open(
    request: &DesktopRequest,
    error: &DesktopError,
    r: TransportError,
    unknown: bool,
)
    requires
        call_ensures(codex_desktop::delivery_error, (request, error), r),
        call_ensures(transport::acknowledgement_is_unknown, (&r,), unknown),
    ensures
        unknown <==> (*request is Steer || *request is StartTurn || *request is Interrupt) && (
        *error is TimedOut || *error is Stream || *error is MissingSteeredTurn || *error
            is MissingStartedTurn || *error is MissingInterruptedTurn),
        !unknown ==> r is Failed,
{
}

/// A request to the app server ends with its answer or its error. One that was not sent failed; one
/// whose answer was lost failed too, unless it may have had an effect: then that is left open.
pub proof fn requests_end_with_their_answer(
    method: &str,
    end: RequestEnd,
    may_have_effect: bool,
    r: (Result<Json, TransportError>, bool),
)
    requires
        call_ensures(jsonrpc::end_request, (method, end, may_have_effect), r),
    ensures
        match end {
            RequestEnd::Answered(Ok(value)) => r.0 == Ok::<Json, TransportError>(value) && !r.1,
            RequestEnd::Answered(Err(error)) => r.0 == Err::<Json, TransportError>(
                TransportError::Rpc(error),
            ) && !r.1,
            RequestEnd::NotSent(message) => r.0 == Err::<Json, TransportError>(
                TransportError::Failed(message),
            ) && r.1,
            RequestEnd::Ended(_) => !r.1 && r.0 is Err && (may_have_effect <==> r.0->Err_0
                is AcknowledgementUnknown) && (!may_have_effect <==> r.0->Err_0 is Failed),
            RequestEnd::Closed => r.1 && r.0 is Err && (may_have_effect <==> r.0->Err_0
                is AcknowledgementUnknown) && (!may_have_effect <==> r.0->Err_0 is Failed),
            RequestEnd::TimedOut => r.1 && r.0 is Err && (may_have_effect <==> r.0->Err_0
                is AcknowledgementUnknown) && (!may_have_effect <==> r.0->Err_0 is Failed),
        },
{
}

/// Requests are numbered one after the other, and each waits for the answer with its number.
pub proof fn requests_are_numbered(
    client: &mut JsonRpcClient,
    method: &str,
    params: Json,
    r: (u64, Json),
)
    requires
        call_ensures(JsonRpcClient::request, (client, method, params), r),
    ensures
        r.0 == old(client).next_id,
        old(client).next_id < u64::MAX ==> final(client).next_id == old(client).next_id + 1,
        final(client).waiting().contains(r.0),
        forall|id: u64| id != r.0 ==> (#[trigger] final(client).waiting().contains(id) == old(client).waiting().contains(id)),
        providers::says(r.1, "method"@, method@),
        r.1->Object_0@.contains_key("params"@) && r.1->Object_0@["params"@] == params,
        r.1->Object_0@.contains_key("id"@) && r.1->Object_0@["id"@] == Json::Number(
            json::Number::Unsigned(r.0),
        ),
{
    reveal_strlit("method");
    reveal_strlit("id");
    reveal_strlit("params");
    assert("method"@.len() == 6 && "id"@.len() == 2 && "params"@.len() == 6);
    assert("method"@[0] == 'm' && "params"@[0] == 'p');
    let members = map![
        "method"@ => json::Plain::Text(method@),
        "id"@ => json::Plain::Unsigned(r.0),
        "params"@ => json::Plain::Given(params),
    ];
    assert(json::shows(r.1, json::Plain::Object(members)));
    assert(members.contains_key("method"@) && members.contains_key("id"@)
        && members.contains_key("params"@));
    assert(json::shows(r.1->Object_0@["method"@], members["method"@]));
    assert(json::shows(r.1->Object_0@["id"@], members["id"@]));
    assert(json::shows(r.1->Object_0@["params"@], members["params"@]));
}

/// An answer ends the waiting of the request with its number and no other; a message of its own is
/// passed on; what nothing waits for is ignored.
pub proof fn answers_find_their_request(
    client: &mut JsonRpcClient,
    line: &str,
    message: Json,
    r: Incoming,
)
    requires
        call_ensures(JsonRpcClient::receive, (client, line), r),
        json::json_in(vstd::utf8::encode_utf8(line@)) == Some(message),
    ensures
        failures::tells_something(message, "method"@) <==> r is Notification,
        r is Notification ==> r->Notification_0 == message && final(client).waiting() == old(client).waiting(),
        r is Answer ==> {
            &&& old(client).waiting().contains(r->id)
            &&& final(client).waiting() == old(client).waiting().remove(r->id)
            &&& message is Object && message->Object_0@.contains_key("id"@)
            &&& message->Object_0@["id"@] == Json::Number(json::Number::Unsigned(r->id))
            &&& message->Object_0@.contains_key("error"@) <==> r->result is Err
            &&& !message->Object_0@.contains_key("error"@) && message->Object_0@.contains_key(
                "result"@,
            ) ==> r->result == Ok::<Json, JsonRpcError>(message->Object_0@["result"@])
        },
        !failures::tells_something(message, "method"@) && message is Object
            && message->Object_0@.contains_key("id"@) && message->Object_0@["id"@] is Number
            && message->Object_0@["id"@]->Number_0 is Unsigned && old(client).waiting().contains(
            message->Object_0@["id"@]->Number_0->Unsigned_0,
        ) ==> r is Answer,
{
}

/// An error says what the other side says, or that it is not known.
pub proof fn errors_are_read(value: &Json, r: JsonRpcError, s: Seq<char>)
    requires
        call_ensures(jsonrpc::parse_rpc_error, (value,), r),
    ensures
        failures::tells(*value, "message"@, s) ==> r.message@ == s,
        !failures::tells_something(*value, "message"@) ==> r.message@ == "unknown error"@,
        *value is Object && !(*value)->Object_0@.contains_key("code"@) ==> r.code == -32000,
        *value is Object && (*value)->Object_0@.contains_key("data"@) ==> r.data == Some(
            (*value)->Object_0@["data"@],
        ),
{
}

/// An executable is looked for in each directory of the search path and then where executables are
/// commonly installed; one with a directory of its own only there.
pub proof fn executables_are_looked_for(
    name: &str,
    has_directory: bool,
    search_path: &Vec<String>,
    home: Option<&str>,
    r: Vec<String>,
    i: int,
)
    requires
        call_ensures(
            jsonrpc::executable_candidates,
            (name, has_directory, search_path, home),
            r,
        ),
        name@.len() > 0,
        name@[0] != '/',
    ensures
        has_directory ==> r@.len() == 1 && r@[0]@ == name@,
        !has_directory ==> r@.len() == search_path@.len() + (if home is Some {
            4int
        } else {
            2
        }),
        !has_directory && 0 <= i < search_path@.len() && search_path@[i]@.len() > 0
            && search_path@[i]@.last() != '/' ==> r@[i]@ == search_path@[i]@ + "/"@ + name@,
        !has_directory ==> r@[search_path@.len() as int]@ == "/opt/homebrew/bin"@ + "/"@ + name@
            && r@[search_path@.len() as int + 1]@ == "/usr/local/bin"@ + "/"@ + name@,
{
    let all = jsonrpc::candidates(
        name@,
        has_directory,
        text::views(search_path@),
        match home {
            Some(home) => Some(home@),
            None => None,
        },
    );
    assert(text::views(r@) == all);
    assert(text::views(r@).len() == r@.len());
    assert(text::views(search_path@).len() == search_path@.len());
    assert forall|k: int| 0 <= k < r@.len() implies #[trigger] text::views(r@)[k] == r@[k]@ by {}
    reveal_strlit("/opt/homebrew/bin");
    reveal_strlit("/usr/local/bin");
    if has_directory {
        assert(all[0] == name@);
        assert(text::views(r@)[0] == r@[0]@);
    } else {
        let n = search_path@.len() as int;
        assert(text::views(r@)[n] == r@[n]@);
        assert(text::views(r@)[n + 1] == r@[n + 1]@);
        if 0 <= i < n {
            assert(text::views(search_path@)[i] == search_path@[i]@);
            assert(text::views(r@)[i] == r@[i]@);
        }
    }
}

/// A thread goes to the client that it is for, by the method and the version that do what is asked.
pub proof fn desktop_requests_call_their_method(
    request: &DesktopRequest,
    method: &'static str,
    version: u64,
    target: Option<&str>,
)
    requires
        call_ensures(DesktopRequest::method, (request,), method),
        call_ensures(DesktopRequest::version, (request,), version),
        call_ensures(DesktopRequest::target, (request,), target),
    ensures
        *request is Initialize ==> method@ == "initialize"@ && version == 0 && target is None,
        *request is DiscoverOwner ==> method@ == "thread-owner-discovery"@ && version == 1
            && target is None,
        *request is Steer ==> method@ == "thread-follower-steer-turn"@ && version == 1
            && target is Some && target->0@ == (*request)->Steer_owner@,
        *request is StartTurn ==> method@ == "thread-follower-start-turn"@ && version == 1
            && target is Some && target->0@ == (*request)->StartTurn_owner@,
        *request is Interrupt ==> method@ == "thread-follower-interrupt-turn"@ && version == 4
            && target is Some && target->0@ == (*request)->Interrupt_owner@,
{
}

/// A message is one input of text.
pub proof fn messages_are_one_input(message: &str, r: Json)
    requires
        call_ensures(codex_desktop::text_input, (message,), r),
    ensures
        r is Array,
        r->Array_0@.len() == 1,
        providers::says(r->Array_0@[0], "type"@, "text"@),
        providers::says(r->Array_0@[0], "text"@, message@),
{
    reveal_strlit("type");
    reveal_strlit("text");
    reveal_strlit("text_elements");
    assert("type"@.len() == 4 && "text"@.len() == 4 && "text_elements"@.len() == 13);
    assert("type"@[1] == 'y' && "text"@[1] == 'e');
    let inner = map![
        "type"@ => json::Plain::Text("text"@),
        "text"@ => json::Plain::Text(message@),
        "text_elements"@ => json::Plain::Array(Seq::empty()),
    ];
    let items = seq![json::Plain::Object(inner)];
    assert(json::shows(r, json::Plain::Array(items)));
    assert(json::shows(r.elements()->0[0], items[0]));
    let input = r->Array_0@[0];
    assert(json::shows(input, json::Plain::Object(inner)));
    assert(inner.contains_key("type"@) && inner.contains_key("text"@));
    assert(json::shows(input->Object_0@["type"@], json::Plain::Text("text"@)));
    assert(json::shows(input->Object_0@["text"@], json::Plain::Text(message@)));
}

/// A request names the thread that it is about, and one that stops a turn that turn.
pub proof fn desktop_requests_name_their_thread(request: &DesktopRequest, r: Json)
    requires
        call_ensures(DesktopRequest::params, (request,), r),
    ensures
        match *request {
            DesktopRequest::Initialize => providers::says(r, "clientType"@, "watchcat"@),
            DesktopRequest::DiscoverOwner { session_id } => providers::says(
                r,
                "conversationId"@,
                session_id@,
            ) && providers::says(r, "hostId"@, "local"@),
            DesktopRequest::Interrupt { session_id, turn_id, .. } => providers::says(
                r,
                "conversationId"@,
                session_id@,
            ) && providers::says(r, "expectedTurnId"@, turn_id@),
            DesktopRequest::Steer { session_id, message_id, .. } => providers::says(
                r,
                "conversationId"@,
                session_id@,
            ) && providers::says(r, "clientUserMessageId"@, message_id@),
            DesktopRequest::StartTurn { session_id, .. } => providers::says(
                r,
                "conversationId"@,
                session_id@,
            ),
        },
{
    reveal_strlit("clientType");
    reveal_strlit("conversationId");
    reveal_strlit("hostId");
    reveal_strlit("mode");
    reveal_strlit("expectedTurnId");
    reveal_strlit("clientUserMessageId");
    reveal_strlit("input");
    reveal_strlit("serviceTier");
    reveal_strlit("attachments");
    reveal_strlit("additionalContext");
    reveal_strlit("restoreMessage");
    reveal_strlit("turnStartParams");
    reveal_strlit("mcpAppModelContextAttachments");
    assert("conversationId"@.len() == 14 && "hostId"@.len() == 6 && "mode"@.len() == 4
        && "expectedTurnId"@.len() == 14 && "clientUserMessageId"@.len() == 19 && "input"@.len()
        == 5 && "serviceTier"@.len() == 11 && "attachments"@.len() == 11
        && "additionalContext"@.len() == 17 && "restoreMessage"@.len() == 14
        && "turnStartParams"@.len() == 15 && "mcpAppModelContextAttachments"@.len() == 29);
    assert("conversationId"@[0] == 'c' && "expectedTurnId"@[0] == 'e' && "restoreMessage"@[0]
        == 'r');
    let members = request.params_view()->Object_0;
    match *request {
        DesktopRequest::Initialize => {
            assert(members.contains_key("clientType"@));
            assert(json::shows(r->Object_0@["clientType"@], members["clientType"@]));
        },
        DesktopRequest::DiscoverOwner { session_id } => {
            assert(members.contains_key("conversationId"@) && members.contains_key("hostId"@));
            assert(json::shows(r->Object_0@["conversationId"@], members["conversationId"@]));
            assert(json::shows(r->Object_0@["hostId"@], members["hostId"@]));
        },
        DesktopRequest::Interrupt { session_id, turn_id, .. } => {
            assert(members.contains_key("conversationId"@) && members.contains_key(
                "expectedTurnId"@,
            ));
            assert(json::shows(r->Object_0@["conversationId"@], members["conversationId"@]));
            assert(json::shows(r->Object_0@["expectedTurnId"@], members["expectedTurnId"@]));
        },
        DesktopRequest::Steer { session_id, message_id, .. } => {
            assert(members.contains_key("conversationId"@) && members.contains_key(
                "clientUserMessageId"@,
            ));
            assert(json::shows(r->Object_0@["conversationId"@], members["conversationId"@]));
            assert(json::shows(
                r->Object_0@["clientUserMessageId"@],
                members["clientUserMessageId"@],
            ));
        },
        DesktopRequest::StartTurn { session_id, .. } => {
            assert(members.contains_key("conversationId"@));
            assert(json::shows(r->Object_0@["conversationId"@], members["conversationId"@]));
        },
    }
}

/// A response is one where it says so, to the request with its name; a question whether this client
/// handles something is answered; all else is of no concern.
pub proof fn messages_are_routed(message: &Json, request_id: &str, r: Routed)
    requires
        call_ensures(codex_desktop::route, (message, request_id), r),
    ensures
        r is Response <==> failures::tells(*message, "type"@, "response"@) && failures::tells(
            *message,
            "requestId"@,
            request_id@,
        ),
        r is Discovery ==> failures::tells(*message, "type"@, "client-discovery-request"@),
{
}

/// A response succeeds where it says so; otherwise it is refused with what it says.
pub proof fn responses_succeed_where_they_say_so(
    method: &str,
    response: &Json,
    r: Result<(), DesktopError>,
    s: Seq<char>,
)
    requires
        call_ensures(codex_desktop::check_response, (method, response), r),
    ensures
        r is Ok <==> failures::tells(*response, "resultType"@, "success"@),
        failures::tells(*response, "resultType"@, "error"@) ==> r is Err && r->Err_0 is Remote
            && r->Err_0->Remote_0.method@ == method@,
        failures::tells(*response, "resultType"@, "error"@) && failures::tells(
            *response,
            "error"@,
            s,
        ) ==> r is Err && r->Err_0 is Remote && r->Err_0->Remote_0.message@ == s,
        r is Err && r->Err_0 is InvalidResponse ==> !failures::tells(
            *response,
            "resultType"@,
            "error"@,
        ),
{
    reveal_strlit("error");
    reveal_strlit("success");
    assert("error"@.len() == 5 && "success"@.len() == 7);
}

/// An endpoint is connected to only where it is a socket of the user in a directory of the user that
/// nobody else may write to.
pub proof fn endpoints_belong_to_the_user(
    facts: EndpointFacts,
    user: u32,
    r: Result<(), EndpointRefusal>,
)
    requires
        call_ensures(codex_desktop::check_endpoint, (facts, user), r),
    ensures
        r is Ok ==> facts.directory_is_directory && facts.directory_owner == user && facts.is_socket
            && facts.owner == user,
        r is Ok ==> facts.directory_mode % 4 < 2 && facts.directory_mode % 32 < 16,
        facts.directory_is_directory && facts.directory_owner == user && facts.is_socket
            && facts.owner == user && facts.directory_mode % 4 < 2 && facts.directory_mode % 32 < 16
            ==> r is Ok,
{
    let mode = facts.directory_mode;
    assert(mode / 2 % 2 == 1 <==> mode % 4 >= 2);
    assert(mode / 16 % 2 == 1 <==> mode % 32 >= 16);
}

/// The endpoint stands in the provider's directory, where that is an absolute path.
pub proof fn endpoints_stand_in_an_absolute_directory(codex_home: &str, r: Option<String>)
    requires
        call_ensures(codex_desktop::endpoint_path, (codex_home,), r),
    ensures
        r is Some <==> codex_home@.len() > 0 && codex_home@[0] == '/',
        r is Some && codex_home@.last() != '/' ==> r->0@ == codex_home@ + "/"@ + "ipc"@ + "/"@
            + "ipc.sock"@,
{
    reveal_strlit("/");
    reveal_strlit("ipc");
    reveal_strlit("ipc.sock");
    assert("/"@.len() == 1 && "/"@[0] == '/');
    assert("ipc"@.len() == 3 && "ipc"@[0] == 'i' && "ipc"@[2] == 'c' && "ipc.sock"@[0] == 'i');
    if codex_home@.len() > 0 {
        assert(codex_home@.subrange(0, 1)[0] == codex_home@[0]);
        if codex_home@[0] == '/' {
            assert(codex_home@.subrange(0, 1) =~= "/"@);
        }
    }
    if r is Some && codex_home@.last() != '/' {
        let directory = codex_home@ + "/"@ + "ipc"@;
        assert(directory.last() == 'c');
    }
}

/// A frame that was written is read back as it was, and what follows it is left.
pub proof fn frames_are_read_back(
    payload: &Vec<u8>,
    frame: Vec<u8>,
    stream: &Vec<u8>,
    rest: Seq<u8>,
    r: FrameRead,
)
    requires
        call_ensures(client::write_frame, (payload,), Ok(frame)),
        stream@ == frame@ + rest,
        call_ensures(client::read_frame, (stream,), r),
    ensures
        r is Frame,
        r->payload@ == payload@,
        r->taken == frame@.len(),
        frame@.len() == payload@.len() + 4,
{
    client::prefix_round_trips(payload@.len());
    assert(stream@.take(4) =~= client::length_prefix(payload@.len()));
    match r {
        FrameRead::Frame { payload: read, taken } => {
            assert(stream@.subrange(4, taken as int) =~= payload@);
        },
        _ => {},
    }
}

/// No frame holds more than eight megabytes.
pub proof fn frames_are_bounded(
    payload: &Vec<u8>,
    r: Result<Vec<u8>, FrameTooLarge>,
    stream: &Vec<u8>,
    read: FrameRead,
)
    requires
        call_ensures(client::write_frame, (payload,), r),
        call_ensures(client::read_frame, (stream,), read),
    ensures
        r is Ok <==> payload@.len() <= 8 * 1024 * 1024,
        read is Frame ==> read->payload@.len() <= 8 * 1024 * 1024 && read->taken
            == read->payload@.len() + 4 && read->taken <= stream@.len(),
        stream@.len() < 4 ==> read is Incomplete,
{
}

/// A length is read with its most significant byte first, and up to the limit.
pub proof fn lengths_are_read_in_network_order(
    prefix: [u8; 4],
    limit: usize,
    r: Result<usize, FrameTooLarge>,
)
    requires
        call_ensures(client::read_frame_length, (prefix, limit), r),
    ensures
        ({
            let n = ((prefix@[0] * 256 + prefix@[1]) * 256 + prefix@[2]) * 256 + prefix@[3];
            &&& r is Ok <==> n <= limit
            &&& r is Ok ==> r->Ok_0 == n
            &&& r is Err ==> r->Err_0.limit == limit
        }),
{
}

/// A frame to the desktop holds its length, least significant byte first, and then the message. It
/// is never empty and never longer than 256 megabytes.
pub proof fn desktop_lengths_are_read_in_reverse(
    bytes: [u8; 4],
    r: Result<usize, InvalidFrameSize>,
)
    requires
        call_ensures(codex_desktop::read_frame_length, (bytes,), r),
    ensures
        ({
            let n = ((bytes@[3] * 256 + bytes@[2]) * 256 + bytes@[1]) * 256 + bytes@[0];
            &&& r is Ok <==> 0 < n <= 256 * 1024 * 1024
            &&& r is Ok ==> r->Ok_0 == n
        }),
{
}

/// A response is taken where it speaks the second version and is one to the request; its error is
/// handed on, and otherwise its result with the revision.
pub proof fn responses_are_taken_by_their_request(
    request_id: &str,
    response: RpcResponse,
    r: Result<(Json, u64), ClientError>,
)
    requires
        call_ensures(client::accept_response, (request_id, response), r),
    ensures
        r is Ok <==> response.version == 2 && response.id@ == request_id@ && response.error is None,
        r is Ok ==> r->Ok_0.1 == response.revision && (response.result is Some ==> r->Ok_0.0
            == response.result->0) && (response.result is None ==> r->Ok_0.0 == Json::Null),
        response.version != 2 ==> r is Err && r->Err_0 is ProtocolMismatch,
        response.version == 2 && response.id@ != request_id@ ==> r is Err && r->Err_0
            is WrongRequest,
        r is Err && r->Err_0 is Failed ==> response.error is Some && r->Err_0->code@
            == response.error->0.code@ && r->Err_0->Failed_message@ == response.error->0.message@,
{
}

/// A request says what is asked for, of which revision, and speaks the second version.
pub proof fn requests_say_what_is_asked_for(
    method: &str,
    params: Json,
    expected_revision: Option<u64>,
    r: RpcRequest,
)
    requires
        call_ensures(client::new_request, (method, params, expected_revision), r),
    ensures
        r.version == 2,
        r.method@ == method@,
        r.params == params,
        r.expected_revision == expected_revision,
{
}

} // verus!
