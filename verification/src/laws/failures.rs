//! What failures of providers are sorted into.

use vstd::prelude::*;
use vstd::string::*;

use crate::json::{Json, Number};
use crate::models::Failure;
use crate::providers::claude;
use crate::providers::claude::ClassifiedError;
use crate::providers::codex;
use crate::providers::codex::{CodexAnswerError, CodexCode};
use crate::text;

verus! {

/// `value` holds `found` under a name.
pub open spec fn holds(value: Json, name: Seq<char>, found: Json) -> bool {
    value matches Json::Object(members) && members@.contains_key(name) && members@[name] == found
}

/// `value` holds nothing under a name.
pub open spec fn lacks(value: Json, name: Seq<char>) -> bool {
    value matches Json::Object(members) ==> !members@.contains_key(name)
}

/// `value` holds the text `s` under a name.
pub open spec fn tells(value: Json, name: Seq<char>, s: Seq<char>) -> bool {
    value matches Json::Object(members) && members@.contains_key(name) && members@[name] is Text
        && members@[name]->Text_0@ == s
}

/// `value` holds some text under a name.
pub open spec fn tells_something(value: Json, name: Seq<char>) -> bool {
    value matches Json::Object(members) && members@.contains_key(name) && members@[name] is Text
}

/// A status that passes: a request timeout, a conflict, too early, too many requests, or any error
/// of the server.
pub open spec fn passes(status: u64) -> bool {
    status == 408 || status == 409 || status == 425 || status == 429 || status >= 500
}

/// A failed connection that carries a status may pass exactly for the four statuses of a passing
/// refusal and for every status from 500 on; without a status it may pass.
pub proof fn failed_connections_pass_by_their_status(
    error: &Json,
    info: Json,
    info_ref: Option<&Json>,
    status: Option<u64>,
    r: (CodexCode, bool),
)
    requires
        call_ensures(codex::classify, (error,), r),
        holds(*error, "codexErrorInfo"@, info),
        info_ref is Some && *info_ref->0 == info,
        call_ensures(codex::codex_error_code, (info_ref,), CodexCode::HttpConnectionFailed),
        call_ensures(codex::http_status, (info_ref,), status),
    ensures
        r.0 == CodexCode::HttpConnectionFailed,
        status is None ==> r.1,
        status matches Some(code) ==> (r.1 <==> code == 408 || code == 409 || code == 425 || code
            == 429 || code >= 500),
{
}

/// The same of the form in which Codex reports it: the kind names an object with the status.
pub proof fn reported_statuses_decide(
    error: &Json,
    info: Json,
    kind: Seq<char>,
    detail: Json,
    status: u64,
    r: (CodexCode, bool),
)
    requires
        call_ensures(codex::classify, (error,), r),
        holds(*error, "codexErrorInfo"@, info),
        kind == "httpConnectionFailed"@ || kind == "HttpConnectionFailed"@,
        info matches Json::Object(members) && members.entries().len() == 1
            && members.entries()[0].0@ == kind && members.entries()[0].1 == detail,
        lacks(info, "type"@),
        lacks(info, "kind"@),
        lacks(info, "code"@),
        lacks(info, "httpStatusCode"@),
        holds(detail, "httpStatusCode"@, Json::Number(Number::Unsigned(status))),
    ensures
        r == (CodexCode::HttpConnectionFailed, passes(status)),
        status >= 500 ==> r.1,
        status < 400 ==> !r.1,
{
    match info {
        Json::Object(members) => {
            let entries = members.entries();
            lemma_codes();
            assert(entries.drop_last() =~= Seq::empty());
            assert(codex::named_kinds(entries.drop_last()) =~= Seq::empty());
            assert(codex::named_kinds(entries) =~= seq![CodexCode::HttpConnectionFailed]);
            assert(codex::nested_status(entries) == Some(status));
        },
        _ => {},
    }
}

proof fn lemma_codes()
    ensures
        "httpConnectionFailed"@.len() == 20,
        "HttpConnectionFailed"@.len() == 20,
        "responseStreamConnectionFailed"@.len() == 30,
        "ResponseStreamConnectionFailed"@.len() == 30,
        "responseStreamDisconnected"@.len() == 26,
        "ResponseStreamDisconnected"@.len() == 26,
        "responseTooManyFailedAttempts"@.len() == 29,
        "ResponseTooManyFailedAttempts"@.len() == 29,
        "Other"@.len() == 5,
{
    reveal_strlit("httpConnectionFailed");
    reveal_strlit("HttpConnectionFailed");
    reveal_strlit("responseStreamConnectionFailed");
    reveal_strlit("ResponseStreamConnectionFailed");
    reveal_strlit("responseStreamDisconnected");
    reveal_strlit("ResponseStreamDisconnected");
    reveal_strlit("responseTooManyFailedAttempts");
    reveal_strlit("ResponseTooManyFailedAttempts");
    reveal_strlit("Other");
}

/// Each kind of error goes by its own name, with a small or a capital first letter, and by no other;
/// the name that is shown is the one with the capital.
pub proof fn kinds_go_by_their_names(name: &str, kind: CodexCode, shown: &'static str)
    requires
        call_ensures(codex::canonical_error_code, (name,), kind),
        call_ensures(CodexCode::name, (kind,), shown),
    ensures
        kind == CodexCode::HttpConnectionFailed <==> name@ == "httpConnectionFailed"@ || name@
            == "HttpConnectionFailed"@,
        kind == CodexCode::ResponseStreamConnectionFailed <==> name@
            == "responseStreamConnectionFailed"@ || name@ == "ResponseStreamConnectionFailed"@,
        kind == CodexCode::ResponseStreamDisconnected <==> name@ == "responseStreamDisconnected"@
            || name@ == "ResponseStreamDisconnected"@,
        kind == CodexCode::ResponseTooManyFailedAttempts <==> name@
            == "responseTooManyFailedAttempts"@ || name@ == "ResponseTooManyFailedAttempts"@,
        kind == CodexCode::HttpConnectionFailed ==> shown@ == "HttpConnectionFailed"@,
        kind == CodexCode::ResponseStreamConnectionFailed ==> shown@
            == "ResponseStreamConnectionFailed"@,
        kind == CodexCode::ResponseStreamDisconnected ==> shown@ == "ResponseStreamDisconnected"@,
        kind == CodexCode::ResponseTooManyFailedAttempts ==> shown@
            == "ResponseTooManyFailedAttempts"@,
        kind == CodexCode::Other ==> shown@ == "Other"@,
{
    lemma_codes();
}

/// An error whose information is a text is of the kind that the text names; one whose information
/// names a kind under `type`, or else `kind`, or else `code`, is of that kind.
pub proof fn named_kinds_are_taken(
    info: &Json,
    info_ref: Option<&Json>,
    name: &str,
    named: CodexCode,
    r: CodexCode,
)
    requires
        info_ref == Some(info),
        call_ensures(codex::codex_error_code, (info_ref,), r),
        call_ensures(codex::canonical_error_code, (name,), named),
    ensures
        *info is Text && info->Text_0@ == name@ ==> r == named,
        tells(*info, "type"@, name@) ==> r == named,
        lacks(*info, "type"@) && tells(*info, "kind"@, name@) ==> r == named,
        lacks(*info, "type"@) && lacks(*info, "kind"@) && tells(*info, "code"@, name@) ==> r
            == named,
        !(*info is Text) && !(*info is Object) ==> r == CodexCode::Other,
{
}

/// An error whose kind is not named otherwise is sorted by its message, whatever the case of its
/// letters: too many failed attempts before a disconnected stream. Every known kind may pass, but
/// for connections that failed with a lasting status, and the unknown kind may not.
pub proof fn messages_name_what_nothing_else_does(
    error: &Json,
    info_ref: Option<&Json>,
    named: CodexCode,
    message: &str,
    lowered: String,
    lowered_ref: &str,
    attempts: &str,
    stream: &str,
    exhausted: bool,
    disconnected: bool,
    r: (CodexCode, bool),
)
    requires
        call_ensures(codex::classify, (error,), r),
        match info_ref {
            Some(info) => holds(*error, "codexErrorInfo"@, *info),
            None => lacks(*error, "codexErrorInfo"@),
        },
        call_ensures(codex::codex_error_code, (info_ref,), named),
        tells(*error, "message"@, message@),
        call_ensures(text::to_ascii_lowercase, (message,), lowered),
        lowered_ref@ == lowered@,
        attempts@ == "too many failed attempts"@,
        stream@ == "stream disconnected"@,
        call_ensures(text::contains, (lowered_ref, attempts), exhausted),
        call_ensures(text::contains, (lowered_ref, stream), disconnected),
    ensures
        named != CodexCode::Other ==> r.0 == named,
        named == CodexCode::Other && exhausted ==> r == (
            CodexCode::ResponseTooManyFailedAttempts,
            true,
        ),
        named == CodexCode::Other && !exhausted && disconnected ==> r == (
            CodexCode::ResponseStreamDisconnected,
            true,
        ),
        named == CodexCode::Other && !exhausted && !disconnected ==> r == (CodexCode::Other, false),
        r.0 != CodexCode::Other && r.0 != CodexCode::HttpConnectionFailed ==> r.1,
        r.0 == CodexCode::Other ==> !r.1,
{
}

/// The status of an error is its own, or else the one that a nested object gives.
pub proof fn statuses_are_read_where_they_stand(
    info: &Json,
    info_ref: Option<&Json>,
    r: Option<u64>,
)
    requires
        info_ref == Some(info),
        call_ensures(codex::http_status, (info_ref,), r),
    ensures
        forall|n: u64| #[trigger]
            holds(*info, "httpStatusCode"@, Json::Number(Number::Unsigned(n))) ==> r == Some(n),
        !(*info is Object) ==> r is None,
        *info is Object && lacks(*info, "httpStatusCode"@) && info->Object_0.entries().len() > 0
            ==> forall|n: u64| #[trigger]
            holds(
                info->Object_0.entries()[0].1,
                "httpStatusCode"@,
                Json::Number(Number::Unsigned(n)),
            ) ==> r == Some(n),
        *info is Object && lacks(*info, "httpStatusCode"@) && info->Object_0.entries().len() == 0
            ==> r is None,
{
}

/// A failed turn, and no other, is a failure: of its session and turn, with the condition that its
/// error's kind stands for where it may pass, and an unknown one where it may not.
pub proof fn failed_turns_are_sorted(
    turn: &Json,
    turn_ref: Option<&Json>,
    session_id: &str,
    error: &Json,
    sorted: (CodexCode, bool),
    shown: &'static str,
    r: Result<Option<Failure>, CodexAnswerError>,
)
    requires
        turn_ref == Some(turn),
        call_ensures(codex::read_failure, (turn_ref, session_id), r),
        holds(*turn, "error"@, *error),
        call_ensures(codex::classify, (error,), sorted),
        call_ensures(CodexCode::name, (sorted.0,), shown),
    ensures
        ({
            let failed = tells(*turn, "status"@, "failed"@);
            let named = tells_something(*turn, "id"@);
            &&& r == Ok::<Option<Failure>, CodexAnswerError>(None) <==> !failed
            &&& r is Err <==> failed && !named
            &&& r matches Ok(Some(failure)) ==> {
                &&& failure.provider@ == "codex"@
                &&& failure.session_id@ == session_id@
                &&& tells(*turn, "id"@, failure.turn_id@)
                &&& failure.provider_code@ == shown@
                &&& failure.retry_after_seconds is None
                &&& !sorted.1 ==> failure.condition@ == "failure.unknown"@
                &&& sorted == (CodexCode::HttpConnectionFailed, true) ==> failure.condition@
                    == "network.connection_failed"@
                &&& sorted == (CodexCode::ResponseStreamConnectionFailed, true)
                    ==> failure.condition@ == "network.stream_failed"@
                &&& sorted == (CodexCode::ResponseStreamDisconnected, true) ==> failure.condition@
                    == "network.stream_failed"@
                &&& sorted == (CodexCode::ResponseTooManyFailedAttempts, true)
                    ==> failure.condition@ == "retry.provider_exhausted"@
                &&& tells_something(*error, "message"@) ==> tells(
                    *error,
                    "message"@,
                    failure.message@,
                )
                &&& !tells_something(*error, "message"@) ==> failure.message@
                    == "Codex turn failed"@
            }
        }),
{
}

/// A turn without an error fails with an unknown condition, and no turn is no failure.
pub proof fn turns_without_errors_fail_unknown(
    turn_ref: Option<&Json>,
    session_id: &str,
    r: Result<Option<Failure>, CodexAnswerError>,
)
    requires
        call_ensures(codex::read_failure, (turn_ref, session_id), r),
        turn_ref is Some ==> lacks(*turn_ref->0, "error"@),
    ensures
        turn_ref is None ==> r == Ok::<Option<Failure>, CodexAnswerError>(None),
        r matches Ok(Some(failure)) ==> failure.condition@ == "failure.unknown"@
            && failure.provider_code@ == "Other"@ && failure.message@
            == "Codex turn failed without structured error details"@,
{
}

/// The latest turn is the first of a list that starts with it, and the last of a thread that was
/// read whole.
pub proof fn latest_turns_are_found(
    page: &Json,
    answer: &Json,
    listed: Option<&Json>,
    read: Option<&Json>,
)
    requires
        call_ensures(codex::latest_listed_turn, (page,), listed),
        call_ensures(codex::latest_read_turn, (answer,), read),
    ensures
        forall|turns: std::sync::Arc<Vec<Json>>| #[trigger]
            holds(*page, "data"@, Json::Array(turns)) ==> (turns@.len() == 0 ==> listed is None) && (
            turns@.len() > 0 ==> listed is Some && *listed->0 == turns@[0]),
        lacks(*page, "data"@) ==> listed is None,
        forall|thread: Json, turns: std::sync::Arc<Vec<Json>>|
            #![trigger holds(*answer, "thread"@, thread), holds(thread, "turns"@, Json::Array(turns))]
            holds(*answer, "thread"@, thread) && holds(thread, "turns"@, Json::Array(turns)) ==> (
            turns@.len() == 0 ==> read is None) && (turns@.len() > 0 ==> read is Some && *read->0
                == turns@.last()),
{
}

/// A stop failure of the transcript provider is sorted by its error and its detail.
pub proof fn stop_failures_are_sorted(error: &str, details: Option<&Json>, r: ClassifiedError)
    requires
        call_ensures(claude::classify_claude_error, (error, details), r),
        details is Some ==> lacks(*details->0, "type"@) && lacks(*details->0, "code"@),
    ensures
        r.provider_code@ == error@,
        error@ == "overloaded"@ ==> r.condition@ == "capacity.service_overloaded"@,
        error@ == "rate_limit"@ ==> r.condition@ == "capacity.rate_limited"@,
        error@ == "authentication_failed"@ ==> r.condition@ == "auth.invalid"@,
        error@ == "oauth_org_not_allowed"@ ==> r.condition@ == "capability.access_denied"@,
        error@ == "billing_error"@ ==> r.condition@ == "billing.required"@,
        error@ == "invalid_request"@ ==> r.condition@ == "request.invalid"@,
        error@ == "model_not_found"@ ==> r.condition@ == "capability.model_unavailable"@,
        error@ == "server_error"@ ==> r.condition@ == "service.server_error"@,
        error@ == "max_output_tokens"@ ==> r.condition@ == "context.output_limit"@,
        r.condition@ == "failure.unknown"@ <==> error@ != "overloaded"@ && error@ != "rate_limit"@
            && error@ != "authentication_failed"@ && error@ != "oauth_org_not_allowed"@ && error@
            != "billing_error"@ && error@ != "invalid_request"@ && error@ != "model_not_found"@
            && error@ != "server_error"@ && error@ != "max_output_tokens"@,
{
    lemma_claude_literals();
}

proof fn lemma_claude_literals()
    ensures
        "overloaded"@.len() == 10,
        "rate_limit"@.len() == 10 && "rate_limit"@[0] == 'r',
        "overloaded"@[0] == 'o',
        "authentication_failed"@.len() == 21,
        "oauth_org_not_allowed"@.len() == 21,
        "authentication_failed"@[0] == 'a',
        "oauth_org_not_allowed"@[0] == 'o',
        "billing_error"@.len() == 13,
        "invalid_request"@.len() == 15,
        "model_not_found"@.len() == 15,
        "invalid_request"@[0] == 'i',
        "model_not_found"@[0] == 'm',
        "server_error"@.len() == 12,
        "max_output_tokens"@.len() == 17,
        "failure.unknown"@.len() == 15,
        "failure.unknown"@[0] == 'f',
        "capacity.service_overloaded"@[0] == 'c',
        "capacity.model_overloaded"@[0] == 'c',
        "capacity.rate_limited"@[0] == 'c',
        "capacity.server_throttled"@[0] == 'c',
        "quota.usage_exhausted"@[0] == 'q',
        "auth.invalid"@[0] == 'a',
        "capability.access_denied"@[0] == 'c',
        "billing.required"@[0] == 'b',
        "request.invalid"@[0] == 'r',
        "capability.feature_unsupported"@[0] == 'c',
        "capability.model_unavailable"@[0] == 'c',
        "service.server_error"@[0] == 's',
        "context.output_limit"@[0] == 'c',
        "capacity.service_overloaded"@.len() == 27,
        "capacity.model_overloaded"@.len() == 25,
        "capacity.rate_limited"@.len() == 21,
        "capacity.server_throttled"@.len() == 25,
        "capacity.server_throttled"@[9] == 's',
        "capacity.model_overloaded"@[9] == 'm',
        "server_throttled"@.len() == 16,
        "usage_limit"@.len() == 11,
        "model_overloaded"@.len() == 16,
        "capability.access_denied"@.len() == 24,
        "capability.feature_unsupported"@.len() == 30,
        "capability.model_unavailable"@.len() == 28,
        "context.output_limit"@.len() == 20,
        "unknown"@.len() == 7,
{
    reveal_strlit("overloaded");
    reveal_strlit("rate_limit");
    reveal_strlit("authentication_failed");
    reveal_strlit("oauth_org_not_allowed");
    reveal_strlit("billing_error");
    reveal_strlit("invalid_request");
    reveal_strlit("model_not_found");
    reveal_strlit("server_error");
    reveal_strlit("max_output_tokens");
    reveal_strlit("failure.unknown");
    reveal_strlit("capacity.service_overloaded");
    reveal_strlit("capacity.model_overloaded");
    reveal_strlit("capacity.rate_limited");
    reveal_strlit("capacity.server_throttled");
    reveal_strlit("quota.usage_exhausted");
    reveal_strlit("auth.invalid");
    reveal_strlit("capability.access_denied");
    reveal_strlit("billing.required");
    reveal_strlit("request.invalid");
    reveal_strlit("capability.feature_unsupported");
    reveal_strlit("capability.model_unavailable");
    reveal_strlit("service.server_error");
    reveal_strlit("context.output_limit");
    reveal_strlit("server_throttled");
    reveal_strlit("usage_limit");
    reveal_strlit("model_overloaded");
    reveal_strlit("unknown");
}

/// A detail narrows a stop failure down: its type, or its code where it has no type.
pub proof fn details_narrow_stop_failures(
    error: &str,
    details: Option<&Json>,
    detail: Seq<char>,
    r: ClassifiedError,
)
    requires
        call_ensures(claude::classify_claude_error, (error, details), r),
        details is Some,
        tells(*details->0, "type"@, detail) || (lacks(*details->0, "type"@) && tells(
            *details->0,
            "code"@,
            detail,
        )),
    ensures
        error@ == "overloaded"@ ==> (r.condition@ == "capacity.model_overloaded"@ <==> detail
            == "model_overloaded"@),
        error@ == "rate_limit"@ ==> (r.condition@ == "capacity.server_throttled"@ <==> detail
            == "server_throttled"@) && (r.condition@ == "quota.usage_exhausted"@ <==> detail
            == "usage_limit"@),
        error@ == "invalid_request"@ ==> (r.condition@ == "capability.feature_unsupported"@
            <==> detail == "feature_unsupported"@),
        error@ == "model_not_found"@ ==> (r.condition@ == "capability.access_denied"@ <==> detail
            == "access_denied"@),
        error@ == "server_error"@ ==> r.condition@ == "service.server_error"@,
        error@ == "authentication_failed"@ ==> r.condition@ == "auth.invalid"@,
        error@ == "billing_error"@ ==> r.condition@ == "billing.required"@,
        error@ == "max_output_tokens"@ ==> r.condition@ == "context.output_limit"@,
{
    lemma_claude_literals();
}

/// The delay that details ask for is taken from either spelling; what an overload concerns is told.
pub proof fn stop_failures_tell_delay_and_scope(
    error: &str,
    details: Option<&Json>,
    r: ClassifiedError,
)
    requires
        call_ensures(claude::classify_claude_error, (error, details), r),
    ensures
        details is None ==> r.retry_after_seconds is None,
        details is Some ==> forall|n: u64| #[trigger]
            holds(*details->0, "retry_after_seconds"@, Json::Number(Number::Unsigned(n)))
                ==> r.retry_after_seconds == Some(n),
        details is Some && lacks(*details->0, "retry_after_seconds"@) ==> forall|n: u64| #[trigger]
            holds(*details->0, "retryAfterSeconds"@, Json::Number(Number::Unsigned(n)))
                ==> r.retry_after_seconds == Some(n),
        details is Some && lacks(*details->0, "retry_after_seconds"@) && lacks(
            *details->0,
            "retryAfterSeconds"@,
        ) ==> r.retry_after_seconds is None,
        r.condition@ == "capacity.model_overloaded"@ ==> r.scope is Some && r.scope->0@ == "model"@,
        r.condition@ == "capacity.service_overloaded"@ ==> r.scope is Some && r.scope->0@
            == "service"@,
        r.condition@ != "capacity.model_overloaded"@ && r.condition@
            != "capacity.service_overloaded"@ ==> r.scope is None,
{
    lemma_claude_literals();
    assert(text::option_view(r.scope) == claude::condition_scope(r.condition@));
}

/// A stop failure's payload is sorted by the error and the details that it names; an overload of a
/// named model is one of the model.
pub proof fn payloads_are_sorted_like_their_errors(
    payload: &Json,
    error: &str,
    details: Option<&Json>,
    sorted: ClassifiedError,
    r: ClassifiedError,
)
    requires
        call_ensures(claude::classify_claude_hook, (payload,), r),
        if tells_something(*payload, "error"@) {
            tells(*payload, "error"@, error@)
        } else {
            error@ == "unknown"@
        },
        match details {
            Some(value) => holds(*payload, "error_details"@, *value),
            None => lacks(*payload, "error_details"@),
        },
        call_ensures(claude::classify_claude_error, (error, details), sorted),
    ensures
        ({
            let model = tells_something(*payload, "model"@);
            &&& r.provider_code@ == error@
            &&& error@ == "overloaded"@ && model ==> r.condition@ == "capacity.model_overloaded"@
                && r.scope is Some && r.scope->0@ == "model"@
            &&& !(error@ == "overloaded"@ && model) ==> r.condition@ == sorted.condition@
            &&& details is Some && *details->0 is Text ==> r.retry_after_seconds is None
            &&& !(details is Some && *details->0 is Text) ==> r.retry_after_seconds
                == sorted.retry_after_seconds
        }),
{
    lemma_claude_literals();
    assert(text::option_view(r.scope) == claude::condition_scope(r.condition@));
}

} // verus!
