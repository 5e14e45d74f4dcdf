//! When a failed turn is continued, and what becomes of the continuation.

use vstd::arithmetic::power2::*;
use vstd::prelude::*;
use vstd::string::*;

use crate::config::{ResolvedPolicy, Settings};
use crate::engine::manual::RetryRefusal;
use crate::engine::pending::Look;
use crate::engine::permit::RecoveryPermit;
use crate::engine::policy;
use crate::engine::recovery::{
    Candidate, Cleared, Confirmed, Decision, Observation, SendOutcome, WatchEngine,
};
use crate::laws::prompts;
use crate::models::{
    BackoffKind, EngineEvent, Failure, PolicyAction, ResumeReceipt, TurnOutcome, WatchTarget,
};
use crate::state::runtime;
use crate::state::runtime::{PendingRecovery, RecoveryMetrics, RecoveryOutcome, RuntimeState};
use crate::text;
use crate::time;
use crate::time::Timestamp;

verus! {

/// The name under which attempts at a session are kept.
pub open spec fn session_name(provider: Seq<char>, session: Seq<char>) -> Seq<char> {
    provider + ":"@ + session
}

/// The name under which a failed turn is remembered.
pub open spec fn turn_name(failure: Failure) -> Seq<char> {
    failure.provider@ + ":"@ + failure.session_id@ + ":"@ + failure.turn_id@
}

/// The attempts at a session that count now: those that were made within the window.
pub open spec fn counted(engine: WatchEngine, target: WatchTarget, now: Timestamp) -> Seq<
    Timestamp,
> {
    let name = session_name(target.provider@, target.session_id@);
    let made = if engine.state.attempts@.contains_key(name) {
        engine.state.attempts@[name]@
    } else {
        Seq::empty()
    };
    made.filter(
        |t: Timestamp|
            t.is_not_before(now, -(engine.settings.engine.attempt_window_seconds as int)),
    )
}

/// What is remembered of a failed turn.
pub open spec fn done_about(state: RuntimeState, failure: Failure) -> Option<Seq<char>> {
    if state.handled@.contains_key(turn_name(failure)) {
        Some(state.handled@[turn_name(failure)].action@)
    } else {
        None
    }
}

/// A turn was continued, or may have been.
pub open spec fn was_continued(state: RuntimeState, failure: Failure) -> bool {
    done_about(state, failure) == Some("resumed"@) || done_about(state, failure) == Some(
        "unconfirmed"@,
    )
}

/// The delay of a policy with a first delay `d` and a greatest `m` after `n` attempts, where the
/// provider asks for `asked` seconds.
pub open spec fn due_after(policy: ResolvedPolicy, n: nat, asked: Option<u64>) -> int {
    let d = policy.initial_delay_seconds as int;
    let m = policy.max_delay_seconds as int;
    let own = if policy.backoff == Some(BackoffKind::Fixed) {
        d
    } else if d * pow2(n) <= m {
        d * pow2(n)
    } else {
        m
    };
    if asked is Some && asked->0 > own {
        asked->0 as int
    } else {
        own
    }
}

/// The time from which the delay counts.
pub open spec fn since_when(
    engine: WatchEngine,
    target: WatchTarget,
    failure: Failure,
    now: Timestamp,
) -> Timestamp {
    if counted(engine, target, now).len() > 0 {
        counted(engine, target, now).last()
    } else if engine.state.observed@.contains_key(turn_name(failure)) {
        engine.state.observed@[turn_name(failure)]
    } else {
        now
    }
}

/// `policy` is what a call for the policy of the failure's condition gave.
pub open spec fn is_policy_of(
    engine: WatchEngine,
    failure: Failure,
    condition: &str,
    policy: ResolvedPolicy,
) -> bool {
    &&& condition@ == failure.condition@
    &&& call_ensures(Settings::policy, (&engine.settings, condition), policy)
}

proof fn lemma_vocabulary(
    engine: WatchEngine,
    target: WatchTarget,
    failure: Failure,
    now: Timestamp,
)
    ensures
        counted(engine, target, now) == engine.counted_attempts(target, now),
        target.key_view() == session_name(target.provider@, target.session_id@),
        failure.key_view() == turn_name(failure),
        engine.state.action_on(failure) == done_about(engine.state, failure),
        engine.delay_from(target, failure, now) == since_when(engine, target, failure, now),
{
    let window = -(engine.settings.engine.attempt_window_seconds as int);
    let mine = |t: Timestamp| t.is_not_before(now, window);
    assert(failure.key_view() =~= turn_name(failure));
    let key = target.key_view();
    let made = runtime::attempts_of(engine.state.attempts@, key);
    assert(made.filter(mine) == runtime::since(made, now, window));
}

/// Exponential backoff: a turn whose provider asks for no delay is continued after `n` attempts that
/// count only where the first delay, doubled `n` times, or the greatest delay where that is less,
/// has passed since the last of them.
pub proof fn backoff_doubles_with_every_attempt(
    engine: &mut WatchEngine,
    target: &WatchTarget,
    failure: Failure,
    now: Timestamp,
    condition: &str,
    policy: ResolvedPolicy,
    candidate: Candidate,
)
    requires
        call_ensures(
            WatchEngine::consider,
            (engine, target, Observation::Failed(failure), now),
            Decision::Attempt(candidate),
        ),
        is_policy_of(*old(engine), failure, condition, policy),
        policy.backoff == Some(BackoffKind::Exponential),
        failure.retry_after_seconds is None,
        counted(*old(engine), *target, now).len() > 0,
    ensures
        ({
            let attempts = counted(*old(engine), *target, now);
            let doubled = policy.initial_delay_seconds * pow2(attempts.len());
            let delay = if doubled <= policy.max_delay_seconds {
                doubled
            } else {
                policy.max_delay_seconds as int
            };
            now.is_not_before(attempts.last(), delay)
        }),
{
    lemma_vocabulary(*old(engine), *target, failure, now);
}

/// Exponential backoff between two attempts: where both are decided on in the state that the first
/// left, and nothing else was attempted, the second waits at least twice as long as the first had
/// to, up to the greatest delay.
pub proof fn each_wait_is_twice_the_last(
    policy: ResolvedPolicy,
    policy_ref: &ResolvedPolicy,
    n: usize,
    next: usize,
    asked: Option<u64>,
    first: u64,
    second: u64,
)
    requires
        *policy_ref == policy,
        policy.backoff != Some(BackoffKind::Fixed),
        asked is None,
        next == n + 1,
        call_ensures(policy::retry_delay_seconds, (policy_ref, n, asked), first),
        call_ensures(policy::retry_delay_seconds, (policy_ref, next, asked), second),
    ensures
        first <= policy.max_delay_seconds,
        2 * first <= policy.max_delay_seconds ==> second == 2 * first,
        2 * first > policy.max_delay_seconds ==> second == policy.max_delay_seconds,
        n == 0 && policy.initial_delay_seconds <= policy.max_delay_seconds ==> first
            == policy.initial_delay_seconds,
{
    lemma2_to64();
    lemma_pow2_unfold(next as nat);
    let d = policy.initial_delay_seconds as int;
    assert(d * pow2(next as nat) == 2 * (d * pow2(n as nat))) by (nonlinear_arith)
        requires
            pow2(next as nat) == 2 * pow2(n as nat),
    ;
    assert(d * pow2(n as nat) >= 0) by (nonlinear_arith)
        requires
            d >= 0,
    ;
    assert(d * pow2(0) == d) by (nonlinear_arith)
        requires
            pow2(0) == 1,
    ;
}

/// A fixed policy waits as long before every attempt, and no policy waits less than the provider
/// asks.
pub proof fn fixed_waits_stay_and_requests_are_honoured(
    policy_ref: &ResolvedPolicy,
    n: usize,
    asked: Option<u64>,
    r: u64,
)
    requires
        call_ensures(policy::retry_delay_seconds, (policy_ref, n, asked), r),
    ensures
        policy_ref.backoff == Some(BackoffKind::Fixed) && asked is None ==> r
            == policy_ref.initial_delay_seconds,
        asked matches Some(seconds) ==> r >= seconds,
        policy_ref.backoff == Some(BackoffKind::Fixed) && asked is Some ==> r
            == policy_ref.initial_delay_seconds || r == asked->0,
        r == due_after(*policy_ref, n as nat, asked),
{
}

/// A failed turn that is to be retried and was not continued is answered by what counts, by the time
/// that has passed, and by whether the engine runs dry.
pub proof fn retries_wait_and_end(
    engine: &mut WatchEngine,
    target: &WatchTarget,
    failure: Failure,
    now: Timestamp,
    condition: &str,
    policy: ResolvedPolicy,
    r: Decision,
)
    requires
        call_ensures(
            WatchEngine::consider,
            (engine, target, Observation::Failed(failure), now),
            r,
        ),
        is_policy_of(*old(engine), failure, condition, policy),
        policy.action == PolicyAction::Retry,
        !was_continued(old(engine).state, failure),
        since_when(*old(engine), *target, failure, now).nanos < 1_000_000_000,
        -8_334_601_228_800 <= since_when(*old(engine), *target, failure, now).seconds,
    ensures
        ({
            let n = counted(*old(engine), *target, now).len();
            let from = since_when(*old(engine), *target, failure, now);
            let delay = due_after(policy, n, failure.retry_after_seconds);
            let spent = n >= policy.max_attempts;
            let off = from.seconds + delay > 8_210_266_876_799;
            let early = now.seconds * 1_000_000_000 + now.nanos < (from.seconds + delay)
                * 1_000_000_000 + from.nanos;
            match r {
                Decision::Nothing => false,
                Decision::BeyondCalendar(found) => !spent && off && found == failure,
                Decision::Attempt(candidate) => {
                    &&& !spent && !off && !old(engine).dry_run
                    &&& now.nanos < 1_000_000_000 ==> !early
                    &&& candidate.attempt == n + 1
                    &&& candidate.max_attempts == policy.max_attempts
                    &&& candidate.failure == failure
                    &&& candidate.target == *target
                },
                Decision::Report(event) => {
                    &&& event.failure == Some(failure)
                    &&& event.condition is Some && event.condition->0@ == failure.condition@
                    &&& event.target@ == target.provider@ + ":"@ + target.session_id@
                    &&& event.timestamp == now
                    &&& event.receipt is None
                    &&& event.max_attempts == Some(policy.max_attempts)
                    &&& if spent {
                        &&& event.kind@ == "retry.exhausted"@
                        &&& event.attempt == Some(n as usize)
                        &&& event.message@ == "retry limit reached ("@ + text::decimal_view(n)
                            + "/"@ + text::decimal_view(policy.max_attempts as nat) + ")"@
                        &&& event.prompt is None
                    } else {
                        &&& !off
                        &&& event.attempt == Some((n + 1) as usize)
                        &&& now.nanos < 1_000_000_000 ==> (event.kind@ == "retry.waiting"@
                            <==> early) && (event.kind@ == "retry.dry_run"@ <==> !early
                            && old(engine).dry_run)
                        &&& event.kind@ == "retry.waiting"@ ==> event.prompt is None
                            && event.message@ == failure.condition@
                            + " matched retry policy; next attempt after "@ + time::shown_time(
                            Timestamp { seconds: (from.seconds + delay) as i64, nanos: from.nanos },
                        )
                        &&& event.kind@ == "retry.dry_run"@ ==> event.prompt is Some
                            && event.message@ == "would resume after "@ + failure.condition@
                    }
                },
            }
        }),
        ({
            let turn = turn_name(failure);
            let before = old(engine).state;
            let after = final(engine).state;
            &&& after.observed@.contains_key(turn)
            &&& after.observed@[turn] == (if before.observed@.contains_key(turn) {
                before.observed@[turn]
            } else {
                now
            })
            &&& after.handled == before.handled
            &&& after.pending_recoveries == before.pending_recoveries
            &&& after.recovery_outcomes == before.recovery_outcomes
            &&& after.attempts@.contains_key(session_name(target.provider@, target.session_id@))
                ==> after.attempts@[session_name(target.provider@, target.session_id@)]@ == counted(
                *old(engine),
                *target,
                now,
            )
        }),
{
    lemma_vocabulary(*old(engine), *target, failure, now);
    reveal_strlit("retry.exhausted");
    reveal_strlit("retry.waiting");
    reveal_strlit("retry.dry_run");
    assert("retry.waiting"@[6] == 'w' && "retry.dry_run"@[6] == 'd');
    let n = counted(*old(engine), *target, now).len();
    let from = since_when(*old(engine), *target, failure, now);
    let delay = due_after(policy, n, failure.retry_after_seconds);
    assert(delay == old(engine).delay_before(failure, n));
    assert(policy.initial_delay_seconds * pow2(n) >= 0) by (nonlinear_arith)
        requires
            policy.initial_delay_seconds >= 0,
    ;
    match r {
        Decision::Report(event) => {
            assert(event@.kind == event.kind@);
            assert(event@.prompt == text::option_view(event.prompt));
            assert(event@.condition == text::option_view(event.condition));
        },
        _ => {},
    }
}

/// A turn that was continued is answered with nothing, and so is one that was skipped under a policy
/// that skips; a policy that skips reports every other failure once and remembers it.
pub proof fn handled_turns_get_no_second_answer(
    engine: &mut WatchEngine,
    target: &WatchTarget,
    failure: Failure,
    now: Timestamp,
    condition: &str,
    policy: ResolvedPolicy,
    r: Decision,
)
    requires
        call_ensures(
            WatchEngine::consider,
            (engine, target, Observation::Failed(failure), now),
            r,
        ),
        is_policy_of(*old(engine), failure, condition, policy),
    ensures
        r is Nothing <==> was_continued(old(engine).state, failure) || (policy.action
            == PolicyAction::Skip && done_about(old(engine).state, failure) == Some("skipped"@)),
        was_continued(old(engine).state, failure) ==> final(engine).state == old(engine).state,
        policy.action == PolicyAction::Skip && !(r is Nothing) ==> {
            &&& r matches Decision::Report(event) && event.kind@ == "failure.skipped"@
                && event.message@ == failure.condition@ + " matched skip policy"@
                && event.failure == Some(failure) && event.target@ == target.provider@ + ":"@
                + target.session_id@
            &&& done_about(final(engine).state, failure) == Some("skipped"@)
        },
        final(engine).unresolved_targets@ == old(engine).unresolved_targets@.insert(
            target.provider@ + ":"@ + target.session_id@,
            (),
        ),
{
    lemma_vocabulary(*old(engine), *target, failure, now);
    lemma_vocabulary(*final(engine), *target, failure, now);
    match r {
        Decision::Report(event) => {
            assert(event@.kind == event.kind@);
        },
        _ => {},
    }
}

/// A session whose latest turn did not fail is left alone: it counts as resolved, and its attempts
/// are forgotten unless a recovery of it is in flight. A provider that cannot say changes nothing.
pub proof fn healthy_sessions_are_left_alone(
    engine: &mut WatchEngine,
    target: &WatchTarget,
    observation: Observation,
    now: Timestamp,
    r: Decision,
)
    requires
        call_ensures(WatchEngine::consider, (engine, target, observation, now), r),
        !(observation is Failed),
    ensures
        observation is Healthy ==> r is Nothing && !final(engine).unresolved_targets@.contains_key(
            target.provider@ + ":"@ + target.session_id@,
        ),
        observation is Healthy && (forall|turn: Seq<char>| #[trigger]
            old(engine).state.pending_recoveries@.contains_key(turn) ==> !(old(engine).state.pending_recoveries@[turn].provider@ == target.provider@ && old(engine).state.pending_recoveries@[turn].session_id@ == target.session_id@)) ==> !final(engine).state.attempts@.contains_key(target.provider@ + ":"@ + target.session_id@),
        observation matches Observation::Unavailable(reason) ==> *final(engine) == *old(engine) && (
        r matches Decision::Report(event) && event.kind@ == "provider.error"@ && event.message@
            == reason@),
{
    match r {
        Decision::Report(event) => {
            assert(event@.kind == event.kind@);
        },
        _ => {},
    }
}

/// The prompt of a continuation, and of the report that stands for one in a dry run, is what a call
/// renders from the policy's template, the failure, the number of the attempt and the limit.
pub proof fn continuations_send_the_rendered_prompt(
    engine: &mut WatchEngine,
    target: &WatchTarget,
    failure: Failure,
    failure_ref: &Failure,
    now: Timestamp,
    condition: &str,
    policy: ResolvedPolicy,
    template: &str,
    attempt: usize,
    prompt: String,
    r: Decision,
)
    requires
        call_ensures(
            WatchEngine::consider,
            (engine, target, Observation::Failed(failure), now),
            r,
        ),
        is_policy_of(*old(engine), failure, condition, policy),
        *failure_ref == failure,
        template@ == policy.prompt@,
        attempt == counted(*old(engine), *target, now).len() + 1,
        call_ensures(
            policy::render_prompt,
            (template, failure_ref, attempt, policy.max_attempts),
            prompt,
        ),
    ensures
        r matches Decision::Attempt(candidate) ==> candidate.prompt@ == prompt@,
        r matches Decision::Report(event) ==> event.prompt is None || event.prompt->0@ == prompt@,
{
    lemma_vocabulary(*old(engine), *target, failure, now);
    match r {
        Decision::Report(event) => {
            assert(event@.prompt == text::option_view(event.prompt));
        },
        _ => {},
    }
}

/// The prompt names the attempt: where a template holds `{attempt}` between texts without braces, a
/// continuation sends the number of the attempts that count and one more in its place.
pub proof fn prompts_name_the_attempt(
    engine: &mut WatchEngine,
    target: &WatchTarget,
    failure: Failure,
    failure_ref: &Failure,
    now: Timestamp,
    condition: &str,
    policy: ResolvedPolicy,
    template: &str,
    rest: &str,
    rest_prompt: String,
    prompt: String,
    attempt: usize,
    before: Seq<char>,
    candidate: Candidate,
)
    requires
        call_ensures(
            WatchEngine::consider,
            (engine, target, Observation::Failed(failure), now),
            Decision::Attempt(candidate),
        ),
        is_policy_of(*old(engine), failure, condition, policy),
        *failure_ref == failure,
        prompts::plainly_told(failure),
        prompts::braceless(before),
        prompts::braceless(rest@),
        template@ == policy.prompt@,
        template@ == before + "{attempt}"@ + rest@,
        attempt == counted(*old(engine), *target, now).len() + 1,
        call_ensures(
            policy::render_prompt,
            (template, failure_ref, attempt, policy.max_attempts),
            prompt,
        ),
        call_ensures(
            policy::render_prompt,
            (rest, failure_ref, attempt, policy.max_attempts),
            rest_prompt,
        ),
    ensures
        candidate.prompt@ == before + text::decimal_view(
            (counted(*old(engine), *target, now).len() + 1) as nat,
        ) + rest@,
{
    continuations_send_the_rendered_prompt(
        engine,
        target,
        failure,
        failure_ref,
        now,
        condition,
        policy,
        template,
        attempt,
        prompt,
        Decision::Attempt(candidate),
    );
    prompts::placeholders_become_their_values(
        template,
        rest,
        failure_ref,
        attempt,
        policy.max_attempts,
        before,
        "{attempt}"@,
        text::decimal_view(attempt as nat),
        prompt,
        rest_prompt,
    );
    prompts::templates_without_placeholders_stay(
        rest,
        failure_ref,
        attempt,
        policy.max_attempts,
        rest_prompt,
    );
}

/// A manual retry is granted exactly where the latest turn failed, the policy retries and attempts
/// are left. It waits for no delay, and what was done about the turn before does not matter.
pub proof fn manual_retries_need_a_failure_and_a_budget(
    engine: &mut WatchEngine,
    target: &WatchTarget,
    latest: Option<Failure>,
    now: Timestamp,
    condition: &str,
    policy: ResolvedPolicy,
    r: Result<Candidate, RetryRefusal>,
)
    requires
        call_ensures(WatchEngine::consider_manual, (engine, target, latest, now), r),
        latest matches Some(failure) ==> is_policy_of(*old(engine), failure, condition, policy),
    ensures
        latest is None ==> *final(engine) == *old(engine) && (r matches Err(
            RetryRefusal::NoFailure { session_id },
        ) && session_id == target.session_id),
        latest matches Some(failure) ==> {
            let n = counted(*old(engine), *target, now).len();
            &&& policy.action == PolicyAction::Skip ==> (r matches Err(
                RetryRefusal::Skipped { condition: skipped },
            ) && skipped == failure.condition)
            &&& policy.action == PolicyAction::Retry && n >= policy.max_attempts ==> (r matches Err(
                RetryRefusal::Exhausted { provider, session_id, attempts, max_attempts },
            ) && provider == target.provider && session_id == target.session_id && attempts == n
                && max_attempts == policy.max_attempts)
            &&& policy.action == PolicyAction::Retry && n < policy.max_attempts ==> (r matches Ok(
                candidate,
            ) && candidate.target == *target && candidate.failure == failure && candidate.attempt
                == n + 1 && candidate.max_attempts == policy.max_attempts)
            &&& final(engine).unresolved_targets@.contains_key(
                target.provider@ + ":"@ + target.session_id@,
            )
            &&& final(engine).state.handled == old(engine).state.handled
        },
{
    if latest is Some {
        lemma_vocabulary(*old(engine), *target, latest->0, now);
    }
}

/// A manual retry sends what a call renders from the policy's template, the failure, the number of
/// the attempt and the limit.
pub proof fn manual_retries_send_the_rendered_prompt(
    engine: &mut WatchEngine,
    target: &WatchTarget,
    failure: Failure,
    failure_ref: &Failure,
    now: Timestamp,
    condition: &str,
    policy: ResolvedPolicy,
    template: &str,
    attempt: usize,
    prompt: String,
    candidate: Candidate,
)
    requires
        call_ensures(
            WatchEngine::consider_manual,
            (engine, target, Some(failure), now),
            Ok(candidate),
        ),
        is_policy_of(*old(engine), failure, condition, policy),
        *failure_ref == failure,
        template@ == policy.prompt@,
        attempt == counted(*old(engine), *target, now).len() + 1,
        call_ensures(
            policy::render_prompt,
            (template, failure_ref, attempt, policy.max_attempts),
            prompt,
        ),
    ensures
        candidate.prompt@ == prompt@,
{
    lemma_vocabulary(*old(engine), *target, failure, now);
}

/// The prompt of a manual retry names the attempt and the limit: where a template holds
/// `{attempt}`, a text and `{max_attempts}` among texts without braces, both numbers stand there.
pub proof fn manual_prompts_name_the_attempt_and_the_limit(
    engine: &mut WatchEngine,
    target: &WatchTarget,
    failure: Failure,
    failure_ref: &Failure,
    now: Timestamp,
    condition: &str,
    policy: ResolvedPolicy,
    template: &str,
    tail: &str,
    end: &str,
    prompt: String,
    tail_prompt: String,
    end_prompt: String,
    attempt: usize,
    before: Seq<char>,
    between: Seq<char>,
    candidate: Candidate,
)
    requires
        call_ensures(
            WatchEngine::consider_manual,
            (engine, target, Some(failure), now),
            Ok(candidate),
        ),
        is_policy_of(*old(engine), failure, condition, policy),
        *failure_ref == failure,
        prompts::plainly_told(failure),
        prompts::braceless(before),
        prompts::braceless(between),
        prompts::braceless(end@),
        template@ == policy.prompt@,
        template@ == before + "{attempt}"@ + tail@,
        tail@ == between + "{max_attempts}"@ + end@,
        attempt == counted(*old(engine), *target, now).len() + 1,
        call_ensures(
            policy::render_prompt,
            (template, failure_ref, attempt, policy.max_attempts),
            prompt,
        ),
        call_ensures(
            policy::render_prompt,
            (tail, failure_ref, attempt, policy.max_attempts),
            tail_prompt,
        ),
        call_ensures(
            policy::render_prompt,
            (end, failure_ref, attempt, policy.max_attempts),
            end_prompt,
        ),
    ensures
        candidate.prompt@ == before + text::decimal_view(
            (counted(*old(engine), *target, now).len() + 1) as nat,
        ) + (between + text::decimal_view(policy.max_attempts as nat) + end@),
{
    manual_retries_send_the_rendered_prompt(
        engine,
        target,
        failure,
        failure_ref,
        now,
        condition,
        policy,
        template,
        attempt,
        prompt,
        candidate,
    );
    prompts::placeholders_become_their_values(
        template,
        tail,
        failure_ref,
        attempt,
        policy.max_attempts,
        before,
        "{attempt}"@,
        text::decimal_view(attempt as nat),
        prompt,
        tail_prompt,
    );
    prompts::placeholders_become_their_values(
        tail,
        end,
        failure_ref,
        attempt,
        policy.max_attempts,
        between,
        "{max_attempts}"@,
        text::decimal_view(policy.max_attempts as nat),
        tail_prompt,
        end_prompt,
    );
    prompts::templates_without_placeholders_stay(
        end,
        failure_ref,
        attempt,
        policy.max_attempts,
        end_prompt,
    );
}

/// A manual retry starts exactly where the session is watched and its permit, of the generation that
/// the retry was asked in, still covers it.
pub proof fn manual_retries_need_a_watched_session(
    engine: &WatchEngine,
    provider: &str,
    session_id: &str,
    permit: &RecoveryPermit,
    generation: u64,
    r: Result<WatchTarget, RetryRefusal>,
)
    requires
        call_ensures(
            WatchEngine::start_manual,
            (engine, provider, session_id, permit, generation),
            r,
        ),
    ensures
        ({
            let watched = exists|i: int|
                0 <= i < engine.targets@.len() && (#[trigger] engine.targets@[i]).provider@
                    == provider@ && engine.targets@[i].session_id@ == session_id@;
            &&& (r is Err && r->Err_0 is NotWatched) <==> !watched
            &&& r matches Ok(target) ==> target.provider@ == provider@ && target.session_id@
                == session_id@ && engine.targets@.contains(target) && permit.permits(
                target,
                generation,
            )
            &&& (r is Err && r->Err_0 is RevokedBeforeStart) ==> watched
            &&& r is Err ==> r->Err_0 is NotWatched || r->Err_0 is RevokedBeforeStart
        }),
{
    let targets = engine.targets@;
    if exists|i: int|
        0 <= i < targets.len() && (#[trigger] targets[i]).provider@ == provider@
            && targets[i].session_id@ == session_id@ {
        let i = choose|i: int|
            0 <= i < targets.len() && (#[trigger] targets[i]).provider@ == provider@
                && targets[i].session_id@ == session_id@;
        lemma_first_target(targets, provider@, session_id@, i);
    }
    match r {
        Ok(target) => {
            let i = choose|i: int| #[trigger]
                crate::engine::manual::first_target(targets, i, provider@, session_id@) && targets[i]
                    == target;
            assert(targets[i] == target);
        },
        Err(RetryRefusal::RevokedBeforeStart) => {
            let i = choose|i: int| #[trigger]
                crate::engine::manual::first_target(targets, i, provider@, session_id@);
            assert(targets[i].provider@ == provider@);
        },
        _ => {},
    }
}

proof fn lemma_first_target(
    targets: Seq<WatchTarget>,
    provider: Seq<char>,
    session: Seq<char>,
    i: int,
)
    requires
        0 <= i < targets.len(),
        targets[i].provider@ == provider,
        targets[i].session_id@ == session,
    ensures
        crate::engine::manual::is_watched(targets, provider, session),
    decreases i,
{
    if exists|k: int|
        0 <= k < i && (#[trigger] targets[k]).provider@ == provider && targets[k].session_id@
            == session {
        let k = choose|k: int|
            0 <= k < i && (#[trigger] targets[k]).provider@ == provider && targets[k].session_id@
                == session;
        lemma_first_target(targets, provider, session, k);
    } else {
        assert(crate::engine::manual::first_target(targets, i, provider, session));
    }
}

/// Every refusal of a manual retry says in words why it was refused.
pub proof fn refused_retries_say_why(refusal: &RetryRefusal, r: String)
    requires
        call_ensures(RetryRefusal::message, (refusal,), r),
    ensures
        match *refusal {
            RetryRefusal::NotWatched { provider, session_id } => r@ == "session "@ + (provider@
                + ":"@ + session_id@) + " is not being guarded"@,
            RetryRefusal::NoFailure { session_id } => r@ == "session "@ + session_id@
                + " has no failed latest turn"@,
            RetryRefusal::Skipped { condition } => r@ == condition@
                + " is configured to skip; change the policy before retrying"@,
            RetryRefusal::Exhausted { provider, session_id, attempts, max_attempts } => r@
                == "retry limit reached for "@ + (provider@ + ":"@ + session_id@) + " ("@
                + text::decimal_view(attempts as nat) + "/"@ + text::decimal_view(
                max_attempts as nat,
            ) + ")"@,
            RetryRefusal::RevokedBeforeStart => r@
                == "guard state changed before the manual retry could start"@,
            RetryRefusal::RevokedBeforeSend => r@
                == "guard state changed before the manual retry was sent"@,
        },
{
}

/// A continuation goes on only while it is permitted and the failed turn is still the latest, and it
/// goes on unchanged.
pub proof fn continuations_are_checked_again(
    candidate: Candidate,
    allowed: bool,
    latest: &Option<Failure>,
    now: Timestamp,
    rechecked: Result<Candidate, EngineEvent>,
    confirmed: Result<Confirmed, EngineEvent>,
)
    requires
        call_ensures(Candidate::recheck, (candidate, allowed, now), rechecked),
        call_ensures(Candidate::confirm, (candidate, allowed, latest, now), confirmed),
    ensures
        rechecked is Ok <==> allowed,
        rechecked matches Ok(same) ==> same == candidate,
        confirmed is Ok <==> allowed && latest is Some && latest->0.turn_id@
            == candidate.failure.turn_id@,
        confirmed matches Ok(same) ==> same.plan() == candidate,
        rechecked matches Err(event) ==> event.kind@ == "retry.cancelled"@ && event.failure == Some(
            candidate.failure,
        ),
        confirmed matches Err(event) ==> event.kind@ == "retry.cancelled"@ && event.message@ == (
        if allowed {
            "session changed before resume; no message sent"@
        } else {
            "guard state changed before resume; no message sent"@
        }),
{
    match rechecked {
        Err(event) => {
            assert(event@.kind == event.kind@);
        },
        _ => {},
    }
    match confirmed {
        Err(event) => {
            assert(event@.kind == event.kind@);
        },
        _ => {},
    }
}

/// What is cleared is on record as one more attempt, at this time; what is not is no attempt.
pub proof fn cleared_continuations_count_as_attempts(
    engine: &mut WatchEngine,
    confirmed: Confirmed,
    allowed: bool,
    now: Timestamp,
    r: Result<Cleared, EngineEvent>,
)
    requires
        call_ensures(WatchEngine::clear, (engine, confirmed, allowed, now), r),
    ensures
        r is Ok <==> allowed,
        !allowed ==> *final(engine) == *old(engine),
        r matches Ok(cleared) ==> cleared.plan() == confirmed.plan() && ({
            let name = session_name(
                confirmed.plan().target.provider@,
                confirmed.plan().target.session_id@,
            );
            let made = if old(engine).state.attempts@.contains_key(name) {
                old(engine).state.attempts@[name]@
            } else {
                Seq::empty()
            };
            &&& final(engine).state.attempts@.contains_key(name)
            &&& final(engine).state.attempts@[name]@ == made.push(now)
            &&& final(engine).state.handled == old(engine).state.handled
        }),
{
    if allowed {
        let name = session_name(
            confirmed.plan().target.provider@,
            confirmed.plan().target.session_id@,
        );
        assert(confirmed.plan().target.key_view() == name);
        assert(runtime::attempts_of(final(engine).state.attempts@, name).len() > 0);
    }
}

/// What is cleared on request is on record as one more attempt too.
pub proof fn manual_continuations_count_as_attempts(
    engine: &mut WatchEngine,
    candidate: Candidate,
    allowed: bool,
    now: Timestamp,
    r: Result<Cleared, RetryRefusal>,
)
    requires
        call_ensures(WatchEngine::clear_manual, (engine, candidate, allowed, now), r),
    ensures
        r is Ok <==> allowed,
        !allowed ==> *final(engine) == *old(engine) && r->Err_0 is RevokedBeforeSend,
        r matches Ok(cleared) ==> cleared.plan() == candidate && ({
            let name = session_name(candidate.target.provider@, candidate.target.session_id@);
            let made = if old(engine).state.attempts@.contains_key(name) {
                old(engine).state.attempts@[name]@
            } else {
                Seq::empty()
            };
            &&& final(engine).state.attempts@.contains_key(name)
            &&& final(engine).state.attempts@[name]@ == made.push(now)
            &&& final(engine).state.handled == old(engine).state.handled
        }),
{
    if allowed {
        let name = session_name(candidate.target.provider@, candidate.target.session_id@);
        assert(candidate.target.key_view() == name);
        assert(runtime::attempts_of(final(engine).state.attempts@, name).len() > 0);
    }
}

/// A continuation that was sent is remembered and in flight, one whose acknowledgement was lost is
/// remembered, and one that failed is neither, so that it can be tried again.
pub proof fn continuations_are_remembered_by_their_outcome(
    engine: &mut WatchEngine,
    cleared: Cleared,
    outcome: SendOutcome,
    automatic: bool,
    now: Timestamp,
    r: EngineEvent,
)
    requires
        call_ensures(WatchEngine::conclude, (engine, cleared, outcome, automatic, now), r),
    ensures
        ({
            let failure = cleared.plan().failure;
            let turn = turn_name(failure);
            let before = old(engine).state;
            let after = final(engine).state;
            &&& r.timestamp == now
            &&& r.failure == Some(failure)
            &&& r.prompt is Some && r.prompt->0@ == cleared.plan().prompt@
            &&& r.attempt == Some(cleared.plan().attempt)
            &&& r.max_attempts == Some(cleared.plan().max_attempts)
            &&& match outcome {
                SendOutcome::Sent(receipt) => {
                    &&& done_about(after, failure) == Some("resumed"@)
                    &&& after.handled@[turn].at == now
                    &&& after.pending_recoveries@.contains_key(turn)
                    &&& after.pending_recoveries@[turn].recovery_turn_id == receipt.turn_id
                    &&& after.pending_recoveries@[turn].automatic == automatic
                    &&& after.pending_recoveries@[turn].started_at == now
                    &&& after.pending_recoveries@[turn].observation_failures == 0
                    &&& after.pending_recoveries@[turn].failure_key@ == turn
                    &&& r.kind@ == "retry.sent"@
                    &&& r.receipt == Some(receipt)
                    &&& r.message@ == "started turn "@ + receipt.turn_id@ + " after "@
                        + failure.condition@
                },
                SendOutcome::AcknowledgementUnknown => {
                    &&& done_about(after, failure) == Some("unconfirmed"@)
                    &&& after.handled@[turn].at == now
                    &&& after.pending_recoveries == before.pending_recoveries
                    &&& r.kind@ == "retry.unconfirmed"@
                    &&& r.receipt is None
                },
                SendOutcome::Failed(reason) => {
                    &&& after == before
                    &&& r.kind@ == "retry.failed"@
                    &&& r.message@ == reason@
                    &&& r.receipt is None
                },
            }
            &&& forall|other: Seq<char>|
                other != turn ==> (#[trigger] after.handled@.contains_key(other)
                    <==> before.handled@.contains_key(other))
            &&& after.recovery_outcomes == before.recovery_outcomes
            &&& after.attempts == before.attempts
        }),
{
    let failure = cleared.plan().failure;
    assert(failure.key_view() =~= turn_name(failure));
    assert(r@.kind == r.kind@);
    assert(r@.prompt == text::option_view(r.prompt));
    let turn = turn_name(failure);
    let before = old(engine).state;
    let after = final(engine).state;
    assert forall|other: Seq<char>| other != turn implies (#[trigger] after.handled@.contains_key(
        other,
    ) <==> before.handled@.contains_key(other)) by {
        assert(before.handled@.dom().insert(turn).contains(other)
            == before.handled@.dom().contains(other));
    }
}

/// A permit of a generation of the watchlist permits exactly the sessions that it was given, to those
/// who plan in that generation, while the service lives.
pub proof fn permits_cover_what_they_were_given(
    live: bool,
    targets: &Vec<WatchTarget>,
    generation: u64,
    permit: RecoveryPermit,
    permit_ref: &RecoveryPermit,
    target: &WatchTarget,
    planned: u64,
    r: bool,
)
    requires
        call_ensures(RecoveryPermit::new, (live, targets, generation), permit),
        *permit_ref == permit,
        call_ensures(RecoveryPermit::allows, (permit_ref, target, planned), r),
    ensures
        r <==> live && planned == generation && exists|i: int|
            0 <= i < targets@.len() && (#[trigger] targets@[i]).provider@ + ":"@
                + targets@[i].session_id@ == target.provider@ + ":"@ + target.session_id@,
{
    let key = target.key_view();
    if exists|i: int|
        0 <= i < targets@.len() && (#[trigger] targets@[i]).provider@ + ":"@
            + targets@[i].session_id@ == target.provider@ + ":"@ + target.session_id@ {
        let i = choose|i: int|
            0 <= i < targets@.len() && (#[trigger] targets@[i]).provider@ + ":"@
                + targets@[i].session_id@ == target.provider@ + ":"@ + target.session_id@;
        assert(targets@[i].key_view() == key);
    }
    if permit.covers(key) {
        let i = choose|i: int| 0 <= i < targets@.len() && (#[trigger] targets@[i]).key_view() == key;
        assert(targets@[i].provider@ + ":"@ + targets@[i].session_id@ == target.provider@ + ":"@
            + target.session_id@);
    }
}

/// A look at a recovery in flight: an ended turn counts as success or failure, one in progress is
/// waited for up to seven days, and one that cannot be seen is given up after seven days, or after
/// one day and twenty looks where its session is not watched any more.
pub proof fn recoveries_in_flight_end(
    engine: &mut WatchEngine,
    pending: &PendingRecovery,
    look: Look,
    now: Timestamp,
    r: Option<EngineEvent>,
)
    requires
        call_ensures(WatchEngine::observe_recovery, (engine, pending, look, now), r),
        old(engine).state.pending_recoveries@.contains_key(pending.failure_key@),
        now.nanos < 1_000_000_000,
        pending.started_at.nanos < 1_000_000_000,
    ensures
        ({
            let turn = pending.failure_key@;
            let before = old(engine).state;
            let after = final(engine).state;
            let age = (now.seconds * 1_000_000_000 + now.nanos) - (pending.started_at.seconds
                * 1_000_000_000 + pending.started_at.nanos);
            let day: int = 86_400_000_000_000;
            let watched = exists|i: int|
                0 <= i < old(engine).targets@.len() && (#[trigger] old(
                    engine).targets@[i]).provider@ == pending.provider@ && old(
                    engine).targets@[i].session_id@ == pending.session_id@;
            let looks = before.pending_recoveries@[turn].observation_failures + 1;
            let given_up = match look {
                Look::Seen(TurnOutcome::Completed) => false,
                Look::Seen(TurnOutcome::Failed) => false,
                Look::Seen(TurnOutcome::InProgress) => age >= 7 * day,
                _ => age >= 7 * day || (age >= day && looks >= 20 && !watched),
            };
            let ended = look == Look::Seen(TurnOutcome::Completed) || look == Look::Seen(
                TurnOutcome::Failed,
            );
            &&& after.pending_recoveries@.contains_key(turn) <==> !ended && !given_up
            &&& ended ==> after.recovery_outcomes@ == before.recovery_outcomes@.push(
                RecoveryOutcome {
                    completed_at: now,
                    automatic: before.pending_recoveries@[turn].automatic,
                    success: look == Look::Seen(TurnOutcome::Completed),
                },
            )
            &&& !ended ==> after.recovery_outcomes@ == before.recovery_outcomes@
            &&& !ended && !given_up && look != Look::Seen(TurnOutcome::InProgress) && looks
                <= u32::MAX ==> after.pending_recoveries@[turn].observation_failures == looks
            &&& after.handled == before.handled
            &&& after.attempts == before.attempts
            &&& r is Some <==> ended || given_up
            &&& r matches Some(event) ==> {
                &&& event.kind@ == (if given_up {
                    "recovery.unconfirmed"@
                } else if look == Look::Seen(TurnOutcome::Completed) {
                    "recovery.completed"@
                } else {
                    "recovery.failed"@
                })
                &&& event.target@ == pending.provider@ + ":"@ + pending.session_id@
                &&& event.timestamp == now
            }
        }),
{
    let watched = exists|i: int|
        0 <= i < old(engine).targets@.len() && (#[trigger] old(engine).targets@[i]).provider@
            == pending.provider@ && old(engine).targets@[i].session_id@ == pending.session_id@;
    assert(crate::engine::pending::is_target(old(engine).targets@, *pending) == watched);
    match r {
        Some(event) => {
            assert(event@.kind == event.kind@);
        },
        _ => {},
    }
}

/// Thirty days are remembered: a record of a turn that is at most so old is kept as it is, and an
/// older one is forgotten. Recoveries in flight are not forgotten at all.
pub proof fn thirty_days_are_remembered(
    state: &mut RuntimeState,
    now: Timestamp,
    turn: Seq<char>,
    session: Seq<char>,
)
    requires
        call_ensures(RuntimeState::prune, (state, now), ()),
    ensures
        final(state).handled@.contains_key(turn) <==> old(state).handled@.contains_key(turn) && old(
            state).handled@[turn].at.is_not_before(now, -2_592_000),
        final(state).handled@.contains_key(turn) ==> final(state).handled@[turn] == old(
            state).handled@[turn],
        final(state).observed@.contains_key(turn) <==> old(state).observed@.contains_key(turn)
            && old(state).observed@[turn].is_not_before(now, -2_592_000),
        final(state).observed@.contains_key(turn) ==> final(state).observed@[turn] == old(
            state).observed@[turn],
        old(state).attempts@.contains_key(session) ==> runtime::attempts_of(
            final(state).attempts@,
            session,
        ) == old(state).attempts@[session]@.filter(
            |t: Timestamp| t.is_not_before(now, -2_592_000),
        ),
        !old(state).attempts@.contains_key(session) ==> runtime::attempts_of(
            final(state).attempts@,
            session,
        ).len() == 0,
        final(state).pending_recoveries == old(state).pending_recoveries,
        final(state).recovery_outcomes@.len() <= 10_000,
{
    let mine = |t: Timestamp| t.is_not_before(now, -2_592_000);
    let made = runtime::attempts_of(old(state).attempts@, session);
    assert(runtime::memory_offset() == -2_592_000);
    assert(made.filter(mine) == runtime::since(made, now, -2_592_000));
    assert(runtime::attempts_of(final(state).attempts@, session) == runtime::since(
        made,
        now,
        -2_592_000,
    ));
    if !old(state).attempts@.contains_key(session) {
        assert(made =~= Seq::empty());
        reveal(Seq::filter);
    }
}

/// The hands-free share: recoveries from a time on are counted as automatic, manual or failed, and
/// the share is that of the automatic ones among those that succeeded, in whole percent.
pub proof fn metrics_count_each_outcome_once(
    state: &RuntimeState,
    since: Timestamp,
    r: RecoveryMetrics,
)
    requires
        call_ensures(RuntimeState::metrics_since, (state, since), r),
    ensures
        r.automatic_recoveries == state.recovery_outcomes@.filter(
            |o: RecoveryOutcome| o.completed_at.is_not_before(since, 0) && o.success && o.automatic,
        ).len(),
        r.manual_recoveries == state.recovery_outcomes@.filter(
            |o: RecoveryOutcome| o.completed_at.is_not_before(since, 0) && o.success && !o.automatic,
        ).len(),
        r.failed_recoveries == state.recovery_outcomes@.filter(
            |o: RecoveryOutcome| o.completed_at.is_not_before(since, 0) && !o.success,
        ).len(),
        r.automatic_recoveries + r.manual_recoveries == 0 ==> r.hands_free_percent == 100,
        r.automatic_recoveries + r.manual_recoveries > 0 && r.automatic_recoveries * 100
            <= usize::MAX ==> r.hands_free_percent == (r.automatic_recoveries * 100) / (
        r.automatic_recoveries + r.manual_recoveries),
{
    let all = state.recovery_outcomes@;
    let a = |o: RecoveryOutcome| o.completed_at.is_not_before(since, 0) && o.success && o.automatic;
    let b = |o: RecoveryOutcome| o.completed_at.is_not_before(since, 0) && o.success && !o.automatic;
    let c = |o: RecoveryOutcome| o.completed_at.is_not_before(since, 0) && !o.success;
    lemma_same_filter(all, a, since, true, Some(true));
    lemma_same_filter(all, b, since, true, Some(false));
    lemma_same_filter(all, c, since, false, None);
}

proof fn lemma_same_filter(
    all: Seq<RecoveryOutcome>,
    pick: spec_fn(RecoveryOutcome) -> bool,
    since: Timestamp,
    success: bool,
    automatic: Option<bool>,
)
    requires
        forall|o: RecoveryOutcome|
            #![trigger pick(o)]
            pick(o) == (o.completed_at.is_not_before(since, 0) && o.success == success && (automatic
                is None || Some(o.automatic) == automatic)),
    ensures
        all.filter(pick) == runtime::outcomes_since(all, since, success, automatic),
{
    let other = |o: RecoveryOutcome|
        o.completed_at.is_not_before(since, 0) && o.success == success && (automatic is None
            || Some(o.automatic) == automatic);
    assert(pick =~= other);
}

} // verus!
