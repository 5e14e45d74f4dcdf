//! The delay before a retry and the prompt that it sends.

use vstd::arithmetic::power2::*;
use vstd::prelude::*;
use vstd::string::*;

use crate::config::ResolvedPolicy;
use crate::models::{BackoffKind, Failure};
use crate::text;

verus! {

/// The smaller of two numbers.
pub open spec fn smaller(a: int, b: int) -> int {
    if a <= b {
        a
    } else {
        b
    }
}

/// The greater of two numbers.
pub open spec fn greater(a: int, b: int) -> int {
    if a >= b {
        a
    } else {
        b
    }
}

/// The delay that a policy sets after so many attempts: always the first one, or one that doubles
/// with every attempt up to the maximum.
pub open spec fn configured_delay(
    backoff: Option<BackoffKind>,
    initial: int,
    maximum: int,
    attempts: nat,
) -> int {
    if backoff == Some(BackoffKind::Fixed) {
        initial
    } else {
        smaller(initial * pow2(attempts), maximum)
    }
}

/// The delay before a retry: what the policy sets, or what the provider asks for where that is
/// longer.
pub open spec fn retry_delay(
    backoff: Option<BackoffKind>,
    initial: int,
    maximum: int,
    attempts: nat,
    retry_after: Option<u64>,
) -> int {
    greater(
        configured_delay(backoff, initial, maximum, attempts),
        match retry_after {
            Some(seconds) => seconds as int,
            None => 0,
        },
    )
}

proof fn lemma_doubled_past(initial: int, at: nat, attempts: nat, maximum: int)
    requires
        initial >= 0,
        at <= attempts,
        initial * pow2(at) >= maximum,
    ensures
        initial * pow2(attempts) >= maximum,
{
    if at < attempts {
        lemma_pow2_strictly_increases(at, attempts);
    }
    assert(initial * pow2(attempts) >= initial * pow2(at)) by (nonlinear_arith)
        requires
            initial >= 0,
            pow2(at) <= pow2(attempts),
    ;
}

fn doubled(initial: u64, maximum: u64, attempts: usize) -> (r: u64)
    ensures
        r == smaller(initial * pow2(attempts as nat), maximum as int),
{
    if initial == 0 {
        assert(initial * pow2(attempts as nat) == 0) by (nonlinear_arith)
            requires
                initial == 0,
        ;
        return 0;
    }
    let mut delay: u128 = initial as u128;
    let mut i: usize = 0;
    proof {
        lemma2_to64();
        assert(initial * pow2(0) == initial);
    }
    while i < attempts && delay < maximum as u128
        invariant
            i <= attempts,
            delay == initial * pow2(i as nat),
            delay <= 0x2_0000_0000_0000_0000,
        decreases attempts - i,
    {
        proof {
            lemma_pow2_unfold((i + 1) as nat);
            assert(initial * (2 * pow2(i as nat)) == 2 * (initial * pow2(i as nat)))
                by (nonlinear_arith);
        }
        delay = delay * 2;
        i += 1;
    }
    if delay < maximum as u128 {
        delay as u64
    } else {
        proof {
            lemma_doubled_past(initial as int, i as nat, attempts as nat, maximum as int);
        }
        maximum
    }
}

/// The delay before the next retry under a policy, after so many attempts.
pub fn retry_delay_seconds(
    policy: &ResolvedPolicy,
    attempts: usize,
    retry_after: Option<u64>,
) -> (r: u64)
    ensures
        r == retry_delay(
            policy.backoff,
            policy.initial_delay_seconds as int,
            policy.max_delay_seconds as int,
            attempts as nat,
            retry_after,
        ),
{
    let fixed = match policy.backoff {
        Some(kind) => kind == BackoffKind::Fixed,
        None => false,
    };
    let configured: u64 = if fixed {
        policy.initial_delay_seconds
    } else {
        doubled(policy.initial_delay_seconds, policy.max_delay_seconds, attempts)
    };
    let wanted: u64 = match retry_after {
        Some(seconds) => seconds,
        None => 0,
    };
    if configured >= wanted {
        configured
    } else {
        wanted
    }
}

/// Every retry is delayed, and its delay is bounded: it lies between the first delay and the
/// greatest, unless the provider asks for more, and then it is what the provider asks for.
pub proof fn retries_are_delayed_and_bounded(
    backoff: Option<BackoffKind>,
    initial: int,
    maximum: int,
    attempts: nat,
    retry_after: Option<u64>,
)
    requires
        0 < initial <= maximum,
    ensures
        ({
            let delay = retry_delay(backoff, initial, maximum, attempts, retry_after);
            &&& delay >= initial
            &&& retry_after is None ==> delay <= maximum
            &&& retry_after matches Some(seconds) ==> delay >= seconds && (delay <= maximum || delay
                == seconds)
        }),
{
    lemma_pow2_pos(attempts);
    assert(initial * pow2(attempts) >= initial) by (nonlinear_arith)
        requires
            initial > 0,
            pow2(attempts) >= 1,
    ;
}

/// The delay never shrinks as attempts are made.
pub proof fn delays_do_not_shrink(
    backoff: Option<BackoffKind>,
    initial: int,
    maximum: int,
    a: nat,
    b: nat,
    retry_after: Option<u64>,
)
    requires
        initial >= 0,
        a <= b,
    ensures
        retry_delay(backoff, initial, maximum, a, retry_after) <= retry_delay(
            backoff,
            initial,
            maximum,
            b,
            retry_after,
        ),
{
    if a < b {
        lemma_pow2_strictly_increases(a, b);
    }
    assert(initial * pow2(b) >= initial * pow2(a)) by (nonlinear_arith)
        requires
            initial >= 0,
            pow2(a) <= pow2(b),
    ;
}

/// The model that a prompt names.
pub open spec fn model_name(failure: Failure) -> Seq<char> {
    match failure.model {
        Some(model) => model@,
        None => "unknown"@,
    }
}

/// A prompt template with its placeholders filled in, one kind after the other.
pub open spec fn rendered(
    template: Seq<char>,
    failure: Failure,
    attempt: nat,
    max_attempts: nat,
) -> Seq<char> {
    let with_provider = text::replaced(template, "{provider}"@, failure.provider@);
    let with_model = text::replaced(with_provider, "{model}"@, model_name(failure));
    let with_condition = text::replaced(with_model, "{condition}"@, failure.condition@);
    let with_code = text::replaced(with_condition, "{provider_code}"@, failure.provider_code@);
    let with_attempt = text::replaced(with_code, "{attempt}"@, text::decimal_view(attempt));
    text::replaced(with_attempt, "{max_attempts}"@, text::decimal_view(max_attempts))
}

/// Fills in the placeholders of a prompt template.
pub fn render_prompt(
    template: &str,
    failure: &Failure,
    attempt: usize,
    max_attempts: usize,
) -> (r: String)
    ensures
        r@ == rendered(template@, *failure, attempt as nat, max_attempts as nat),
{
    proof {
        reveal_strlit("{provider}");
        reveal_strlit("{model}");
        reveal_strlit("{condition}");
        reveal_strlit("{provider_code}");
        reveal_strlit("{attempt}");
        reveal_strlit("{max_attempts}");
    }
    let model: &str = match &failure.model {
        Some(model) => model.as_str(),
        None => "unknown",
    };
    let with_provider = text::replace(template, "{provider}", failure.provider.as_str());
    let with_model = text::replace(with_provider.as_str(), "{model}", model);
    let with_condition = text::replace(
        with_model.as_str(),
        "{condition}",
        failure.condition.as_str(),
    );
    let with_code = text::replace(
        with_condition.as_str(),
        "{provider_code}",
        failure.provider_code.as_str(),
    );
    let with_attempt = text::replace(
        with_code.as_str(),
        "{attempt}",
        text::decimal(attempt as u64).as_str(),
    );
    text::replace(
        with_attempt.as_str(),
        "{max_attempts}",
        text::decimal(max_attempts as u64).as_str(),
    )
}

} // verus!
