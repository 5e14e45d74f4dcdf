//! The conditions that provider failures are sorted into, and what is done about each by default.

use vstd::prelude::*;
use vstd::string::*;

use crate::models::{BackoffKind, PolicyAction};
use crate::text;

verus! {

/// The recovery prompt of every condition that has none of its own.
pub const DEFAULT_PROMPT: &'static str = "Continue the previous unfinished task. Inspect the latest checkpoint and persisted changes first. Do not repeat completed work.";

/// A condition and its default policy.
#[derive(Clone, Copy, Debug)]
pub struct ConditionDefinition {
    pub name: &'static str,
    pub description: &'static str,
    pub action: PolicyAction,
    pub backoff: Option<BackoffKind>,
    pub initial_delay_seconds: u64,
    pub max_delay_seconds: u64,
    pub max_attempts: usize,
}

/// A condition that is retried up to five times, with delays that double.
pub open spec fn retry_condition(
    name: &'static str,
    description: &'static str,
    initial_delay_seconds: u64,
    max_delay_seconds: u64,
) -> ConditionDefinition {
    ConditionDefinition {
        name,
        description,
        action: PolicyAction::Retry,
        backoff: Some(BackoffKind::Exponential),
        initial_delay_seconds,
        max_delay_seconds,
        max_attempts: 5,
    }
}

/// A condition that is left alone.
pub open spec fn skip_condition(
    name: &'static str,
    description: &'static str,
) -> ConditionDefinition {
    ConditionDefinition {
        name,
        description,
        action: PolicyAction::Skip,
        backoff: None,
        initial_delay_seconds: 0,
        max_delay_seconds: 0,
        max_attempts: 0,
    }
}

fn retry(
    name: &'static str,
    description: &'static str,
    initial_delay_seconds: u64,
    max_delay_seconds: u64,
) -> (r: ConditionDefinition)
    ensures
        r == retry_condition(name, description, initial_delay_seconds, max_delay_seconds),
{
    ConditionDefinition {
        name,
        description,
        action: PolicyAction::Retry,
        backoff: Some(BackoffKind::Exponential),
        initial_delay_seconds,
        max_delay_seconds,
        max_attempts: 5,
    }
}

fn skip(name: &'static str, description: &'static str) -> (r: ConditionDefinition)
    ensures
        r == skip_condition(name, description),
{
    ConditionDefinition {
        name,
        description,
        action: PolicyAction::Skip,
        backoff: None,
        initial_delay_seconds: 0,
        max_delay_seconds: 0,
        max_attempts: 0,
    }
}

/// Every known condition.
pub open spec fn known_conditions() -> Seq<ConditionDefinition> {
    seq![
        retry_condition("network.connection_failed", "Could not establish or maintain a provider connection", 5, 120),
        retry_condition("network.stream_failed", "The provider response stream failed or disconnected", 5, 120),
        retry_condition("network.timeout", "A provider request timed out", 10, 180),
        retry_condition("capacity.model_overloaded", "The selected model is temporarily overloaded", 15, 300),
        retry_condition("capacity.service_overloaded", "The provider service is temporarily overloaded", 15, 300),
        retry_condition("capacity.rate_limited", "The provider temporarily limited request throughput", 30, 600),
        retry_condition("capacity.server_throttled", "The provider temporarily throttled requests", 15, 300),
        retry_condition("service.server_error", "The provider returned a transient server error", 10, 300),
        retry_condition("service.conflict", "The provider rejected a transient conflicting request", 5, 120),
        retry_condition("retry.provider_exhausted", "The provider exhausted its internal retry attempts", 15, 300),
        skip_condition("auth.invalid", "Authentication is missing, invalid, or expired"),
        skip_condition("billing.required", "Billing or credits require user action"),
        skip_condition("capability.model_unavailable", "The requested model is unavailable to this account"),
        skip_condition("capability.access_denied", "The account or organization cannot use this capability"),
        skip_condition("capability.feature_unsupported", "The selected model does not support a requested feature"),
        skip_condition("capability.entitlement_required", "The requested capability requires another entitlement"),
        skip_condition("capability.verification_required", "The provider requires additional account verification"),
        skip_condition("context.window_exceeded", "The request exceeded the model context window"),
        skip_condition("context.output_limit", "The response reached the model output-token limit"),
        skip_condition("quota.usage_exhausted", "The account usage allowance is exhausted"),
        skip_condition("request.invalid", "The provider rejected the request as invalid"),
        skip_condition("request.too_large", "The request exceeded the provider size limit"),
        skip_condition("sandbox.failed", "The local execution sandbox failed"),
        skip_condition("failure.unknown", "The provider failure could not be classified safely"),
    ]
}

/// Every known condition, in a fixed order.
pub fn conditions() -> (all: Vec<ConditionDefinition>)
    ensures
        all@ == known_conditions(),
{
    let mut all: Vec<ConditionDefinition> = Vec::new();
    all.push(retry("network.connection_failed", "Could not establish or maintain a provider connection", 5, 120));
    all.push(retry("network.stream_failed", "The provider response stream failed or disconnected", 5, 120));
    all.push(retry("network.timeout", "A provider request timed out", 10, 180));
    all.push(retry("capacity.model_overloaded", "The selected model is temporarily overloaded", 15, 300));
    all.push(retry("capacity.service_overloaded", "The provider service is temporarily overloaded", 15, 300));
    all.push(retry("capacity.rate_limited", "The provider temporarily limited request throughput", 30, 600));
    all.push(retry("capacity.server_throttled", "The provider temporarily throttled requests", 15, 300));
    all.push(retry("service.server_error", "The provider returned a transient server error", 10, 300));
    all.push(retry("service.conflict", "The provider rejected a transient conflicting request", 5, 120));
    all.push(retry("retry.provider_exhausted", "The provider exhausted its internal retry attempts", 15, 300));
    all.push(skip("auth.invalid", "Authentication is missing, invalid, or expired"));
    all.push(skip("billing.required", "Billing or credits require user action"));
    all.push(skip("capability.model_unavailable", "The requested model is unavailable to this account"));
    all.push(skip("capability.access_denied", "The account or organization cannot use this capability"));
    all.push(skip("capability.feature_unsupported", "The selected model does not support a requested feature"));
    all.push(skip("capability.entitlement_required", "The requested capability requires another entitlement"));
    all.push(skip("capability.verification_required", "The provider requires additional account verification"));
    all.push(skip("context.window_exceeded", "The request exceeded the model context window"));
    all.push(skip("context.output_limit", "The response reached the model output-token limit"));
    all.push(skip("quota.usage_exhausted", "The account usage allowance is exhausted"));
    all.push(skip("request.invalid", "The provider rejected the request as invalid"));
    all.push(skip("request.too_large", "The request exceeded the provider size limit"));
    all.push(skip("sandbox.failed", "The local execution sandbox failed"));
    all.push(skip("failure.unknown", "The provider failure could not be classified safely"));
    all
}

/// Some known condition has the name `name`.
pub open spec fn known(name: Seq<char>) -> bool {
    exists|i: int| 0 <= i < known_conditions().len() && (#[trigger] known_conditions()[i]).name@ == name
}

/// The known condition of the name `name`.
pub open spec fn definition_of(name: Seq<char>) -> ConditionDefinition {
    known_conditions()[choose|i: int|
        0 <= i < known_conditions().len() && (#[trigger] known_conditions()[i]).name@ == name]
}

/// A number that tells the names of the known conditions apart.
spec fn fingerprint(s: Seq<char>) -> int {
    (s.len() as int) * 256 + s[10] as int
}

spec fn place(code: int) -> int {
    if code == 6510 { 0 } else if code == 5490 { 1 } else if code == 3949 { 2 } else if code == 6511 { 3 } else if code == 7013 { 4 } else if code == 5473 { 5 } else if code == 6501 { 6 } else if code == 5234 { 7 } else if code == 4206 { 8 } else if code == 6249 { 9 } else if code == 3177 { 10 } else if code == 4209 { 11 } else if code == 7214 { 12 } else if code == 6190 { 13 } else if code == 7726 { 14 } else if code == 7982 { 15 } else if code == 8238 { 16 } else if code == 5998 { 17 } else if code == 5236 { 18 } else if code == 5477 { 19 } else if code == 3958 { 20 } else if code == 4463 { 21 } else if code == 3689 { 22 } else if code == 3947 { 23 } else { -1 }
}

/// No two known conditions have the same name.
pub proof fn condition_names_are_unique(i: int, j: int)
    requires
        0 <= i < known_conditions().len(),
        0 <= j < known_conditions().len(),
        known_conditions()[i].name@ == known_conditions()[j].name@,
    ensures
        i == j,
{
    let all = known_conditions();
    reveal_strlit("network.connection_failed");
    assert(place(fingerprint(all[0].name@)) == 0);
    reveal_strlit("network.stream_failed");
    assert(place(fingerprint(all[1].name@)) == 1);
    reveal_strlit("network.timeout");
    assert(place(fingerprint(all[2].name@)) == 2);
    reveal_strlit("capacity.model_overloaded");
    assert(place(fingerprint(all[3].name@)) == 3);
    reveal_strlit("capacity.service_overloaded");
    assert(place(fingerprint(all[4].name@)) == 4);
    reveal_strlit("capacity.rate_limited");
    assert(place(fingerprint(all[5].name@)) == 5);
    reveal_strlit("capacity.server_throttled");
    assert(place(fingerprint(all[6].name@)) == 6);
    reveal_strlit("service.server_error");
    assert(place(fingerprint(all[7].name@)) == 7);
    reveal_strlit("service.conflict");
    assert(place(fingerprint(all[8].name@)) == 8);
    reveal_strlit("retry.provider_exhausted");
    assert(place(fingerprint(all[9].name@)) == 9);
    reveal_strlit("auth.invalid");
    assert(place(fingerprint(all[10].name@)) == 10);
    reveal_strlit("billing.required");
    assert(place(fingerprint(all[11].name@)) == 11);
    reveal_strlit("capability.model_unavailable");
    assert(place(fingerprint(all[12].name@)) == 12);
    reveal_strlit("capability.access_denied");
    assert(place(fingerprint(all[13].name@)) == 13);
    reveal_strlit("capability.feature_unsupported");
    assert(place(fingerprint(all[14].name@)) == 14);
    reveal_strlit("capability.entitlement_required");
    assert(place(fingerprint(all[15].name@)) == 15);
    reveal_strlit("capability.verification_required");
    assert(place(fingerprint(all[16].name@)) == 16);
    reveal_strlit("context.window_exceeded");
    assert(place(fingerprint(all[17].name@)) == 17);
    reveal_strlit("context.output_limit");
    assert(place(fingerprint(all[18].name@)) == 18);
    reveal_strlit("quota.usage_exhausted");
    assert(place(fingerprint(all[19].name@)) == 19);
    reveal_strlit("request.invalid");
    assert(place(fingerprint(all[20].name@)) == 20);
    reveal_strlit("request.too_large");
    assert(place(fingerprint(all[21].name@)) == 21);
    reveal_strlit("sandbox.failed");
    assert(place(fingerprint(all[22].name@)) == 22);
    reveal_strlit("failure.unknown");
    assert(place(fingerprint(all[23].name@)) == 23);
    assert(all.len() == 24);
    assert(forall|k: int| 0 <= k < 24 ==> place(fingerprint((#[trigger] all[k]).name@)) == k);
}

/// Every known condition has usable defaults: a retried one a backoff, a positive first delay, a
/// maximum that is no smaller and at least one attempt; a skipped one no backoff. Its name holds a
/// dot between its category and the rest.
pub proof fn condition_defaults_are_valid(i: int)
    requires
        0 <= i < known_conditions().len(),
    ensures
        ({
            let condition = known_conditions()[i];
            &&& condition.name@.contains('.')
            &&& condition.action == PolicyAction::Retry ==> condition.backoff is Some
                && condition.initial_delay_seconds > 0 && condition.max_delay_seconds
                >= condition.initial_delay_seconds && condition.max_attempts > 0
            &&& condition.action == PolicyAction::Skip ==> condition.backoff is None
        }),
{
    let all = known_conditions();
    reveal_strlit("network.connection_failed");
    assert(all[0].name@[7] == '.');
    reveal_strlit("network.stream_failed");
    assert(all[1].name@[7] == '.');
    reveal_strlit("network.timeout");
    assert(all[2].name@[7] == '.');
    reveal_strlit("capacity.model_overloaded");
    assert(all[3].name@[8] == '.');
    reveal_strlit("capacity.service_overloaded");
    assert(all[4].name@[8] == '.');
    reveal_strlit("capacity.rate_limited");
    assert(all[5].name@[8] == '.');
    reveal_strlit("capacity.server_throttled");
    assert(all[6].name@[8] == '.');
    reveal_strlit("service.server_error");
    assert(all[7].name@[7] == '.');
    reveal_strlit("service.conflict");
    assert(all[8].name@[7] == '.');
    reveal_strlit("retry.provider_exhausted");
    assert(all[9].name@[5] == '.');
    reveal_strlit("auth.invalid");
    assert(all[10].name@[4] == '.');
    reveal_strlit("billing.required");
    assert(all[11].name@[7] == '.');
    reveal_strlit("capability.model_unavailable");
    assert(all[12].name@[10] == '.');
    reveal_strlit("capability.access_denied");
    assert(all[13].name@[10] == '.');
    reveal_strlit("capability.feature_unsupported");
    assert(all[14].name@[10] == '.');
    reveal_strlit("capability.entitlement_required");
    assert(all[15].name@[10] == '.');
    reveal_strlit("capability.verification_required");
    assert(all[16].name@[10] == '.');
    reveal_strlit("context.window_exceeded");
    assert(all[17].name@[7] == '.');
    reveal_strlit("context.output_limit");
    assert(all[18].name@[7] == '.');
    reveal_strlit("quota.usage_exhausted");
    assert(all[19].name@[5] == '.');
    reveal_strlit("request.invalid");
    assert(all[20].name@[7] == '.');
    reveal_strlit("request.too_large");
    assert(all[21].name@[7] == '.');
    reveal_strlit("sandbox.failed");
    assert(all[22].name@[7] == '.');
    reveal_strlit("failure.unknown");
    assert(all[23].name@[7] == '.');
    assert(all.len() == 24);
    assert(forall|k: int| 0 <= k < 24 ==> (#[trigger] all[k]).name@.contains('.'));
}

/// Looks up a known condition by its name.
pub fn definition(name: &str) -> (r: Option<ConditionDefinition>)
    ensures
        match r {
            Some(found) => known(name@) && found == definition_of(name@) && found.name@ == name@,
            None => !known(name@),
        },
{
    let all = conditions();
    let mut i: usize = 0;
    while i < all.len()
        invariant
            i <= all@.len(),
            all@ == known_conditions(),
            forall|k: int| 0 <= k < i ==> (#[trigger] known_conditions()[k]).name@ != name@,
        decreases all@.len() - i,
    {
        if text::same(all[i].name, name) {
            proof {
                assert(known_conditions()[i as int].name@ == name@);
                let j = choose|j: int|
                    0 <= j < known_conditions().len() && (#[trigger] known_conditions()[j]).name@ == name@;
                condition_names_are_unique(i as int, j);
            }
            return Some(all[i]);
        }
        i += 1;
    }
    None
}

/// Whether a condition of this name is known.
pub fn is_known(name: &str) -> (r: bool)
    ensures
        r == known(name@),
{
    match definition(name) {
        Some(_) => true,
        None => false,
    }
}

} // verus!
