//! Recoveries that a user asks for.

use vstd::prelude::*;
use vstd::string::*;

use crate::engine::permit::RecoveryPermit;
use crate::engine::policy;
use crate::engine::recovery;
use crate::engine::recovery::{Candidate, Cleared, WatchEngine};
use crate::models;
use crate::models::{Failure, PolicyAction, WatchTarget};
use crate::state::runtime;
use crate::text;
use crate::time::Timestamp;

verus! {

/// Why a retry that a user asked for is refused.
#[derive(Debug)]
pub enum RetryRefusal {
    /// The session is not watched.
    NotWatched { provider: String, session_id: String },
    /// The permission was revoked before the retry started.
    RevokedBeforeStart,
    /// The latest turn did not fail.
    NoFailure { session_id: String },
    /// The policy skips the condition.
    Skipped { condition: String },
    /// Too many attempts count already.
    Exhausted { provider: String, session_id: String, attempts: usize, max_attempts: usize },
    /// The permission was revoked before the retry was sent.
    RevokedBeforeSend,
}

impl RetryRefusal {
    /// The refusal in words.
    pub open spec fn message_view(self) -> Seq<char> {
        match self {
            RetryRefusal::NotWatched { provider, session_id } => "session "@ + models::session_key(
                provider@,
                session_id@,
            ) + " is not being guarded"@,
            RetryRefusal::RevokedBeforeStart =>
                "guard state changed before the manual retry could start"@,
            RetryRefusal::NoFailure { session_id } => "session "@ + session_id@
                + " has no failed latest turn"@,
            RetryRefusal::Skipped { condition } => condition@
                + " is configured to skip; change the policy before retrying"@,
            RetryRefusal::Exhausted { provider, session_id, attempts, max_attempts } =>
                "retry limit reached for "@ + models::session_key(provider@, session_id@) + " ("@
                + text::decimal_view(attempts as nat) + "/"@ + text::decimal_view(
                max_attempts as nat,
            ) + ")"@,
            RetryRefusal::RevokedBeforeSend =>
                "guard state changed before the manual retry was sent"@,
        }
    }

    /// The refusal in words.
    pub fn message(&self) -> (r: String)
        ensures
            r@ == self.message_view(),
    {
        match self {
            RetryRefusal::NotWatched { provider, session_id } => "session ".to_owned().concat(
                models::make_key(provider.as_str(), session_id.as_str()).as_str(),
            ).concat(" is not being guarded"),
            RetryRefusal::RevokedBeforeStart =>
                "guard state changed before the manual retry could start".to_owned(),
            RetryRefusal::NoFailure { session_id } => "session ".to_owned().concat(
                session_id.as_str(),
            ).concat(" has no failed latest turn"),
            RetryRefusal::Skipped { condition } => condition.clone().concat(
                " is configured to skip; change the policy before retrying",
            ),
            RetryRefusal::Exhausted { provider, session_id, attempts, max_attempts } =>
                "retry limit reached for ".to_owned().concat(
                models::make_key(provider.as_str(), session_id.as_str()).as_str(),
            ).concat(" (").concat(text::decimal(*attempts as u64).as_str()).concat("/").concat(
                text::decimal(*max_attempts as u64).as_str(),
            ).concat(")"),
            RetryRefusal::RevokedBeforeSend =>
                "guard state changed before the manual retry was sent".to_owned(),
        }
    }
}

/// The target at `i` is the first of a session.
pub open spec fn first_target(
    targets: Seq<WatchTarget>,
    i: int,
    provider: Seq<char>,
    session_id: Seq<char>,
) -> bool {
    &&& 0 <= i < targets.len()
    &&& targets[i].provider@ == provider
    &&& targets[i].session_id@ == session_id
    &&& forall|k: int|
        0 <= k < i ==> !((#[trigger] targets[k]).provider@ == provider && targets[k].session_id@
            == session_id)
}

/// Some target is the session.
pub open spec fn is_watched(
    targets: Seq<WatchTarget>,
    provider: Seq<char>,
    session_id: Seq<char>,
) -> bool {
    exists|i: int| #[trigger] first_target(targets, i, provider, session_id)
}

impl WatchEngine {
    /// Finds the target of a retry that a user asked for, and whether it is permitted.
    pub fn start_manual(
        &self,
        provider: &str,
        session_id: &str,
        permit: &RecoveryPermit,
        generation: u64,
    ) -> (r: Result<WatchTarget, RetryRefusal>)
        ensures
            match r {
                Ok(target) => permit.permits(target, generation) && exists|i: int| #[trigger]
                    first_target(self.targets@, i, provider@, session_id@) && self.targets@[i]
                        == target,
                Err(RetryRefusal::NotWatched { provider: p, session_id: s }) => p@ == provider@
                    && s@ == session_id@ && !is_watched(self.targets@, provider@, session_id@),
                Err(RetryRefusal::RevokedBeforeStart) => exists|i: int| #[trigger]
                    first_target(self.targets@, i, provider@, session_id@) && !permit.permits(
                        self.targets@[i],
                        generation,
                    ),
                Err(_) => false,
            },
    {
        let mut i: usize = 0;
        while i < self.targets.len()
            invariant
                i <= self.targets@.len(),
                forall|k: int|
                    0 <= k < i ==> !((#[trigger] self.targets@[k]).provider@ == provider@
                        && self.targets@[k].session_id@ == session_id@),
            decreases self.targets@.len() - i,
        {
            let target = &self.targets[i];
            if text::same(target.provider.as_str(), provider) && text::same(
                target.session_id.as_str(),
                session_id,
            ) {
                assert(first_target(self.targets@, i as int, provider@, session_id@));
                if permit.allows(target, generation) {
                    return Ok(target.clone());
                }
                return Err(RetryRefusal::RevokedBeforeStart);
            }
            i += 1;
        }
        proof {
            if is_watched(self.targets@, provider@, session_id@) {
                let k = choose|k: int| #[trigger]
                    first_target(self.targets@, k, provider@, session_id@);
                assert(self.targets@[k].provider@ == provider@);
            }
        }
        Err(
            RetryRefusal::NotWatched {
                provider: provider.to_owned(),
                session_id: session_id.to_owned(),
            },
        )
    }

    /// Decides about a retry that a user asked for. It waits for no delay and does not ask whether
    /// the turn was dealt with, but the policy must retry and attempts must be left.
    pub fn consider_manual(
        &mut self,
        target: &WatchTarget,
        latest: Option<Failure>,
        now: Timestamp,
    ) -> (r: Result<Candidate, RetryRefusal>)
        ensures
            final(self).settings == old(self).settings,
            final(self).targets == old(self).targets,
            final(self).dry_run == old(self).dry_run,
            match latest {
                None => {
                    &&& *final(self) == *old(self)
                    &&& r matches Err(RetryRefusal::NoFailure { session_id })
                    &&& session_id == target.session_id
                },
                Some(failure) => {
                    let attempts = old(self).counted_attempts(*target, now).len();
                    let limit = old(self).attempt_limit(failure);
                    &&& final(self).unresolved_targets@ == old(self).unresolved_targets@.insert(
                        target.key_view(),
                        (),
                    )
                    &&& if old(self).action_for(failure) == PolicyAction::Skip {
                        &&& final(self).state == old(self).state
                        &&& r matches Err(RetryRefusal::Skipped { condition })
                        &&& condition == failure.condition
                    } else {
                        &&& final(self).state.same_but_attempts(
                            old(self).state,
                            target.key_view(),
                        )
                        &&& runtime::attempts_of(final(self).state.attempts@, target.key_view())
                            == old(self).counted_attempts(*target, now)
                        &&& match r {
                            Ok(candidate) => {
                                &&& attempts < limit
                                &&& candidate.target == *target
                                &&& candidate.failure == failure
                                &&& candidate.attempt == attempts + 1
                                &&& candidate.max_attempts == limit
                                &&& candidate.prompt@ == old(self).prompt_for(
                                    failure,
                                    attempts + 1,
                                )
                            },
                            Err(
                                RetryRefusal::Exhausted {
                                    provider,
                                    session_id,
                                    attempts: counted,
                                    max_attempts,
                                },
                            ) => attempts >= limit && provider == target.provider && session_id
                                == target.session_id && counted == attempts && max_attempts
                                == limit,
                            Err(_) => false,
                        }
                    }
                },
            },
    {
        let failure = match latest {
            None => {
                return Err(RetryRefusal::NoFailure { session_id: target.session_id.clone() });
            },
            Some(failure) => failure,
        };
        self.unresolved_targets.insert(target.key(), ());
        let policy = self.settings.policy(failure.condition.as_str());
        if policy.action == PolicyAction::Skip {
            return Err(RetryRefusal::Skipped { condition: failure.condition });
        }
        let window: i64 = self.settings.engine.attempt_window_seconds;
        let attempts: usize = self.state.recent_attempts(target, now, window);
        if attempts >= policy.max_attempts {
            return Err(
                RetryRefusal::Exhausted {
                    provider: target.provider.clone(),
                    session_id: target.session_id.clone(),
                    attempts,
                    max_attempts: policy.max_attempts,
                },
            );
        }
        let prompt = policy::render_prompt(
            policy.prompt.as_str(),
            &failure,
            attempts + 1,
            policy.max_attempts,
        );
        Ok(
            Candidate {
                target: target.clone(),
                failure,
                attempt: attempts + 1,
                max_attempts: policy.max_attempts,
                prompt,
            },
        )
    }

    /// Puts the attempt on record and clears a retry that a user asked for, if it is still permitted
    /// now that nothing else is being sent.
    pub fn clear_manual(&mut self, candidate: Candidate, allowed: bool, now: Timestamp) -> (r:
        Result<Cleared, RetryRefusal>)
        ensures
            match r {
                Ok(cleared) => {
                    &&& allowed
                    &&& cleared.plan() == candidate
                    &&& recovery::recorded(*old(self), candidate.target, now, *final(self))
                },
                Err(refusal) => !allowed && refusal is RevokedBeforeSend && *final(self) == *old(
                    self),
            },
    {
        if !allowed {
            return Err(RetryRefusal::RevokedBeforeSend);
        }
        self.state.record_attempt(&candidate.target, now);
        Ok(Cleared::of(candidate))
    }
}

} // verus!
