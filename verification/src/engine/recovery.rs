//! The course of one recovery: what is decided about a failed turn, and when a continuation may
//! be sent.

use vstd::prelude::*;
use vstd::string::*;

use crate::config;
use crate::config::{ResolvedPolicy, Settings};
use crate::engine::pending::Look;
use crate::engine::policy;
use crate::models::{EngineEvent, Failure, PolicyAction, ResumeReceipt, WatchTarget};
use crate::state::runtime;
use crate::state::runtime::{PendingRecovery, RuntimeState};
use crate::text;
use crate::textmap::TextMap;
use crate::time;
use crate::time::Timestamp;

verus! {

/// An event without the identity of its texts.
pub struct EventView {
    pub timestamp: Timestamp,
    pub kind: Seq<char>,
    pub target: Seq<char>,
    pub message: Seq<char>,
    pub condition: Option<Seq<char>>,
    pub attempt: Option<usize>,
    pub max_attempts: Option<usize>,
    pub prompt: Option<Seq<char>>,
    pub failure: Option<Failure>,
    pub receipt: Option<ResumeReceipt>,
}

impl View for EngineEvent {
    type V = EventView;

    open spec fn view(&self) -> EventView {
        EventView {
            timestamp: self.timestamp,
            kind: self.kind@,
            target: self.target@,
            message: self.message@,
            condition: text::option_view(self.condition),
            attempt: self.attempt,
            max_attempts: self.max_attempts,
            prompt: text::option_view(self.prompt),
            failure: self.failure,
            receipt: self.receipt,
        }
    }
}

/// An event about a target, with the condition of its failure.
pub open spec fn plain_event(
    now: Timestamp,
    kind: Seq<char>,
    target: Seq<char>,
    message: Seq<char>,
    failure: Option<Failure>,
) -> EventView {
    EventView {
        timestamp: now,
        kind,
        target,
        message,
        condition: match failure {
            Some(failure) => Some(failure.condition@),
            None => None,
        },
        attempt: None,
        max_attempts: None,
        prompt: None,
        failure,
        receipt: None,
    }
}

/// An event about a target, with the condition of its failure.
pub fn event(
    now: Timestamp,
    kind: &str,
    target: &WatchTarget,
    message: String,
    failure: Option<Failure>,
) -> (r: EngineEvent)
    ensures
        r@ == plain_event(now, kind@, target.key_view(), message@, failure),
{
    let condition = match &failure {
        Some(failure) => Some(failure.condition.clone()),
        None => None,
    };
    EngineEvent {
        timestamp: now,
        kind: kind.to_owned(),
        target: target.key(),
        message,
        condition,
        attempt: None,
        max_attempts: None,
        prompt: None,
        failure,
        receipt: None,
    }
}

/// What a provider says of the latest turn of a session.
#[derive(Debug)]
pub enum Observation {
    /// The turn failed.
    Failed(Failure),
    /// There is no turn, or it did not fail.
    Healthy,
    /// The provider could not say.
    Unavailable(String),
}

/// A continuation that is due.
#[derive(Debug)]
pub struct Candidate {
    pub target: WatchTarget,
    pub failure: Failure,
    pub attempt: usize,
    pub max_attempts: usize,
    pub prompt: String,
}

/// A continuation whose failed turn was found to be the latest again.
#[derive(Debug)]
pub struct Confirmed {
    candidate: Candidate,
}

/// A continuation that may be sent now. Its attempt is on record.
#[derive(Debug)]
pub struct Cleared {
    candidate: Candidate,
}

/// What is decided about the latest turn of a session.
#[derive(Debug)]
pub enum Decision {
    /// Nothing is to be done.
    Nothing,
    /// Nothing is to be done but to report this.
    Report(EngineEvent),
    /// The next attempt would be due at no time that the calendar has.
    BeyondCalendar(Failure),
    /// A continuation is due.
    Attempt(Candidate),
}

/// How sending a continuation went.
#[derive(Debug)]
pub enum SendOutcome {
    /// The provider acknowledged the turn.
    Sent(ResumeReceipt),
    /// The provider may have started the turn, but its acknowledgement was lost.
    AcknowledgementUnknown,
    /// The provider did not start the turn.
    Failed(String),
}

/// Decides about failed turns and remembers what was done about them.
#[derive(Debug)]
pub struct WatchEngine {
    pub settings: Settings,
    pub targets: Vec<WatchTarget>,
    pub state: RuntimeState,
    /// The keys of the sessions whose latest turn failed.
    pub unresolved_targets: TextMap<()>,
    pub dry_run: bool,
}

/// What is decided, without the identity of texts.
pub enum Judgement {
    Nothing,
    Report(EventView),
    BeyondCalendar,
    Attempt { attempt: nat, max_attempts: nat, prompt: Seq<char> },
}

impl Decision {
    /// The decision, without the identity of texts.
    pub open spec fn judgement(self) -> Judgement {
        match self {
            Decision::Nothing => Judgement::Nothing,
            Decision::Report(event) => Judgement::Report(event@),
            Decision::BeyondCalendar(_) => Judgement::BeyondCalendar,
            Decision::Attempt(candidate) => Judgement::Attempt {
                attempt: candidate.attempt as nat,
                max_attempts: candidate.max_attempts as nat,
                prompt: candidate.prompt@,
            },
        }
    }
}

/// The turn was dealt with for good: continued, perhaps continued, or skipped under a policy that
/// still skips.
pub open spec fn dealt_with(done: Option<Seq<char>>, action: PolicyAction) -> bool {
    ||| done == Some("resumed"@)
    ||| done == Some("unconfirmed"@)
    ||| action == PolicyAction::Skip && done == Some("skipped"@)
}

impl WatchEngine {
    /// What the settings do about the condition of a failure.
    pub open spec fn action_for(self, failure: Failure) -> PolicyAction {
        config::resolved_action(
            self.settings.custom(failure.condition@),
            failure.condition@,
        )
    }

    /// The attempts at a target that count now.
    pub open spec fn counted_attempts(self, target: WatchTarget, now: Timestamp) -> Seq<Timestamp> {
        runtime::since(
            runtime::attempts_of(self.state.attempts@, target.key_view()),
            now,
            -(self.settings.engine.attempt_window_seconds as int),
        )
    }

    /// The most attempts at a failure's condition.
    pub open spec fn attempt_limit(self, failure: Failure) -> nat {
        config::resolved_max_attempts(
            self.settings.custom(failure.condition@),
            failure.condition@,
        ) as nat
    }

    /// The delay before the next attempt at a failure.
    pub open spec fn delay_before(self, failure: Failure, attempts: nat) -> int {
        let custom = self.settings.custom(failure.condition@);
        policy::retry_delay(
            config::resolved_backoff(custom, failure.condition@),
            config::resolved_initial_delay(custom, failure.condition@),
            config::resolved_max_delay(custom, failure.condition@),
            attempts,
            failure.retry_after_seconds,
        )
    }

    /// The time from which the delay counts: the last attempt that counts, or else the time at
    /// which the failure was first seen.
    pub open spec fn delay_from(
        self,
        target: WatchTarget,
        failure: Failure,
        now: Timestamp,
    ) -> Timestamp {
        let attempts = self.counted_attempts(target, now);
        if attempts.len() > 0 {
            attempts.last()
        } else if self.state.observed@.contains_key(failure.key_view()) {
            self.state.observed@[failure.key_view()]
        } else {
            now
        }
    }

    /// The prompt of the next attempt at a failure.
    pub open spec fn prompt_for(self, failure: Failure, attempt: nat) -> Seq<char> {
        policy::rendered(
            config::resolved_prompt(self.settings.custom(failure.condition@), failure.condition@),
            failure,
            attempt,
            self.attempt_limit(failure),
        )
    }

    /// What is decided about a failed turn that is to be retried.
    pub open spec fn judged_retry(
        self,
        target: WatchTarget,
        failure: Failure,
        now: Timestamp,
    ) -> Judgement {
        let attempts = self.counted_attempts(target, now).len();
        let limit = self.attempt_limit(failure);
        let delay = self.delay_before(failure, attempts);
        let from = self.delay_from(target, failure, now);
        let base = plain_event(
            now,
            Seq::empty(),
            target.key_view(),
            Seq::empty(),
            Some(failure),
        );
        if attempts >= limit {
            Judgement::Report(
                EventView {
                    kind: "retry.exhausted"@,
                    message: "retry limit reached ("@ + text::decimal_view(attempts) + "/"@
                        + text::decimal_view(limit) + ")"@,
                    attempt: Some(attempts as usize),
                    max_attempts: Some(limit as usize),
                    ..base
                },
            )
        } else if from.seconds + delay > time::LAST_SECOND || !from.later(delay).writable() {
            Judgement::BeyondCalendar
        } else if !now.is_not_before(from, delay) {
            Judgement::Report(
                EventView {
                    kind: "retry.waiting"@,
                    message: failure.condition@ + " matched retry policy; next attempt after "@
                        + time::shown_time(from.later(delay)),
                    attempt: Some((attempts + 1) as usize),
                    max_attempts: Some(limit as usize),
                    ..base
                },
            )
        } else if self.dry_run {
            Judgement::Report(
                EventView {
                    kind: "retry.dry_run"@,
                    message: "would resume after "@ + failure.condition@,
                    attempt: Some((attempts + 1) as usize),
                    max_attempts: Some(limit as usize),
                    prompt: Some(self.prompt_for(failure, attempts + 1)),
                    ..base
                },
            )
        } else {
            Judgement::Attempt {
                attempt: attempts + 1,
                max_attempts: limit,
                prompt: self.prompt_for(failure, attempts + 1),
            }
        }
    }

    /// What is decided about what a provider says of a target.
    pub open spec fn judged(
        self,
        target: WatchTarget,
        observation: Observation,
        now: Timestamp,
    ) -> Judgement {
        match observation {
            Observation::Unavailable(reason) => Judgement::Report(
                plain_event(now, "provider.error"@, target.key_view(), reason@, None),
            ),
            Observation::Healthy => Judgement::Nothing,
            Observation::Failed(failure) => if dealt_with(
                self.state.action_on(failure),
                self.action_for(failure),
            ) {
                Judgement::Nothing
            } else if self.action_for(failure) == PolicyAction::Skip {
                Judgement::Report(
                    plain_event(
                        now,
                        "failure.skipped"@,
                        target.key_view(),
                        failure.condition@ + " matched skip policy"@,
                        Some(failure),
                    ),
                )
            } else {
                self.judged_retry(target, failure, now)
            },
        }
    }

    /// `after` remembers what was decided about what a provider says of a target, and nothing
    /// else has changed.
    pub open spec fn settled(
        self,
        target: WatchTarget,
        observation: Observation,
        now: Timestamp,
        after: Self,
    ) -> bool {
        let key = target.key_view();
        &&& after.settings == self.settings
        &&& after.targets == self.targets
        &&& after.dry_run == self.dry_run
        &&& match observation {
            Observation::Unavailable(_) => after == self,
            Observation::Healthy => {
                &&& after.unresolved_targets@ == self.unresolved_targets@.remove(key)
                &&& if self.state.pending_for(target) {
                    after.state == self.state
                } else {
                    after.state.same_but_attempts(self.state, key)
                        && !after.state.attempts@.contains_key(key)
                }
            },
            Observation::Failed(failure) => {
                let turn = failure.key_view();
                &&& after.unresolved_targets@ == self.unresolved_targets@.insert(key, ())
                &&& if dealt_with(self.state.action_on(failure), self.action_for(failure)) {
                    after.state == self.state
                } else if self.action_for(failure) == PolicyAction::Skip {
                    &&& after.state.same_but_handled(self.state)
                    &&& after.state.handled@.dom() == self.state.handled@.dom().insert(turn)
                    &&& after.state.handled@.remove(turn) == self.state.handled@.remove(turn)
                    &&& after.state.action_on(failure) == Some("skipped"@)
                    &&& after.state.handled@[turn].at == now
                } else {
                    &&& after.state.version == self.state.version
                    &&& after.state.path == self.state.path
                    &&& after.state.handled == self.state.handled
                    &&& after.state.pending_recoveries == self.state.pending_recoveries
                    &&& after.state.recovery_outcomes == self.state.recovery_outcomes
                    &&& after.state.observed@ == self.state.observed@.insert(
                        turn,
                        if self.state.observed@.contains_key(turn) {
                            self.state.observed@[turn]
                        } else {
                            now
                        },
                    )
                    &&& after.state.attempts@.remove(key) == self.state.attempts@.remove(key)
                    &&& runtime::attempts_of(after.state.attempts@, key) == self.counted_attempts(
                        target,
                        now,
                    )
                }
            },
        }
    }

    /// Decides what is done about what a provider says of a target.
    pub fn consider(
        &mut self,
        target: &WatchTarget,
        observation: Observation,
        now: Timestamp,
    ) -> (r: Decision)
        ensures
            r.judgement() == old(self).judged(*target, observation, now),
            old(self).settled(*target, observation, now, *final(self)),
            match r {
                Decision::Attempt(candidate) => observation == Observation::Failed(
                    candidate.failure,
                ) && candidate.target == *target,
                Decision::BeyondCalendar(failure) => observation == Observation::Failed(failure),
                _ => true,
            },
    {
        let failure = match observation {
            Observation::Unavailable(reason) => {
                return Decision::Report(event(now, "provider.error", target, reason, None));
            },
            Observation::Healthy => {
                self.unresolved_targets.remove(target.key().as_str());
                if !self.state.has_pending_for(target) {
                    self.state.clear_attempts(target);
                }
                return Decision::Nothing;
            },
            Observation::Failed(failure) => failure,
        };
        self.unresolved_targets.insert(target.key(), ());
        let policy = self.settings.policy(failure.condition.as_str());
        let skips = policy.action == PolicyAction::Skip;
        let dealt_with = match self.state.handled_action(&failure) {
            Some(done) => text::same(done, "resumed") || text::same(done, "unconfirmed") || (skips
                && text::same(done, "skipped")),
            None => false,
        };
        if dealt_with {
            return Decision::Nothing;
        }
        if skips {
            self.state.mark_handled(&failure, "skipped", now);
            let message = failure.condition.clone().concat(" matched skip policy");
            return Decision::Report(
                event(now, "failure.skipped", target, message, Some(failure)),
            );
        }
        self.consider_retry(target, failure, policy, now)
    }

    fn consider_retry(
        &mut self,
        target: &WatchTarget,
        failure: Failure,
        policy: ResolvedPolicy,
        now: Timestamp,
    ) -> (r: Decision)
        requires
            config::is_resolution(
                policy,
                old(self).settings.custom(failure.condition@),
                failure.condition@,
            ),
            policy.action == PolicyAction::Retry,
        ensures
            r.judgement() == old(self).judged_retry(*target, failure, now),
            match r {
                Decision::Attempt(candidate) => candidate.failure == failure && candidate.target
                    == *target,
                Decision::BeyondCalendar(found) => found == failure,
                Decision::Report(_) => true,
                Decision::Nothing => false,
            },
            final(self).settings == old(self).settings,
            final(self).targets == old(self).targets,
            final(self).dry_run == old(self).dry_run,
            final(self).unresolved_targets == old(self).unresolved_targets,
            final(self).state.version == old(self).state.version,
            final(self).state.path == old(self).state.path,
            final(self).state.handled == old(self).state.handled,
            final(self).state.pending_recoveries == old(self).state.pending_recoveries,
            final(self).state.recovery_outcomes == old(self).state.recovery_outcomes,
            final(self).state.observed@ == old(self).state.observed@.insert(
                failure.key_view(),
                if old(self).state.observed@.contains_key(failure.key_view()) {
                    old(self).state.observed@[failure.key_view()]
                } else {
                    now
                },
            ),
            final(self).state.attempts@.remove(target.key_view()) == old(
                self).state.attempts@.remove(target.key_view()),
            runtime::attempts_of(final(self).state.attempts@, target.key_view()) == old(
                self).counted_attempts(*target, now),
    {
        let first_seen = self.state.first_seen(&failure, now);
        let window: i64 = self.settings.engine.attempt_window_seconds;
        let attempts: usize = self.state.recent_attempts(target, now, window);
        if attempts >= policy.max_attempts {
            let message = "retry limit reached (".to_owned().concat(
                text::decimal(attempts as u64).as_str(),
            ).concat("/").concat(text::decimal(policy.max_attempts as u64).as_str()).concat(")");
            let mut exhausted = event(now, "retry.exhausted", target, message, Some(failure));
            exhausted.attempt = Some(attempts);
            exhausted.max_attempts = Some(policy.max_attempts);
            return Decision::Report(exhausted);
        }
        let delay: u64 = policy::retry_delay_seconds(
            &policy,
            attempts,
            failure.retry_after_seconds,
        );
        let from = match self.state.latest_attempt(target) {
            Some(attempt) => attempt,
            None => first_seen,
        };
        let ready_at = match from.moved(delay as i128) {
            Some(ready_at) => ready_at,
            None => {
                return Decision::BeyondCalendar(failure);
            },
        };
        if !ready_at.is_writable() {
            return Decision::BeyondCalendar(failure);
        }
        if !now.not_before(ready_at, 0) {
            let message = failure.condition.clone().concat(
                " matched retry policy; next attempt after ",
            ).concat(time::show_time(ready_at).as_str());
            let mut waiting = event(now, "retry.waiting", target, message, Some(failure));
            waiting.attempt = Some(attempts + 1);
            waiting.max_attempts = Some(policy.max_attempts);
            return Decision::Report(waiting);
        }
        let prompt = policy::render_prompt(
            policy.prompt.as_str(),
            &failure,
            attempts + 1,
            policy.max_attempts,
        );
        if self.dry_run {
            let message = "would resume after ".to_owned().concat(failure.condition.as_str());
            let mut would_resume = event(now, "retry.dry_run", target, message, Some(failure));
            would_resume.attempt = Some(attempts + 1);
            would_resume.max_attempts = Some(policy.max_attempts);
            would_resume.prompt = Some(prompt);
            return Decision::Report(would_resume);
        }
        Decision::Attempt(
            Candidate {
                target: target.clone(),
                failure,
                attempt: attempts + 1,
                max_attempts: policy.max_attempts,
                prompt,
            },
        )
    }
}

/// The report that a continuation was called off.
pub open spec fn cancellation(candidate: Candidate, reason: Seq<char>, now: Timestamp) -> EventView {
    plain_event(
        now,
        "retry.cancelled"@,
        candidate.target.key_view(),
        reason,
        Some(candidate.failure),
    )
}

fn cancel(candidate: Candidate, reason: &str, now: Timestamp) -> (r: EngineEvent)
    ensures
        r@ == cancellation(candidate, reason@, now),
{
    event(
        now,
        "retry.cancelled",
        &candidate.target,
        reason.to_owned(),
        Some(candidate.failure),
    )
}

impl Candidate {
    /// Goes on to look at the session again, if the continuation is still permitted.
    pub fn recheck(self, allowed: bool, now: Timestamp) -> (r: Result<Candidate, EngineEvent>)
        ensures
            match r {
                Ok(candidate) => allowed && candidate == self,
                Err(report) => !allowed && report@ == cancellation(
                    self,
                    "guard state changed before resume; no message sent"@,
                    now,
                ),
            },
    {
        if allowed {
            Ok(self)
        } else {
            Err(cancel(self, "guard state changed before resume; no message sent", now))
        }
    }

    /// Holds the continuation against a second look at the session: it goes on only where it is
    /// still permitted and the failed turn is still the latest.
    pub fn confirm(self, allowed: bool, latest: &Option<Failure>, now: Timestamp) -> (r: Result<
        Confirmed,
        EngineEvent,
    >)
        ensures
            match r {
                Ok(confirmed) => allowed && still_latest(self.failure, *latest)
                    && confirmed.plan() == self,
                Err(report) => {
                    &&& !allowed || !still_latest(self.failure, *latest)
                    &&& report@ == cancellation(
                        self,
                        if !allowed {
                            "guard state changed before resume; no message sent"@
                        } else {
                            "session changed before resume; no message sent"@
                        },
                        now,
                    )
                },
            },
    {
        if !allowed {
            return Err(cancel(self, "guard state changed before resume; no message sent", now));
        }
        let unchanged = match latest {
            Some(failure) => text::same(failure.turn_id.as_str(), self.failure.turn_id.as_str()),
            None => false,
        };
        if unchanged {
            Ok(Confirmed { candidate: self })
        } else {
            Err(cancel(self, "session changed before resume; no message sent", now))
        }
    }
}

/// The latest turn is a failed one, and the same as the failure's.
pub open spec fn still_latest(failure: Failure, latest: Option<Failure>) -> bool {
    latest is Some && latest->0.turn_id@ == failure.turn_id@
}

impl Confirmed {
    /// The continuation.
    pub closed spec fn plan(&self) -> Candidate {
        self.candidate
    }
}

impl Cleared {
    /// The continuation.
    pub closed spec fn plan(&self) -> Candidate {
        self.candidate
    }

    /// Clears a continuation whose attempt is on record.
    pub(crate) fn of(candidate: Candidate) -> (r: Cleared)
        ensures
            r.plan() == candidate,
    {
        Cleared { candidate }
    }

    /// The continuation to send.
    pub fn candidate(&self) -> (r: &Candidate)
        ensures
            *r == self.plan(),
    {
        &self.candidate
    }
}

/// The report on how sending a continuation went.
pub open spec fn conclusion(candidate: Candidate, outcome: SendOutcome, now: Timestamp) -> EventView {
    let base = EventView {
        attempt: Some(candidate.attempt),
        max_attempts: Some(candidate.max_attempts),
        prompt: Some(candidate.prompt@),
        ..plain_event(
            now,
            Seq::empty(),
            candidate.target.key_view(),
            Seq::empty(),
            Some(candidate.failure),
        )
    };
    match outcome {
        SendOutcome::Sent(receipt) => EventView {
            kind: "retry.sent"@,
            message: "started turn "@ + receipt.turn_id@ + " after "@
                + candidate.failure.condition@,
            receipt: Some(receipt),
            ..base
        },
        SendOutcome::AcknowledgementUnknown => EventView {
            kind: "retry.unconfirmed"@,
            message: "recovery may have started, but the provider acknowledgement was lost"@,
            ..base
        },
        SendOutcome::Failed(reason) => EventView {
            kind: "retry.failed"@,
            message: reason@,
            ..base
        },
    }
}

/// `after` remembers how sending a continuation went: one that was sent is in flight, and one that
/// was or may have been sent is dealt with.
pub open spec fn concluded(
    before: RuntimeState,
    candidate: Candidate,
    outcome: SendOutcome,
    automatic: bool,
    now: Timestamp,
    after: RuntimeState,
) -> bool {
    let turn = candidate.failure.key_view();
    match outcome {
        SendOutcome::Failed(_) => after == before,
        SendOutcome::AcknowledgementUnknown => {
            &&& after.same_but_handled(before)
            &&& after.handled@.dom() == before.handled@.dom().insert(turn)
            &&& after.handled@.remove(turn) == before.handled@.remove(turn)
            &&& after.handled@[turn].action@ == "unconfirmed"@
            &&& after.handled@[turn].at == now
        },
        SendOutcome::Sent(receipt) => {
            &&& after.version == before.version
            &&& after.path == before.path
            &&& after.observed == before.observed
            &&& after.attempts == before.attempts
            &&& after.recovery_outcomes == before.recovery_outcomes
            &&& after.handled@.dom() == before.handled@.dom().insert(turn)
            &&& after.handled@.remove(turn) == before.handled@.remove(turn)
            &&& after.handled@[turn].action@ == "resumed"@
            &&& after.handled@[turn].at == now
            &&& after.pending_recoveries@.dom() == before.pending_recoveries@.dom().insert(turn)
            &&& after.pending_recoveries@.remove(turn) == before.pending_recoveries@.remove(turn)
            &&& is_pending_for(
                after.pending_recoveries@[turn],
                candidate.failure,
                receipt,
                automatic,
                now,
            )
        },
    }
}

/// `pending` is the recovery in flight that `receipt` acknowledged.
pub open spec fn is_pending_for(
    pending: PendingRecovery,
    failure: Failure,
    receipt: ResumeReceipt,
    automatic: bool,
    now: Timestamp,
) -> bool {
    &&& pending.failure_key@ == failure.key_view()
    &&& pending.provider == failure.provider
    &&& pending.session_id == failure.session_id
    &&& pending.failed_turn_id == failure.turn_id
    &&& pending.recovery_turn_id == receipt.turn_id
    &&& pending.started_at == now
    &&& pending.automatic == automatic
    &&& pending.observation_failures == 0
    &&& pending.last_observation_at is None
}

impl WatchEngine {
    /// Puts the attempt on record and clears the continuation to be sent, if it is still permitted
    /// now that nothing else is being sent.
    pub fn clear(&mut self, confirmed: Confirmed, allowed: bool, now: Timestamp) -> (r: Result<
        Cleared,
        EngineEvent,
    >)
        ensures
            match r {
                Ok(cleared) => {
                    &&& allowed
                    &&& cleared.plan() == confirmed.plan()
                    &&& recorded(*old(self), confirmed.plan().target, now, *final(self))
                },
                Err(report) => {
                    &&& !allowed
                    &&& *final(self) == *old(self)
                    &&& report@ == cancellation(
                        confirmed.plan(),
                        "guard state changed before resume; no message sent"@,
                        now,
                    )
                },
            },
    {
        if !allowed {
            return Err(
                cancel(
                    confirmed.candidate,
                    "guard state changed before resume; no message sent",
                    now,
                ),
            );
        }
        self.state.record_attempt(&confirmed.candidate.target, now);
        Ok(Cleared { candidate: confirmed.candidate })
    }

    /// Remembers and reports how sending a continuation went.
    pub fn conclude(
        &mut self,
        cleared: Cleared,
        outcome: SendOutcome,
        automatic: bool,
        now: Timestamp,
    ) -> (r: EngineEvent)
        ensures
            r@ == conclusion(cleared.plan(), outcome, now),
            concluded(
                old(self).state,
                cleared.plan(),
                outcome,
                automatic,
                now,
                final(self).state,
            ),
            final(self).settings == old(self).settings,
            final(self).targets == old(self).targets,
            final(self).unresolved_targets == old(self).unresolved_targets,
            final(self).dry_run == old(self).dry_run,
    {
        let candidate = cleared.candidate;
        let failure = candidate.failure;
        let condition = Some(failure.condition.clone());
        let target = candidate.target.key();
        let (kind, message, receipt): (&str, String, Option<ResumeReceipt>) = match outcome {
            SendOutcome::Sent(receipt) => {
                self.state.begin_recovery(&failure, receipt.turn_id.clone(), now, automatic);
                self.state.mark_handled(&failure, "resumed", now);
                let message = "started turn ".to_owned().concat(receipt.turn_id.as_str()).concat(
                    " after ",
                ).concat(failure.condition.as_str());
                ("retry.sent", message, Some(receipt))
            },
            SendOutcome::AcknowledgementUnknown => {
                self.state.mark_handled(&failure, "unconfirmed", now);
                (
                    "retry.unconfirmed",
                    "recovery may have started, but the provider acknowledgement was lost".to_owned(),
                    None,
                )
            },
            SendOutcome::Failed(reason) => ("retry.failed", reason, None),
        };
        EngineEvent {
            timestamp: now,
            kind: kind.to_owned(),
            target,
            message,
            condition,
            attempt: Some(candidate.attempt),
            max_attempts: Some(candidate.max_attempts),
            prompt: Some(candidate.prompt),
            failure: Some(failure),
            receipt,
        }
    }
}

/// `after` has the attempt at a target on record, and nothing else has changed.
pub open spec fn recorded(
    before: WatchEngine,
    target: WatchTarget,
    now: Timestamp,
    after: WatchEngine,
) -> bool {
    &&& after.settings == before.settings
    &&& after.targets == before.targets
    &&& after.unresolved_targets == before.unresolved_targets
    &&& after.dry_run == before.dry_run
    &&& after.state.same_but_attempts(before.state, target.key_view())
    &&& runtime::attempts_of(after.state.attempts@, target.key_view()) == runtime::attempts_of(
        before.state.attempts@,
        target.key_view(),
    ).push(now)
}

/// A failed turn was continued, or may have been.
pub open spec fn continued(state: RuntimeState, turn: Seq<char>) -> bool {
    state.handled@.contains_key(turn) && (state.handled@[turn].action@ == "resumed"@
        || state.handled@[turn].action@ == "unconfirmed"@)
}

/// Each failed turn is continued at most once: once a continuation of it was or may have been sent,
/// nothing more is ever decided about it, whatever the policy says.
pub proof fn continued_turns_are_left_alone(
    engine: WatchEngine,
    target: WatchTarget,
    failure: Failure,
    now: Timestamp,
)
    requires
        continued(engine.state, failure.key_view()),
    ensures
        engine.judged(target, Observation::Failed(failure), now) == Judgement::Nothing,
{
}

/// A continuation that was or may have been sent has continued its turn.
pub proof fn sending_continues_the_turn(
    before: RuntimeState,
    candidate: Candidate,
    outcome: SendOutcome,
    automatic: bool,
    now: Timestamp,
    after: RuntimeState,
)
    requires
        concluded(before, candidate, outcome, automatic, now, after),
        !(outcome is Failed),
    ensures
        continued(after, candidate.failure.key_view()),
{
}

/// A decision leaves every turn continued that was.
pub proof fn decisions_keep_continuations(
    engine: WatchEngine,
    turn: Seq<char>,
    target: WatchTarget,
    observation: Observation,
    now: Timestamp,
    after: WatchEngine,
)
    requires
        continued(engine.state, turn),
        engine.settled(target, observation, now, after),
    ensures
        continued(after.state, turn),
{
    match observation {
        Observation::Failed(failure) => {
            let key = failure.key_view();
            if key != turn && !dealt_with(
                engine.state.action_on(failure),
                engine.action_for(failure),
            ) && engine.action_for(failure) == PolicyAction::Skip {
                assert(after.state.handled@.remove(key)[turn] == engine.state.handled@.remove(
                    key,
                )[turn]);
                assert(after.state.handled@.contains_key(turn));
            }
        },
        _ => {},
    }
}

/// An attempt leaves every turn continued that was.
pub proof fn attempts_keep_continuations(
    engine: WatchEngine,
    turn: Seq<char>,
    target: WatchTarget,
    now: Timestamp,
    after: WatchEngine,
)
    requires
        continued(engine.state, turn),
        recorded(engine, target, now, after),
    ensures
        continued(after.state, turn),
{
}

/// However sending a continuation went, every turn stays continued that was.
pub proof fn conclusions_keep_continuations(
    before: RuntimeState,
    turn: Seq<char>,
    candidate: Candidate,
    outcome: SendOutcome,
    automatic: bool,
    now: Timestamp,
    after: RuntimeState,
)
    requires
        continued(before, turn),
        concluded(before, candidate, outcome, automatic, now, after),
    ensures
        continued(after, turn),
{
    let key = candidate.failure.key_view();
    if key != turn && !(outcome is Failed) {
        assert(after.handled@.remove(key)[turn] == before.handled@.remove(key)[turn]);
        assert(after.handled@.contains_key(turn));
    }
}

/// A look at a recovery in flight leaves every turn continued that was.
pub proof fn observations_keep_continuations(
    engine: WatchEngine,
    turn: Seq<char>,
    pending: PendingRecovery,
    look: Look,
    now: Timestamp,
    after: RuntimeState,
)
    requires
        continued(engine.state, turn),
        engine.observed(pending, look, now, after),
    ensures
        continued(after, turn),
{
}

/// Forgetting what is old leaves every turn continued whose record is at most thirty days old.
pub proof fn pruning_keeps_recent_continuations(
    before: RuntimeState,
    turn: Seq<char>,
    now: Timestamp,
    after: RuntimeState,
)
    requires
        continued(before, turn),
        before.handled@[turn].at.is_not_before(now, runtime::memory_offset()),
        before.pruned(now, after),
    ensures
        continued(after, turn),
        after.handled@[turn] == before.handled@[turn],
{
    assert(after.handled@.contains_key(turn));
}

/// An engine is what another has become by a step that leaves a turn's record young enough to be
/// kept: a decision, an attempt, a conclusion, a look at a recovery in flight, forgetting what is
/// old, or what concerns no record at all.
pub open spec fn advances(before: WatchEngine, turn: Seq<char>, after: WatchEngine) -> bool {
    ||| exists|target: WatchTarget, observation: Observation, now: Timestamp| #[trigger]
        before.settled(target, observation, now, after)
    ||| exists|target: WatchTarget, now: Timestamp| #[trigger] recorded(before, target, now, after)
    ||| exists|candidate: Candidate, outcome: SendOutcome, automatic: bool, now: Timestamp|
        #[trigger] concluded(before.state, candidate, outcome, automatic, now, after.state)
    ||| exists|pending: PendingRecovery, look: Look, now: Timestamp| #[trigger]
        before.observed(pending, look, now, after.state)
    ||| exists|now: Timestamp| #[trigger]
        before.state.pruned(now, after.state) && before.state.handled@[turn].at.is_not_before(
            now,
            runtime::memory_offset(),
        )
    ||| after.state.handled@ == before.state.handled@
}

proof fn lemma_step_keeps_continuation(before: WatchEngine, turn: Seq<char>, after: WatchEngine)
    requires
        continued(before.state, turn),
        advances(before, turn, after),
    ensures
        continued(after.state, turn),
{
    if exists|target: WatchTarget, observation: Observation, now: Timestamp| #[trigger]
        before.settled(target, observation, now, after) {
        let (target, observation, now) = choose|
            target: WatchTarget,
            observation: Observation,
            now: Timestamp,
        | #[trigger]
            before.settled(target, observation, now, after);
        decisions_keep_continuations(before, turn, target, observation, now, after);
    } else if exists|target: WatchTarget, now: Timestamp| #[trigger]
        recorded(before, target, now, after) {
        let (target, now) = choose|target: WatchTarget, now: Timestamp| #[trigger]
            recorded(before, target, now, after);
        attempts_keep_continuations(before, turn, target, now, after);
    } else if exists|candidate: Candidate, outcome: SendOutcome, automatic: bool, now: Timestamp|
        #[trigger] concluded(before.state, candidate, outcome, automatic, now, after.state) {
        let (candidate, outcome, automatic, now) = choose|
            candidate: Candidate,
            outcome: SendOutcome,
            automatic: bool,
            now: Timestamp,
        | #[trigger]
            concluded(before.state, candidate, outcome, automatic, now, after.state);
        conclusions_keep_continuations(
            before.state,
            turn,
            candidate,
            outcome,
            automatic,
            now,
            after.state,
        );
    } else if exists|pending: PendingRecovery, look: Look, now: Timestamp| #[trigger]
        before.observed(pending, look, now, after.state) {
        let (pending, look, now) = choose|pending: PendingRecovery, look: Look, now: Timestamp|
            #[trigger] before.observed(pending, look, now, after.state);
        observations_keep_continuations(before, turn, pending, look, now, after.state);
    } else if exists|now: Timestamp| #[trigger]
        before.state.pruned(now, after.state) && before.state.handled@[turn].at.is_not_before(
            now,
            runtime::memory_offset(),
        ) {
        let now = choose|now: Timestamp| #[trigger]
            before.state.pruned(now, after.state) && before.state.handled@[turn].at.is_not_before(
                now,
                runtime::memory_offset(),
            );
        pruning_keeps_recent_continuations(before.state, turn, now, after.state);
    }
}

/// Each failed turn is handled at most once: once a continuation of it was or may have been sent,
/// nothing more is decided about it in any later state, whatever was decided, sent, observed or
/// forgotten since, as long as its record is young enough to be kept.
pub proof fn failed_turns_are_handled_at_most_once(
    states: Seq<WatchEngine>,
    failure: Failure,
    target: WatchTarget,
    now: Timestamp,
)
    requires
        states.len() > 0,
        continued(states[0].state, failure.key_view()),
        forall|i: int|
            0 <= i < states.len() - 1 ==> advances(
                #[trigger] states[i],
                failure.key_view(),
                states[i + 1],
            ),
    ensures
        continued(states.last().state, failure.key_view()),
        states.last().judged(target, Observation::Failed(failure), now) == Judgement::Nothing,
    decreases states.len(),
{
    if states.len() > 1 {
        let rest = states.drop_last();
        assert forall|i: int| 0 <= i < rest.len() - 1 implies advances(
            #[trigger] rest[i],
            failure.key_view(),
            rest[i + 1],
        ) by {
            assert(advances(states[i], failure.key_view(), states[i + 1]));
        }
        failed_turns_are_handled_at_most_once(rest, failure, target, now);
        let last = states.len() - 1;
        assert(advances(states[last - 1], failure.key_view(), states[last]));
        lemma_step_keeps_continuation(states[last - 1], failure.key_view(), states[last]);
    }
    continued_turns_are_left_alone(states.last(), target, failure, now);
}

/// A continuation is decided on only where the policy retries, the delay has passed since the last
/// attempt that counts or since the failure was seen, and fewer attempts than the limit count. So
/// every retry is delayed and bounded.
pub proof fn attempts_are_delayed_and_bounded(
    engine: WatchEngine,
    target: WatchTarget,
    failure: Failure,
    now: Timestamp,
)
    requires
        engine.judged(target, Observation::Failed(failure), now) is Attempt,
    ensures
        engine.action_for(failure) == PolicyAction::Retry,
        engine.counted_attempts(target, now).len() < engine.attempt_limit(failure),
        now.is_not_before(
            engine.delay_from(target, failure, now),
            engine.delay_before(failure, engine.counted_attempts(target, now).len()),
        ),
        engine.judged(target, Observation::Failed(failure), now)->attempt <= engine.judged(
            target,
            Observation::Failed(failure),
            now,
        )->max_attempts,
{
}

/// A dry run never continues anything.
pub proof fn dry_runs_send_nothing(
    engine: WatchEngine,
    target: WatchTarget,
    observation: Observation,
    now: Timestamp,
)
    requires
        engine.dry_run,
    ensures
        !(engine.judged(target, observation, now) is Attempt),
{
}

/// A failed turn is waited for wherever the calendar has the time of the next attempt: only a time
/// past its end is beyond it.
pub proof fn only_times_past_the_calendar_are_refused(
    engine: WatchEngine,
    target: WatchTarget,
    failure: Failure,
    now: Timestamp,
)
    requires
        engine.delay_from(target, failure, now).writable(),
        engine.judged(target, Observation::Failed(failure), now) is BeyondCalendar,
    ensures
        engine.delay_from(target, failure, now).seconds + engine.delay_before(
            failure,
            engine.counted_attempts(target, now).len(),
        ) > time::LAST_SECOND,
{
    let delay = engine.delay_before(failure, engine.counted_attempts(target, now).len());
    assert(delay >= 0);
}

/// A dry run reports every continuation that is due, with its prompt.
pub proof fn due_dry_runs_are_reported(
    engine: WatchEngine,
    target: WatchTarget,
    failure: Failure,
    now: Timestamp,
)
    requires
        engine.dry_run,
        engine.action_for(failure) == PolicyAction::Retry,
        !dealt_with(engine.state.action_on(failure), PolicyAction::Retry),
        engine.counted_attempts(target, now).len() < engine.attempt_limit(failure),
        engine.delay_from(target, failure, now).writable(),
        now.seconds <= time::LAST_SECOND,
        now.is_not_before(
            engine.delay_from(target, failure, now),
            engine.delay_before(failure, engine.counted_attempts(target, now).len()),
        ),
    ensures
        engine.judged(target, Observation::Failed(failure), now) matches Judgement::Report(report)
            && report.kind == "retry.dry_run"@ && report.prompt == Some(
            engine.prompt_for(failure, engine.counted_attempts(target, now).len() + 1),
        ),
{
    let delay = engine.delay_before(failure, engine.counted_attempts(target, now).len());
    assert(delay >= 0);
}

} // verus!
