//! What becomes of the recoveries in flight.

use vstd::prelude::*;
use vstd::string::*;

use crate::engine::recovery::{EventView, WatchEngine};
use crate::models;
use crate::models::{EngineEvent, TurnOutcome, WatchTarget};
use crate::state::runtime::{PendingRecovery, RecoveryOutcome, RuntimeState};
use crate::text;
use crate::time::Timestamp;

verus! {

/// The days after which a recovery in flight is given up.
pub const PENDING_RECOVERY_MAX_DAYS: i64 = 7;

/// The days after which a recovery in flight of a session that is not watched is given up, if it
/// could not be observed often enough.
pub const ORPHAN_PENDING_RECOVERY_MAX_DAYS: i64 = 1;

/// How many failed looks are often enough.
pub const PENDING_RECOVERY_MAX_OBSERVATION_FAILURES: u32 = 20;

/// An event about the session of a recovery in flight.
pub open spec fn pending_event(
    pending: PendingRecovery,
    kind: Seq<char>,
    message: Seq<char>,
    now: Timestamp,
) -> EventView {
    EventView {
        timestamp: now,
        kind,
        target: models::session_key(pending.provider@, pending.session_id@),
        message,
        condition: None,
        attempt: None,
        max_attempts: None,
        prompt: None,
        failure: None,
        receipt: None,
    }
}

fn make_pending_event(
    pending: &PendingRecovery,
    kind: &str,
    message: String,
    now: Timestamp,
) -> (r: EngineEvent)
    ensures
        r@ == pending_event(*pending, kind@, message@, now),
{
    EngineEvent {
        timestamp: now,
        kind: kind.to_owned(),
        target: models::make_key(pending.provider.as_str(), pending.session_id.as_str()),
        message,
        condition: None,
        attempt: None,
        max_attempts: None,
        prompt: None,
        failure: None,
        receipt: None,
    }
}

/// Some target is the session of a recovery.
pub open spec fn is_target(targets: Seq<WatchTarget>, pending: PendingRecovery) -> bool {
    exists|i: int|
        0 <= i < targets.len() && (#[trigger] targets[i]).provider@ == pending.provider@
            && targets[i].session_id@ == pending.session_id@
}

/// A recovery in flight began so many days ago, of 86,400 seconds each.
pub open spec fn is_old(pending: PendingRecovery, now: Timestamp, days: i64) -> bool {
    now.nanos_since(pending.started_at) >= days * 86_400_000_000_000
}

fn has_age(pending: &PendingRecovery, now: Timestamp, days: i64) -> (r: bool)
    requires
        0 <= days <= 1_000_000,
    ensures
        r == is_old(*pending, now, days),
{
    now.since(pending.started_at) >= days as i128 * 86_400_000_000_000
}

/// A recovery in flight is too old to wait for.
pub open spec fn too_old(pending: PendingRecovery, now: Timestamp) -> bool {
    is_old(pending, now, PENDING_RECOVERY_MAX_DAYS)
}

/// A recovery in flight that could not be observed is given up: it is too old, or nobody watches
/// its session any more and it was looked at often enough.
pub open spec fn expired(
    targets: Seq<WatchTarget>,
    pending: PendingRecovery,
    failures: u32,
    now: Timestamp,
) -> bool {
    ||| too_old(pending, now)
    ||| {
        &&& is_old(pending, now, ORPHAN_PENDING_RECOVERY_MAX_DAYS)
        &&& failures >= PENDING_RECOVERY_MAX_OBSERVATION_FAILURES
        &&& !is_target(targets, pending)
    }
}

/// What a look at a recovery in flight showed.
#[derive(Clone, Copy, Debug, PartialEq, Eq, Structural)]
pub enum Look {
    /// The provider said how the turn stands.
    Seen(TurnOutcome),
    /// The provider could not be asked.
    Failed,
}

/// What a look at a recovery in flight comes to.
#[derive(Clone, Copy, Debug, PartialEq, Eq, Structural)]
pub enum Verdict {
    /// The turn ended, well or not.
    Finished(bool),
    /// The turn is not waited for any longer.
    Abandoned,
    /// The turn is waited for, and one more failed look counts.
    Missed,
    /// The turn is waited for.
    Waiting,
}

/// How many failed looks at the recovery of a turn count after one more.
pub open spec fn failures_after(state: RuntimeState, turn: Seq<char>) -> u32 {
    if !state.pending_recoveries@.contains_key(turn) {
        0
    } else if state.pending_recoveries@[turn].observation_failures < u32::MAX {
        (state.pending_recoveries@[turn].observation_failures + 1) as u32
    } else {
        u32::MAX
    }
}

impl WatchEngine {
    /// What a look at a recovery in flight comes to.
    pub open spec fn verdict_on(
        self,
        pending: PendingRecovery,
        look: Look,
        now: Timestamp,
    ) -> Verdict {
        match look {
            Look::Seen(TurnOutcome::Completed) => Verdict::Finished(true),
            Look::Seen(TurnOutcome::Failed) => Verdict::Finished(false),
            Look::Seen(TurnOutcome::InProgress) => if too_old(pending, now) {
                Verdict::Abandoned
            } else {
                Verdict::Waiting
            },
            _ => if expired(
                self.targets@,
                pending,
                failures_after(self.state, pending.failure_key@),
                now,
            ) {
                Verdict::Abandoned
            } else {
                Verdict::Missed
            },
        }
    }

    /// What is reported of a look at a recovery that is in flight.
    pub open spec fn report_on(
        self,
        pending: PendingRecovery,
        look: Look,
        now: Timestamp,
    ) -> Option<EventView> {
        if !self.state.pending_recoveries@.contains_key(pending.failure_key@) {
            None
        } else {
            match self.verdict_on(pending, look, now) {
                Verdict::Finished(true) => Some(
                    pending_event(
                        pending,
                        "recovery.completed"@,
                        "recovery turn "@ + pending.recovery_turn_id@ + " completed"@,
                        now,
                    ),
                ),
                Verdict::Finished(false) => Some(
                    pending_event(
                        pending,
                        "recovery.failed"@,
                        "recovery turn "@ + pending.recovery_turn_id@ + " failed"@,
                        now,
                    ),
                ),
                Verdict::Abandoned => Some(
                    pending_event(
                        pending,
                        "recovery.unconfirmed"@,
                        "stopped observing recovery turn "@ + pending.recovery_turn_id@
                            + " after its outcome remained unavailable"@,
                        now,
                    ),
                ),
                _ => None,
            }
        }
    }

    /// `after` remembers a look at a recovery in flight: only a turn that ended counts as success
    /// or failure.
    pub open spec fn observed(
        self,
        pending: PendingRecovery,
        look: Look,
        now: Timestamp,
        after: RuntimeState,
    ) -> bool {
        let turn = pending.failure_key@;
        let flying = self.state.pending_recoveries@;
        &&& after.same_but_recoveries(self.state)
        &&& match self.verdict_on(pending, look, now) {
            Verdict::Finished(success) => {
                &&& after.pending_recoveries@ == flying.remove(turn)
                &&& after.recovery_outcomes@ == (if flying.contains_key(turn) {
                    self.state.recovery_outcomes@.push(
                        RecoveryOutcome {
                            completed_at: now,
                            automatic: flying[turn].automatic,
                            success,
                        },
                    )
                } else {
                    self.state.recovery_outcomes@
                })
            },
            Verdict::Abandoned => {
                &&& after.pending_recoveries@ == flying.remove(turn)
                &&& after.recovery_outcomes@ == self.state.recovery_outcomes@
            },
            Verdict::Missed => {
                &&& after.pending_recoveries@ == (if flying.contains_key(turn) {
                    flying.insert(
                        turn,
                        PendingRecovery {
                            observation_failures: failures_after(self.state, turn),
                            last_observation_at: Some(now),
                            ..flying[turn]
                        },
                    )
                } else {
                    flying
                })
                &&& after.recovery_outcomes@ == self.state.recovery_outcomes@
            },
            Verdict::Waiting => after == self.state,
        }
    }

    fn pending_recovery_expired(
        &self,
        pending: &PendingRecovery,
        observation_failures: u32,
        now: Timestamp,
    ) -> (r: bool)
        ensures
            r == expired(self.targets@, *pending, observation_failures, now),
    {
        if has_age(pending, now, PENDING_RECOVERY_MAX_DAYS) {
            return true;
        }
        if !has_age(pending, now, ORPHAN_PENDING_RECOVERY_MAX_DAYS) || observation_failures < PENDING_RECOVERY_MAX_OBSERVATION_FAILURES {
            return false;
        }
        let mut i: usize = 0;
        while i < self.targets.len()
            invariant
                i <= self.targets@.len(),
                forall|k: int|
                    0 <= k < i ==> !((#[trigger] self.targets@[k]).provider@ == pending.provider@
                        && self.targets@[k].session_id@ == pending.session_id@),
                is_old(*pending, now, ORPHAN_PENDING_RECOVERY_MAX_DAYS),
                !too_old(*pending, now),
                observation_failures >= PENDING_RECOVERY_MAX_OBSERVATION_FAILURES,
            decreases self.targets@.len() - i,
        {
            let target = &self.targets[i];
            if text::same(target.provider.as_str(), pending.provider.as_str()) && text::same(
                target.session_id.as_str(),
                pending.session_id.as_str(),
            ) {
                assert(self.targets@[i as int].provider@ == pending.provider@);
                return false;
            }
            i += 1;
        }
        true
    }

    fn abandon_pending_recovery(&mut self, pending: &PendingRecovery, now: Timestamp) -> (r: Option<
        EngineEvent,
    >)
        ensures
            final(self).settings == old(self).settings,
            final(self).targets == old(self).targets,
            final(self).unresolved_targets == old(self).unresolved_targets,
            final(self).dry_run == old(self).dry_run,
            final(self).state.same_but_recoveries(old(self).state),
            final(self).state.recovery_outcomes == old(self).state.recovery_outcomes,
            final(self).state.pending_recoveries@ == old(self).state.pending_recoveries@.remove(
                pending.failure_key@,
            ),
            match r {
                Some(report) => old(self).state.pending_recoveries@.contains_key(
                    pending.failure_key@,
                ) && report@ == pending_event(
                    *pending,
                    "recovery.unconfirmed"@,
                    "stopped observing recovery turn "@ + pending.recovery_turn_id@
                        + " after its outcome remained unavailable"@,
                    now,
                ),
                None => !old(self).state.pending_recoveries@.contains_key(pending.failure_key@),
            },
    {
        match self.state.abandon_recovery(pending.failure_key.as_str()) {
            None => None,
            Some(_) => {
                let message = "stopped observing recovery turn ".to_owned().concat(
                    pending.recovery_turn_id.as_str(),
                ).concat(" after its outcome remained unavailable");
                Some(make_pending_event(pending, "recovery.unconfirmed", message, now))
            },
        }
    }

    /// Takes over a look at a recovery in flight.
    pub fn observe_recovery(
        &mut self,
        pending: &PendingRecovery,
        look: Look,
        now: Timestamp,
    ) -> (r: Option<EngineEvent>)
        ensures
            match r {
                Some(report) => old(self).report_on(*pending, look, now) == Some(report@),
                None => old(self).report_on(*pending, look, now) is None,
            },
            old(self).observed(*pending, look, now, final(self).state),
            final(self).settings == old(self).settings,
            final(self).targets == old(self).targets,
            final(self).unresolved_targets == old(self).unresolved_targets,
            final(self).dry_run == old(self).dry_run,
    {
        let success = match look {
            Look::Seen(TurnOutcome::Completed) => true,
            Look::Seen(TurnOutcome::Failed) => false,
            Look::Seen(TurnOutcome::InProgress) => {
                if has_age(pending, now, PENDING_RECOVERY_MAX_DAYS) {
                    return self.abandon_pending_recovery(pending, now);
                }
                return None;
            },
            _ => {
                let ghost before = *self;
                let failures: u32 = match self.state.record_recovery_observation_failure(
                    pending.failure_key.as_str(),
                    now,
                ) {
                    Some(failures) => failures,
                    None => 0,
                };
                assert(failures == failures_after(before.state, pending.failure_key@));
                if self.pending_recovery_expired(pending, failures, now) {
                    let r = self.abandon_pending_recovery(pending, now);
                    assert(self.state.pending_recoveries@
                        =~= before.state.pending_recoveries@.remove(pending.failure_key@));
                    return r;
                }
                return None;
            },
        };
        match self.state.finish_recovery(pending.failure_key.as_str(), success, now) {
            None => None,
            Some(_) => {
                let ending: &str = if success {
                    " completed"
                } else {
                    " failed"
                };
                let kind: &str = if success {
                    "recovery.completed"
                } else {
                    "recovery.failed"
                };
                let message = "recovery turn ".to_owned().concat(
                    pending.recovery_turn_id.as_str(),
                ).concat(ending);
                Some(make_pending_event(pending, kind, message, now))
            },
        }
    }
}

/// Only a recovery turn that the provider reports as ended counts, as success or as failure; a look
/// that shows anything else, or nothing, leaves every count as it is.
pub proof fn only_ended_recoveries_count(
    engine: WatchEngine,
    pending: PendingRecovery,
    look: Look,
    now: Timestamp,
    after: RuntimeState,
)
    requires
        engine.observed(pending, look, now, after),
        look != Look::Seen(TurnOutcome::Completed),
        look != Look::Seen(TurnOutcome::Failed),
    ensures
        after.recovery_outcomes@ == engine.state.recovery_outcomes@,
{
}

/// Waiting for a recovery ends: after seven days every look that does not end it gives it up.
pub proof fn recoveries_are_not_awaited_forever(
    engine: WatchEngine,
    pending: PendingRecovery,
    look: Look,
    now: Timestamp,
    after: RuntimeState,
)
    requires
        too_old(pending, now),
        engine.observed(pending, look, now, after),
    ensures
        !after.pending_recoveries@.contains_key(pending.failure_key@),
{
}

} // verus!
