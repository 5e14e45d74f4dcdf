//! What is remembered of failures, attempts and recoveries.

use vstd::prelude::*;
use vstd::string::*;

use crate::models;
use crate::models::{Failure, WatchTarget};
use crate::state::watchlist::UnsupportedVersion;
use crate::text;
use crate::textmap;
use crate::textmap::TextMap;
use crate::time::{Timestamp, DAY_SECONDS};

verus! {

/// The only schema version of the recovery state that is accepted.
pub const RUNTIME_VERSION: u32 = 3;

/// How many days anything is remembered.
pub const MEMORY_DAYS: i64 = 30;

/// How many outcomes are remembered.
pub const MAX_OUTCOMES: usize = 10_000;

/// What was done about a failed turn, and when.
#[derive(Debug)]
pub struct HandledFailure {
    pub action: String,
    pub at: Timestamp,
}

/// A recovery that was sent and whose outcome is not known yet.
#[derive(Debug)]
pub struct PendingRecovery {
    pub failure_key: String,
    pub provider: String,
    pub session_id: String,
    pub failed_turn_id: String,
    pub recovery_turn_id: String,
    pub started_at: Timestamp,
    pub automatic: bool,
    pub observation_failures: u32,
    pub last_observation_at: Option<Timestamp>,
}

impl Clone for PendingRecovery {
    fn clone(&self) -> (r: Self)
        ensures
            r == *self,
    {
        PendingRecovery {
            failure_key: self.failure_key.clone(),
            provider: self.provider.clone(),
            session_id: self.session_id.clone(),
            failed_turn_id: self.failed_turn_id.clone(),
            recovery_turn_id: self.recovery_turn_id.clone(),
            started_at: self.started_at,
            automatic: self.automatic,
            observation_failures: self.observation_failures,
            last_observation_at: self.last_observation_at,
        }
    }
}

/// How a recovery ended.
#[derive(Clone, Copy, Debug, PartialEq, Eq, Structural)]
pub struct RecoveryOutcome {
    pub completed_at: Timestamp,
    pub automatic: bool,
    pub success: bool,
}

/// How many recoveries succeeded and failed.
#[derive(Clone, Copy, Debug, Default, PartialEq, Eq, Structural)]
pub struct RecoveryMetrics {
    pub automatic_recoveries: usize,
    pub manual_recoveries: usize,
    pub failed_recoveries: usize,
    pub hands_free_percent: u8,
}

/// All that is remembered of recoveries.
#[derive(Debug)]
pub struct RuntimeState {
    pub version: u32,
    /// What was done about failed turns, by the key of the turn.
    pub handled: TextMap<HandledFailure>,
    /// When failed turns were first seen, by the key of the turn.
    pub observed: TextMap<Timestamp>,
    /// When recoveries were attempted, by the key of the session.
    pub attempts: TextMap<Vec<Timestamp>>,
    /// The recoveries in flight, by the key of the failed turn.
    pub pending_recoveries: TextMap<PendingRecovery>,
    pub recovery_outcomes: Vec<RecoveryOutcome>,
    pub path: String,
}

/// The times of `times` that are `offset` seconds after `reference`, or later.
pub open spec fn since(times: Seq<Timestamp>, reference: Timestamp, offset: int) -> Seq<Timestamp> {
    times.filter(|t: Timestamp| t.is_not_before(reference, offset))
}

/// The times at which recoveries of a session were attempted.
pub open spec fn attempts_of(
    attempts: Map<Seq<char>, Vec<Timestamp>>,
    key: Seq<char>,
) -> Seq<Timestamp> {
    if attempts.contains_key(key) {
        attempts[key]@
    } else {
        Seq::empty()
    }
}

fn keep_since(times: &Vec<Timestamp>, reference: Timestamp, offset: i128) -> (r: Vec<Timestamp>)
    requires
        -0x1_0000_0000_0000_0000 <= offset <= 0x1_0000_0000_0000_0000,
    ensures
        r@ == since(times@, reference, offset as int),
{
    let ghost all = times@;
    let ghost late = |t: Timestamp| t.is_not_before(reference, offset as int);
    let mut r: Vec<Timestamp> = Vec::new();
    let mut i: usize = 0;
    assert(all.take(0).filter(late) =~= Seq::empty()) by {
        reveal(Seq::filter);
    }
    while i < times.len()
        invariant
            i <= all.len(),
            times@ == all,
            -0x1_0000_0000_0000_0000 <= offset <= 0x1_0000_0000_0000_0000,
            late == (|t: Timestamp| t.is_not_before(reference, offset as int)),
            r@ == all.take(i as int).filter(late),
        decreases all.len() - i,
    {
        proof {
            all.take(i as int).lemma_filter_push(all[i as int], late);
            assert(all.take(i + 1) =~= all.take(i as int).push(all[i as int]));
        }
        if times[i].not_before(reference, offset) {
            r.push(times[i]);
        }
        i += 1;
    }
    assert(all.take(i as int) =~= all);
    r
}

/// The outcomes that count from `since` on and that `pick` selects.
pub open spec fn outcomes_since(
    outcomes: Seq<RecoveryOutcome>,
    since: Timestamp,
    success: bool,
    automatic: Option<bool>,
) -> Seq<RecoveryOutcome> {
    outcomes.filter(
        |outcome: RecoveryOutcome|
            outcome.completed_at.is_not_before(since, 0) && outcome.success == success && (
            automatic is None || Some(outcome.automatic) == automatic),
    )
}

/// The share of `automatic` in `automatic + manual`, in whole percent; all where there is none.
pub open spec fn hands_free(automatic: nat, manual: nat) -> int {
    if automatic + manual == 0 {
        100
    } else {
        capped(automatic * 100) / ((automatic + manual) as int)
    }
}

/// A number as far as the machine counts.
pub open spec fn capped(n: nat) -> int {
    if n <= usize::MAX {
        n as int
    } else {
        usize::MAX as int
    }
}

/// The pending recovery is one of this session.
pub open spec fn pending_of(
    pending: PendingRecovery,
    provider: Seq<char>,
    session_id: Seq<char>,
) -> bool {
    pending.provider@ == provider && pending.session_id@ == session_id
}

/// The last `count` of the outcomes.
pub open spec fn last_outcomes(
    outcomes: Seq<RecoveryOutcome>,
    count: nat,
) -> Seq<RecoveryOutcome> {
    if outcomes.len() <= count {
        outcomes
    } else {
        outcomes.skip(outcomes.len() - count)
    }
}

/// The offset of what is still remembered.
pub open spec fn memory_offset() -> int {
    -(MEMORY_DAYS * DAY_SECONDS)
}

fn is_remembered(at: Timestamp, now: Timestamp) -> (r: bool)
    ensures
        r == at.is_not_before(now, memory_offset()),
{
    at.not_before(now, -((MEMORY_DAYS * DAY_SECONDS) as i128))
}

impl RuntimeState {
    /// Nothing is remembered yet.
    pub fn new(path: String) -> (r: Self)
        ensures
            r.version == RUNTIME_VERSION,
            r.path == path,
            r.handled@ == Map::<Seq<char>, HandledFailure>::empty(),
            r.observed@ == Map::<Seq<char>, Timestamp>::empty(),
            r.attempts@ == Map::<Seq<char>, Vec<Timestamp>>::empty(),
            r.pending_recoveries@ == Map::<Seq<char>, PendingRecovery>::empty(),
            r.recovery_outcomes@ == Seq::<RecoveryOutcome>::empty(),
    {
        RuntimeState {
            version: RUNTIME_VERSION,
            handled: TextMap::new(),
            observed: TextMap::new(),
            attempts: TextMap::new(),
            pending_recoveries: TextMap::new(),
            recovery_outcomes: Vec::new(),
            path,
        }
    }

    /// Takes a stored state over, if its version is accepted.
    pub fn load(path: String, stored: Option<RuntimeState>) -> (r: Result<Self, UnsupportedVersion>)
        ensures
            match (stored, r) {
                (None, Ok(state)) => state.version == RUNTIME_VERSION && state.path == path
                    && state.handled@.dom().is_empty() && state.observed@.dom().is_empty()
                    && state.attempts@.dom().is_empty()
                    && state.pending_recoveries@.dom().is_empty()
                    && state.recovery_outcomes@.len() == 0,
                (Some(found), Ok(state)) => found.version == RUNTIME_VERSION && state == (
                RuntimeState { path, ..found }),
                (Some(found), Err(error)) => found.version != RUNTIME_VERSION && error.found
                    == found.version && error.required == RUNTIME_VERSION,
                (None, Err(_)) => false,
            },
    {
        match stored {
            None => Ok(RuntimeState::new(path)),
            Some(found) => {
                if found.version != RUNTIME_VERSION {
                    return Err(
                        UnsupportedVersion { found: found.version, required: RUNTIME_VERSION },
                    );
                }
                let mut state = found;
                state.path = path;
                Ok(state)
            },
        }
    }

    /// What was done about a failed turn.
    pub open spec fn action_on(self, failure: Failure) -> Option<Seq<char>> {
        if self.handled@.contains_key(failure.key_view()) {
            Some(self.handled@[failure.key_view()].action@)
        } else {
            None
        }
    }

    /// What was done about a failed turn, if anything was.
    pub fn handled_action(&self, failure: &Failure) -> (r: Option<&str>)
        ensures
            match r {
                Some(action) => self.action_on(*failure) == Some(action@),
                None => self.action_on(*failure) is None,
            },
    {
        match self.handled.get(failure.key().as_str()) {
            Some(handled) => Some(handled.action.as_str()),
            None => None,
        }
    }

    /// Everything but `handled` is the same.
    pub open spec fn same_but_handled(self, other: Self) -> bool {
        &&& self.version == other.version
        &&& self.observed == other.observed
        &&& self.attempts == other.attempts
        &&& self.pending_recoveries == other.pending_recoveries
        &&& self.recovery_outcomes == other.recovery_outcomes
        &&& self.path == other.path
    }

    /// Remembers what was done about a failed turn.
    pub fn mark_handled(&mut self, failure: &Failure, action: &str, now: Timestamp)
        ensures
            final(self).same_but_handled(*old(self)),
            final(self).handled@.dom() == old(self).handled@.dom().insert(failure.key_view()),
            final(self).handled@.remove(failure.key_view()) == old(self).handled@.remove(
                failure.key_view(),
            ),
            final(self).handled@[failure.key_view()].action@ == action@,
            final(self).handled@[failure.key_view()].at == now,
    {
        let ghost before = self.handled@;
        let ghost key = failure.key_view();
        self.handled.insert(
            failure.key(),
            HandledFailure { action: action.to_owned(), at: now },
        );
        assert(self.handled@.dom() =~= before.dom().insert(key));
        assert(self.handled@.remove(key) =~= before.remove(key));
    }

    /// When a failed turn was first seen; now, where it was not seen before.
    pub fn first_seen(&mut self, failure: &Failure, now: Timestamp) -> (r: Timestamp)
        ensures
            r == (if old(self).observed@.contains_key(failure.key_view()) {
                old(self).observed@[failure.key_view()]
            } else {
                now
            }),
            final(self).observed@ == old(self).observed@.insert(failure.key_view(), r),
            final(self).version == old(self).version,
            final(self).handled == old(self).handled,
            final(self).attempts == old(self).attempts,
            final(self).pending_recoveries == old(self).pending_recoveries,
            final(self).recovery_outcomes == old(self).recovery_outcomes,
            final(self).path == old(self).path,
    {
        let key = failure.key();
        match self.observed.get(key.as_str()) {
            Some(seen) => {
                let seen: Timestamp = *seen;
                assert(self.observed@.insert(key@, seen) =~= self.observed@);
                seen
            },
            None => {
                self.observed.insert(key, now);
                now
            },
        }
    }

    /// Everything but `attempts` is the same, and of `attempts` all but those of `key`.
    pub open spec fn same_but_attempts(self, other: Self, key: Seq<char>) -> bool {
        &&& self.version == other.version
        &&& self.handled == other.handled
        &&& self.observed == other.observed
        &&& self.pending_recoveries == other.pending_recoveries
        &&& self.recovery_outcomes == other.recovery_outcomes
        &&& self.path == other.path
        &&& self.attempts@.remove(key) == other.attempts@.remove(key)
    }

    /// Forgets the attempts at a session before the window, and counts the others.
    pub fn recent_attempts(
        &mut self,
        target: &WatchTarget,
        now: Timestamp,
        window_seconds: i64,
    ) -> (r: usize)
        ensures
            final(self).same_but_attempts(*old(self), target.key_view()),
            final(self).attempts@.contains_key(target.key_view()),
            attempts_of(final(self).attempts@, target.key_view()) == since(
                attempts_of(old(self).attempts@, target.key_view()),
                now,
                -(window_seconds as int),
            ),
            r == attempts_of(final(self).attempts@, target.key_view()).len(),
    {
        let key = target.key();
        let ghost before = self.attempts@;
        let times = match self.attempts.remove(key.as_str()) {
            Some(times) => times,
            None => Vec::new(),
        };
        assert(times@ =~= attempts_of(before, key@));
        let kept = keep_since(&times, now, -(window_seconds as i128));
        let count: usize = kept.len();
        let ghost key_view = key@;
        self.attempts.insert(key, kept);
        assert(self.attempts@.remove(key_view) =~= before.remove(key_view));
        count
    }

    /// Remembers an attempt at a session.
    pub fn record_attempt(&mut self, target: &WatchTarget, now: Timestamp)
        ensures
            final(self).same_but_attempts(*old(self), target.key_view()),
            final(self).attempts@.contains_key(target.key_view()),
            attempts_of(final(self).attempts@, target.key_view()) == attempts_of(
                old(self).attempts@,
                target.key_view(),
            ).push(now),
    {
        let key = target.key();
        let ghost before = self.attempts@;
        let ghost key_view = key@;
        let mut times = match self.attempts.remove(key.as_str()) {
            Some(times) => times,
            None => Vec::new(),
        };
        assert(times@ =~= attempts_of(before, key_view));
        times.push(now);
        self.attempts.insert(key, times);
        assert(self.attempts@.remove(key_view) =~= before.remove(key_view));
    }

    /// The last attempt at a session.
    pub open spec fn last_attempt(self, key: Seq<char>) -> Option<Timestamp> {
        let times = attempts_of(self.attempts@, key);
        if times.len() > 0 {
            Some(times.last())
        } else {
            None
        }
    }

    /// The last attempt at a session, if there was one.
    pub fn latest_attempt(&self, target: &WatchTarget) -> (r: Option<Timestamp>)
        ensures
            r == self.last_attempt(target.key_view()),
    {
        match self.attempts.get(target.key().as_str()) {
            Some(times) => if times.len() > 0 {
                Some(times[times.len() - 1])
            } else {
                None
            },
            None => None,
        }
    }

    /// Forgets the attempts at a session.
    pub fn clear_attempts(&mut self, target: &WatchTarget)
        ensures
            final(self).same_but_attempts(*old(self), target.key_view()),
            !final(self).attempts@.contains_key(target.key_view()),
    {
        let key = target.key();
        let ghost before = self.attempts@;
        self.attempts.remove(key.as_str());
        assert(self.attempts@.remove(key@) =~= before.remove(key@));
    }

    /// Everything but `pending_recoveries` and `recovery_outcomes` is the same.
    pub open spec fn same_but_recoveries(self, other: Self) -> bool {
        &&& self.version == other.version
        &&& self.handled == other.handled
        &&& self.observed == other.observed
        &&& self.attempts == other.attempts
        &&& self.path == other.path
    }

    /// Remembers a recovery that was sent.
    pub fn begin_recovery(
        &mut self,
        failure: &Failure,
        recovery_turn_id: String,
        now: Timestamp,
        automatic: bool,
    )
        ensures
            final(self).same_but_recoveries(*old(self)),
            final(self).recovery_outcomes == old(self).recovery_outcomes,
            final(self).pending_recoveries@.dom() == old(self).pending_recoveries@.dom().insert(
                failure.key_view(),
            ),
            final(self).pending_recoveries@.remove(failure.key_view()) == old(self).pending_recoveries@.remove(failure.key_view()),
            ({
                let pending = final(self).pending_recoveries@[failure.key_view()];
                &&& pending.failure_key@ == failure.key_view()
                &&& pending.provider == failure.provider
                &&& pending.session_id == failure.session_id
                &&& pending.failed_turn_id == failure.turn_id
                &&& pending.recovery_turn_id == recovery_turn_id
                &&& pending.started_at == now
                &&& pending.automatic == automatic
                &&& pending.observation_failures == 0
                &&& pending.last_observation_at is None
            }),
    {
        let ghost before = self.pending_recoveries@;
        let ghost key = failure.key_view();
        self.pending_recoveries.insert(
            failure.key(),
            PendingRecovery {
                failure_key: failure.key(),
                provider: failure.provider.clone(),
                session_id: failure.session_id.clone(),
                failed_turn_id: failure.turn_id.clone(),
                recovery_turn_id,
                started_at: now,
                automatic,
                observation_failures: 0,
                last_observation_at: None,
            },
        );
        assert(self.pending_recoveries@.dom() =~= before.dom().insert(key));
        assert(self.pending_recoveries@.remove(key) =~= before.remove(key));
    }

    /// The recoveries in flight, in the order of the keys of their failed turns.
    pub fn pending_recoveries(&self) -> (r: Vec<PendingRecovery>)
        ensures
            r@ == self.pending_recoveries.entries().map_values(
                |entry: (String, PendingRecovery)| entry.1,
            ),
            textmap::ordered(self.pending_recoveries.entries()),
            self.pending_recoveries@ == textmap::map_of(self.pending_recoveries.entries()),
    {
        let count: usize = self.pending_recoveries.len();
        let ghost entries = self.pending_recoveries.entries();
        let mut r: Vec<PendingRecovery> = Vec::new();
        let mut i: usize = 0;
        while i < count
            invariant
                i <= count,
                count == entries.len(),
                entries == self.pending_recoveries.entries(),
                r@.len() == i,
                forall|k: int| 0 <= k < i ==> #[trigger] r@[k] == entries[k].1,
            decreases count - i,
        {
            r.push(self.pending_recoveries.value_at(i).clone());
            i += 1;
        }
        assert(r@ =~= entries.map_values(|entry: (String, PendingRecovery)| entry.1));
        r
    }

    /// Some recovery of the session `key` is in flight.
    pub open spec fn pending_key(self, key: Seq<char>) -> bool {
        exists|failed: Seq<char>| #[trigger]
            self.pending_recoveries@.contains_key(failed) && models::session_key(
                self.pending_recoveries@[failed].provider@,
                self.pending_recoveries@[failed].session_id@,
            ) == key
    }

    /// The keys of the sessions with a recovery in flight.
    pub fn pending_target_keys(&self) -> (r: TextMap<()>)
        ensures
            forall|key: Seq<char>| #[trigger] r@.contains_key(key) <==> self.pending_key(key),
    {
        let count: usize = self.pending_recoveries.len();
        let ghost entries = self.pending_recoveries.entries();
        let mut r: TextMap<()> = TextMap::new();
        let mut i: usize = 0;
        while i < count
            invariant
                i <= count,
                count == entries.len(),
                entries == self.pending_recoveries.entries(),
                forall|key: Seq<char>| #[trigger]
                    r@.contains_key(key) <==> exists|k: int|
                        0 <= k < i && models::session_key(
                            (#[trigger] entries[k]).1.provider@,
                            entries[k].1.session_id@,
                        ) == key,
            decreases count - i,
        {
            let pending = self.pending_recoveries.value_at(i);
            let key = models::make_key(pending.provider.as_str(), pending.session_id.as_str());
            let ghost before = r@;
            let ghost added = key@;
            r.insert(key, ());
            proof {
                assert forall|key: Seq<char>| #[trigger] r@.contains_key(key) <==> exists|k: int|
                    0 <= k < i + 1 && models::session_key(
                        (#[trigger] entries[k]).1.provider@,
                        entries[k].1.session_id@,
                    ) == key by {
                    if r@.contains_key(key) {
                        if before.contains_key(key) {
                            let k = choose|k: int|
                                0 <= k < i && models::session_key(
                                    (#[trigger] entries[k]).1.provider@,
                                    entries[k].1.session_id@,
                                ) == key;
                            assert(entries[k].1.provider@ == entries[k].1.provider@);
                        } else {
                            assert(entries[i as int].1 == *pending);
                        }
                    }
                    if exists|k: int|
                        0 <= k < i + 1 && models::session_key(
                            (#[trigger] entries[k]).1.provider@,
                            entries[k].1.session_id@,
                        ) == key {
                        let k = choose|k: int|
                            0 <= k < i + 1 && models::session_key(
                                (#[trigger] entries[k]).1.provider@,
                                entries[k].1.session_id@,
                            ) == key;
                        if k < i {
                            assert(before.contains_key(key));
                        }
                    }
                }
            }
            i += 1;
        }
        proof {
            assert forall|key: Seq<char>| #[trigger] r@.contains_key(key) <==> self.pending_key(
                key,
            ) by {
                if r@.contains_key(key) {
                    let k = choose|k: int|
                        0 <= k < count && models::session_key(
                            (#[trigger] entries[k]).1.provider@,
                            entries[k].1.session_id@,
                        ) == key;
                    textmap::lemma_key_is_unique(entries, k);
                    assert(self.pending_recoveries@.contains_key(entries[k].0@));
                }
                if self.pending_key(key) {
                    let failed = choose|failed: Seq<char>| #[trigger]
                        self.pending_recoveries@.contains_key(failed) && models::session_key(
                            self.pending_recoveries@[failed].provider@,
                            self.pending_recoveries@[failed].session_id@,
                        ) == key;
                    let k = textmap::key_index(entries, failed);
                    assert(entries[k].0@ == failed);
                    textmap::lemma_key_is_unique(entries, k);
                }
            }
        }
        r
    }

    /// Some recovery of the target is in flight.
    pub open spec fn pending_for(self, target: WatchTarget) -> bool {
        exists|failed: Seq<char>| #[trigger]
            self.pending_recoveries@.contains_key(failed) && pending_of(
                self.pending_recoveries@[failed],
                target.provider@,
                target.session_id@,
            )
    }

    /// Whether some recovery of the target is in flight.
    pub fn has_pending_for(&self, target: &WatchTarget) -> (r: bool)
        ensures
            r == self.pending_for(*target),
    {
        let count: usize = self.pending_recoveries.len();
        let ghost entries = self.pending_recoveries.entries();
        let mut i: usize = 0;
        while i < count
            invariant
                i <= count,
                count == entries.len(),
                entries == self.pending_recoveries.entries(),
                textmap::ordered(entries),
                self.pending_recoveries@ == textmap::map_of(entries),
                forall|k: int|
                    0 <= k < i ==> !pending_of(
                        (#[trigger] entries[k]).1,
                        target.provider@,
                        target.session_id@,
                    ),
            decreases count - i,
        {
            let pending = self.pending_recoveries.value_at(i);
            if text::same(pending.provider.as_str(), target.provider.as_str()) && text::same(
                pending.session_id.as_str(),
                target.session_id.as_str(),
            ) {
                proof {
                    textmap::lemma_key_is_unique(entries, i as int);
                    assert(self.pending_recoveries@.contains_key(entries[i as int].0@));
                }
                return true;
            }
            i += 1;
        }
        proof {
            if self.pending_for(*target) {
                let failed = choose|failed: Seq<char>| #[trigger]
                    self.pending_recoveries@.contains_key(failed) && pending_of(
                        self.pending_recoveries@[failed],
                        target.provider@,
                        target.session_id@,
                    );
                let k = textmap::key_index(entries, failed);
                assert(entries[k].0@ == failed);
                textmap::lemma_key_is_unique(entries, k);
            }
        }
        false
    }

    /// Ends a recovery in flight with an outcome that counts.
    pub fn finish_recovery(&mut self, failure_key: &str, success: bool, now: Timestamp) -> (r:
        Option<PendingRecovery>)
        ensures
            final(self).same_but_recoveries(*old(self)),
            final(self).pending_recoveries@ == old(self).pending_recoveries@.remove(failure_key@),
            match r {
                Some(pending) => {
                    &&& old(self).pending_recoveries@.contains_key(failure_key@)
                    &&& pending == old(self).pending_recoveries@[failure_key@]
                    &&& final(self).recovery_outcomes@ == old(self).recovery_outcomes@.push(
                        RecoveryOutcome {
                            completed_at: now,
                            automatic: pending.automatic,
                            success,
                        },
                    )
                },
                None => !old(self).pending_recoveries@.contains_key(failure_key@) && final(self).recovery_outcomes == old(self).recovery_outcomes,
            },
    {
        match self.pending_recoveries.remove(failure_key) {
            Some(pending) => {
                self.recovery_outcomes.push(
                    RecoveryOutcome { completed_at: now, automatic: pending.automatic, success },
                );
                Some(pending)
            },
            None => None,
        }
    }

    /// Counts one more failed look at a recovery in flight.
    pub fn record_recovery_observation_failure(
        &mut self,
        failure_key: &str,
        now: Timestamp,
    ) -> (r: Option<u32>)
        ensures
            final(self).same_but_recoveries(*old(self)),
            final(self).recovery_outcomes == old(self).recovery_outcomes,
            match r {
                Some(failures) => {
                    let pending = old(self).pending_recoveries@[failure_key@];
                    &&& old(self).pending_recoveries@.contains_key(failure_key@)
                    &&& failures == (if pending.observation_failures < u32::MAX {
                        (pending.observation_failures + 1) as u32
                    } else {
                        u32::MAX
                    })
                    &&& final(self).pending_recoveries@ == old(self).pending_recoveries@.insert(
                        failure_key@,
                        PendingRecovery {
                            observation_failures: failures,
                            last_observation_at: Some(now),
                            ..pending
                        },
                    )
                },
                None => !old(self).pending_recoveries@.contains_key(failure_key@) && final(self).pending_recoveries@ == old(self).pending_recoveries@,
            },
    {
        let ghost before = self.pending_recoveries@;
        match self.pending_recoveries.remove(failure_key) {
            Some(pending) => {
                let mut pending = pending;
                pending.observation_failures = pending.observation_failures.saturating_add(1);
                pending.last_observation_at = Some(now);
                let failures: u32 = pending.observation_failures;
                let ghost updated = pending;
                self.pending_recoveries.insert(failure_key.to_owned(), pending);
                assert(self.pending_recoveries@ =~= before.insert(failure_key@, updated));
                Some(failures)
            },
            None => None,
        }
    }

    /// Ends a recovery in flight without an outcome.
    pub fn abandon_recovery(&mut self, failure_key: &str) -> (r: Option<PendingRecovery>)
        ensures
            final(self).same_but_recoveries(*old(self)),
            final(self).recovery_outcomes == old(self).recovery_outcomes,
            final(self).pending_recoveries@ == old(self).pending_recoveries@.remove(failure_key@),
            match r {
                Some(pending) => old(self).pending_recoveries@.contains_key(failure_key@)
                    && pending == old(self).pending_recoveries@[failure_key@],
                None => !old(self).pending_recoveries@.contains_key(failure_key@),
            },
    {
        self.pending_recoveries.remove(failure_key)
    }

    /// `metrics` counts the outcomes from `since` on.
    pub open spec fn counted(self, since: Timestamp, metrics: RecoveryMetrics) -> bool {
        let outcomes = self.recovery_outcomes@;
        &&& metrics.automatic_recoveries == outcomes_since(outcomes, since, true, Some(true)).len()
        &&& metrics.manual_recoveries == outcomes_since(outcomes, since, true, Some(false)).len()
        &&& metrics.failed_recoveries == outcomes_since(outcomes, since, false, None).len()
        &&& metrics.hands_free_percent == hands_free(
            metrics.automatic_recoveries as nat,
            metrics.manual_recoveries as nat,
        )
    }

    /// Counts the outcomes from `since` on. The hands-free percentage is the share of automatic
    /// recoveries among those that succeeded.
    pub fn metrics_since(&self, since: Timestamp) -> (r: RecoveryMetrics)
        ensures
            self.counted(since, r),
            r.hands_free_percent <= 100,
    {
        let ghost all = self.recovery_outcomes@;
        let mut automatic: usize = 0;
        let mut manual: usize = 0;
        let mut failed: usize = 0;
        let mut i: usize = 0;
        proof {
            lemma_count_prefix(all, since, 0);
        }
        while i < self.recovery_outcomes.len()
            invariant
                i <= all.len(),
                self.recovery_outcomes@ == all,
                automatic == outcomes_since(all.take(i as int), since, true, Some(true)).len(),
                manual == outcomes_since(all.take(i as int), since, true, Some(false)).len(),
                failed == outcomes_since(all.take(i as int), since, false, None).len(),
                automatic + manual + failed <= i,
            decreases all.len() - i,
        {
            proof {
                lemma_count_prefix(all, since, i as int);
            }
            let outcome: RecoveryOutcome = self.recovery_outcomes[i];
            if outcome.completed_at.not_before(since, 0) {
                if !outcome.success {
                    failed += 1;
                } else if outcome.automatic {
                    automatic += 1;
                } else {
                    manual += 1;
                }
            }
            i += 1;
        }
        assert(all.take(i as int) =~= all);
        let resolved: usize = automatic + manual;
        let percent: u8 = if resolved == 0 {
            100
        } else {
            let product: u128 = automatic as u128 * 100;
            let limited: usize = if product <= usize::MAX as u128 {
                product as usize
            } else {
                usize::MAX
            };
            let quotient: usize = limited / resolved;
            proof {
                assert(limited <= 100 * resolved);
                assert(quotient <= 100) by (nonlinear_arith)
                    requires
                        quotient == limited as int / resolved as int,
                        limited <= 100 * resolved,
                        resolved > 0,
                ;
            }
            quotient as u8
        };
        RecoveryMetrics {
            automatic_recoveries: automatic,
            manual_recoveries: manual,
            failed_recoveries: failed,
            hands_free_percent: percent,
        }
    }

    /// `after` remembers what is younger than thirty days of `self`.
    pub open spec fn pruned(self, now: Timestamp, after: Self) -> bool {
        let offset = memory_offset();
        &&& after.version == self.version
        &&& after.path == self.path
        &&& after.pending_recoveries == self.pending_recoveries
        &&& after.handled@ == self.handled@.restrict(
            Set::new(
                |key: Seq<char>|
                    self.handled@.contains_key(key) && self.handled@[key].at.is_not_before(
                        now,
                        offset,
                    ),
            ),
        )
        &&& after.observed@ == self.observed@.restrict(
            Set::new(
                |key: Seq<char>|
                    self.observed@.contains_key(key) && self.observed@[key].is_not_before(
                        now,
                        offset,
                    ),
            ),
        )
        &&& forall|key: Seq<char>| #[trigger]
            attempts_of(after.attempts@, key) == since(
                attempts_of(self.attempts@, key),
                now,
                offset,
            )
        &&& forall|key: Seq<char>| #[trigger]
            after.attempts@.contains_key(key) ==> after.attempts@[key]@.len() > 0
        &&& after.recovery_outcomes@ == last_outcomes(
            self.recovery_outcomes@.filter(
                |outcome: RecoveryOutcome| outcome.completed_at.is_not_before(now, offset),
            ),
            MAX_OUTCOMES as nat,
        )
    }

    /// Forgets what is older than thirty days, and all but the last ten thousand outcomes.
    pub fn prune(&mut self, now: Timestamp)
        ensures
            old(self).pruned(now, *final(self)),
    {
        let ghost first = *self;
        let ghost offset = memory_offset();
        let count: usize = self.handled.len();
        let ghost entries = self.handled.entries();
        let mut keep: Vec<bool> = Vec::new();
        let mut i: usize = 0;
        while i < count
            invariant
                i <= count,
                count == entries.len(),
                entries == self.handled.entries(),
                keep@.len() == i,
                forall|k: int|
                    0 <= k < i ==> keep@[k] == (#[trigger] entries[k]).1.at.is_not_before(
                        now,
                        memory_offset(),
                    ),
            decreases count - i,
        {
            keep.push(is_remembered(self.handled.value_at(i).at, now));
            i += 1;
        }
        self.handled.retain(&keep);
        proof {
            assert forall|key: Seq<char>| #[trigger] first.handled@.contains_key(key) implies
                self.handled@.contains_key(key) == first.handled@[key].at.is_not_before(
                now,
                offset,
            ) by {
                let k = textmap::key_index(entries, key);
                assert(entries[k].0@ == key);
                textmap::lemma_key_is_unique(entries, k);
            }
            assert(self.handled@ =~= first.handled@.restrict(
                Set::new(
                    |key: Seq<char>|
                        first.handled@.contains_key(key) && first.handled@[key].at.is_not_before(
                            now,
                            offset,
                        ),
                ),
            ));
        }
        let count: usize = self.observed.len();
        let ghost entries = self.observed.entries();
        let mut keep: Vec<bool> = Vec::new();
        let mut i: usize = 0;
        while i < count
            invariant
                i <= count,
                count == entries.len(),
                entries == self.observed.entries(),
                keep@.len() == i,
                forall|k: int|
                    0 <= k < i ==> keep@[k] == (#[trigger] entries[k]).1.is_not_before(
                        now,
                        memory_offset(),
                    ),
            decreases count - i,
        {
            keep.push(is_remembered(*self.observed.value_at(i), now));
            i += 1;
        }
        self.observed.retain(&keep);
        proof {
            assert forall|key: Seq<char>| #[trigger] first.observed@.contains_key(key) implies
                self.observed@.contains_key(key) == first.observed@[key].is_not_before(
                now,
                offset,
            ) by {
                let k = textmap::key_index(entries, key);
                assert(entries[k].0@ == key);
                textmap::lemma_key_is_unique(entries, k);
            }
            assert(self.observed@ =~= first.observed@.restrict(
                Set::new(
                    |key: Seq<char>|
                        first.observed@.contains_key(key) && first.observed@[key].is_not_before(
                            now,
                            offset,
                        ),
                ),
            ));
        }
        self.prune_attempts(now);
        self.prune_outcomes(now);
    }

    fn prune_attempts(&mut self, now: Timestamp)
        ensures
            final(self).version == old(self).version,
            final(self).path == old(self).path,
            final(self).handled == old(self).handled,
            final(self).observed == old(self).observed,
            final(self).pending_recoveries == old(self).pending_recoveries,
            final(self).recovery_outcomes == old(self).recovery_outcomes,
            forall|key: Seq<char>| #[trigger]
                attempts_of(final(self).attempts@, key) == since(
                    attempts_of(old(self).attempts@, key),
                    now,
                    memory_offset(),
                ),
            forall|key: Seq<char>| #[trigger]
                final(self).attempts@.contains_key(key) ==> final(self).attempts@[key]@.len() > 0,
    {
        let count: usize = self.attempts.len();
        let ghost entries = self.attempts.entries();
        let ghost before = self.attempts@;
        let ghost offset = memory_offset();
        let mut kept: TextMap<Vec<Timestamp>> = TextMap::new();
        let mut i: usize = 0;
        while i < count
            invariant
                i <= count,
                count == entries.len(),
                entries == self.attempts.entries(),
                textmap::ordered(entries),
                before == textmap::map_of(entries),
                offset == memory_offset(),
                forall|k: int|
                    0 <= k < i ==> attempts_of(kept@, (#[trigger] entries[k]).0@) == since(
                        entries[k].1@,
                        now,
                        offset,
                    ),
                forall|key: Seq<char>| #[trigger]
                    kept@.contains_key(key) ==> kept@[key]@.len() > 0 && exists|k: int|
                        0 <= k < i && (#[trigger] entries[k]).0@ == key,
            decreases count - i,
        {
            let recent = keep_since(
                self.attempts.value_at(i),
                now,
                -((MEMORY_DAYS * DAY_SECONDS) as i128),
            );
            let ghost so_far = kept@;
            let ghost here = entries[i as int].0@;
            let ghost recent_view = recent@;
            assert(!so_far.contains_key(here)) by {
                if so_far.contains_key(here) {
                    let k = choose|k: int| 0 <= k < i && (#[trigger] entries[k]).0@ == here;
                    textmap::lemma_key_is_unique(entries, k);
                    textmap::lemma_key_is_unique(entries, i as int);
                }
            }
            if recent.len() > 0 {
                kept.insert(self.attempts.key_at(i).clone(), recent);
            } else {
                assert(recent@ =~= Seq::<Timestamp>::empty());
            }
            proof {
                assert(attempts_of(kept@, here) == recent_view);
                assert forall|k: int| 0 <= k < i + 1 implies attempts_of(
                    kept@,
                    (#[trigger] entries[k]).0@,
                ) == since(entries[k].1@, now, offset) by {
                    if k < i {
                        textmap::lemma_key_is_unique(entries, k);
                        textmap::lemma_key_is_unique(entries, i as int);
                        assert(entries[k].0@ != here);
                        assert(attempts_of(so_far, entries[k].0@) == since(
                            entries[k].1@,
                            now,
                            offset,
                        ));
                    }
                }
                assert forall|key: Seq<char>| #[trigger] kept@.contains_key(key) implies kept@[key]@.len()
                    > 0 && exists|k: int| 0 <= k < i + 1 && (#[trigger] entries[k]).0@ == key by {
                    if so_far.contains_key(key) {
                        let k = choose|k: int| 0 <= k < i && (#[trigger] entries[k]).0@ == key;
                        assert(entries[k].0@ == key);
                    } else {
                        assert(entries[i as int].0@ == key);
                    }
                }
            }
            i += 1;
        }
        proof {
            assert forall|key: Seq<char>| #[trigger] attempts_of(kept@, key) == since(
                attempts_of(before, key),
                now,
                offset,
            ) by {
                if before.contains_key(key) {
                    let k = textmap::key_index(entries, key);
                    assert(entries[k].0@ == key);
                    textmap::lemma_key_is_unique(entries, k);
                } else {
                    if kept@.contains_key(key) {
                        let k = choose|k: int| 0 <= k < count && (#[trigger] entries[k]).0@ == key;
                        textmap::lemma_key_is_unique(entries, k);
                    }
                    assert(since(Seq::<Timestamp>::empty(), now, offset) =~= Seq::empty()) by {
                        reveal(Seq::filter);
                    }
                }
            }
        }
        self.attempts = kept;
    }

    fn prune_outcomes(&mut self, now: Timestamp)
        ensures
            final(self).version == old(self).version,
            final(self).path == old(self).path,
            final(self).handled == old(self).handled,
            final(self).observed == old(self).observed,
            final(self).attempts == old(self).attempts,
            final(self).pending_recoveries == old(self).pending_recoveries,
            final(self).recovery_outcomes@ == last_outcomes(
                old(self).recovery_outcomes@.filter(
                    |outcome: RecoveryOutcome|
                        outcome.completed_at.is_not_before(now, memory_offset()),
                ),
                MAX_OUTCOMES as nat,
            ),
    {
        let ghost all = self.recovery_outcomes@;
        let ghost young = |outcome: RecoveryOutcome|
            outcome.completed_at.is_not_before(now, memory_offset());
        let mut kept: Vec<RecoveryOutcome> = Vec::new();
        let mut i: usize = 0;
        assert(all.take(0).filter(young) =~= Seq::empty()) by {
            reveal(Seq::filter);
        }
        while i < self.recovery_outcomes.len()
            invariant
                i <= all.len(),
                self.recovery_outcomes@ == all,
                young == (|outcome: RecoveryOutcome|
                    outcome.completed_at.is_not_before(now, memory_offset())),
                kept@ == all.take(i as int).filter(young),
            decreases all.len() - i,
        {
            proof {
                all.take(i as int).lemma_filter_push(all[i as int], young);
                assert(all.take(i + 1) =~= all.take(i as int).push(all[i as int]));
            }
            let outcome: RecoveryOutcome = self.recovery_outcomes[i];
            if is_remembered(outcome.completed_at, now) {
                kept.push(outcome);
            }
            i += 1;
        }
        assert(all.take(i as int) =~= all);
        if kept.len() > MAX_OUTCOMES {
            let last = kept.split_off(kept.len() - MAX_OUTCOMES);
            self.recovery_outcomes = last;
        } else {
            self.recovery_outcomes = kept;
        }
    }
}

proof fn lemma_count_prefix(all: Seq<RecoveryOutcome>, since: Timestamp, i: int)
    requires
        0 <= i <= all.len(),
    ensures
        i == 0 ==> outcomes_since(all.take(0), since, true, Some(true)).len() == 0
            && outcomes_since(all.take(0), since, true, Some(false)).len() == 0 && outcomes_since(
            all.take(0),
            since,
            false,
            None,
        ).len() == 0,
        all.len() > i ==> forall|success: bool, automatic: Option<bool>| #[trigger]
            outcomes_since(all.take(i + 1), since, success, automatic).len() == outcomes_since(
                all.take(i),
                since,
                success,
                automatic,
            ).len() + (if all[i].completed_at.is_not_before(since, 0) && all[i].success == success
                && (automatic is None || Some(all[i].automatic) == automatic) {
                1int
            } else {
                0
            }),
{
    reveal(Seq::filter);
    if all.len() > i {
        assert forall|success: bool, automatic: Option<bool>| #[trigger]
            outcomes_since(all.take(i + 1), since, success, automatic).len() == outcomes_since(
                all.take(i),
                since,
                success,
                automatic,
            ).len() + (if all[i].completed_at.is_not_before(since, 0) && all[i].success == success
                && (automatic is None || Some(all[i].automatic) == automatic) {
                1int
            } else {
                0
            }) by {
            let pick = |outcome: RecoveryOutcome|
                outcome.completed_at.is_not_before(since, 0) && outcome.success == success && (
                automatic is None || Some(outcome.automatic) == automatic);
            all.take(i).lemma_filter_push(all[i], pick);
            assert(all.take(i + 1) =~= all.take(i).push(all[i]));
        }
    }
}

} // verus!
