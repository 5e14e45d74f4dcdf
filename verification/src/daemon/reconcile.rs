//! The periodic comparison of the service with its providers and its settings file.

use vstd::prelude::*;
use vstd::string::*;

use crate::config::{LifecycleSettings, Settings};
use crate::daemon::control::{Change, WatchcatDaemon};
use crate::engine::permit::RecoveryPermit;
use crate::models::{Session, SessionState, WatchTarget};
use crate::state::control;
use crate::state::runtime::{RecoveryMetrics, RuntimeState};
use crate::state::watchlist;
use crate::state::watchlist::WatchlistStore;
use crate::text;
use crate::textmap;
use crate::textmap::TextMap;
use crate::time;
use crate::time::{Timestamp, SECOND_NANOS};

verus! {

/// What a provider listed.
#[derive(Debug)]
pub struct ProviderScan {
    pub provider: String,
    /// The sessions, unless the provider could not be asked.
    pub sessions: Option<Vec<Session>>,
    /// Whether these are all of its sessions.
    pub complete: bool,
}

/// The activity of a session is not certain: it is at work, or no time is known.
pub open spec fn uncertain(session: Session) -> bool {
    session.state == SessionState::Active || session.updated_at is None
}

/// Some session of the list has the key `key`.
pub open spec fn lists(sessions: Seq<Session>, key: Seq<char>) -> bool {
    exists|i: int| 0 <= i < sessions.len() && (#[trigger] sessions[i]).key_view() == key
}

/// Some session of the list has the key `key` and no certain activity.
pub open spec fn lists_uncertain(sessions: Seq<Session>, key: Seq<char>) -> bool {
    exists|i: int|
        0 <= i < sessions.len() && (#[trigger] sessions[i]).key_view() == key && uncertain(
            sessions[i],
        )
}

/// Some target of a provider has the key `key`.
pub open spec fn targets_key(
    targets: Seq<WatchTarget>,
    provider: Seq<char>,
    key: Seq<char>,
) -> bool {
    exists|i: int|
        0 <= i < targets.len() && (#[trigger] targets[i]).provider@ == provider
            && targets[i].key_view() == key
}

/// A scan leaves open whether the session `key` is inactive.
pub open spec fn leaves_open(
    scan: ProviderScan,
    targets: Seq<WatchTarget>,
    key: Seq<char>,
) -> bool {
    match scan.sessions {
        None => targets_key(targets, scan.provider@, key),
        Some(sessions) => {
            ||| lists_uncertain(sessions@, key)
            ||| !scan.complete && targets_key(targets, scan.provider@, key) && !lists(
                sessions@,
                key,
            )
        },
    }
}

/// Some scan leaves open whether the session `key` is inactive.
pub open spec fn left_open(
    scans: Seq<ProviderScan>,
    targets: Seq<WatchTarget>,
    key: Seq<char>,
) -> bool {
    exists|j: int| 0 <= j < scans.len() && leaves_open(#[trigger] scans[j], targets, key)
}

fn protect_targets(
    protected: &mut TextMap<()>,
    targets: &Vec<WatchTarget>,
    provider: &str,
    listed: &TextMap<()>,
)
    ensures
        forall|key: Seq<char>| #[trigger]
            final(protected)@.contains_key(key) <==> old(protected)@.contains_key(key) || (
            targets_key(targets@, provider@, key) && !listed@.contains_key(key)),
{
    let ghost first = protected@;
    let mut i: usize = 0;
    while i < targets.len()
        invariant
            i <= targets@.len(),
            forall|key: Seq<char>| #[trigger]
                protected@.contains_key(key) <==> first.contains_key(key) || (targets_key(
                    targets@.take(i as int),
                    provider@,
                    key,
                ) && !listed@.contains_key(key)),
        decreases targets@.len() - i,
    {
        let target = &targets[i];
        let key = target.key();
        let ghost before = protected@;
        let ghost here = key@;
        let ghost adds = target.provider@ == provider@ && !listed@.contains_key(here);
        if text::same(target.provider.as_str(), provider) && !listed.contains_key(key.as_str()) {
            protected.insert(key, ());
        }
        proof {
            let seen = targets@.take(i as int);
            let next = targets@.take(i + 1);
            assert forall|key: Seq<char>| #[trigger]
                protected@.contains_key(key) <==> first.contains_key(key) || (targets_key(
                    next,
                    provider@,
                    key,
                ) && !listed@.contains_key(key)) by {
                assert(before.contains_key(key) <==> first.contains_key(key) || (targets_key(
                    seen,
                    provider@,
                    key,
                ) && !listed@.contains_key(key)));
                if targets_key(seen, provider@, key) {
                    let k = choose|k: int|
                        0 <= k < seen.len() && (#[trigger] seen[k]).provider@ == provider@
                            && seen[k].key_view() == key;
                    assert(next[k].provider@ == provider@);
                }
                if targets_key(next, provider@, key) && !targets_key(seen, provider@, key) {
                    let k = choose|k: int|
                        0 <= k < next.len() && (#[trigger] next[k]).provider@ == provider@
                            && next[k].key_view() == key;
                    if k < i {
                        assert(seen[k].provider@ == provider@);
                    }
                    assert(k == i);
                }
                if adds && key == here {
                    assert(next[i as int].provider@ == provider@);
                }
            }
        }
        i += 1;
    }
    assert(targets@.take(i as int) =~= targets@);
}

fn protect_uncertain(protected: &mut TextMap<()>, sessions: &Vec<Session>) -> (listed: TextMap<()>)
    ensures
        forall|key: Seq<char>| #[trigger]
            final(protected)@.contains_key(key) <==> old(protected)@.contains_key(key)
                || lists_uncertain(sessions@, key),
        forall|key: Seq<char>| #[trigger]
            listed@.contains_key(key) <==> lists(sessions@, key),
{
    let ghost first = protected@;
    let mut listed: TextMap<()> = TextMap::new();
    let mut i: usize = 0;
    while i < sessions.len()
        invariant
            i <= sessions@.len(),
            forall|key: Seq<char>| #[trigger]
                protected@.contains_key(key) <==> first.contains_key(key) || lists_uncertain(
                    sessions@.take(i as int),
                    key,
                ),
            forall|key: Seq<char>| #[trigger]
                listed@.contains_key(key) <==> lists(sessions@.take(i as int), key),
        decreases sessions@.len() - i,
    {
        let session = &sessions[i];
        let key = session.key();
        let ghost before = protected@;
        let ghost listed_before = listed@;
        let ghost here = key@;
        let doubt = session.state == SessionState::Active || session.updated_at.is_none();
        if doubt {
            protected.insert(key.clone(), ());
        }
        listed.insert(key, ());
        proof {
            let seen = sessions@.take(i as int);
            let next = sessions@.take(i + 1);
            assert(next[i as int] == *session);
            assert forall|key: Seq<char>| #[trigger]
                protected@.contains_key(key) <==> first.contains_key(key) || lists_uncertain(
                    next,
                    key,
                ) by {
                assert(before.contains_key(key) <==> first.contains_key(key) || lists_uncertain(
                    seen,
                    key,
                ));
                if lists_uncertain(seen, key) {
                    let k = choose|k: int|
                        0 <= k < seen.len() && (#[trigger] seen[k]).key_view() == key && uncertain(
                            seen[k],
                        );
                    assert(next[k].key_view() == key);
                }
                if lists_uncertain(next, key) && !lists_uncertain(seen, key) {
                    let k = choose|k: int|
                        0 <= k < next.len() && (#[trigger] next[k]).key_view() == key && uncertain(
                            next[k],
                        );
                    if k < i {
                        assert(seen[k].key_view() == key);
                    }
                    assert(k == i);
                }
                if doubt && key == here {
                    assert(next[i as int].key_view() == key);
                }
            }
            assert forall|key: Seq<char>| #[trigger]
                listed@.contains_key(key) <==> lists(next, key) by {
                assert(listed_before.contains_key(key) <==> lists(seen, key));
                if lists(seen, key) {
                    let k = choose|k: int|
                        0 <= k < seen.len() && (#[trigger] seen[k]).key_view() == key;
                    assert(next[k].key_view() == key);
                }
                if lists(next, key) && !lists(seen, key) {
                    let k = choose|k: int|
                        0 <= k < next.len() && (#[trigger] next[k]).key_view() == key;
                    if k < i {
                        assert(seen[k].key_view() == key);
                    }
                    assert(k == i);
                }
                if key == here {
                    assert(next[i as int].key_view() == key);
                }
            }
        }
        i += 1;
    }
    assert(sessions@.take(i as int) =~= sessions@);
    listed
}

/// The keys of the sessions that no poll may remove: those whose inactivity the scans leave open.
pub fn protected_keys(targets: &Vec<WatchTarget>, scans: &Vec<ProviderScan>) -> (r: TextMap<()>)
    ensures
        forall|key: Seq<char>| #[trigger]
            r@.contains_key(key) <==> left_open(scans@, targets@, key),
{
    let mut r: TextMap<()> = TextMap::new();
    let nothing: TextMap<()> = TextMap::new();
    let mut i: usize = 0;
    while i < scans.len()
        invariant
            i <= scans@.len(),
            nothing@ == Map::<Seq<char>, ()>::empty(),
            forall|key: Seq<char>| #[trigger]
                r@.contains_key(key) <==> left_open(scans@.take(i as int), targets@, key),
        decreases scans@.len() - i,
    {
        let scan = &scans[i];
        let ghost before = r@;
        match &scan.sessions {
            None => {
                protect_targets(&mut r, targets, scan.provider.as_str(), &nothing);
            },
            Some(sessions) => {
                let listed = protect_uncertain(&mut r, sessions);
                if !scan.complete {
                    protect_targets(&mut r, targets, scan.provider.as_str(), &listed);
                }
            },
        }
        proof {
            let seen = scans@.take(i as int);
            let next = scans@.take(i + 1);
            assert forall|key: Seq<char>| #[trigger]
                r@.contains_key(key) <==> left_open(next, targets@, key) by {
                assert(before.contains_key(key) <==> left_open(seen, targets@, key));
                assert(r@.contains_key(key) <==> before.contains_key(key) || leaves_open(
                    *scan,
                    targets@,
                    key,
                ));
                if left_open(seen, targets@, key) {
                    let k = choose|k: int|
                        0 <= k < seen.len() && leaves_open(#[trigger] seen[k], targets@, key);
                    assert(leaves_open(next[k], targets@, key));
                }
                if leaves_open(*scan, targets@, key) {
                    assert(leaves_open(next[i as int], targets@, key));
                }
                if left_open(next, targets@, key) && !left_open(seen, targets@, key) {
                    let k = choose|k: int|
                        0 <= k < next.len() && leaves_open(#[trigger] next[k], targets@, key);
                    if k < i {
                        assert(leaves_open(seen[k], targets@, key));
                    }
                }
            }
        }
        i += 1;
    }
    assert(scans@.take(i as int) =~= scans@);
    r
}

/// Nanoseconds as whole seconds, without what is left over.
pub open spec fn whole_seconds(nanos: int) -> int {
    if nanos >= 0 {
        nanos / SECOND_NANOS as int
    } else {
        -(-nanos / SECOND_NANOS as int)
    }
}

/// The number that the bits of an interval stand for: one beyond the range of `i64` is negative.
pub open spec fn signed_interval(interval: u64) -> int {
    if interval <= i64::MAX {
        interval as int
    } else {
        interval - 0x1_0000_0000_0000_0000
    }
}

/// The time for the next sweep has come.
pub open spec fn sweep_due(last: Option<Timestamp>, now: Timestamp, interval: u64) -> bool {
    match last {
        None => true,
        Some(last) => whole_seconds(now.nanos_since(last)) >= signed_interval(interval),
    }
}

/// Whether the time for the next sweep has come.
pub fn is_sweep_due(last: Option<Timestamp>, now: Timestamp, lifecycle: &LifecycleSettings) -> (r:
    bool)
    ensures
        r == sweep_due(last, now, lifecycle.sweep_interval_seconds),
{
    match last {
        None => true,
        Some(last) => {
            let interval: u64 = lifecycle.sweep_interval_seconds;
            let wanted: i128 = if interval <= i64::MAX as u64 {
                interval as i128
            } else {
                interval as i128 - 0x1_0000_0000_0000_0000
            };
            let nanos: i128 = now.since(last);
            let passed: i128 = if nanos >= 0 {
                (nanos as u128 / SECOND_NANOS as u128) as i128
            } else {
                -(((-nanos) as u128 / SECOND_NANOS as u128) as i128)
            };
            passed >= wanted
        },
    }
}

/// The time from which on activity is recent enough to be watched.
pub fn activity_cutoff(now: Timestamp, lifecycle: &LifecycleSettings) -> (r: Timestamp)
    ensures
        lifecycle.stale_after_seconds >= 0 ==> forall|activity: Timestamp|
            #[trigger] activity.is_not_before(r, 0) == activity.is_not_before(
                now,
                -lifecycle.stale_after_seconds,
            ),
{
    match now.moved(-(lifecycle.stale_after_seconds as i128)) {
        Some(cutoff) => cutoff,
        None => Timestamp { seconds: i64::MIN, nanos: 0 },
    }
}

/// The sessions that scans listed.
pub open spec fn listed_by(scans: Seq<ProviderScan>) -> Seq<Session>
    decreases scans.len(),
{
    if scans.len() == 0 {
        Seq::empty()
    } else {
        listed_by(scans.drop_last()) + match scans.last().sessions {
            Some(sessions) => sessions@,
            None => Seq::empty(),
        }
    }
}

fn gather(scans: &Vec<ProviderScan>) -> (r: Vec<Session>)
    ensures
        r@ == listed_by(scans@),
{
    let mut r: Vec<Session> = Vec::new();
    let mut i: usize = 0;
    assert(listed_by(scans@.take(0)) =~= Seq::<Session>::empty());
    while i < scans.len()
        invariant
            i <= scans@.len(),
            r@ == listed_by(scans@.take(i as int)),
        decreases scans@.len() - i,
    {
        assert(scans@.take(i + 1).drop_last() =~= scans@.take(i as int));
        let ghost before = r@;
        if let Some(sessions) = &scans[i].sessions {
            let mut j: usize = 0;
            while j < sessions.len()
                invariant
                    j <= sessions@.len(),
                    r@ == before + sessions@.take(j as int),
                decreases sessions@.len() - j,
            {
                r.push(sessions[j].clone());
                assert(sessions@.take(j + 1) =~= sessions@.take(j as int).push(
                    sessions@[j as int],
                ));
                j += 1;
            }
            assert(sessions@.take(j as int) =~= sessions@);
        } else {
            assert(r@ =~= before + Seq::<Session>::empty());
        }
        i += 1;
    }
    assert(scans@.take(i as int) =~= scans@);
    r
}

/// The keys of a map, in their order.
pub open spec fn key_views(entries: Seq<(String, ())>) -> Seq<Seq<char>> {
    entries.map_values(|entry: (String, ())| entry.0@)
}

/// The metrics of the month that a time lies in.
pub fn monthly_metrics(state: &RuntimeState, now: Timestamp) -> (r: RecoveryMetrics)
    requires
        now.writable(),
    ensures
        state.counted(time::month_start(now), r),
{
    state.metrics_since(time::start_of_month(now))
}

/// The keys of targets, in their order.
pub open spec fn target_keys(targets: Seq<WatchTarget>) -> Seq<Seq<char>> {
    targets.map_values(|target: WatchTarget| target.key_view())
}

impl WatchcatDaemon {
    /// What was planned in a revision is still to be taken over: neither the revision nor the
    /// permission has moved since.
    pub fn is_current(&self, planned: u64, generation: u64) -> (r: bool)
        ensures
            r == (self.revision_view() == planned && generation == planned),
    {
        self.revision() == planned && generation == planned
    }

    /// Takes over which sessions need attention, and the metrics.
    pub fn note_outcome(&mut self, attention: &TextMap<()>, metrics: RecoveryMetrics)
        ensures
            text::views(final(self).attention_target_keys@) == key_views(attention.entries()),
            final(self).metrics == metrics,
            final(self).settings == old(self).settings,
            final(self).watchlist == old(self).watchlist,
            final(self).control == old(self).control,
            final(self).last_sweep_at == old(self).last_sweep_at,
            final(self).config_modified == old(self).config_modified,
    {
        let count: usize = attention.len();
        let mut keys: Vec<String> = Vec::new();
        let mut i: usize = 0;
        while i < count
            invariant
                i <= count,
                count == attention.entries().len(),
                keys@.len() == i,
                forall|k: int| 0 <= k < i ==> (#[trigger] keys@[k]) == attention.entries()[k].0,
            decreases count - i,
        {
            keys.push(attention.key_at(i).clone());
            i += 1;
        }
        assert(text::views(keys@) =~= key_views(attention.entries()));
        self.attention_target_keys = keys;
        self.metrics = metrics;
    }

    /// The protection that a sweep gives: to what the scans leave open, and to unresolved failures
    /// where the settings say so.
    pub open spec fn protects(
        self,
        scans: Seq<ProviderScan>,
        unresolved: Map<Seq<char>, ()>,
        key: Seq<char>,
    ) -> bool {
        ||| left_open(scans, self.watchlist.document.targets@, key)
        ||| self.settings.lifecycle.protect_unresolved_failures && unresolved.contains_key(key)
    }

    /// `protected` are the keys that a sweep protects.
    pub open spec fn is_protection(
        self,
        scans: Seq<ProviderScan>,
        unresolved: Map<Seq<char>, ()>,
        protected: Map<Seq<char>, ()>,
    ) -> bool {
        forall|key: Seq<char>| #[trigger]
            protected.contains_key(key) <==> self.protects(scans, unresolved, key)
    }

    fn protection(&self, scans: &Vec<ProviderScan>, unresolved: &TextMap<()>) -> (r: TextMap<()>)
        ensures
            self.is_protection(scans@, unresolved@, r@),
    {
        let mut r = protected_keys(&self.watchlist.document.targets, scans);
        if !self.settings.lifecycle.protect_unresolved_failures {
            return r;
        }
        let ghost first = r@;
        let count: usize = unresolved.len();
        let ghost entries = unresolved.entries();
        let mut i: usize = 0;
        while i < count
            invariant
                i <= count,
                count == entries.len(),
                entries == unresolved.entries(),
                forall|key: Seq<char>| #[trigger]
                    r@.contains_key(key) <==> first.contains_key(key) || exists|k: int|
                        0 <= k < i && (#[trigger] entries[k]).0@ == key,
            decreases count - i,
        {
            let ghost before = r@;
            r.insert(unresolved.key_at(i).clone(), ());
            proof {
                assert forall|key: Seq<char>| #[trigger]
                    r@.contains_key(key) <==> first.contains_key(key) || exists|k: int|
                        0 <= k < i + 1 && (#[trigger] entries[k]).0@ == key by {
                    assert(before.contains_key(key) <==> first.contains_key(key) || exists|k: int|
                        0 <= k < i && (#[trigger] entries[k]).0@ == key);
                    if r@.contains_key(key) && !before.contains_key(key) {
                        assert(entries[i as int].0@ == key);
                    }
                    if before.contains_key(key) && !first.contains_key(key) {
                        let k = choose|k: int| 0 <= k < i && (#[trigger] entries[k]).0@ == key;
                        assert(entries[k].0@ == key);
                    }
                    if exists|k: int| 0 <= k < i + 1 && (#[trigger] entries[k]).0@ == key {
                        let k = choose|k: int|
                            0 <= k < i + 1 && (#[trigger] entries[k]).0@ == key;
                        if k < i {
                            assert(before.contains_key(key));
                        }
                    }
                }
            }
            i += 1;
        }
        proof {
            assert forall|key: Seq<char>| #[trigger] r@.contains_key(key) <==> self.protects(
                scans@,
                unresolved@,
                key,
            ) by {
                assert(first.contains_key(key) <==> left_open(
                    scans@,
                    self.watchlist.document.targets@,
                    key,
                ));
                if unresolved@.contains_key(key) {
                    let k = textmap::key_index(entries, key);
                    assert(entries[k].0@ == key);
                }
                if r@.contains_key(key) && !first.contains_key(key) {
                    let k = choose|k: int| 0 <= k < count && (#[trigger] entries[k]).0@ == key;
                    textmap::lemma_key_is_unique(entries, k);
                }
            }
        }
        r
    }

    /// `after` are the targets that a poll leaves, given what the providers listed.
    pub open spec fn leaves(
        self,
        scans: Seq<ProviderScan>,
        unresolved: Map<Seq<char>, ()>,
        now: Timestamp,
        after: Seq<WatchTarget>,
    ) -> bool {
        exists|protected: Map<Seq<char>, ()>| #[trigger]
            self.is_protection(scans, unresolved, protected) && after == watchlist::reconciled(
                self.watchlist.document,
                listed_by(scans),
                now,
                self.settings.lifecycle.stale_after_seconds as int,
                protected,
            )
    }

    /// Plans the watchlist after a poll: the change, if there is one.
    pub fn plan_sweep(
        &mut self,
        scans: &Vec<ProviderScan>,
        unresolved: &TextMap<()>,
        now: Timestamp,
    ) -> (r: Option<Change>)
        ensures
            final(self).last_sweep_at == Some(now),
            final(self).config_modified == old(self).config_modified,
            final(self).settings == old(self).settings,
            final(self).watchlist == old(self).watchlist,
            final(self).control == old(self).control,
            final(self).attention_target_keys == old(self).attention_target_keys,
            final(self).metrics == old(self).metrics,
            match r {
                None => exists|after: Seq<WatchTarget>| #[trigger]
                    old(self).leaves(scans@, unresolved@, now, after) && watchlist::same_targets(
                        old(self).watchlist.document.targets@,
                        after,
                    ),
                Some(Change::Watchlist(document)) => {
                    &&& old(self).leaves(scans@, unresolved@, now, document.targets@)
                    &&& !watchlist::same_targets(
                        old(self).watchlist.document.targets@,
                        document.targets@,
                    )
                    &&& document.version == old(self).watchlist.document.version
                    &&& document.excluded@ == old(self).watchlist.document.excluded@
                },
                Some(Change::Settings(_)) => false,
            },
    {
        let sessions = gather(scans);
        let protected = self.protection(scans, unresolved);
        self.last_sweep_at = Some(now);
        let mut store = WatchlistStore {
            path: self.watchlist.path.clone(),
            document: self.watchlist.document.clone(),
        };
        let ghost copied = store.document;
        let changed = store.reconcile(
            &sessions,
            now,
            self.settings.lifecycle.stale_after_seconds,
            &protected,
        );
        proof {
            let stale_after = self.settings.lifecycle.stale_after_seconds as int;
            let after = watchlist::reconciled(
                self.watchlist.document,
                sessions@,
                now,
                stale_after,
                protected@,
            );
            assert(watchlist::reconciled(copied, sessions@, now, stale_after, protected@) == after);
            assert(old(self).is_protection(scans@, unresolved@, protected@));
            assert(old(self).leaves(scans@, unresolved@, now, after));
        }
        if changed {
            Some(Change::Watchlist(store.document))
        } else {
            None
        }
    }

    /// Whether a change is one of which sessions are watched. What is only known anew of them needs
    /// no revision of its own.
    pub fn changes_membership(&self, change: &Change) -> (r: bool)
        ensures
            r == (change matches Change::Watchlist(document) && target_keys(document.targets@)
                != target_keys(self.watchlist.document.targets@)),
    {
        let after = match change {
            Change::Settings(_) => {
                return false;
            },
            Change::Watchlist(document) => &document.targets,
        };
        let before = &self.watchlist.document.targets;
        let ghost keys_before = target_keys(before@);
        let ghost keys_after = target_keys(after@);
        if before.len() != after.len() {
            assert(keys_before.len() != keys_after.len());
            return true;
        }
        let mut i: usize = 0;
        while i < before.len()
            invariant
                i <= before@.len(),
                before@.len() == after@.len(),
                before@ == self.watchlist.document.targets@,
                change matches Change::Watchlist(document) && document.targets@ == after@,
                keys_before == target_keys(before@),
                keys_after == target_keys(after@),
                forall|k: int| 0 <= k < i ==> keys_before[k] == keys_after[k],
            decreases before@.len() - i,
        {
            if !text::same(before[i].key().as_str(), after[i].key().as_str()) {
                assert(keys_before[i as int] != keys_after[i as int]);
                return true;
            }
            i += 1;
        }
        assert(keys_before =~= keys_after);
        false
    }

    /// Whether the settings file was modified since it was taken up.
    pub fn is_config_changed(&self, seen: Option<Timestamp>) -> (r: bool)
        ensures
            r == (seen != self.config_modified),
    {
        match (seen, self.config_modified) {
            (Some(a), Some(b)) => a != b,
            (None, None) => false,
            _ => true,
        }
    }

    /// Takes up when the settings file was modified, as it is when the service itself has written it.
    pub fn note_config(&mut self, seen: Option<Timestamp>)
        ensures
            *final(self) == (WatchcatDaemon { config_modified: seen, ..*old(self) }),
    {
        self.config_modified = seen;
    }

    /// `after` is what becomes of the service when its settings file is seen as modified at a time,
    /// given what it then holds, if it can be read, and whether the advanced revision could be stored. A file that is
    /// untouched changes nothing; settings that cannot be read leave the last good ones in use; and
    /// those that can are taken over in a revision of their own.
    pub open spec fn reloads(
        self,
        seen: Option<Timestamp>,
        loaded: Option<Settings>,
        stored: bool,
        after: Self,
    ) -> bool {
        if seen == self.config_modified {
            after == self
        } else {
            match loaded {
                None => after == (WatchcatDaemon { config_modified: seen, ..self }),
                Some(settings) => if stored {
                    &&& after.settings == settings
                    &&& after.config_modified == seen
                    &&& after.revision_view() == control::following(self.revision_view())
                    &&& after.control.path_view() == self.control.path_view()
                    &&& after.watchlist == self.watchlist
                    &&& after.attention_target_keys == self.attention_target_keys
                    &&& after.metrics == self.metrics
                    &&& after.last_sweep_at == self.last_sweep_at
                } else {
                    after == self
                },
            }
        }
    }

    /// Takes over settings that were changed on disk, and says whether it did.
    pub fn reload_external_config(
        &mut self,
        seen: Option<Timestamp>,
        loaded: Option<Settings>,
        stored: bool,
    ) -> (reloaded: bool)
        ensures
            reloaded == (seen != old(self).config_modified && loaded is Some && stored),
            old(self).reloads(seen, loaded, stored, *final(self)),
    {
        if !self.is_config_changed(seen) {
            return false;
        }
        match loaded {
            None => {
                self.config_modified = seen;
                false
            },
            Some(settings) => {
                if !stored {
                    return false;
                }
                let _ = self.control.next_revision(true);
                self.settings = settings;
                self.config_modified = seen;
                true
            },
        }
    }
}

/// Once a modified settings file was taken up, valid or not, the same file changes nothing more.
pub proof fn untouched_files_change_nothing(
    before: WatchcatDaemon,
    seen: Option<Timestamp>,
    loaded: Option<Settings>,
    stored: bool,
    middle: WatchcatDaemon,
    loaded_again: Option<Settings>,
    stored_again: bool,
    after: WatchcatDaemon,
)
    requires
        before.reloads(seen, loaded, stored, middle),
        loaded is Some ==> stored,
        middle.reloads(seen, loaded_again, stored_again, after),
    ensures
        after == middle,
{
}

impl WatchcatDaemon {
    /// Makes the permit one for the watched sessions at the current revision.
    pub fn grant(&self, permit: &mut RecoveryPermit)
        ensures
            final(permit).is_for(true, self.watchlist.document.targets@, self.revision_view()),
    {
        permit.update(true, &self.watchlist.document.targets, self.revision());
    }

    /// Revokes the permit when the service ends, in a generation of its own.
    pub fn revoke(&self, permit: &mut RecoveryPermit)
        ensures
            final(permit).is_for(
                false,
                self.watchlist.document.targets@,
                control::following(self.revision_view()),
            ),
    {
        permit.update(
            false,
            &self.watchlist.document.targets,
            self.revision().saturating_add(1),
        );
    }
}

/// Nothing is sent any longer once the permit was revoked, whatever was planned before.
pub proof fn ending_forbids_sending(
    daemon: WatchcatDaemon,
    permit: RecoveryPermit,
    target: WatchTarget,
    generation: u64,
)
    requires
        permit.is_for(
            false,
            daemon.watchlist.document.targets@,
            control::following(daemon.revision_view()),
        ),
    ensures
        !permit.permits(target, generation),
{
}

/// A continuation that was planned at one revision is not sent at another: what advances the
/// revision cancels what was planned before.
pub proof fn changes_cancel_plans(
    daemon: WatchcatDaemon,
    permit: RecoveryPermit,
    target: WatchTarget,
    planned: u64,
)
    requires
        permit.is_for(true, daemon.watchlist.document.targets@, daemon.revision_view()),
        planned != daemon.revision_view(),
    ensures
        !permit.permits(target, planned),
{
}

/// A provider that could not be asked loses no session: each of its watched sessions stays watched,
/// however old its activity is.
pub proof fn unreachable_providers_lose_nothing(
    daemon: WatchcatDaemon,
    scans: Seq<ProviderScan>,
    unresolved: Map<Seq<char>, ()>,
    now: Timestamp,
    after: Seq<WatchTarget>,
    scan: int,
    target: int,
)
    requires
        daemon.leaves(scans, unresolved, now, after),
        0 <= scan < scans.len(),
        scans[scan].sessions is None,
        0 <= target < daemon.watchlist.document.targets@.len(),
        daemon.watchlist.document.targets@[target].provider@ == scans[scan].provider@,
    ensures
        watchlist::watches(after, daemon.watchlist.document.targets@[target].key_view()),
{
    let targets = daemon.watchlist.document.targets@;
    let key = targets[target].key_view();
    let protected = choose|protected: Map<Seq<char>, ()>| #[trigger]
        daemon.is_protection(scans, unresolved, protected) && after == watchlist::reconciled(
            daemon.watchlist.document,
            listed_by(scans),
            now,
            daemon.settings.lifecycle.stale_after_seconds as int,
            protected,
        );
    assert(targets_key(targets, scans[scan].provider@, key));
    assert(leaves_open(scans[scan], targets, key));
    assert(daemon.protects(scans, unresolved, key));
    assert(protected.contains_key(key));
    watchlist::protected_sessions_stay(
        daemon.watchlist.document,
        listed_by(scans),
        now,
        daemon.settings.lifecycle.stale_after_seconds as int,
        protected,
        key,
    );
}

} // verus!
