//! The sessions that may be recovered.

use vstd::prelude::*;
use vstd::string::*;

use crate::models::{Session, TrackingSource, WatchTarget};
use crate::text;
use crate::textmap::TextMap;
use crate::time;
use crate::time::Timestamp;

verus! {

/// The only schema version of the watchlist that is accepted.
pub const WATCHLIST_VERSION: u32 = 4;

/// The watchlist as it is stored.
#[derive(Debug)]
pub struct WatchlistDocument {
    pub version: u32,
    pub targets: Vec<WatchTarget>,
    /// The keys of sessions that were removed by hand.
    pub excluded: TextMap<()>,
}

impl Default for WatchlistDocument {
    fn default() -> (r: Self)
        ensures
            r.version == WATCHLIST_VERSION,
            r.targets@ == Seq::<WatchTarget>::empty(),
            r.excluded@ == Map::<Seq<char>, ()>::empty(),
    {
        WatchlistDocument {
            version: WATCHLIST_VERSION,
            targets: Vec::new(),
            excluded: TextMap::new(),
        }
    }
}

impl Clone for WatchlistDocument {
    fn clone(&self) -> (r: Self)
        ensures
            r.version == self.version,
            r.targets@ == self.targets@,
            r.excluded@ == self.excluded@,
    {
        let excluded = self.excluded.clone();
        assert(excluded.entries() =~= self.excluded.entries());
        WatchlistDocument { version: self.version, targets: copy_targets(&self.targets), excluded }
    }
}

/// The sessions that may be recovered, and those that were removed by hand.
#[derive(Debug)]
pub struct WatchlistStore {
    pub path: String,
    pub document: WatchlistDocument,
}

/// A stored document has another version than the one that is accepted.
#[derive(Clone, Copy, Debug, PartialEq, Eq, Structural)]
pub struct UnsupportedVersion {
    pub found: u32,
    pub required: u32,
}

/// Some target has the key `key`.
pub open spec fn watches(targets: Seq<WatchTarget>, key: Seq<char>) -> bool {
    exists|i: int| 0 <= i < targets.len() && (#[trigger] targets[i]).key_view() == key
}

/// The index of the first target with the key `key`, or the number of targets.
pub open spec fn first_with_key(targets: Seq<WatchTarget>, key: Seq<char>) -> int
    decreases targets.len(),
{
    if targets.len() == 0 {
        0
    } else if targets[0].key_view() == key {
        0
    } else {
        1 + first_with_key(targets.skip(1), key)
    }
}

/// The index of the last target with the key `key`, or -1.
pub open spec fn last_with_key(targets: Seq<WatchTarget>, key: Seq<char>) -> int
    decreases targets.len(),
{
    if targets.len() == 0 {
        -1
    } else if targets.last().key_view() == key {
        targets.len() - 1
    } else {
        last_with_key(targets.drop_last(), key)
    }
}

proof fn lemma_first_with_key(targets: Seq<WatchTarget>, key: Seq<char>, at: int)
    requires
        0 <= at <= targets.len(),
        forall|k: int| 0 <= k < at ==> (#[trigger] targets[k]).key_view() != key,
        at < targets.len() ==> targets[at].key_view() == key,
    ensures
        first_with_key(targets, key) == at,
    decreases at,
{
    if at > 0 {
        assert(targets[0].key_view() != key);
        assert forall|k: int| 0 <= k < at - 1 implies (#[trigger] targets.skip(1)[k]).key_view()
            != key by {
            assert(targets[k + 1].key_view() != key);
        }
        lemma_first_with_key(targets.skip(1), key, at - 1);
    }
}

proof fn lemma_last_with_key(targets: Seq<WatchTarget>, key: Seq<char>, at: int)
    requires
        -1 <= at < targets.len(),
        forall|k: int| at < k < targets.len() ==> (#[trigger] targets[k]).key_view() != key,
        at >= 0 ==> targets[at].key_view() == key,
    ensures
        last_with_key(targets, key) == at,
    decreases targets.len(),
{
    if targets.len() > 0 && at < targets.len() - 1 {
        assert(targets[targets.len() - 1].key_view() != key);
        assert forall|k: int| at < k < targets.len() - 1 implies (
        #[trigger] targets.drop_last()[k]).key_view() != key by {
            assert(targets[k].key_view() != key);
        }
        lemma_last_with_key(targets.drop_last(), key, at);
    }
}

/// The targets after a session is added by hand.
pub open spec fn with_added(targets: Seq<WatchTarget>, target: WatchTarget) -> Seq<WatchTarget> {
    let at = first_with_key(targets, target.key_view());
    if at < targets.len() {
        targets.update(
            at,
            WatchTarget {
                source: TrackingSource::Manual,
                added_at: target.added_at,
                label: if target.label is Some {
                    target.label
                } else {
                    targets[at].label
                },
                ..targets[at]
            },
        )
    } else {
        targets.push(target)
    }
}

/// The targets without those of the key `key`.
pub open spec fn without_key(targets: Seq<WatchTarget>, key: Seq<char>) -> Seq<WatchTarget> {
    targets.filter(|target: WatchTarget| target.key_view() != key)
}

/// The targets after discovery saw a session: a watched one takes over the title and any later
/// activity, a recent one joins, an excluded one never does.
pub open spec fn with_discovered(
    targets: Seq<WatchTarget>,
    excluded: Map<Seq<char>, ()>,
    session: Session,
    now: Timestamp,
    stale_after: int,
) -> Seq<WatchTarget> {
    let at = last_with_key(targets, session.key_view());
    if excluded.contains_key(session.key_view()) {
        targets
    } else if at >= 0 {
        targets.update(
            at,
            WatchTarget {
                title: Some(session.title),
                last_activity_at: time::latest(targets[at].last_activity_at, session.updated_at),
                ..targets[at]
            },
        )
    } else if session.updated_at is Some && session.updated_at->0.is_not_before(now, -stale_after) {
        targets.push(
            WatchTarget {
                source: TrackingSource::Automatic,
                provider: session.provider,
                session_id: session.id,
                label: None,
                title: Some(session.title),
                added_at: now,
                last_activity_at: session.updated_at,
            },
        )
    } else {
        targets
    }
}

/// The targets after discovery saw a list of sessions, one by one.
pub open spec fn with_all_discovered(
    targets: Seq<WatchTarget>,
    excluded: Map<Seq<char>, ()>,
    sessions: Seq<Session>,
    now: Timestamp,
    stale_after: int,
) -> Seq<WatchTarget>
    decreases sessions.len(),
{
    if sessions.len() == 0 {
        targets
    } else {
        with_discovered(
            with_all_discovered(targets, excluded, sessions.drop_last(), now, stale_after),
            excluded,
            sessions.last(),
            now,
            stale_after,
        )
    }
}

/// The target stays: its time is not up, or it is protected.
pub open spec fn stays(
    target: WatchTarget,
    protected: Map<Seq<char>, ()>,
    now: Timestamp,
    stale_after: int,
) -> bool {
    protected.contains_key(target.key_view()) || target.inactive_from().is_not_before(
        now,
        -stale_after,
    )
}

/// The targets whose time is not up, and the protected ones.
pub open spec fn without_stale(
    targets: Seq<WatchTarget>,
    protected: Map<Seq<char>, ()>,
    now: Timestamp,
    stale_after: int,
) -> Seq<WatchTarget> {
    targets.filter(|target: WatchTarget| stays(target, protected, now, stale_after))
}

/// The targets after a poll.
pub open spec fn reconciled(
    document: WatchlistDocument,
    sessions: Seq<Session>,
    now: Timestamp,
    stale_after: int,
    protected: Map<Seq<char>, ()>,
) -> Seq<WatchTarget> {
    without_stale(
        with_all_discovered(document.targets@, document.excluded@, sessions, now, stale_after),
        protected,
        now,
        stale_after,
    )
}

/// Two targets hold the same.
pub open spec fn same_target(a: WatchTarget, b: WatchTarget) -> bool {
    &&& a.source == b.source
    &&& a.provider@ == b.provider@
    &&& a.session_id@ == b.session_id@
    &&& text::option_view(a.label) == text::option_view(b.label)
    &&& text::option_view(a.title) == text::option_view(b.title)
    &&& a.added_at == b.added_at
    &&& a.last_activity_at == b.last_activity_at
}

/// Two lists of targets hold the same.
pub open spec fn same_targets(a: Seq<WatchTarget>, b: Seq<WatchTarget>) -> bool {
    &&& a.len() == b.len()
    &&& forall|i: int| 0 <= i < a.len() ==> same_target(#[trigger] a[i], b[i])
}

fn is_same_target(a: &WatchTarget, b: &WatchTarget) -> (r: bool)
    ensures
        r == same_target(*a, *b),
{
    let activity = match (a.last_activity_at, b.last_activity_at) {
        (Some(x), Some(y)) => x == y,
        (None, None) => true,
        _ => false,
    };
    a.source == b.source && text::same(a.provider.as_str(), b.provider.as_str()) && text::same(
        a.session_id.as_str(),
        b.session_id.as_str(),
    ) && text::same_option(&a.label, &b.label) && text::same_option(&a.title, &b.title)
        && a.added_at == b.added_at && activity
}

fn are_same_targets(a: &Vec<WatchTarget>, b: &Vec<WatchTarget>) -> (r: bool)
    ensures
        r == same_targets(a@, b@),
{
    if a.len() != b.len() {
        return false;
    }
    let mut i: usize = 0;
    while i < a.len()
        invariant
            i <= a@.len(),
            a@.len() == b@.len(),
            forall|k: int| 0 <= k < i ==> same_target(#[trigger] a@[k], b@[k]),
        decreases a@.len() - i,
    {
        if !is_same_target(&a[i], &b[i]) {
            assert(!same_target(a@[i as int], b@[i as int]));
            return false;
        }
        i += 1;
    }
    true
}

fn copy_targets(targets: &Vec<WatchTarget>) -> (r: Vec<WatchTarget>)
    ensures
        r@ == targets@,
{
    let r = targets.clone();
    assert(r@ =~= targets@);
    r
}

fn has_key(target: &WatchTarget, key: &str) -> (r: bool)
    ensures
        r == (target.key_view() == key@),
{
    text::same(target.key().as_str(), key)
}

impl WatchlistStore {
    /// An empty watchlist that is kept at `path`.
    pub fn new(path: String) -> (r: Self)
        ensures
            r.path == path,
            r.document.version == WATCHLIST_VERSION,
            r.document.targets@ == Seq::<WatchTarget>::empty(),
            r.document.excluded@ == Map::<Seq<char>, ()>::empty(),
    {
        WatchlistStore { path, document: WatchlistDocument::default() }
    }

    /// Takes a stored document over, if its version is accepted.
    pub fn load(path: String, document: WatchlistDocument) -> (r: Result<Self, UnsupportedVersion>)
        ensures
            match r {
                Ok(store) => document.version == WATCHLIST_VERSION && store.path == path
                    && store.document == document,
                Err(error) => document.version != WATCHLIST_VERSION && error.found
                    == document.version && error.required == WATCHLIST_VERSION,
            },
    {
        if document.version != WATCHLIST_VERSION {
            return Err(
                UnsupportedVersion { found: document.version, required: WATCHLIST_VERSION },
            );
        }
        Ok(WatchlistStore { path, document })
    }

    /// The watched sessions.
    pub fn list(&self) -> (r: Vec<WatchTarget>)
        ensures
            r@ == self.document.targets@,
    {
        copy_targets(&self.document.targets)
    }

    /// Adds a session by hand, which ends its exclusion and starts its time anew. Says whether it
    /// was not watched before.
    pub fn add(&mut self, target: WatchTarget) -> (added: bool)
        ensures
            added == !watches(old(self).document.targets@, target.key_view()),
            final(self).document.targets@ == with_added(old(self).document.targets@, target),
            final(self).document.excluded@ == old(self).document.excluded@.remove(
                target.key_view(),
            ),
            final(self).document.version == old(self).document.version,
            final(self).path == old(self).path,
    {
        let key = target.key();
        self.document.excluded.remove(key.as_str());
        let ghost before = self.document.targets@;
        let mut i: usize = 0;
        while i < self.document.targets.len()
            invariant
                i <= self.document.targets@.len(),
                self.document.targets@ == before,
                key@ == target.key_view(),
                forall|k: int| 0 <= k < i ==> (#[trigger] before[k]).key_view() != key@,
            ensures
                i <= before.len(),
                i < before.len() ==> before[i as int].key_view() == key@,
            decreases self.document.targets@.len() - i,
        {
            if has_key(&self.document.targets[i], key.as_str()) {
                break;
            }
            i += 1;
        }
        proof {
            lemma_first_with_key(before, key@, i as int);
        }
        if i < self.document.targets.len() {
            let mut existing = self.document.targets[i].clone();
            existing.added_at = target.added_at;
            existing.source = TrackingSource::Manual;
            if target.label.is_some() {
                existing.label = target.label;
            }
            self.document.targets.set(i, existing);
            assert(before[i as int].key_view() == key@);
            false
        } else {
            self.document.targets.push(target);
            true
        }
    }

    /// Removes a session by hand, which excludes it until it is added again. Says whether it was
    /// watched.
    pub fn remove(&mut self, key: &str) -> (removed: bool)
        ensures
            removed == watches(old(self).document.targets@, key@),
            final(self).document.targets@ == without_key(old(self).document.targets@, key@),
            final(self).document.excluded@ == old(self).document.excluded@.insert(key@, ()),
            final(self).document.version == old(self).document.version,
            final(self).path == old(self).path,
    {
        let ghost before = self.document.targets@;
        let ghost other = |target: WatchTarget| target.key_view() != key@;
        let mut kept: Vec<WatchTarget> = Vec::new();
        let mut removed = false;
        let mut i: usize = 0;
        assert(before.take(0).filter(other) =~= Seq::empty()) by {
            reveal(Seq::filter);
        }
        while i < self.document.targets.len()
            invariant
                i <= before.len(),
                self.document.targets@ == before,
                other == (|target: WatchTarget| target.key_view() != key@),
                kept@ == before.take(i as int).filter(other),
                removed == exists|k: int| 0 <= k < i && (#[trigger] before[k]).key_view() == key@,
            decreases before.len() - i,
        {
            proof {
                before.take(i as int).lemma_filter_push(before[i as int], other);
                assert(before.take(i + 1) =~= before.take(i as int).push(before[i as int]));
            }
            if has_key(&self.document.targets[i], key) {
                assert(before[i as int].key_view() == key@);
                removed = true;
            } else {
                kept.push(self.document.targets[i].clone());
            }
            i += 1;
        }
        assert(before.take(i as int) =~= before);
        self.document.targets = kept;
        self.document.excluded.insert(key.to_owned(), ());
        removed
    }

    /// Takes over what a poll saw: only provider activity extends membership, and what was removed
    /// by hand stays away until it is added. Says whether anything changed.
    pub fn reconcile(
        &mut self,
        sessions: &Vec<Session>,
        now: Timestamp,
        stale_after_seconds: i64,
        protected: &TextMap<()>,
    ) -> (changed: bool)
        ensures
            final(self).document.targets@ == reconciled(
                old(self).document,
                sessions@,
                now,
                stale_after_seconds as int,
                protected@,
            ),
            final(self).document.excluded == old(self).document.excluded,
            final(self).document.version == old(self).document.version,
            final(self).path == old(self).path,
            changed == !same_targets(old(self).document.targets@, final(self).document.targets@),
    {
        let ghost before = self.document.targets@;
        let ghost excluded = self.document.excluded@;
        let ghost stale = stale_after_seconds as int;
        let mut targets = copy_targets(&self.document.targets);
        let mut i: usize = 0;
        while i < sessions.len()
            invariant
                i <= sessions@.len(),
                excluded == self.document.excluded@,
                stale == stale_after_seconds as int,
                targets@ == with_all_discovered(
                    before,
                    excluded,
                    sessions@.take(i as int),
                    now,
                    stale,
                ),
            decreases sessions@.len() - i,
        {
            let session = &sessions[i];
            assert(sessions@.take(i + 1).drop_last() =~= sessions@.take(i as int));
            absorb(&mut targets, &self.document.excluded, session, now, stale_after_seconds);
            i += 1;
        }
        assert(sessions@.take(i as int) =~= sessions@);
        let kept = keep_fresh(&targets, protected, now, stale_after_seconds);
        let changed = !are_same_targets(&self.document.targets, &kept);
        self.document.targets = kept;
        changed
    }
}

fn absorb(
    targets: &mut Vec<WatchTarget>,
    excluded: &TextMap<()>,
    session: &Session,
    now: Timestamp,
    stale_after_seconds: i64,
)
    ensures
        final(targets)@ == with_discovered(
            old(targets)@,
            excluded@,
            *session,
            now,
            stale_after_seconds as int,
        ),
{
    let key = session.key();
    if excluded.contains_key(key.as_str()) {
        return;
    }
    let ghost before = targets@;
    let mut i: usize = targets.len();
    while i > 0
        invariant
            i <= targets@.len(),
            targets@ == before,
            key@ == session.key_view(),
            forall|k: int| i <= k < before.len() ==> (#[trigger] before[k]).key_view() != key@,
        ensures
            0 <= i <= before.len(),
            i > 0 ==> before[i - 1].key_view() == key@,
        decreases i,
    {
        if has_key(&targets[i - 1], key.as_str()) {
            break;
        }
        i -= 1;
    }
    proof {
        lemma_last_with_key(before, key@, i - 1);
    }
    if i > 0 {
        let mut target = targets[i - 1].clone();
        target.title = Some(session.title.clone());
        target.last_activity_at = time::later_of(target.last_activity_at, session.updated_at);
        targets.set(i - 1, target);
        return;
    }
    match session.updated_at {
        Some(updated) => {
            if updated.not_before(now, -(stale_after_seconds as i128)) {
                targets.push(
                    WatchTarget {
                        source: TrackingSource::Automatic,
                        provider: session.provider.clone(),
                        session_id: session.id.clone(),
                        label: None,
                        title: Some(session.title.clone()),
                        added_at: now,
                        last_activity_at: session.updated_at,
                    },
                );
            }
        },
        None => {},
    }
}

fn keep_fresh(
    targets: &Vec<WatchTarget>,
    protected: &TextMap<()>,
    now: Timestamp,
    stale_after_seconds: i64,
) -> (kept: Vec<WatchTarget>)
    ensures
        kept@ == without_stale(targets@, protected@, now, stale_after_seconds as int),
{
    let ghost all = targets@;
    let ghost fresh = |target: WatchTarget|
        stays(target, protected@, now, stale_after_seconds as int);
    let mut kept: Vec<WatchTarget> = Vec::new();
    let mut i: usize = 0;
    assert(all.take(0).filter(fresh) =~= Seq::empty()) by {
        reveal(Seq::filter);
    }
    while i < targets.len()
        invariant
            i <= all.len(),
            targets@ == all,
            fresh == (|target: WatchTarget|
                stays(target, protected@, now, stale_after_seconds as int)),
            kept@ == all.take(i as int).filter(fresh),
        decreases all.len() - i,
    {
        proof {
            all.take(i as int).lemma_filter_push(all[i as int], fresh);
            assert(all.take(i + 1) =~= all.take(i as int).push(all[i as int]));
        }
        let target = &targets[i];
        if protected.contains_key(target.key().as_str()) || target.inactivity_since().not_before(
            now,
            -(stale_after_seconds as i128),
        ) {
            kept.push(target.clone());
        }
        i += 1;
    }
    assert(all.take(i as int) =~= all);
    kept
}

/// Where the provider lists a session with activity inside the window, discovery keeps this: some
/// target of the session has activity that is at least as late.
spec fn has_activity(targets: Seq<WatchTarget>, key: Seq<char>, activity: Timestamp) -> bool {
    exists|i: int| #[trigger]
        active_at(targets, i, key, activity)
}

spec fn active_at(targets: Seq<WatchTarget>, i: int, key: Seq<char>, activity: Timestamp) -> bool {
    &&& 0 <= i < targets.len()
    &&& targets[i].key_view() == key
    &&& targets[i].last_activity_at is Some
    &&& targets[i].last_activity_at->0.is_not_before(activity, 0)
}

proof fn lemma_last_index(targets: Seq<WatchTarget>, key: Seq<char>)
    ensures
        ({
            let at = last_with_key(targets, key);
            &&& -1 <= at < targets.len()
            &&& at >= 0 ==> targets[at].key_view() == key
            &&& forall|k: int| at < k < targets.len() ==> (#[trigger] targets[k]).key_view() != key
        }),
    decreases targets.len(),
{
    if targets.len() > 0 && targets.last().key_view() != key {
        lemma_last_index(targets.drop_last(), key);
        let at = last_with_key(targets, key);
        assert forall|k: int| at < k < targets.len() implies (#[trigger] targets[k]).key_view()
            != key by {
            if k < targets.len() - 1 {
                assert(targets.drop_last()[k].key_view() != key);
            }
        }
    }
}

proof fn lemma_first_index(targets: Seq<WatchTarget>, key: Seq<char>)
    ensures
        ({
            let at = first_with_key(targets, key);
            &&& 0 <= at <= targets.len()
            &&& at < targets.len() ==> targets[at].key_view() == key
            &&& at < targets.len() <==> watches(targets, key)
        }),
    decreases targets.len(),
{
    if targets.len() > 0 && targets[0].key_view() != key {
        lemma_first_index(targets.skip(1), key);
        if watches(targets, key) {
            let i = choose|i: int| 0 <= i < targets.len() && (#[trigger] targets[i]).key_view()
                == key;
            assert(targets.skip(1)[i - 1].key_view() == key);
        }
    }
}

/// Discovery of one session leaves every target in its place, with its key, its origin and its
/// addition; where the time of a target moves, it moves to what the provider reports of that very
/// session.
pub proof fn discovery_keeps_targets(
    targets: Seq<WatchTarget>,
    excluded: Map<Seq<char>, ()>,
    session: Session,
    now: Timestamp,
    stale_after: int,
    i: int,
)
    requires
        0 <= i < targets.len(),
    ensures
        ({
            let after = with_discovered(targets, excluded, session, now, stale_after);
            &&& targets.len() <= after.len() <= targets.len() + 1
            &&& after[i].key_view() == targets[i].key_view()
            &&& after[i].source == targets[i].source
            &&& after[i].added_at == targets[i].added_at
            &&& after[i].label == targets[i].label
            &&& after[i].inactive_from() == targets[i].inactive_from() || (
            targets[i].key_view() == session.key_view() && Some(after[i].inactive_from())
                == session.updated_at)
        }),
{
    lemma_last_index(targets, session.key_view());
}

/// A session that was removed by hand stays away: no poll, whatever it sees, brings it back.
pub proof fn removal_persists(
    document: WatchlistDocument,
    sessions: Seq<Session>,
    now: Timestamp,
    stale_after: int,
    protected: Map<Seq<char>, ()>,
    key: Seq<char>,
)
    requires
        document.excluded@.contains_key(key),
        !watches(document.targets@, key),
    ensures
        !watches(reconciled(document, sessions, now, stale_after, protected), key),
{
    lemma_discovery_leaves_excluded_out(
        document.targets@,
        document.excluded@,
        sessions,
        now,
        stale_after,
        key,
    );
    let all = with_all_discovered(
        document.targets@,
        document.excluded@,
        sessions,
        now,
        stale_after,
    );
    let kept = without_stale(all, protected, now, stale_after);
    if watches(kept, key) {
        let i = choose|i: int| 0 <= i < kept.len() && (#[trigger] kept[i]).key_view() == key;
        lemma_kept_is_listed(all, protected, now, stale_after, i);
    }
}

proof fn lemma_kept_is_listed(
    all: Seq<WatchTarget>,
    protected: Map<Seq<char>, ()>,
    now: Timestamp,
    stale_after: int,
    i: int,
)
    requires
        0 <= i < without_stale(all, protected, now, stale_after).len(),
    ensures
        all.contains(without_stale(all, protected, now, stale_after)[i]),
        stays(without_stale(all, protected, now, stale_after)[i], protected, now, stale_after),
        watches(all, without_stale(all, protected, now, stale_after)[i].key_view()),
{
    let keep = |target: WatchTarget| stays(target, protected, now, stale_after);
    let kept = all.filter(keep);
    all.lemma_filter_pred(keep, i);
    assert(kept.contains(kept[i]));
    all.lemma_filter_contains_rev(keep, kept[i]);
    let j = choose|j: int| 0 <= j < all.len() && all[j] == kept[i];
    assert(all[j].key_view() == kept[i].key_view());
}

proof fn lemma_discovery_leaves_excluded_out(
    targets: Seq<WatchTarget>,
    excluded: Map<Seq<char>, ()>,
    sessions: Seq<Session>,
    now: Timestamp,
    stale_after: int,
    key: Seq<char>,
)
    requires
        excluded.contains_key(key),
        !watches(targets, key),
    ensures
        !watches(with_all_discovered(targets, excluded, sessions, now, stale_after), key),
    decreases sessions.len(),
{
    if sessions.len() > 0 {
        let before = with_all_discovered(targets, excluded, sessions.drop_last(), now, stale_after);
        lemma_discovery_leaves_excluded_out(
            targets,
            excluded,
            sessions.drop_last(),
            now,
            stale_after,
            key,
        );
        let session = sessions.last();
        let after = with_discovered(before, excluded, session, now, stale_after);
        lemma_last_index(before, session.key_view());
        if watches(after, key) {
            let i = choose|i: int| 0 <= i < after.len() && (#[trigger] after[i]).key_view() == key;
            if i < before.len() {
                discovery_keeps_targets(before, excluded, session, now, stale_after, i);
                assert(before[i].key_view() == key);
            }
        }
    }
}

/// Adding a session by hand ends its exclusion and watches it, as one that was added by hand at
/// that time.
pub proof fn adding_watches(targets: Seq<WatchTarget>, target: WatchTarget)
    requires
        target.source == TrackingSource::Manual,
    ensures
        watches(with_added(targets, target), target.key_view()),
        ({
            let after = with_added(targets, target);
            let at = first_with_key(targets, target.key_view());
            &&& 0 <= at < after.len()
            &&& after[at].key_view() == target.key_view()
            &&& after[at].source == TrackingSource::Manual
            &&& after[at].added_at == target.added_at
        }),
{
    lemma_first_index(targets, target.key_view());
    let at = first_with_key(targets, target.key_view());
    assert(with_added(targets, target)[at].key_view() == target.key_view());
}

/// A session that was added by hand keeps its place for the whole window after the addition,
/// however old its activity is.
pub proof fn manual_addition_grants_a_window(
    target: WatchTarget,
    protected: Map<Seq<char>, ()>,
    now: Timestamp,
    stale_after: int,
)
    requires
        target.source == TrackingSource::Manual,
        target.added_at.is_not_before(now, -stale_after),
    ensures
        stays(target, protected, now, stale_after),
{
}

/// A session that the provider reports active inside the window is watched after the poll, unless
/// it was removed by hand. So one that expired comes back with new activity.
pub proof fn recent_activity_is_watched(
    document: WatchlistDocument,
    sessions: Seq<Session>,
    now: Timestamp,
    stale_after: int,
    protected: Map<Seq<char>, ()>,
    at: int,
)
    requires
        0 <= at < sessions.len(),
        sessions[at].updated_at is Some,
        sessions[at].updated_at->0.is_not_before(now, -stale_after),
        !document.excluded@.contains_key(sessions[at].key_view()),
    ensures
        watches(
            reconciled(document, sessions, now, stale_after, protected),
            sessions[at].key_view(),
        ),
{
    let key = sessions[at].key_view();
    let activity = sessions[at].updated_at->0;
    lemma_activity_is_kept(document.targets@, document.excluded@, sessions, now, stale_after, at);
    let all = with_all_discovered(
        document.targets@,
        document.excluded@,
        sessions,
        now,
        stale_after,
    );
    let i = choose|i: int| #[trigger] active_at(all, i, key, activity);
    let keep = |target: WatchTarget| stays(target, protected, now, stale_after);
    assert(stays(all[i], protected, now, stale_after));
    all.lemma_filter_contains(keep, i);
    let kept = all.filter(keep);
    let j = choose|j: int| 0 <= j < kept.len() && kept[j] == all[i];
    assert(kept[j].key_view() == key);
}

proof fn lemma_activity_is_kept(
    targets: Seq<WatchTarget>,
    excluded: Map<Seq<char>, ()>,
    sessions: Seq<Session>,
    now: Timestamp,
    stale_after: int,
    at: int,
)
    requires
        0 <= at < sessions.len(),
        sessions[at].updated_at is Some,
        sessions[at].updated_at->0.is_not_before(now, -stale_after),
        !excluded.contains_key(sessions[at].key_view()),
    ensures
        has_activity(
            with_all_discovered(targets, excluded, sessions, now, stale_after),
            sessions[at].key_view(),
            sessions[at].updated_at->0,
        ),
    decreases sessions.len(),
{
    let key = sessions[at].key_view();
    let activity = sessions[at].updated_at->0;
    let before = with_all_discovered(targets, excluded, sessions.drop_last(), now, stale_after);
    let session = sessions.last();
    let after = with_discovered(before, excluded, session, now, stale_after);
    lemma_last_index(before, session.key_view());
    if at == sessions.len() - 1 {
        let last = last_with_key(before, key);
        if last >= 0 {
            assert(active_at(after, last, key, activity));
        } else {
            assert(active_at(after, before.len() as int, key, activity));
        }
    } else {
        lemma_activity_is_kept(targets, excluded, sessions.drop_last(), now, stale_after, at);
        let i = choose|i: int| #[trigger] active_at(before, i, key, activity);
        assert(active_at(after, i, key, activity));
    }
}

/// A session was not active inside the window, as far as it is known.
pub open spec fn inactive_session(session: Session, now: Timestamp, stale_after: int) -> bool {
    session.updated_at is None || !session.updated_at->0.is_not_before(now, -stale_after)
}

/// Every target of the key has had its time.
pub open spec fn all_inactive(
    targets: Seq<WatchTarget>,
    key: Seq<char>,
    now: Timestamp,
    stale_after: int,
) -> bool {
    forall|i: int|
        0 <= i < targets.len() && (#[trigger] targets[i]).key_view() == key
            ==> !targets[i].inactive_from().is_not_before(now, -stale_after)
}

proof fn lemma_discovery_leaves_inactive(
    targets: Seq<WatchTarget>,
    excluded: Map<Seq<char>, ()>,
    sessions: Seq<Session>,
    now: Timestamp,
    stale_after: int,
    key: Seq<char>,
)
    requires
        all_inactive(targets, key, now, stale_after),
        forall|i: int|
            0 <= i < sessions.len() && (#[trigger] sessions[i]).key_view() == key
                ==> inactive_session(sessions[i], now, stale_after),
    ensures
        all_inactive(
            with_all_discovered(targets, excluded, sessions, now, stale_after),
            key,
            now,
            stale_after,
        ),
    decreases sessions.len(),
{
    if sessions.len() > 0 {
        let rest = sessions.drop_last();
        assert forall|i: int|
            0 <= i < rest.len() && (#[trigger] rest[i]).key_view() == key implies inactive_session(
            rest[i],
            now,
            stale_after,
        ) by {
            assert(sessions[i].key_view() == key);
        }
        lemma_discovery_leaves_inactive(targets, excluded, rest, now, stale_after, key);
        let before = with_all_discovered(targets, excluded, rest, now, stale_after);
        let session = sessions.last();
        let after = with_discovered(before, excluded, session, now, stale_after);
        lemma_last_index(before, session.key_view());
        assert forall|i: int|
            0 <= i < after.len() && (#[trigger] after[i]).key_view()
                == key implies !after[i].inactive_from().is_not_before(now, -stale_after) by {
            if i < before.len() {
                discovery_keeps_targets(before, excluded, session, now, stale_after, i);
                assert(before[i].key_view() == key);
            }
        }
    }
}

/// A session without provider activity expires: where its time was up and the provider reports no
/// activity inside the window, no poll keeps it, unless it is protected. Being polled does not
/// extend its time.
pub proof fn inactivity_expires(
    document: WatchlistDocument,
    sessions: Seq<Session>,
    now: Timestamp,
    stale_after: int,
    protected: Map<Seq<char>, ()>,
    key: Seq<char>,
)
    requires
        all_inactive(document.targets@, key, now, stale_after),
        forall|i: int|
            0 <= i < sessions.len() && (#[trigger] sessions[i]).key_view() == key
                ==> inactive_session(sessions[i], now, stale_after),
        !protected.contains_key(key),
    ensures
        !watches(reconciled(document, sessions, now, stale_after, protected), key),
{
    lemma_discovery_leaves_inactive(
        document.targets@,
        document.excluded@,
        sessions,
        now,
        stale_after,
        key,
    );
    let all = with_all_discovered(
        document.targets@,
        document.excluded@,
        sessions,
        now,
        stale_after,
    );
    let kept = without_stale(all, protected, now, stale_after);
    if watches(kept, key) {
        let i = choose|i: int| 0 <= i < kept.len() && (#[trigger] kept[i]).key_view() == key;
        lemma_kept_is_listed(all, protected, now, stale_after, i);
        let j = choose|j: int| 0 <= j < all.len() && all[j] == kept[i];
        assert(all[j].key_view() == key);
    }
}

proof fn lemma_discovery_keeps_watching(
    targets: Seq<WatchTarget>,
    excluded: Map<Seq<char>, ()>,
    sessions: Seq<Session>,
    now: Timestamp,
    stale_after: int,
    key: Seq<char>,
)
    requires
        watches(targets, key),
    ensures
        watches(with_all_discovered(targets, excluded, sessions, now, stale_after), key),
    decreases sessions.len(),
{
    if sessions.len() > 0 {
        let rest = sessions.drop_last();
        lemma_discovery_keeps_watching(targets, excluded, rest, now, stale_after, key);
        let before = with_all_discovered(targets, excluded, rest, now, stale_after);
        let i = choose|i: int| 0 <= i < before.len() && (#[trigger] before[i]).key_view() == key;
        discovery_keeps_targets(before, excluded, sessions.last(), now, stale_after, i);
        let after = with_discovered(before, excluded, sessions.last(), now, stale_after);
        assert(after[i].key_view() == key);
    }
}

/// A protected session is not cleaned up: it stays watched, however old its activity is.
pub proof fn protected_sessions_stay(
    document: WatchlistDocument,
    sessions: Seq<Session>,
    now: Timestamp,
    stale_after: int,
    protected: Map<Seq<char>, ()>,
    key: Seq<char>,
)
    requires
        watches(document.targets@, key),
        protected.contains_key(key),
    ensures
        watches(reconciled(document, sessions, now, stale_after, protected), key),
{
    lemma_discovery_keeps_watching(
        document.targets@,
        document.excluded@,
        sessions,
        now,
        stale_after,
        key,
    );
    let all = with_all_discovered(
        document.targets@,
        document.excluded@,
        sessions,
        now,
        stale_after,
    );
    let i = choose|i: int| 0 <= i < all.len() && (#[trigger] all[i]).key_view() == key;
    let keep = |target: WatchTarget| stays(target, protected, now, stale_after);
    all.lemma_filter_contains(keep, i);
    let kept = all.filter(keep);
    let j = choose|j: int| 0 <= j < kept.len() && kept[j] == all[i];
    assert(kept[j].key_view() == key);
}

/// No key occurs twice among the targets.
pub open spec fn distinct(targets: Seq<WatchTarget>) -> bool {
    forall|i: int, j: int|
        #![trigger targets[i], targets[j]]
        0 <= i < j < targets.len() ==> targets[i].key_view() != targets[j].key_view()
}

/// Where no session is watched twice, adding, removing and polling keep it so.
pub proof fn targets_stay_distinct(
    document: WatchlistDocument,
    target: WatchTarget,
    key: Seq<char>,
    sessions: Seq<Session>,
    now: Timestamp,
    stale_after: int,
    protected: Map<Seq<char>, ()>,
)
    requires
        distinct(document.targets@),
    ensures
        distinct(with_added(document.targets@, target)),
        distinct(without_key(document.targets@, key)),
        distinct(reconciled(document, sessions, now, stale_after, protected)),
{
    let targets = document.targets@;
    lemma_first_index(targets, target.key_view());
    let added = with_added(targets, target);
    assert(distinct(added)) by {
        assert forall|i: int, j: int|
            #![trigger added[i], added[j]]
            0 <= i < j < added.len() implies added[i].key_view() != added[j].key_view() by {
            if j < targets.len() {
                assert(targets[i].key_view() != targets[j].key_view());
            } else {
                assert(!watches(targets, target.key_view()));
                assert(targets[i].key_view() != target.key_view());
            }
        }
    }
    lemma_filter_stays_distinct(targets, |target: WatchTarget| target.key_view() != key);
    lemma_discovery_stays_distinct(targets, document.excluded@, sessions, now, stale_after);
    lemma_filter_stays_distinct(
        with_all_discovered(targets, document.excluded@, sessions, now, stale_after),
        |target: WatchTarget| stays(target, protected, now, stale_after),
    );
}

proof fn lemma_filter_stays_distinct(targets: Seq<WatchTarget>, keep: spec_fn(WatchTarget) -> bool)
    requires
        distinct(targets),
    ensures
        distinct(targets.filter(keep)),
    decreases targets.len(),
{
    reveal(Seq::filter);
    if targets.len() > 0 {
        let rest = targets.drop_last();
        lemma_filter_stays_distinct(rest, keep);
        let kept = targets.filter(keep);
        let before = rest.filter(keep);
        assert forall|i: int, j: int|
            #![trigger kept[i], kept[j]]
            0 <= i < j < kept.len() implies kept[i].key_view() != kept[j].key_view() by {
            if j < before.len() {
                assert(before[i].key_view() != before[j].key_view());
            } else {
                assert(kept[j] == targets.last());
                assert(before.contains(before[i]));
                rest.lemma_filter_contains_rev(keep, before[i]);
                let k = choose|k: int| 0 <= k < rest.len() && rest[k] == before[i];
                assert(targets[k].key_view() != targets[targets.len() - 1].key_view());
            }
        }
    }
}

proof fn lemma_discovery_stays_distinct(
    targets: Seq<WatchTarget>,
    excluded: Map<Seq<char>, ()>,
    sessions: Seq<Session>,
    now: Timestamp,
    stale_after: int,
)
    requires
        distinct(targets),
    ensures
        distinct(with_all_discovered(targets, excluded, sessions, now, stale_after)),
    decreases sessions.len(),
{
    if sessions.len() > 0 {
        let before = with_all_discovered(targets, excluded, sessions.drop_last(), now, stale_after);
        lemma_discovery_stays_distinct(targets, excluded, sessions.drop_last(), now, stale_after);
        let session = sessions.last();
        let after = with_discovered(before, excluded, session, now, stale_after);
        lemma_last_index(before, session.key_view());
        assert forall|i: int, j: int|
            #![trigger after[i], after[j]]
            0 <= i < j < after.len() implies after[i].key_view() != after[j].key_view() by {
            discovery_keeps_targets(before, excluded, session, now, stale_after, i);
            if j < before.len() {
                discovery_keeps_targets(before, excluded, session, now, stale_after, j);
                assert(before[i].key_view() != before[j].key_view());
            } else {
                assert(before[i].key_view() != session.key_view());
            }
        }
    }
}

} // verus!
