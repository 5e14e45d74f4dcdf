//! The permission to continue a session.

use vstd::prelude::*;
use vstd::string::*;

use crate::models::WatchTarget;
use crate::state::watchlist;
use crate::textmap::TextMap;

verus! {

/// Who may be continued: the sessions of one generation of the watchlist, while the service lives.
#[derive(Debug)]
pub struct RecoveryPermit {
    live: bool,
    target_keys: TextMap<()>,
    generation: u64,
}

impl RecoveryPermit {
    /// Continuations may be sent at all.
    pub closed spec fn is_live(&self) -> bool {
        self.live
    }

    /// The session `key` is watched.
    pub closed spec fn covers(&self, key: Seq<char>) -> bool {
        self.target_keys@.contains_key(key)
    }

    /// The generation of the watchlist.
    pub closed spec fn generation_view(&self) -> u64 {
        self.generation
    }

    /// The permit is that for these targets.
    pub open spec fn is_for(&self, live: bool, targets: Seq<WatchTarget>, generation: u64) -> bool {
        &&& self.is_live() == live
        &&& self.generation_view() == generation
        &&& forall|key: Seq<char>| #[trigger]
            self.covers(key) <==> watchlist::watches(targets, key)
    }

    /// A continuation of the target is permitted to who planned it in `generation`.
    pub open spec fn permits(&self, target: WatchTarget, generation: u64) -> bool {
        self.is_live() && self.generation_view() == generation && self.covers(target.key_view())
    }

    /// The permit for these targets.
    pub fn new(live: bool, targets: &Vec<WatchTarget>, generation: u64) -> (r: Self)
        ensures
            r.is_for(live, targets@, generation),
    {
        RecoveryPermit { live, target_keys: keys_of(targets), generation }
    }

    /// Makes the permit that for these targets.
    pub fn update(&mut self, live: bool, targets: &Vec<WatchTarget>, generation: u64)
        ensures
            final(self).is_for(live, targets@, generation),
    {
        self.live = live;
        self.target_keys = keys_of(targets);
        self.generation = generation;
    }

    /// Whether a continuation of the target is permitted to who planned it in `generation`.
    pub fn allows(&self, target: &WatchTarget, generation: u64) -> (r: bool)
        ensures
            r == self.permits(*target, generation),
    {
        self.live && self.generation == generation && self.target_keys.contains_key(
            target.key().as_str(),
        )
    }

    /// The generation of the watchlist.
    pub fn generation(&self) -> (r: u64)
        ensures
            r == self.generation_view(),
    {
        self.generation
    }
}

/// The keys of the targets.
pub fn keys_of(targets: &Vec<WatchTarget>) -> (r: TextMap<()>)
    ensures
        forall|key: Seq<char>| #[trigger]
            r@.contains_key(key) <==> watchlist::watches(targets@, key),
{
    let mut r: TextMap<()> = TextMap::new();
    let mut i: usize = 0;
    while i < targets.len()
        invariant
            i <= targets@.len(),
            forall|key: Seq<char>| #[trigger]
                r@.contains_key(key) <==> exists|k: int|
                    0 <= k < i && (#[trigger] targets@[k]).key_view() == key,
        decreases targets@.len() - i,
    {
        let ghost before = r@;
        r.insert(targets[i].key(), ());
        proof {
            assert forall|key: Seq<char>| #[trigger] r@.contains_key(key) <==> exists|k: int|
                0 <= k < i + 1 && (#[trigger] targets@[k]).key_view() == key by {
                if r@.contains_key(key) {
                    if before.contains_key(key) {
                        let k = choose|k: int|
                            0 <= k < i && (#[trigger] targets@[k]).key_view() == key;
                        assert(targets@[k].key_view() == key);
                    } else {
                        assert(targets@[i as int].key_view() == key);
                    }
                }
                if exists|k: int| 0 <= k < i + 1 && (#[trigger] targets@[k]).key_view() == key {
                    let k = choose|k: int|
                        0 <= k < i + 1 && (#[trigger] targets@[k]).key_view() == key;
                    if k < i {
                        assert(before.contains_key(key));
                    }
                }
            }
        }
        i += 1;
    }
    r
}

/// A permit that is revoked, has another generation or does not cover a session forbids its
/// continuation.
pub proof fn revocation_forbids(
    permit: &RecoveryPermit,
    live: bool,
    targets: Seq<WatchTarget>,
    current: u64,
    target: WatchTarget,
    generation: u64,
)
    requires
        permit.is_for(live, targets, current),
        !live || current != generation || !watchlist::watches(targets, target.key_view()),
    ensures
        !permit.permits(target, generation),
{
}

} // verus!
