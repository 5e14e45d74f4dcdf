//! Keeping the engine in step with the watchlist, the settings and the providers.

use vstd::prelude::*;
use vstd::string::*;

use crate::config;
use crate::config::Settings;
use crate::engine::permit;
use crate::engine::permit::RecoveryPermit;
use crate::engine::recovery::WatchEngine;
use crate::models::WatchTarget;
use crate::state::runtime::RuntimeState;
use crate::state::watchlist;
use crate::text;
use crate::textmap;
use crate::textmap::TextMap;

verus! {

/// The sessions of a provider, in the order of the targets.
pub open spec fn sessions_of(targets: Seq<WatchTarget>, provider: Seq<char>) -> Seq<Seq<char>>
    decreases targets.len(),
{
    if targets.len() == 0 {
        Seq::empty()
    } else {
        let rest = sessions_of(targets.drop_last(), provider);
        if targets.last().provider@ == provider {
            rest.push(targets.last().session_id@)
        } else {
            rest
        }
    }
}

/// A provider is among the names.
pub open spec fn is_named(names: Seq<String>, provider: Seq<char>) -> bool {
    exists|i: int| 0 <= i < names.len() && (#[trigger] names[i])@ == provider
}

/// Some target is one of the provider.
pub open spec fn has_provider(targets: Seq<WatchTarget>, provider: Seq<char>) -> bool {
    exists|i: int| 0 <= i < targets.len() && (#[trigger] targets[i]).provider@ == provider
}

/// Some recovery of the provider is in flight.
pub open spec fn pending_provider(state: RuntimeState, provider: Seq<char>) -> bool {
    exists|turn: Seq<char>| #[trigger]
        state.pending_recoveries@.contains_key(turn) && state.pending_recoveries@[turn].provider@
            == provider
}

/// The severity that an event is logged with: errors and failures stand out.
pub open spec fn stands_out(kind: Seq<char>) -> bool {
    text::ends_with_text(kind, "error"@) || text::ends_with_text(kind, "failed"@)
}

/// Whether an event is logged as a warning.
pub fn is_warning(kind: &str) -> (r: bool)
    ensures
        r == stands_out(kind@),
{
    text::ends_with(kind, "error") || text::ends_with(kind, "failed")
}

impl WatchEngine {
    /// An engine that has seen no failure yet.
    pub fn new(
        settings: Settings,
        targets: Vec<WatchTarget>,
        state: RuntimeState,
        dry_run: bool,
    ) -> (r: Self)
        ensures
            r.settings == settings,
            r.targets == targets,
            r.state == state,
            r.unresolved_targets@ == Map::<Seq<char>, ()>::empty(),
            r.dry_run == dry_run,
    {
        WatchEngine { settings, targets, state, unresolved_targets: TextMap::new(), dry_run }
    }

    /// Watches these targets from now on. A session that is not among them does not count as
    /// unresolved any longer.
    pub fn replace_watch_targets(&mut self, targets: Vec<WatchTarget>)
        ensures
            final(self).targets == targets,
            forall|key: Seq<char>| #[trigger]
                final(self).unresolved_targets@.contains_key(key) <==> old(
                    self).unresolved_targets@.contains_key(key) && watchlist::watches(
                    targets@,
                    key,
                ),
            final(self).settings == old(self).settings,
            final(self).state == old(self).state,
            final(self).dry_run == old(self).dry_run,
    {
        let active = permit::keys_of(&targets);
        let count: usize = self.unresolved_targets.len();
        let ghost entries = self.unresolved_targets.entries();
        let ghost before = self.unresolved_targets@;
        let mut keep: Vec<bool> = Vec::new();
        let mut i: usize = 0;
        while i < count
            invariant
                i <= count,
                count == entries.len(),
                entries == self.unresolved_targets.entries(),
                keep@.len() == i,
                forall|k: int|
                    0 <= k < i ==> keep@[k] == active@.contains_key((#[trigger] entries[k]).0@),
            decreases count - i,
        {
            keep.push(active.contains_key(self.unresolved_targets.key_at(i).as_str()));
            i += 1;
        }
        self.unresolved_targets.retain(&keep);
        proof {
            assert forall|key: Seq<char>| #[trigger]
                self.unresolved_targets@.contains_key(key) <==> before.contains_key(key)
                    && watchlist::watches(targets@, key) by {
                if before.contains_key(key) {
                    let k = textmap::key_index(entries, key);
                    assert(entries[k].0@ == key);
                    textmap::lemma_key_is_unique(entries, k);
                    assert(active@.contains_key(key) <==> watchlist::watches(targets@, key));
                }
            }
        }
        self.targets = targets;
    }

    /// Uses these settings from now on. Says whether the Codex provider has to be closed, since it
    /// is run differently.
    pub fn replace_settings(&mut self, settings: Settings) -> (close_codex: bool)
        ensures
            final(self).settings == settings,
            final(self).targets == old(self).targets,
            final(self).state == old(self).state,
            final(self).unresolved_targets == old(self).unresolved_targets,
            final(self).dry_run == old(self).dry_run,
            close_codex == !(old(self).settings.providers.codex.enabled
                == settings.providers.codex.enabled && text::views(
                old(self).settings.providers.codex.command@,
            ) == text::views(settings.providers.codex.command@)),
    {
        let close_codex = !config::same_codex(
            &self.settings.providers.codex,
            &settings.providers.codex,
        );
        self.settings = settings;
        close_codex
    }

    /// Takes over what was read anew, where no service stands between: the permit becomes that for
    /// the targets, without a new generation. Says whether the Codex provider has to be closed.
    pub fn apply_direct_reload(
        &mut self,
        permit: &mut RecoveryPermit,
        targets: Option<Vec<WatchTarget>>,
        settings: Option<Settings>,
        live: bool,
    ) -> (close_codex: bool)
        ensures
            match targets {
                Some(targets) => {
                    &&& final(self).targets == targets
                    &&& final(permit).is_for(live, targets@, old(permit).generation_view())
                    &&& forall|key: Seq<char>| #[trigger]
                        final(self).unresolved_targets@.contains_key(key) <==> old(
                            self).unresolved_targets@.contains_key(key) && watchlist::watches(
                            targets@,
                            key,
                        )
                },
                None => {
                    &&& final(self).targets == old(self).targets
                    &&& final(self).unresolved_targets == old(self).unresolved_targets
                    &&& *final(permit) == *old(permit)
                },
            },
            match settings {
                Some(settings) => {
                    &&& final(self).settings == settings
                    &&& close_codex == !(old(self).settings.providers.codex.enabled
                        == settings.providers.codex.enabled && text::views(
                        old(self).settings.providers.codex.command@,
                    ) == text::views(settings.providers.codex.command@))
                },
                None => final(self).settings == old(self).settings && !close_codex,
            },
            final(self).state == old(self).state,
            final(self).dry_run == old(self).dry_run,
    {
        match targets {
            Some(targets) => {
                let generation: u64 = permit.generation();
                permit.update(live, &targets, generation);
                self.replace_watch_targets(targets);
            },
            None => {},
        }
        match settings {
            Some(settings) => self.replace_settings(settings),
            None => false,
        }
    }

    /// The keys of the sessions that need attention: the latest turn failed, or a recovery is in
    /// flight.
    pub fn unresolved_target_keys(&self) -> (r: TextMap<()>)
        ensures
            forall|key: Seq<char>| #[trigger]
                r@.contains_key(key) <==> self.unresolved_targets@.contains_key(key)
                    || self.state.pending_key(key),
    {
        let mut r = self.state.pending_target_keys();
        let count: usize = self.unresolved_targets.len();
        let ghost entries = self.unresolved_targets.entries();
        let mut i: usize = 0;
        while i < count
            invariant
                i <= count,
                count == entries.len(),
                entries == self.unresolved_targets.entries(),
                forall|key: Seq<char>| #[trigger]
                    r@.contains_key(key) <==> self.state.pending_key(key) || exists|k: int|
                        0 <= k < i && (#[trigger] entries[k]).0@ == key,
            decreases count - i,
        {
            let ghost before = r@;
            r.insert(self.unresolved_targets.key_at(i).clone(), ());
            proof {
                assert forall|key: Seq<char>| #[trigger]
                    r@.contains_key(key) <==> self.state.pending_key(key) || exists|k: int|
                        0 <= k < i + 1 && (#[trigger] entries[k]).0@ == key by {
                    if r@.contains_key(key) && !self.state.pending_key(key) {
                        if before.contains_key(key) {
                            let k = choose|k: int|
                                0 <= k < i && (#[trigger] entries[k]).0@ == key;
                            assert(entries[k].0@ == key);
                        } else {
                            assert(entries[i as int].0@ == key);
                        }
                    }
                    if exists|k: int| 0 <= k < i + 1 && (#[trigger] entries[k]).0@ == key {
                        let k = choose|k: int|
                            0 <= k < i + 1 && (#[trigger] entries[k]).0@ == key;
                        if k < i {
                            assert(before.contains_key(key));
                        }
                    }
                    if self.state.pending_key(key) {
                        assert(before.contains_key(key));
                    }
                }
            }
            i += 1;
        }
        proof {
            assert forall|key: Seq<char>| #[trigger]
                r@.contains_key(key) <==> self.unresolved_targets@.contains_key(key)
                    || self.state.pending_key(key) by {
                if self.unresolved_targets@.contains_key(key) {
                    let k = textmap::key_index(entries, key);
                    assert(entries[k].0@ == key);
                }
                if r@.contains_key(key) && !self.state.pending_key(key) {
                    let k = choose|k: int| 0 <= k < count && (#[trigger] entries[k]).0@ == key;
                    textmap::lemma_key_is_unique(entries, k);
                }
            }
        }
        r
    }

    /// The providers that a poll asks: the enabled ones and those that are needed.
    pub fn polled_providers(&self, enabled: &Vec<String>) -> (r: TextMap<()>)
        ensures
            forall|provider: Seq<char>| #[trigger]
                r@.contains_key(provider) <==> is_named(enabled@, provider) || has_provider(
                    self.targets@,
                    provider,
                ) || pending_provider(self.state, provider),
    {
        let mut r = self.needed_providers();
        let ghost needed = r@;
        let mut i: usize = 0;
        while i < enabled.len()
            invariant
                i <= enabled@.len(),
                forall|provider: Seq<char>| #[trigger]
                    r@.contains_key(provider) <==> needed.contains_key(provider) || is_named(
                        enabled@.take(i as int),
                        provider,
                    ),
            decreases enabled@.len() - i,
        {
            let ghost before = r@;
            let ghost seen = enabled@.take(i as int);
            let ghost next = enabled@.take(i + 1);
            r.insert(enabled[i].clone(), ());
            proof {
                assert forall|provider: Seq<char>| #[trigger]
                    r@.contains_key(provider) <==> needed.contains_key(provider) || is_named(
                        next,
                        provider,
                    ) by {
                    assert(before.contains_key(provider) <==> needed.contains_key(provider)
                        || is_named(seen, provider));
                    if is_named(seen, provider) {
                        let k = choose|k: int|
                            0 <= k < seen.len() && (#[trigger] seen[k])@ == provider;
                        assert(next[k]@ == provider);
                    }
                    if provider == enabled@[i as int]@ {
                        assert(next[i as int]@ == provider);
                    }
                    if is_named(next, provider) && !is_named(seen, provider) {
                        let k = choose|k: int|
                            0 <= k < next.len() && (#[trigger] next[k])@ == provider;
                        if k < i {
                            assert(seen[k]@ == provider);
                        }
                    }
                }
            }
            i += 1;
        }
        assert(enabled@.take(i as int) =~= enabled@);
        r
    }

    /// The providers that are needed: those of the targets and those of recoveries in flight.
    pub fn needed_providers(&self) -> (r: TextMap<()>)
        ensures
            forall|provider: Seq<char>| #[trigger]
                r@.contains_key(provider) <==> has_provider(self.targets@, provider)
                    || pending_provider(self.state, provider),
    {
        let mut r = self.pending_provider_names();
        let mut i: usize = 0;
        while i < self.targets.len()
            invariant
                i <= self.targets@.len(),
                forall|provider: Seq<char>| #[trigger]
                    r@.contains_key(provider) <==> pending_provider(self.state, provider) || exists|
                        k: int,
                    |
                        0 <= k < i && (#[trigger] self.targets@[k]).provider@ == provider,
            decreases self.targets@.len() - i,
        {
            let ghost before = r@;
            r.insert(self.targets[i].provider.clone(), ());
            proof {
                assert forall|provider: Seq<char>| #[trigger]
                    r@.contains_key(provider) <==> pending_provider(self.state, provider) || exists|
                        k: int,
                    |
                        0 <= k < i + 1 && (#[trigger] self.targets@[k]).provider@ == provider by {
                    if r@.contains_key(provider) && !pending_provider(self.state, provider) {
                        if before.contains_key(provider) {
                            let k = choose|k: int|
                                0 <= k < i && (#[trigger] self.targets@[k]).provider@ == provider;
                            assert(self.targets@[k].provider@ == provider);
                        } else {
                            assert(self.targets@[i as int].provider@ == provider);
                        }
                    }
                    if exists|k: int|
                        0 <= k < i + 1 && (#[trigger] self.targets@[k]).provider@ == provider {
                        let k = choose|k: int|
                            0 <= k < i + 1 && (#[trigger] self.targets@[k]).provider@ == provider;
                        if k < i {
                            assert(before.contains_key(provider));
                        }
                    }
                    if pending_provider(self.state, provider) {
                        assert(before.contains_key(provider));
                    }
                }
            }
            i += 1;
        }
        proof {
            assert forall|provider: Seq<char>| #[trigger]
                r@.contains_key(provider) <==> has_provider(self.targets@, provider)
                    || pending_provider(self.state, provider) by {
                if has_provider(self.targets@, provider) {
                    let k = choose|k: int|
                        0 <= k < self.targets@.len() && (#[trigger] self.targets@[k]).provider@
                            == provider;
                    assert(self.targets@[k].provider@ == provider);
                }
            }
        }
        r
    }

    /// The providers with recoveries in flight.
    pub fn pending_provider_names(&self) -> (r: TextMap<()>)
        ensures
            forall|provider: Seq<char>| #[trigger]
                r@.contains_key(provider) <==> pending_provider(self.state, provider),
    {
        let pending = self.state.pending_recoveries();
        let ghost entries = self.state.pending_recoveries.entries();
        let mut r: TextMap<()> = TextMap::new();
        let mut i: usize = 0;
        assert(pending@.len() == entries.len());
        while i < pending.len()
            invariant
                i <= pending@.len(),
                pending@.len() == entries.len(),
                forall|k: int| 0 <= k < entries.len() ==> pending@[k] == (#[trigger] entries[k]).1,
                forall|provider: Seq<char>| #[trigger]
                    r@.contains_key(provider) <==> exists|k: int|
                        0 <= k < i && (#[trigger] entries[k]).1.provider@ == provider,
            decreases pending@.len() - i,
        {
            let ghost before = r@;
            assert(pending@[i as int] == entries[i as int].1);
            r.insert(pending[i].provider.clone(), ());
            proof {
                assert forall|provider: Seq<char>| #[trigger]
                    r@.contains_key(provider) <==> exists|k: int|
                        0 <= k < i + 1 && (#[trigger] entries[k]).1.provider@ == provider by {
                    if r@.contains_key(provider) {
                        if before.contains_key(provider) {
                            let k = choose|k: int|
                                0 <= k < i && (#[trigger] entries[k]).1.provider@ == provider;
                            assert(entries[k].1.provider@ == provider);
                        } else {
                            assert(entries[i as int].1.provider@ == provider);
                        }
                    }
                    if exists|k: int|
                        0 <= k < i + 1 && (#[trigger] entries[k]).1.provider@ == provider {
                        let k = choose|k: int|
                            0 <= k < i + 1 && (#[trigger] entries[k]).1.provider@ == provider;
                        if k < i {
                            assert(before.contains_key(provider));
                        }
                    }
                }
            }
            i += 1;
        }
        proof {
            assert forall|provider: Seq<char>| #[trigger]
                r@.contains_key(provider) <==> pending_provider(self.state, provider) by {
                if r@.contains_key(provider) {
                    let k = choose|k: int|
                        0 <= k < entries.len() && (#[trigger] entries[k]).1.provider@ == provider;
                    textmap::lemma_key_is_unique(entries, k);
                    assert(self.state.pending_recoveries@.contains_key(entries[k].0@));
                }
                if pending_provider(self.state, provider) {
                    let turn = choose|turn: Seq<char>| #[trigger]
                        self.state.pending_recoveries@.contains_key(turn)
                            && self.state.pending_recoveries@[turn].provider@ == provider;
                    let k = textmap::key_index(entries, turn);
                    assert(entries[k].0@ == turn);
                    textmap::lemma_key_is_unique(entries, k);
                }
            }
        }
        r
    }

    /// The watched sessions of a provider, to be told of changes.
    pub fn watched_sessions(&self, provider: &str) -> (r: Vec<String>)
        ensures
            text::views(r@) == sessions_of(self.targets@, provider@),
    {
        let mut r: Vec<String> = Vec::new();
        let mut i: usize = 0;
        assert(text::views(r@) =~= sessions_of(self.targets@.take(0), provider@));
        while i < self.targets.len()
            invariant
                i <= self.targets@.len(),
                text::views(r@) == sessions_of(self.targets@.take(i as int), provider@),
            decreases self.targets@.len() - i,
        {
            let target = &self.targets[i];
            let ghost before = r@;
            assert(self.targets@.take(i + 1).drop_last() =~= self.targets@.take(i as int));
            if text::same(target.provider.as_str(), provider) {
                r.push(target.session_id.clone());
                assert(text::views(r@) =~= text::views(before).push(target.session_id@));
            }
            i += 1;
        }
        assert(self.targets@.take(i as int) =~= self.targets@);
        r
    }
}

} // verus!
