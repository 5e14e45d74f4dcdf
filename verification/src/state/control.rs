//! The revision that every accepted change advances.

use vstd::prelude::*;

use crate::state::watchlist::UnsupportedVersion;

verus! {

/// The only schema version of the control state that is accepted.
pub const CONTROL_VERSION: u32 = 2;

/// The control state as it is stored.
#[derive(Clone, Copy, Debug, PartialEq, Eq, Structural)]
pub struct ControlDocument {
    pub version: u32,
    pub revision: u64,
}

/// The control revision and where it is kept.
#[derive(Debug)]
pub struct ControlStateStore {
    revision: u64,
    path: String,
}

/// The revision that follows `revision`: the next number, at least one, up to the largest.
pub open spec fn following(revision: u64) -> u64 {
    if revision == u64::MAX {
        u64::MAX
    } else {
        (revision + 1) as u64
    }
}

impl ControlStateStore {
    /// The revision.
    pub closed spec fn revision_view(&self) -> u64 {
        self.revision
    }

    /// Where the state is kept.
    pub closed spec fn path_view(&self) -> String {
        self.path
    }

    /// Takes a stored state over, if its version is accepted, or starts at none. A start is a
    /// change too: the revision has advanced, and the caller stores the document before it answers
    /// anything.
    pub fn load(path: String, stored: Option<ControlDocument>) -> (r: Result<
        Self,
        UnsupportedVersion,
    >)
        ensures
            match (stored, r) {
                (None, Ok(state)) => state.revision_view() == 1 && state.path_view() == path,
                (Some(found), Ok(state)) => found.version == CONTROL_VERSION
                    && state.revision_view() == following(found.revision) && state.path_view()
                    == path,
                (Some(found), Err(error)) => found.version != CONTROL_VERSION && error.found
                    == found.version && error.required == CONTROL_VERSION,
                (None, Err(_)) => false,
            },
    {
        match stored {
            None => Ok(ControlStateStore { revision: 1, path }),
            Some(found) => {
                if found.version != CONTROL_VERSION {
                    return Err(
                        UnsupportedVersion { found: found.version, required: CONTROL_VERSION },
                    );
                }
                Ok(ControlStateStore { revision: found.revision.saturating_add(1), path })
            },
        }
    }

    /// The revision.
    pub fn revision(&self) -> (r: u64)
        ensures
            r == self.revision_view(),
    {
        self.revision
    }

    /// Where the state is kept.
    pub fn path(&self) -> (r: &String)
        ensures
            *r == self.path_view(),
    {
        &self.path
    }

    /// What is stored of it.
    pub fn document(&self) -> (r: ControlDocument)
        ensures
            r.version == CONTROL_VERSION,
            r.revision == self.revision_view(),
    {
        ControlDocument { version: CONTROL_VERSION, revision: self.revision }
    }

    /// What has to be stored for the revision to advance.
    pub fn proposed(&self) -> (r: ControlDocument)
        ensures
            r.version == CONTROL_VERSION,
            r.revision == following(self.revision_view()),
    {
        ControlDocument { version: CONTROL_VERSION, revision: self.revision.saturating_add(1) }
    }

    /// Advances the revision, given whether what was proposed could be stored. Where it could not,
    /// the revision stays.
    pub fn next_revision(&mut self, stored: bool) -> (r: Option<u64>)
        ensures
            final(self).path_view() == old(self).path_view(),
            stored ==> r == Some(following(old(self).revision_view())) && final(
                self).revision_view() == following(old(self).revision_view()),
            !stored ==> r is None && final(self).revision_view() == old(self).revision_view(),
    {
        if stored {
            self.revision = self.revision.saturating_add(1);
            Some(self.revision)
        } else {
            None
        }
    }
}

/// An advanced revision is at least one, never smaller, and greater unless numbers run out.
pub proof fn revisions_ascend(revision: u64)
    ensures
        following(revision) >= 1,
        following(revision) >= revision,
        revision < u64::MAX ==> following(revision) > revision,
{
}

} // verus!
