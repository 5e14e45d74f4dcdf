//! The providers of sessions: which there are, and how their sessions are discovered.

pub mod catalog;
pub mod claude;
pub mod codex;
pub mod listing;
pub mod requests;

use vstd::prelude::*;
use vstd::string::*;

use crate::config::Settings;
use crate::models::{MessageDelivery, MessageReceipt, ResumeReceipt, Session};
use crate::text;
use crate::time::Timestamp;

pub use claude::{classify_claude_error, classify_claude_hook, ClassifiedError};
pub use codex::classify_codex_error;

verus! {

/// The most sessions that discovery asks for at once.
pub const DISCOVERY_PAGE_ITEMS: usize = 500;

/// A part of a provider's sessions.
#[derive(Debug)]
pub struct SessionSearchPage {
    pub sessions: Vec<Session>,
    /// Where the next part starts, where there is one.
    pub next_cursor: Option<String>,
}

/// The providers that there are.
#[derive(Clone, Copy, Debug, PartialEq, Eq, Structural)]
pub enum ProviderKind {
    /// Answers requests.
    Codex,
    /// Keeps transcripts, and goes by the name that it is given.
    Claude,
}

/// Whether failed turns of the provider's sessions can be recovered.
pub fn supports_recovery(provider: &str) -> (r: bool)
    ensures
        r == (provider@ == "codex"@),
{
    text::same(provider, "codex")
}

/// Why a provider cannot be had.
#[derive(Debug)]
pub enum ProviderRefusal {
    Disabled(String),
    Unknown(String),
}

impl ProviderRefusal {
    /// What the refusal says.
    pub open spec fn message_view(self) -> Seq<char> {
        match self {
            ProviderRefusal::Disabled(name) => "provider is disabled: "@ + name@,
            ProviderRefusal::Unknown(name) => "unknown provider: "@ + name@,
        }
    }

    /// What the refusal says.
    pub fn message(&self) -> (r: String)
        ensures
            r@ == self.message_view(),
    {
        match self {
            ProviderRefusal::Disabled(name) => "provider is disabled: ".to_owned().concat(
                name.as_str(),
            ),
            ProviderRefusal::Unknown(name) => "unknown provider: ".to_owned().concat(
                name.as_str(),
            ),
        }
    }
}

/// The provider of a name, where there is one. The second argument is the name of the one that keeps
/// transcripts.
pub open spec fn named(name: Seq<char>, claude: Seq<char>) -> Option<ProviderKind> {
    if name == "codex"@ {
        Some(ProviderKind::Codex)
    } else if name == claude {
        Some(ProviderKind::Claude)
    } else {
        None
    }
}

/// The provider is enabled.
pub open spec fn is_enabled(settings: Settings, kind: ProviderKind) -> bool {
    match kind {
        ProviderKind::Codex => settings.providers.codex.enabled,
        ProviderKind::Claude => settings.providers.claude.enabled,
    }
}

/// A provider of that name can be had.
pub open spec fn available(settings: Settings, name: Seq<char>, claude: Seq<char>) -> bool {
    named(name, claude) is Some && is_enabled(settings, named(name, claude)->0)
}

/// `refusal` says why no provider of that name can be had.
pub open spec fn refuses(refusal: ProviderRefusal, name: Seq<char>, claude: Seq<char>) -> bool {
    match named(name, claude) {
        Some(_) => refusal matches ProviderRefusal::Disabled(disabled) && disabled@ == name,
        None => refusal matches ProviderRefusal::Unknown(unknown) && unknown@ == name,
    }
}

/// The provider of a name, if it can be had.
pub fn choose_provider(settings: &Settings, name: &str, claude: &str) -> (r: Result<
    ProviderKind,
    ProviderRefusal,
>)
    ensures
        match r {
            Ok(kind) => available(*settings, name@, claude@) && named(name@, claude@) == Some(kind),
            Err(refusal) => !available(*settings, name@, claude@) && refuses(
                refusal,
                name@,
                claude@,
            ),
        },
{
    let (kind, enabled) = if text::same(name, "codex") {
        (ProviderKind::Codex, settings.providers.codex.enabled)
    } else if text::same(name, claude) {
        (ProviderKind::Claude, settings.providers.claude.enabled)
    } else {
        return Err(ProviderRefusal::Unknown(name.to_owned()));
    };
    if enabled {
        Ok(kind)
    } else {
        Err(ProviderRefusal::Disabled(name.to_owned()))
    }
}

/// The providers of names, each once, in the order of their first names.
pub open spec fn kinds_of(names: Seq<Seq<char>>, claude: Seq<char>) -> Seq<ProviderKind>
    decreases names.len(),
{
    if names.len() == 0 {
        Seq::empty()
    } else {
        let before = kinds_of(names.drop_last(), claude);
        match named(names.last(), claude) {
            Some(kind) => if before.contains(kind) {
                before
            } else {
                before.push(kind)
            },
            None => before,
        }
    }
}

fn has_kind(kinds: &Vec<ProviderKind>, kind: ProviderKind) -> (r: bool)
    ensures
        r == kinds@.contains(kind),
{
    let mut i: usize = 0;
    while i < kinds.len()
        invariant
            i <= kinds@.len(),
            forall|k: int| 0 <= k < i ==> kinds@[k] != kind,
        decreases kinds@.len() - i,
    {
        if kinds[i] == kind {
            assert(kinds@[i as int] == kind);
            return true;
        }
        i += 1;
    }
    false
}

/// The providers of the names, each once. The first name of which no provider can be had decides
/// the refusal.
pub fn build_providers(settings: &Settings, names: &Vec<String>, claude: &str) -> (r: Result<
    Vec<ProviderKind>,
    ProviderRefusal,
>)
    ensures
        match r {
            Ok(kinds) => kinds@ == kinds_of(text::views(names@), claude@) && forall|i: int|
                0 <= i < names@.len() ==> available(*settings, #[trigger] names@[i]@, claude@),
            Err(refusal) => exists|i: int|
                {
                    &&& 0 <= i < names@.len()
                    &&& !available(*settings, #[trigger] names@[i]@, claude@)
                    &&& refuses(refusal, names@[i]@, claude@)
                    &&& forall|j: int| 0 <= j < i ==> available(*settings, #[trigger] names@[j]@, claude@)
                },
        },
{
    let ghost all = text::views(names@);
    let mut kinds: Vec<ProviderKind> = Vec::new();
    let mut i: usize = 0;
    assert(kinds@ =~= kinds_of(all.take(0), claude@));
    while i < names.len()
        invariant
            i <= names@.len(),
            all == text::views(names@),
            kinds@ == kinds_of(all.take(i as int), claude@),
            forall|j: int| 0 <= j < i ==> available(*settings, #[trigger] names@[j]@, claude@),
        decreases names@.len() - i,
    {
        assert(all.take(i + 1).drop_last() =~= all.take(i as int));
        assert(all.take(i + 1).last() == names@[i as int]@);
        match choose_provider(settings, names[i].as_str(), claude) {
            Ok(kind) => {
                if !has_kind(&kinds, kind) {
                    kinds.push(kind);
                }
            },
            Err(refusal) => {
                assert(!available(*settings, names@[i as int]@, claude@));
                return Err(refusal);
            },
        }
        i += 1;
    }
    assert(all.take(i as int) =~= all);
    Ok(kinds)
}

/// What was discovered of a provider's sessions so far.
#[derive(Debug)]
pub struct Discovery {
    pub sessions: Vec<Session>,
    /// The cursors that the provider gave.
    pub cursors: Vec<String>,
}

/// How discovery goes on.
#[derive(Debug)]
pub enum DiscoveryStep {
    /// The part at the cursor is searched next.
    Search(String),
    /// All recent sessions were discovered.
    Done,
    /// The provider gave a cursor twice.
    RepeatedCursor,
}

/// A session was last active before the cutoff.
pub open spec fn is_old(session: Session, cutoff: Timestamp) -> bool {
    session.updated_at is Some && !session.updated_at->0.is_not_before(cutoff, 0)
}

/// One of the sessions was last active before the cutoff.
pub open spec fn reaches(sessions: Seq<Session>, cutoff: Timestamp) -> bool {
    exists|i: int| 0 <= i < sessions.len() && is_old(#[trigger] sessions[i], cutoff)
}

fn reaches_cutoff(sessions: &Vec<Session>, cutoff: Timestamp) -> (r: bool)
    ensures
        r == reaches(sessions@, cutoff),
{
    let mut i: usize = 0;
    while i < sessions.len()
        invariant
            i <= sessions@.len(),
            forall|k: int| 0 <= k < i ==> !is_old(#[trigger] sessions@[k], cutoff),
        decreases sessions@.len() - i,
    {
        let old = match sessions[i].updated_at {
            Some(time) => !time.not_before(cutoff, 0),
            None => false,
        };
        if old {
            assert(is_old(sessions@[i as int], cutoff));
            return true;
        }
        i += 1;
    }
    false
}

impl Discovery {
    /// Discovery at its start, where no cursor is given.
    pub fn new() -> (r: Self)
        ensures
            r.sessions@.len() == 0,
            r.cursors@.len() == 0,
    {
        Discovery { sessions: Vec::new(), cursors: Vec::new() }
    }

    /// Takes a page of sessions. Discovery ends at the first page with a session from before the
    /// cutoff and at the last page.
    pub fn take_page(&mut self, page: SessionSearchPage, cutoff: Timestamp) -> (r: DiscoveryStep)
        ensures
            final(self).sessions@ == old(self).sessions@ + page.sessions@,
            match r {
                DiscoveryStep::Done => final(self).cursors@ == old(self).cursors@ && (reaches(
                    page.sessions@,
                    cutoff,
                ) || page.next_cursor is None),
                DiscoveryStep::RepeatedCursor => {
                    &&& !reaches(page.sessions@, cutoff)
                    &&& page.next_cursor is Some
                    &&& text::views(old(self).cursors@).contains(page.next_cursor->0@)
                    &&& final(self).cursors@ == old(self).cursors@
                },
                DiscoveryStep::Search(cursor) => {
                    &&& !reaches(page.sessions@, cutoff)
                    &&& page.next_cursor == Some(cursor)
                    &&& !text::views(old(self).cursors@).contains(cursor@)
                    &&& final(self).cursors@ == old(self).cursors@.push(cursor)
                },
            },
    {
        let reached = reaches_cutoff(&page.sessions, cutoff);
        let ghost taken = page.sessions@;
        let mut taken_sessions = page.sessions;
        self.sessions.append(&mut taken_sessions);
        if reached {
            return DiscoveryStep::Done;
        }
        let next = match page.next_cursor {
            Some(next) => next,
            None => {
                return DiscoveryStep::Done;
            },
        };
        let ghost seen = text::views(self.cursors@);
        let mut i: usize = 0;
        while i < self.cursors.len()
            invariant
                i <= self.cursors@.len(),
                self.cursors@ == old(self).cursors@,
                self.sessions@ == old(self).sessions@ + taken,
                taken == page.sessions@,
                page.next_cursor == Some(next),
                !reaches(taken, cutoff),
                seen == text::views(self.cursors@),
                forall|k: int| 0 <= k < i ==> seen[k] != next@,
            decreases self.cursors@.len() - i,
        {
            if text::same(self.cursors[i].as_str(), next.as_str()) {
                assert(seen[i as int] == next@);
                return DiscoveryStep::RepeatedCursor;
            }
            i += 1;
        }
        self.cursors.push(next.clone());
        DiscoveryStep::Search(next)
    }
}

/// Sessions stand newest first, as far as their activity is known.
pub open spec fn newest_first(sessions: Seq<Session>) -> bool {
    forall|i: int, j: int|
        #![trigger sessions[i], sessions[j]]
        0 <= i <= j < sessions.len() && sessions[i].updated_at is Some
            && sessions[j].updated_at is Some ==> sessions[i].updated_at->0.is_not_before(
            sessions[j].updated_at->0,
            0,
        )
}

/// Of a provider that lists its sessions newest first, discovery misses none that is known to be
/// recent: where the last page taken holds a session from before the cutoff, so is every session
/// with a known time that follows.
pub proof fn discovery_misses_nothing_recent(
    all: Seq<Session>,
    page_start: int,
    page_end: int,
    cutoff: Timestamp,
    missed: int,
)
    requires
        newest_first(all),
        0 <= page_start <= page_end <= missed < all.len(),
        reaches(all.subrange(page_start, page_end), cutoff),
        all[missed].updated_at is Some,
    ensures
        is_old(all[missed], cutoff),
{
    let page = all.subrange(page_start, page_end);
    let i = choose|i: int| 0 <= i < page.len() && is_old(#[trigger] page[i], cutoff);
    assert(page[i] == all[page_start + i]);
}

/// The receipt of a message that was delivered by starting a turn with it.
pub fn started_message(receipt: ResumeReceipt) -> (r: MessageReceipt)
    ensures
        r.provider == receipt.provider,
        r.session_id == receipt.session_id,
        r.turn_id == receipt.turn_id,
        r.delivery == MessageDelivery::Started,
        r.transport == receipt.transport,
{
    MessageReceipt {
        provider: receipt.provider,
        session_id: receipt.session_id,
        turn_id: receipt.turn_id,
        delivery: MessageDelivery::Started,
        transport: receipt.transport,
    }
}

} // verus!
