//! Which transcripts, watches and policies are gone to next.

use vstd::prelude::*;

use crate::cli::commands;
use crate::config::ResolvedPolicy;
use crate::os_permissions::applications::{AppFacts, Monitor};
use crate::os_permissions::dialogs;
use crate::os_permissions::dialogs::{Dialog, Note};
use crate::os_permissions::rules::DialogSettings;
use crate::os_permissions::window::MatchedButton;
use crate::providers::claude;
use crate::providers::claude::ClaudeProvider;
use crate::providers::codex;
use crate::providers::codex::CodexProvider;
use crate::providers::requests::CodexRequest;
use crate::text;
use crate::time::Timestamp;

verus! {

/// A transcript that was not visited before is read from its start, and is known by its own path
/// from now on. Those that were known stay as they were.
pub proof fn new_transcripts_are_read_from_their_start(
    provider: &mut ClaudeProvider,
    id: &str,
    path: &str,
    identity: (u64, u64),
    modified: Option<Timestamp>,
    length: u64,
    r: (usize, Option<u64>),
)
    requires
        old(provider).well_formed(),
        call_ensures(ClaudeProvider::visit, (provider, id, path, identity, modified, length), r),
        forall|k: int|
            0 <= k < old(provider).transcripts@.len() ==> (#[trigger] old(provider).transcripts@[k]).path@ != path@,
        length > 0,
    ensures
        r.1 == Some(0u64),
        r.0 == old(provider).transcripts@.len(),
        final(provider).transcripts@.len() == r.0 + 1,
        final(provider).transcripts@[r.0 as int].id@ == id@,
        final(provider).transcripts@[r.0 as int].path@ == path@,
        final(provider).transcripts@[r.0 as int].offset == 0,
        final(provider).transcripts@[r.0 as int].identity == identity,
        final(provider).transcripts@[r.0 as int].updated_at is None,
        !final(provider).transcripts@[r.0 as int].uncertain,
        forall|k: int|
            0 <= k < r.0 ==> final(provider).transcripts@[k] == #[trigger] old(provider).transcripts@[k],
{
    let before = old(provider).transcripts@;
    let after = final(provider).transcripts@;
    assert(!claude::has_path(before, path@));
    assert(after == before.push(after[r.0 as int]));
    if r.0 < before.len() {
        assert(after[r.0 as int] == before[r.0 as int]);
        assert(before[r.0 as int].path@ != path@);
    }
}

/// A transcript that was visited before is left alone where it is as it was read, is read on from
/// where it ended where it grew, and is read from its start where it was replaced or cut short.
pub proof fn known_transcripts_are_read_on(
    provider: &mut ClaudeProvider,
    at: int,
    id: &str,
    path: &str,
    identity: (u64, u64),
    modified: Option<Timestamp>,
    length: u64,
    r: (usize, Option<u64>),
)
    requires
        old(provider).well_formed(),
        call_ensures(ClaudeProvider::visit, (provider, id, path, identity, modified, length), r),
        0 <= at < old(provider).transcripts@.len(),
        old(provider).transcripts@[at].path@ == path@,
    ensures
        r.0 == at,
        final(provider).transcripts@.len() == old(provider).transcripts@.len(),
        forall|k: int|
            0 <= k < old(provider).transcripts@.len() && k != at ==> final(provider).transcripts@[k] == #[trigger] old(provider).transcripts@[k],
        ({
            let before = old(provider).transcripts@[at];
            let after = final(provider).transcripts@[at];
            let same = before.identity == identity && before.modified == modified && before.offset
                == length;
            let grew = before.identity == identity && length > before.offset;
            &&& r.1 == (if same {
                None::<u64>
            } else if grew {
                Some(before.offset)
            } else {
                Some(0u64)
            })
            &&& same ==> after == before
            &&& !same ==> after.identity == identity && after.offset == r.1->0
            &&& !same && !grew ==> after.updated_at is None
            &&& grew ==> after.updated_at == before.updated_at
            &&& after.id == before.id
            &&& after.title == before.title
            &&& after.uncertain == before.uncertain
        }),
{
    let before = old(provider).transcripts@;
    let after = final(provider).transcripts@;
    assert(claude::has_path(before, path@));
    assert(after == before.update(r.0 as int, after[r.0 as int]));
    assert(before[r.0 as int].path@ == path@);
    assert(r.0 == at);
}

/// The next watch is opened for the first session that was listed, has a transcript and is not
/// watched yet. It has the session's own name and is for the transcript's own path.
pub proof fn the_first_unwatched_session_is_watched(
    provider: &CodexProvider,
    session_ids: &Vec<String>,
    session_id: &str,
    name: String,
    r: Option<(usize, CodexRequest)>,
)
    requires
        call_ensures(CodexProvider::next_watch, (provider, session_ids), r),
        call_ensures(codex::watch_id, (session_id,), name),
    ensures
        !provider.watch_supported ==> r is None,
        r matches Some((at, request)) ==> {
            let id = session_ids@[at as int]@;
            &&& at < session_ids@.len()
            &&& provider.sessions@.contains_key(id)
            &&& !provider.watches@.contains_key(id)
            &&& request matches CodexRequest::Watch { watch_id, path } && (id == session_id@
                ==> watch_id@ == name@) && provider.sessions@[id].metadata.member_text("path"@)
                == Some(path@) && path@.len() > 0 && path@[0] == '/'
        },
        forall|k: int|
            0 <= k < session_ids@.len() && provider.watch_supported
                && !provider.watches@.contains_key((#[trigger] session_ids@[k])@)
                && provider.sessions@.contains_key(session_ids@[k]@)
                && provider.sessions@[session_ids@[k]@].metadata.member_text("path"@) is Some
                && provider.sessions@[session_ids@[k]@].metadata.member_text("path"@)->0.len() > 0
                && provider.sessions@[session_ids@[k]@].metadata.member_text("path"@)->0[0] == '/'
                ==> r is Some && (r->0).0 <= k,
{
    reveal_strlit("/");
    let slash = "/"@;
    assert(slash.len() == 1 && slash[0] == '/');
    assert forall|path: Seq<char>| #[trigger]
        text::occurs_at(path, slash, 0) == (path.len() > 0 && path[0] == '/') by {
        if path.len() > 0 {
            assert(path.subrange(0, 1) =~= seq![path[0]]);
            assert(slash =~= seq!['/']);
            if text::occurs_at(path, slash, 0) {
                assert(path.subrange(0, 1)[0] == slash[0]);
            }
        }
    }
    assert forall|k: int|
        0 <= k < session_ids@.len() && provider.watch_supported && !provider.watches@.contains_key(
            (#[trigger] session_ids@[k])@,
        ) && provider.sessions@.contains_key(session_ids@[k]@)
            && provider.sessions@[session_ids@[k]@].metadata.member_text("path"@) is Some
            && provider.sessions@[session_ids@[k]@].metadata.member_text("path"@)->0.len() > 0
            && provider.sessions@[session_ids@[k]@].metadata.member_text("path"@)->0[0]
            == '/' implies r is Some && (r->0).0 <= k by {
        assert(provider.wants_watch(session_ids@[k]@));
    }
    if r is Some {
        assert(provider.wants_watch(session_ids@[(r->0).0 as int]@));
    }
}

/// Every open watch is closed, each by its own name, and a closed provider has none.
pub proof fn watches_are_closed(
    provider: &CodexProvider,
    requests: Vec<CodexRequest>,
    closed: &mut CodexProvider,
)
    requires
        call_ensures(CodexProvider::unwatches, (provider,), requests),
        call_ensures(CodexProvider::close, (closed,), ()),
    ensures
        provider.watch_supported ==> requests@.len() == provider.watches.entries().len(),
        !provider.watch_supported ==> requests@.len() == 0,
        forall|i: int|
            0 <= i < requests@.len() ==> (#[trigger] requests@[i]) == CodexRequest::Unwatch(
                provider.watches.entries()[i].1,
            ),
        !final(closed).started,
        forall|id: Seq<char>| !(#[trigger] final(closed).watches@.contains_key(id)),
        final(closed).sessions == old(closed).sessions,
{
}

/// An application that could not be observed is tried again when something is heard of it, and all
/// are when everything begins anew. Those of which nothing was heard wait on.
pub proof fn heard_applications_are_tried_again(
    monitor: &mut Monitor,
    pid: Option<i32>,
    reset: bool,
    other: i32,
)
    requires
        call_ensures(Monitor::heard, (monitor, pid, reset), ()),
    ensures
        reset || pid == Some(other) ==> !final(monitor).failed@.contains_key(other),
        !reset && pid != Some(other) ==> final(monitor).failed@.contains_key(other) == old(monitor).failed@.contains_key(other),
        !reset && pid != Some(other) && old(monitor).failed@.contains_key(other) ==> final(monitor).failed@[other] == old(monitor).failed@[other],
        final(monitor).observed == old(monitor).observed,
{
}

/// An application that has ended, or of which no program is known, is forgotten, and it alone.
pub proof fn ended_applications_are_forgotten(
    monitor: &mut Monitor,
    rules: &DialogSettings,
    app: &AppFacts,
    kept: bool,
    other: i32,
)
    requires
        call_ensures(Monitor::keep_failed, (monitor, rules, app), kept),
    ensures
        app.terminated || app.executable is None ==> !kept,
        !kept ==> !final(monitor).failed@.contains_key(app.pid),
        kept || other != app.pid ==> final(monitor).failed@.contains_key(other) == old(monitor).failed@.contains_key(other),
        (kept || other != app.pid) && old(monitor).failed@.contains_key(other) ==> final(monitor).failed@[other] == old(monitor).failed@[other],
        final(monitor).observed == old(monitor).observed,
{
}

/// A press is announced before it is sent, with its rule and the label of its button.
pub proof fn presses_are_announced(matched: &MatchedButton, r: Note)
    requires
        call_ensures(dialogs::intent, (matched,), r),
    ensures
        r.kind@ == "click.attempt"@,
        r.rule is Some && r.rule->0@ == matched.rule@,
        r.button is Some && r.button->0@ == matched.label@,
        r.detail@ == "matched rule; sending AXPress"@,
{
}

/// Where windows are given up, each that was pressed and not seen to close is said to be
/// unconfirmed, and nothing is said where none waits.
pub proof fn unconfirmed_presses_are_told(dialogs: &Vec<Dialog>, r: Vec<Note>)
    requires
        call_ensures(dialogs::abandon, (dialogs,), r),
    ensures
        forall|i: int|
            0 <= i < r@.len() ==> (#[trigger] r@[i]).kind@ == "click.unconfirmed"@ && r@[i].detail@
                == "host exited or rule removed before close was confirmed"@,
        (forall|k: int|
            0 <= k < dialogs@.len() ==> (#[trigger] dialogs@[k]).awaiting_close)
            ==> r@.len() == dialogs@.len(),
        (forall|k: int|
            0 <= k < dialogs@.len() ==> !(#[trigger] dialogs@[k]).awaiting_close) ==> r@.len()
            == 0,
{
    let waits = |dialog: Dialog| dialog.awaiting_close;
    let waiting = dialogs@.filter(waits);
    if forall|k: int| 0 <= k < dialogs@.len() ==> (#[trigger] dialogs@[k]).awaiting_close {
        lemma_all_kept(dialogs@, waits);
    }
    if forall|k: int| 0 <= k < dialogs@.len() ==> !(#[trigger] dialogs@[k]).awaiting_close {
        lemma_none_kept(dialogs@, waits);
    }
}

proof fn lemma_all_kept<A>(s: Seq<A>, keeps: spec_fn(A) -> bool)
    requires
        forall|k: int| 0 <= k < s.len() ==> keeps(#[trigger] s[k]),
    ensures
        s.filter(keeps) == s,
    decreases s.len(),
{
    reveal(Seq::filter);
    if s.len() > 0 {
        assert forall|k: int| 0 <= k < s.drop_last().len() implies keeps(
            #[trigger] s.drop_last()[k],
        ) by {
            assert(s.drop_last()[k] == s[k]);
        }
        lemma_all_kept(s.drop_last(), keeps);
        assert(s.drop_last().push(s.last()) =~= s);
    }
}

proof fn lemma_none_kept<A>(s: Seq<A>, keeps: spec_fn(A) -> bool)
    requires
        forall|k: int| 0 <= k < s.len() ==> !keeps(#[trigger] s[k]),
    ensures
        s.filter(keeps).len() == 0,
    decreases s.len(),
{
    reveal(Seq::filter);
    if s.len() > 0 {
        assert forall|k: int| 0 <= k < s.drop_last().len() implies !keeps(
            #[trigger] s.drop_last()[k],
        ) by {
            assert(s.drop_last()[k] == s[k]);
        }
        lemma_none_kept(s.drop_last(), keeps);
    }
}

/// All policies are shown where no category is wanted.
pub proof fn all_policies_are_shown_unasked(
    policies: Vec<ResolvedPolicy>,
    r: Vec<ResolvedPolicy>,
)
    requires
        call_ensures(commands::policies_in, (policies, None::<&str>), r),
    ensures
        r@ == policies@,
{
    let keeps = |policy: ResolvedPolicy| crate::cli::is_of_category(policy, None);
    lemma_all_kept(policies@, keeps);
    assert(commands::kept_policies(policies@, None) == policies@.filter(keeps));
}

/// The policy of a condition is found where one is among those that are known, and it is the first.
pub proof fn the_first_policy_of_a_condition_is_found(
    policies: &Vec<ResolvedPolicy>,
    condition: &str,
    at: int,
    r: Option<usize>,
)
    requires
        call_ensures(commands::find_policy, (policies, condition), r),
    ensures
        r is Some ==> r->0 < policies@.len() && policies@[r->0 as int].condition@ == condition@,
        0 <= at < policies@.len() && policies@[at].condition@ == condition@ ==> r is Some && r->0
            <= at,
{
}

} // verus!
