//! How providers are chosen, asked and searched.

use vstd::prelude::*;
use vstd::string::*;

use crate::config::Settings;
use crate::json;
use crate::json::{Json, Number};
use crate::models::Session;
use crate::providers;
use crate::providers::catalog;
use crate::providers::codex;
use crate::providers::codex::{CodexProvider, Waiting};
use crate::providers::listing::{Listing, Search};
use crate::providers::requests::CodexRequest;
use crate::providers::{
    Discovery, DiscoveryStep, ProviderKind, ProviderRefusal, SessionSearchPage,
};
use crate::text;
use crate::textmap::TextMap;
use crate::time::Timestamp;
use crate::transport::TransportError;

verus! {

/// A provider can be had exactly where it is known and enabled; otherwise it is said which is not so.
pub proof fn providers_are_had_where_enabled(
    settings: &Settings,
    name: &str,
    transcripts: &str,
    r: Result<ProviderKind, ProviderRefusal>,
)
    requires
        call_ensures(providers::choose_provider, (settings, name, transcripts), r),
        transcripts@ != "codex"@,
    ensures
        r == Ok::<ProviderKind, ProviderRefusal>(ProviderKind::Codex) <==> name@ == "codex"@
            && settings.providers.codex.enabled,
        r == Ok::<ProviderKind, ProviderRefusal>(ProviderKind::Claude) <==> name@ == transcripts@
            && settings.providers.claude.enabled,
        r is Err && r->Err_0 is Unknown <==> name@ != "codex"@ && name@ != transcripts@,
        r is Err && r->Err_0 is Disabled ==> r->Err_0->Disabled_0@ == name@,
        r is Err && r->Err_0 is Unknown ==> r->Err_0->Unknown_0@ == name@,
{
}

/// All providers that are named are had once each, or none is where one of them cannot be.
pub proof fn named_providers_are_had_once(
    settings: &Settings,
    names: &Vec<String>,
    transcripts: &str,
    r: Result<Vec<ProviderKind>, ProviderRefusal>,
)
    requires
        call_ensures(providers::build_providers, (settings, names, transcripts), r),
        transcripts@ != "codex"@,
    ensures
        r is Ok <==> forall|i: int|
            0 <= i < names@.len() ==> ((#[trigger] names@[i])@ == "codex"@
                && settings.providers.codex.enabled) || (names@[i]@ == transcripts@
                && settings.providers.claude.enabled),
        r is Ok ==> {
            &&& r->Ok_0@.contains(ProviderKind::Codex) <==> exists|i: int|
                0 <= i < names@.len() && (#[trigger] names@[i])@ == "codex"@
            &&& r->Ok_0@.contains(ProviderKind::Claude) <==> exists|i: int|
                0 <= i < names@.len() && (#[trigger] names@[i])@ == transcripts@
            &&& r->Ok_0@.no_duplicates()
        },
{
    let all = text::views(names@);
    assert(all.len() == names@.len());
    assert forall|i: int| 0 <= i < names@.len() implies #[trigger] all[i] == names@[i]@ by {}
    lemma_kinds(all, transcripts@);
    match r {
        Ok(kinds) => {
            assert forall|i: int| 0 <= i < names@.len() implies ((#[trigger] names@[i])@ == "codex"@
                && settings.providers.codex.enabled) || (names@[i]@ == transcripts@
                && settings.providers.claude.enabled) by {
                assert(providers::available(*settings, names@[i]@, transcripts@));
            }
            if exists|i: int| 0 <= i < names@.len() && (#[trigger] names@[i])@ == "codex"@ {
                let i = choose|i: int| 0 <= i < names@.len() && (#[trigger] names@[i])@ == "codex"@;
                assert(all[i] == "codex"@);
            }
            if exists|i: int| 0 <= i < names@.len() && (#[trigger] names@[i])@ == transcripts@ {
                let i = choose|i: int|
                    0 <= i < names@.len() && (#[trigger] names@[i])@ == transcripts@;
                assert(all[i] == transcripts@);
            }
        },
        Err(refusal) => {
            let i = choose|i: int|
                {
                    &&& 0 <= i < names@.len()
                    &&& !providers::available(*settings, #[trigger] names@[i]@, transcripts@)
                    &&& providers::refuses(refusal, names@[i]@, transcripts@)
                    &&& forall|j: int|
                        0 <= j < i ==> providers::available(
                            *settings,
                            #[trigger] names@[j]@,
                            transcripts@,
                        )
                };
            assert(!providers::available(*settings, names@[i]@, transcripts@));
        },
    }
}

proof fn lemma_named_before(names: Seq<Seq<char>>, name: Seq<char>)
    requires
        names.len() > 0,
    ensures
        (exists|i: int| 0 <= i < names.len() && #[trigger] names[i] == name) <==> names.last()
            == name || exists|i: int|
            0 <= i < names.drop_last().len() && #[trigger] names.drop_last()[i] == name,
{
    let before = names.drop_last();
    if exists|i: int| 0 <= i < names.len() && #[trigger] names[i] == name {
        let i = choose|i: int| 0 <= i < names.len() && #[trigger] names[i] == name;
        if i < before.len() {
            assert(before[i] == name);
        }
    }
    if exists|i: int| 0 <= i < before.len() && #[trigger] before[i] == name {
        let i = choose|i: int| 0 <= i < before.len() && #[trigger] before[i] == name;
        assert(names[i] == name);
    }
    if names.last() == name {
        assert(names[names.len() - 1] == name);
    }
}

proof fn lemma_kinds(names: Seq<Seq<char>>, transcripts: Seq<char>)
    requires
        transcripts != "codex"@,
    ensures
        providers::kinds_of(names, transcripts).contains(ProviderKind::Codex) <==> exists|i: int|
            0 <= i < names.len() && #[trigger] names[i] == "codex"@,
        providers::kinds_of(names, transcripts).contains(ProviderKind::Claude) <==> exists|i: int|
            0 <= i < names.len() && #[trigger] names[i] == transcripts,
        providers::kinds_of(names, transcripts).no_duplicates(),
    decreases names.len(),
{
    let kinds = providers::kinds_of(names, transcripts);
    if names.len() > 0 {
        let before = names.drop_last();
        let rest = providers::kinds_of(before, transcripts);
        lemma_kinds(before, transcripts);
        lemma_named_before(names, "codex"@);
        lemma_named_before(names, transcripts);
        assert forall|kind: ProviderKind| #[trigger] rest.contains(kind) implies kinds.contains(
            kind,
        ) by {
            let i = choose|i: int| 0 <= i < rest.len() && rest[i] == kind;
            assert(kinds[i] == kind);
        }
        match providers::named(names.last(), transcripts) {
            Some(kind) => {
                if rest.contains(kind) {
                    assert(kinds == rest);
                } else {
                    assert(kinds == rest.push(kind));
                    assert(kinds[kinds.len() - 1] == kind);
                    assert forall|other: ProviderKind| #[trigger]
                        kinds.contains(other) implies other == kind || rest.contains(other) by {
                        let i = choose|i: int| 0 <= i < kinds.len() && kinds[i] == other;
                        if i < rest.len() {
                            assert(rest[i] == other);
                        }
                    }
                    assert forall|i: int, j: int|
                        0 <= i < kinds.len() && 0 <= j < kinds.len() && i != j implies kinds[i]
                        != kinds[j] by {
                        if i < rest.len() && j < rest.len() {
                            assert(rest[i] != rest[j]);
                        } else if i < rest.len() {
                            assert(rest.contains(rest[i]));
                        } else {
                            assert(rest.contains(rest[j]));
                        }
                    }
                }
            },
            None => {
                assert(kinds == rest);
            },
        }
    }
}

/// Only the sessions of one provider can be recovered.
pub proof fn one_provider_can_recover(provider: &str, r: bool)
    requires
        call_ensures(providers::supports_recovery, (provider,), r),
    ensures
        r <==> provider@ == "codex"@,
{
}

/// Discovery takes up every page. It ends with the first that holds a session from before the
/// cutoff, or with the last, and it never asks for the same page twice.
pub proof fn discovery_ends_at_the_cutoff(
    discovery: &mut Discovery,
    page: SessionSearchPage,
    cutoff: Timestamp,
    r: DiscoveryStep,
)
    requires
        call_ensures(Discovery::take_page, (discovery, page, cutoff), r),
    ensures
        final(discovery).sessions@ == old(discovery).sessions@ + page.sessions@,
        (exists|i: int|
            0 <= i < page.sessions@.len() && (#[trigger] page.sessions@[i]).updated_at is Some
                && !page.sessions@[i].updated_at->0.is_not_before(cutoff, 0)) ==> r is Done,
        page.next_cursor is None ==> r is Done,
        r is Done ==> page.next_cursor is None || exists|i: int|
            0 <= i < page.sessions@.len() && (#[trigger] page.sessions@[i]).updated_at is Some
                && !page.sessions@[i].updated_at->0.is_not_before(cutoff, 0),
        r is Search ==> page.next_cursor is Some && r->Search_0@ == page.next_cursor->0@
            && !text::views(old(discovery).cursors@).contains(r->Search_0@) && text::views(
            final(discovery).cursors@,
        ).contains(r->Search_0@),
        r is RepeatedCursor ==> page.next_cursor is Some && text::views(
            old(discovery).cursors@,
        ).contains(page.next_cursor->0@),
{
    if exists|i: int|
        0 <= i < page.sessions@.len() && (#[trigger] page.sessions@[i]).updated_at is Some
            && !page.sessions@[i].updated_at->0.is_not_before(cutoff, 0) {
        let i = choose|i: int|
            0 <= i < page.sessions@.len() && (#[trigger] page.sessions@[i]).updated_at is Some
                && !page.sessions@[i].updated_at->0.is_not_before(cutoff, 0);
        assert(providers::is_old(page.sessions@[i], cutoff));
    }
    if providers::reaches(page.sessions@, cutoff) {
        let i = choose|i: int|
            0 <= i < page.sessions@.len() && providers::is_old(
                #[trigger] page.sessions@[i],
                cutoff,
            );
        assert(page.sessions@[i].updated_at is Some);
    }
    if r is Search {
        let cursors = final(discovery).cursors@;
        assert(text::views(cursors)[cursors.len() - 1] == cursors[cursors.len() - 1]@);
    }
}

/// Sessions are listed newest first, those of unknown activity last and those of one time by their
/// names. None is lost or added while there is room, and never are there more than asked for.
pub proof fn sessions_are_listed_newest_first(
    sessions: &Vec<Session>,
    limit: usize,
    r: Vec<Session>,
    i: int,
    j: int,
)
    requires
        call_ensures(catalog::list_sessions, (sessions, limit), r),
        0 <= i < j < r@.len(),
    ensures
        r@.len() <= limit,
        sessions@.len() <= limit ==> r@.to_multiset() == sessions@.to_multiset(),
        sessions@.to_multiset().contains(r@[i]),
        r@[i].updated_at is Some && r@[j].updated_at is Some
            ==> r@[i].updated_at->0.is_not_before(r@[j].updated_at->0, 0),
        r@[i].updated_at is None ==> r@[j].updated_at is None,
{
    broadcast use vstd::seq_lib::group_to_multiset_ensures;

    let listed = catalog::listing(sessions@);
    catalog::listing_keeps_sessions(sessions@);
    assert(listed.to_multiset().len() == listed.len());
    assert(sessions@.to_multiset().len() == sessions@.len());
    assert(r@[i] == listed[i] && r@[j] == listed[j]);
    let le = catalog::by_activity();
    assert(le(listed[i], listed[j]));
    assert(listed.contains(listed[i]));
}

/// A session is recent exactly where its activity is not known to be from before the cutoff.
pub proof fn unknown_activity_counts_as_recent(
    sessions: &Vec<Session>,
    cutoff: Timestamp,
    r: Vec<Session>,
    session: Session,
)
    requires
        call_ensures(catalog::recent_sessions, (sessions, cutoff), r),
    ensures
        r@.contains(session) <==> sessions@.contains(session) && (session.updated_at is None
            || session.updated_at->0.is_not_before(cutoff, 0)),
{
    let listed = catalog::listing(sessions@);
    let keep = |session: Session| catalog::maybe_recent(session, cutoff);
    lemma_kept(sessions@, keep, session);
    assert(r@ == listed.filter(keep));
}

proof fn lemma_kept(sessions: Seq<Session>, keep: spec_fn(Session) -> bool, session: Session)
    ensures
        catalog::listing(sessions).filter(keep).contains(session) <==> sessions.contains(session)
            && keep(session),
{
    let listed = catalog::listing(sessions);
    catalog::listing_keeps_sessions(sessions);
    broadcast use vstd::seq_lib::group_to_multiset_ensures;

    assert(listed.contains(session) <==> sessions.contains(session)) by {
        assert(listed.to_multiset().count(session) > 0 <==> listed.contains(session));
        assert(sessions.to_multiset().count(session) > 0 <==> sessions.contains(session));
    }
    if listed.filter(keep).contains(session) {
        let i = choose|i: int|
            0 <= i < listed.filter(keep).len() && listed.filter(keep)[i] == session;
        listed.lemma_filter_pred(keep, i);
        listed.lemma_filter_contains_rev(keep, session);
    }
    if listed.contains(session) && keep(session) {
        let i = choose|i: int| 0 <= i < listed.len() && listed[i] == session;
        listed.lemma_filter_contains(keep, i);
    }
}

/// A session is found where its name, or its title without regard to case, holds what is searched
/// for without regard to case; no other is.
pub proof fn sessions_are_found_by_name_and_title(
    sessions: &Vec<Session>,
    query: &str,
    r: Vec<Session>,
    session: Session,
    id: &str,
    wanted: &str,
    title: &str,
    in_id: bool,
    in_title: bool,
)
    requires
        call_ensures(catalog::find, (sessions, query), r),
        id@ == session.id@,
        wanted@ == text::lowercased(query@),
        title@ == text::lowercased(session.title@),
        call_ensures(text::contains, (id, wanted), in_id),
        call_ensures(text::contains, (title, wanted), in_title),
    ensures
        r@.contains(session) <==> sessions@.contains(session) && (in_id || in_title),
{
    let listed = catalog::listing(sessions@);
    let keep = |session: Session| catalog::answers(session, query@);
    lemma_kept(sessions@, keep, session);
    assert(r@ == listed.filter(keep));
}

/// A search hands out the first sessions that are found, and says where it goes on exactly where
/// there are more.
pub proof fn searches_start_with_the_first(
    sessions: &Vec<Session>,
    query: &str,
    limit: usize,
    all: Vec<Session>,
    r: Option<SessionSearchPage>,
)
    requires
        call_ensures(catalog::find, (sessions, query), all),
        call_ensures(
            catalog::search_sessions,
            (sessions, query, None::<&str>, limit),
            r,
        ),
    ensures
        r is Some,
        r->0.sessions@ == all@.take(if limit <= all@.len() {
            limit as int
        } else {
            all@.len() as int
        }),
        r->0.next_cursor is Some <==> limit < all@.len(),
        r->0.next_cursor is Some ==> r->0.next_cursor->0@ == text::decimal_view(limit as nat),
{
    let end = catalog::search_end(0, limit as nat, all@.len());
    assert(all@.subrange(0, end as int) =~= all@.take(end as int));
}

/// A search goes on where its cursor says, so that nothing is left out or handed out twice.
pub proof fn searches_go_on_at_the_cursor(
    sessions: &Vec<Session>,
    query: &str,
    cursor: &str,
    most: u64,
    start: u64,
    limit: usize,
    all: Vec<Session>,
    r: Option<SessionSearchPage>,
)
    requires
        call_ensures(catalog::find, (sessions, query), all),
        most == usize::MAX,
        call_ensures(text::parse_unsigned, (cursor, most), Some(start)),
        start <= all@.len(),
        call_ensures(
            catalog::search_sessions,
            (sessions, query, Some(cursor), limit),
            r,
        ),
    ensures
        r is Some,
        r->0.sessions@ == all@.subrange(
            start as int,
            if start + limit <= all@.len() {
                start + limit
            } else {
                all@.len() as int
            },
        ),
        r->0.next_cursor is Some <==> start + limit < all@.len(),
        r->0.next_cursor is Some ==> r->0.next_cursor->0@ == text::decimal_view(
            (start + limit) as nat,
        ),
{
}

/// A list is asked for page by page, each of at most a hundred sessions and never of more than are
/// lacking, until nothing follows or nothing is lacking.
pub proof fn lists_are_asked_for_page_by_page(listing: &Listing, r: Option<CodexRequest>)
    requires
        call_ensures(Listing::request, (listing,), r),
    ensures
        r is None <==> listing.done || listing.sessions@.len() >= listing.limit,
        r is Some ==> r->0 is ListThreads && r->0->limit <= 100 && r->0->limit <= listing.limit
            - listing.sessions@.len() && r->0->limit > 0 && text::option_view(r->0->cursor)
            == text::option_view(listing.cursor),
        r is Some && listing.limit - listing.sessions@.len() >= 100 ==> r->0->limit == 100,
        r is Some && listing.limit - listing.sessions@.len() < 100 ==> r->0->limit == listing.limit
            - listing.sessions@.len(),
{
}

/// A list holds the sessions of its pages in their order, and no more than are asked for.
pub proof fn lists_hold_what_their_pages_do(
    listing: &mut Listing,
    page: &Json,
    found: Vec<Session>,
    read: Result<(Vec<Session>, Option<String>), codex::CodexAnswerError>,
    ended: Listing,
    finished: Vec<Session>,
)
    requires
        call_ensures(Listing::take_page, (listing, page), Ok(found)),
        call_ensures(Listing::finish, (ended,), finished),
    ensures
        final(listing).sessions@ == old(listing).sessions@ + found@,
        final(listing).done <==> final(listing).cursor is None,
        finished@.len() <= ended.limit,
        ended.sessions@.len() <= ended.limit ==> finished@ == ended.sessions@,
        ended.sessions@.len() > ended.limit ==> finished@ == ended.sessions@.take(
            ended.limit as int,
        ),
{
}

/// A search reads as many pages as it may, and asks only while something is lacking.
pub proof fn searches_read_few_pages(search: &Search, r: Option<CodexRequest>)
    requires
        call_ensures(Search::request, (search,), r),
    ensures
        r is None <==> search.done || search.pages == 0 || search.sessions@.len() >= search.limit,
        r is Some ==> r->0 is ListThreads && 0 < r->0->limit <= 100,
{
}

/// Every request calls the method that does what it asks for.
pub proof fn requests_call_their_method(request: &CodexRequest, r: &'static str)
    requires
        call_ensures(CodexRequest::method, (request,), r),
    ensures
        *request is Initialize ==> r@ == "initialize"@,
        *request is ListThreads ==> r@ == "thread/list"@,
        *request is ListTurns ==> r@ == "thread/turns/list"@,
        *request is ReadThread ==> r@ == "thread/read"@,
        *request is ResumeThread ==> r@ == "thread/resume"@,
        *request is StartTurn ==> r@ == "turn/start"@,
        *request is Watch ==> r@ == "fs/watch"@,
        *request is Unwatch ==> r@ == "fs/unwatch"@,
{
}

/// A member of an object is a text.
pub open spec fn says(value: Json, name: Seq<char>, s: Seq<char>) -> bool {
    value is Object && value->Object_0@.contains_key(name) && value->Object_0@[name] is Text
        && value->Object_0@[name]->Text_0@ == s
}

/// A turn is started in its session, with its prompt as the only input.
pub proof fn turns_are_started_with_their_prompt(
    request: &CodexRequest,
    session_id: String,
    prompt: String,
    r: Json,
)
    requires
        call_ensures(CodexRequest::params, (request,), r),
        *request == (CodexRequest::StartTurn { session_id, prompt }),
    ensures
        says(r, "threadId"@, session_id@),
        r->Object_0@.contains_key("input"@),
        r->Object_0@["input"@] is Array,
        r->Object_0@["input"@]->Array_0@.len() == 1,
        says(r->Object_0@["input"@]->Array_0@[0], "type"@, "text"@),
        says(r->Object_0@["input"@]->Array_0@[0], "text"@, prompt@),
{
    reveal_strlit("threadId");
    reveal_strlit("input");
    reveal_strlit("type");
    reveal_strlit("text");
    assert("threadId"@.len() == 8 && "input"@.len() == 5);
    assert("type"@[1] == 'y' && "text"@[1] == 'e');
    let inner = map![
        "type"@ => json::Plain::Text("text"@),
        "text"@ => json::Plain::Text(prompt@),
    ];
    let items = seq![json::Plain::Object(inner)];
    let outer = map![
        "threadId"@ => json::Plain::Text(session_id@),
        "input"@ => json::Plain::Array(items),
    ];
    assert(request.params_view() == json::Plain::Object(outer));
    assert(outer.contains_key("threadId"@) && outer.contains_key("input"@));
    let input = r->Object_0@["input"@];
    assert(json::shows(input, json::Plain::Array(items)));
    assert(json::shows(input.elements()->0[0], items[0]));
    let message = input->Array_0@[0];
    assert(json::shows(message, json::Plain::Object(inner)));
    assert(inner.contains_key("type"@) && inner.contains_key("text"@));
    assert(json::shows(r->Object_0@["threadId"@], json::Plain::Text(session_id@)));
    assert(json::shows(message->Object_0@["type"@], json::Plain::Text("text"@)));
    assert(json::shows(message->Object_0@["text"@], json::Plain::Text(prompt@)));
}

/// A thread is read or loaded by its name, the newest turn of it is listed alone, and a watch is of
/// its path and ends by its name.
pub proof fn requests_name_what_they_are_about(request: &CodexRequest, r: Json)
    requires
        call_ensures(CodexRequest::params, (request,), r),
    ensures
        match *request {
            CodexRequest::ReadThread(session_id) => says(r, "threadId"@, session_id@)
                && r->Object_0@.contains_key("includeTurns"@) && r->Object_0@["includeTurns"@]
                == Json::Bool(true),
            CodexRequest::ResumeThread(session_id) => says(r, "threadId"@, session_id@),
            CodexRequest::ListTurns(session_id) => says(r, "threadId"@, session_id@) && says(
                r,
                "sortDirection"@,
                "desc"@,
            ) && r->Object_0@.contains_key("limit"@) && r->Object_0@["limit"@] == Json::Number(
                Number::Unsigned(1),
            ),
            CodexRequest::Watch { watch_id, path } => says(r, "watchId"@, watch_id@) && says(
                r,
                "path"@,
                path@,
            ),
            CodexRequest::Unwatch(watch_id) => says(r, "watchId"@, watch_id@),
            CodexRequest::ListThreads { cursor, limit } => says(r, "sortKey"@, "updated_at"@)
                && says(r, "sortDirection"@, "desc"@) && r->Object_0@.contains_key("limit"@)
                && r->Object_0@["limit"@] == Json::Number(Number::Unsigned(limit as u64)) && (
            cursor is Some ==> says(r, "cursor"@, cursor->0@)),
            _ => true,
        },
{
    reveal_strlit("threadId");
    reveal_strlit("includeTurns");
    reveal_strlit("sortDirection");
    reveal_strlit("limit");
    reveal_strlit("itemsView");
    reveal_strlit("watchId");
    reveal_strlit("path");
    reveal_strlit("sortKey");
    reveal_strlit("cursor");
    reveal_strlit("sourceKinds");
    assert("threadId"@.len() == 8 && "includeTurns"@.len() == 12 && "sortDirection"@.len() == 13
        && "limit"@.len() == 5 && "itemsView"@.len() == 9 && "watchId"@.len() == 7 && "path"@.len()
        == 4 && "sortKey"@.len() == 7 && "cursor"@.len() == 6 && "sourceKinds"@.len() == 11);
    let members = request.params_view()->Object_0;
    match *request {
        CodexRequest::ReadThread(session_id) => {
            assert(members.contains_key("threadId"@) && members.contains_key("includeTurns"@));
            assert(json::shows(r->Object_0@["threadId"@], members["threadId"@]));
            assert(json::shows(r->Object_0@["includeTurns"@], members["includeTurns"@]));
        },
        CodexRequest::ResumeThread(session_id) => {
            assert(members.contains_key("threadId"@));
            assert(json::shows(r->Object_0@["threadId"@], members["threadId"@]));
        },
        CodexRequest::ListTurns(session_id) => {
            assert(members.contains_key("threadId"@) && members.contains_key("limit"@)
                && members.contains_key("sortDirection"@));
            assert(json::shows(r->Object_0@["threadId"@], members["threadId"@]));
            assert(json::shows(r->Object_0@["limit"@], members["limit"@]));
            assert(json::shows(r->Object_0@["sortDirection"@], members["sortDirection"@]));
        },
        CodexRequest::Watch { watch_id, path } => {
            assert(members.contains_key("watchId"@) && members.contains_key("path"@));
            assert(json::shows(r->Object_0@["watchId"@], members["watchId"@]));
            assert(json::shows(r->Object_0@["path"@], members["path"@]));
        },
        CodexRequest::Unwatch(watch_id) => {
            assert(members.contains_key("watchId"@));
            assert(json::shows(r->Object_0@["watchId"@], members["watchId"@]));
        },
        CodexRequest::ListThreads { cursor, limit } => {
            assert(members.contains_key("cursor"@) && members.contains_key("limit"@)
                && members.contains_key("sortKey"@) && members.contains_key("sortDirection"@));
            assert(json::shows(r->Object_0@["cursor"@], members["cursor"@]));
            assert(json::shows(r->Object_0@["limit"@], members["limit"@]));
            assert(json::shows(r->Object_0@["sortKey"@], members["sortKey"@]));
            assert(json::shows(r->Object_0@["sortDirection"@], members["sortDirection"@]));
        },
        _ => {},
    }
}

/// A turn that was started goes by the name that the answer gives it; an answer without one leaves
/// open whether it was.
pub proof fn started_turns_are_named(answer: &Json, r: Result<String, TransportError>)
    requires
        call_ensures(codex::read_started_turn, (answer,), r),
    ensures
        r is Ok ==> *answer is Object && (*answer)->Object_0@.contains_key("turn"@) && says(
            (*answer)->Object_0@["turn"@],
            "id"@,
            r->Ok_0@,
        ),
        *answer is Object && (*answer)->Object_0@.contains_key("turn"@)
            && (*answer)->Object_0@["turn"@] is Object
            && (*answer)->Object_0@["turn"@]->Object_0@.contains_key("id"@)
            && (*answer)->Object_0@["turn"@]->Object_0@["id"@] is Text ==> r is Ok,
        r is Err ==> r->Err_0 is AcknowledgementUnknown,
{
}

/// A server does not have a method where it says so, or that it does not take what it is given.
pub proof fn missing_methods_are_told_by_their_code(code: i64, r: bool)
    requires
        call_ensures(codex::is_unsupported_method, (code,), r),
    ensures
        r <==> code == -32601 || code == -32602,
{
}

/// A session is watched at the absolute path of its transcript, and nowhere else.
pub proof fn absolute_paths_are_watched(session: &Session, r: Option<&str>)
    requires
        call_ensures(codex::watched_path, (session,), r),
    ensures
        r is Some ==> says(session.metadata, "path"@, r->0@) && r->0@.len() > 0 && r->0@[0] == '/',
        r is None ==> !(session.metadata is Object && session.metadata->Object_0@.contains_key(
            "path"@,
        ) && session.metadata->Object_0@["path"@] is Text
            && session.metadata->Object_0@["path"@]->Text_0@.len() > 0
            && session.metadata->Object_0@["path"@]->Text_0@[0] == '/'),
{
    reveal_strlit("/");
    assert("/"@.len() == 1 && "/"@[0] == '/');
    if session.metadata is Object && session.metadata->Object_0@.contains_key("path"@)
        && session.metadata->Object_0@["path"@] is Text {
        let path = session.metadata->Object_0@["path"@]->Text_0@;
        if path.len() > 0 {
            assert(path.subrange(0, 1)[0] == path[0]);
            if path[0] == '/' {
                assert(path.subrange(0, 1) =~= "/"@);
            }
        }
    }
}

/// A notification names the sessions whose watch has changed, and no others.
pub proof fn notifications_name_changed_sessions(
    watches: &TextMap<String>,
    notification: &Json,
    r: Vec<String>,
)
    requires
        call_ensures(codex::changed_sessions, (watches, notification), r),
        !says(*notification, "method"@, "fs/changed"@),
    ensures
        r@.len() == 0,
{
    assert(codex::changed_watch(*notification) is None);
    lemma_nothing_changed(watches.entries());
    assert(text::views(r@).len() == r@.len());
}

proof fn lemma_nothing_changed(watches: Seq<(String, String)>)
    ensures
        codex::sessions_watched_as(watches, None).len() == 0,
    decreases watches.len(),
{
    if watches.len() > 0 {
        lemma_nothing_changed(watches.drop_last());
    }
}

/// Changes are waited for by watches where there are some, otherwise by looking again; without
/// sessions there is nothing to wait for.
pub proof fn changes_are_waited_for(provider: &CodexProvider, session_ids: &Vec<String>, r: Waiting)
    requires
        call_ensures(CodexProvider::waiting, (provider, session_ids), r),
    ensures
        r == Waiting::Idle <==> session_ids@.len() == 0,
        r == Waiting::Watch <==> session_ids@.len() > 0 && provider.watch_supported,
        r == Waiting::Poll <==> session_ids@.len() > 0 && !provider.watch_supported,
{
}

/// A watch that was opened is kept under its session; one that could not be ends all watching.
pub proof fn unopened_watches_end_watching(
    provider: &mut CodexProvider,
    session_id: &str,
    opened: bool,
    name: String,
)
    requires
        call_ensures(CodexProvider::watch_answered, (provider, session_id, opened), ()),
        call_ensures(codex::watch_id, (session_id,), name),
    ensures
        final(provider).sessions == old(provider).sessions,
        final(provider).started == old(provider).started,
        opened ==> final(provider).watches@.contains_key(session_id@)
            && final(provider).watches@[session_id@]@ == name@
            && final(provider).watch_supported == old(provider).watch_supported,
        !opened ==> !final(provider).watch_supported && forall|other: Seq<char>|
            !#[trigger] final(provider).watches@.contains_key(other),
{
}

/// A session is remembered as it was listed last, and what was not listed again stays.
pub proof fn listed_sessions_are_remembered(
    provider: &mut CodexProvider,
    found: &Vec<Session>,
    i: int,
    other: Seq<char>,
)
    requires
        call_ensures(CodexProvider::remember, (provider, found), ()),
        0 <= i < found@.len(),
        forall|k: int| i < k < found@.len() ==> (#[trigger] found@[k]).id@ != found@[i].id@,
    ensures
        final(provider).sessions@.contains_key(found@[i].id@),
        final(provider).sessions@[found@[i].id@] == found@[i],
        (forall|k: int| 0 <= k < found@.len() ==> (#[trigger] found@[k]).id@ != other)
            ==> final(provider).sessions@.contains_key(other)
            == old(provider).sessions@.contains_key(other),
{
    lemma_remembered(old(provider).sessions@, found@, i, other);
}

proof fn lemma_remembered(
    known: Map<Seq<char>, Session>,
    found: Seq<Session>,
    i: int,
    other: Seq<char>,
)
    ensures
        0 <= i < found.len() && (forall|k: int|
            i < k < found.len() ==> (#[trigger] found[k]).id@ != found[i].id@)
            ==> codex::remembered(known, found).contains_key(found[i].id@) && codex::remembered(
            known,
            found,
        )[found[i].id@] == found[i],
        (forall|k: int| 0 <= k < found.len() ==> (#[trigger] found[k]).id@ != other)
            ==> codex::remembered(known, found).contains_key(other) == known.contains_key(other),
    decreases found.len(),
{
    if found.len() > 0 {
        let before = found.drop_last();
        lemma_remembered(known, before, i, other);
        assert forall|k: int| 0 <= k < before.len() implies #[trigger] before[k] == found[k] by {}
        assert(found[found.len() - 1] == found.last());
        if 0 <= i < found.len() - 1 && (forall|k: int|
            i < k < found.len() ==> (#[trigger] found[k]).id@ != found[i].id@) {
            assert(found.last().id@ != found[i].id@);
            assert forall|k: int| i < k < before.len() implies (#[trigger] before[k]).id@
                != before[i].id@ by {
                assert(found[k].id@ != found[i].id@);
            }
        }
        if forall|k: int| 0 <= k < found.len() ==> (#[trigger] found[k]).id@ != other {
            assert(found.last().id@ != other);
            assert forall|k: int| 0 <= k < before.len() implies (#[trigger] before[k]).id@
                != other by {
                assert(found[k].id@ != other);
            }
        }
    }
}

/// A time in whole seconds is one within the calendar; what is no time is none.
pub proof fn times_are_read_in_seconds(
    value: &Json,
    value_ref: Option<&Json>,
    number: Option<i64>,
    r: Option<Timestamp>,
)
    requires
        value_ref == Some(value),
        call_ensures(codex::parse_timestamp, (value_ref,), r),
        call_ensures(Json::as_i64, (value,), number),
    ensures
        *value is Number && r is Some ==> number == Some(r->0.seconds) && r->0.nanos == 0,
        *value is Number && number is Some && -8_000_000_000 <= number->0 <= 8_000_000_000 ==> r
            is Some,
        !(*value is Number || *value is Text) ==> r is None,
{
}

} // verus!
