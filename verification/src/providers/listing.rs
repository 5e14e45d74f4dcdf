//! Lists and searches of sessions that come page by page.

use vstd::prelude::*;
use vstd::string::*;

use crate::json::Json;
use crate::models::Session;
use crate::providers::catalog;
use crate::providers::codex;
use crate::providers::codex::CodexAnswerError;
use crate::providers::requests::CodexRequest;
use crate::providers::SessionSearchPage;
use crate::text;

verus! {

/// The most pages that a search asks for.
pub const SEARCH_PAGES: usize = 20;

/// The request is for a page of at most `size` sessions, from a cursor on.
pub open spec fn asks_for(request: CodexRequest, cursor: Option<String>, size: int) -> bool {
    match request {
        CodexRequest::ListThreads { cursor: from, limit } => text::option_view(from)
            == text::option_view(cursor) && limit == size,
        _ => false,
    }
}

/// A list of at most `limit` sessions.
#[derive(Debug)]
pub struct Listing {
    pub limit: usize,
    pub sessions: Vec<Session>,
    /// Where the next page starts.
    pub cursor: Option<String>,
    /// Whether no page follows.
    pub done: bool,
}

impl Listing {
    /// A list of which no page was read.
    pub fn new(limit: usize) -> (r: Self)
        ensures
            r.limit == limit,
            r.sessions@.len() == 0,
            r.cursor is None,
            !r.done,
    {
        Listing { limit, sessions: Vec::new(), cursor: None, done: false }
    }

    /// A page is still lacking.
    pub open spec fn lacks_page(self) -> bool {
        !self.done && self.sessions@.len() < self.limit
    }

    /// The request for the next page, where one is lacking.
    pub fn request(&self) -> (r: Option<CodexRequest>)
        ensures
            match r {
                Some(request) => self.lacks_page() && asks_for(
                    request,
                    self.cursor,
                    codex::page_size(self.limit as int, self.sessions@.len() as int),
                ),
                None => !self.lacks_page(),
            },
    {
        if self.done || self.sessions.len() >= self.limit {
            return None;
        }
        let limit: usize = codex::next_page_size(self.limit, self.sessions.len());
        Some(CodexRequest::ListThreads { cursor: self.cursor.clone(), limit })
    }

    /// Takes a page up and returns its sessions. One that cannot be read changes nothing.
    pub fn take_page(&mut self, page: &Json) -> (r: Result<Vec<Session>, CodexAnswerError>)
        ensures
            match r {
                Err(error) => codex::is_unreadable(*page, error) && *final(self) == *old(self),
                Ok(found) => {
                    &&& codex::reads_as(*page, found@)
                    &&& final(self).limit == old(self).limit
                    &&& final(self).sessions@ == old(self).sessions@ + found@
                    &&& text::option_view(final(self).cursor) == codex::following(*page)
                    &&& final(self).done == (final(self).cursor is None)
                },
            },
    {
        match codex::read_page(page) {
            Err(error) => Err(error),
            Ok((found, cursor)) => {
                let mut copies = copy_of(&found);
                self.sessions.append(&mut copies);
                self.done = cursor.is_none();
                self.cursor = cursor;
                Ok(found)
            },
        }
    }

    /// The list.
    pub fn finish(self) -> (r: Vec<Session>)
        ensures
            r@ == catalog::first_of(self.sessions@, self.limit as nat),
    {
        let mut sessions = self.sessions;
        if sessions.len() > self.limit {
            sessions.truncate(self.limit);
        }
        sessions
    }
}

fn copy_of(sessions: &Vec<Session>) -> (r: Vec<Session>)
    ensures
        r@ == sessions@,
{
    let mut r: Vec<Session> = Vec::new();
    let mut i: usize = 0;
    while i < sessions.len()
        invariant
            i <= sessions@.len(),
            r@ == sessions@.take(i as int),
        decreases sessions@.len() - i,
    {
        r.push(sessions[i].clone());
        assert(sessions@.take(i + 1) =~= sessions@.take(i as int).push(sessions@[i as int]));
        i += 1;
    }
    assert(sessions@.take(i as int) =~= sessions@);
    r
}

/// A search of a provider that can only list. It looks at a bounded number of pages, so it may end
/// with few sessions, or none, and the place where the next search goes on.
#[derive(Debug)]
pub struct Search {
    pub query: String,
    pub limit: usize,
    /// How many pages may still be asked for.
    pub pages: usize,
    pub sessions: Vec<Session>,
    /// Where the next page starts.
    pub cursor: Option<String>,
    /// Whether no page follows.
    pub done: bool,
}

impl Search {
    /// A search that starts at the cursor, of which no page was read.
    pub fn new(query: &str, cursor: Option<&str>, limit: usize) -> (r: Self)
        ensures
            r.query@ == query@,
            r.limit == limit,
            r.pages == SEARCH_PAGES,
            r.sessions@.len() == 0,
            text::option_view(r.cursor) == (match cursor {
                Some(cursor) => Some(cursor@),
                None => None,
            }),
            !r.done,
    {
        let cursor = match cursor {
            Some(cursor) => Some(cursor.to_owned()),
            None => None,
        };
        Search {
            query: query.to_owned(),
            limit,
            pages: SEARCH_PAGES,
            sessions: Vec::new(),
            cursor,
            done: false,
        }
    }

    /// A page is still lacking, and may be asked for.
    pub open spec fn lacks_page(self) -> bool {
        !self.done && self.pages > 0 && self.sessions@.len() < self.limit
    }

    /// The request for the next page, where one is lacking.
    pub fn request(&self) -> (r: Option<CodexRequest>)
        ensures
            match r {
                Some(request) => self.lacks_page() && asks_for(
                    request,
                    self.cursor,
                    codex::page_size(self.limit as int, self.sessions@.len() as int),
                ),
                None => !self.lacks_page(),
            },
    {
        if self.done || self.pages == 0 || self.sessions.len() >= self.limit {
            return None;
        }
        let limit: usize = codex::next_page_size(self.limit, self.sessions.len());
        Some(CodexRequest::ListThreads { cursor: self.cursor.clone(), limit })
    }

    /// Takes up what the query finds on a page, and returns the page's sessions. A page that cannot
    /// be read changes nothing.
    pub fn take_page(&mut self, page: &Json) -> (r: Result<Vec<Session>, CodexAnswerError>)
        requires
            old(self).lacks_page(),
        ensures
            match r {
                Err(error) => codex::is_unreadable(*page, error) && *final(self) == *old(self),
                Ok(seen) => {
                    &&& codex::reads_as(*page, seen@)
                    &&& final(self).query == old(self).query
                    &&& final(self).limit == old(self).limit
                    &&& final(self).pages == old(self).pages - 1
                    &&& final(self).sessions@ == old(self).sessions@ + catalog::found(
                        seen@,
                        old(self).query@,
                    )
                    &&& text::option_view(final(self).cursor) == codex::following(*page)
                    &&& final(self).done == (final(self).cursor is None)
                },
            },
    {
        match codex::read_page(page) {
            Err(error) => Err(error),
            Ok((seen, cursor)) => {
                let mut found = catalog::find(&seen, self.query.as_str());
                self.sessions.append(&mut found);
                self.pages -= 1;
                self.done = cursor.is_none();
                self.cursor = cursor;
                Ok(seen)
            },
        }
    }

    /// What was found, and where the next search goes on.
    pub fn finish(self) -> (r: SessionSearchPage)
        ensures
            r.sessions == self.sessions,
            r.next_cursor == self.cursor,
    {
        SessionSearchPage { sessions: self.sessions, next_cursor: self.cursor }
    }
}

} // verus!
