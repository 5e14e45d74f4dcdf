//! Which applications are observed.

use std::collections::HashMap;

use vstd::prelude::*;
use vstd::string::*;

use crate::os_permissions::Status;
use crate::text;

verus! {

/// How often an application is tried to be observed.
pub const MAX_ATTEMPTS: usize = 4;

/// What an attempt to be told of an application's events gave.
#[derive(Clone, Copy, Debug, PartialEq, Eq, Structural)]
pub enum AxError {
    Success,
    NotificationAlreadyRegistered,
    CannotComplete,
    InvalidUIElement,
    NotificationUnsupported,
    /// Another error, by its number.
    Other(i32),
}

/// The attempt succeeded.
pub open spec fn subscribed(result: AxError) -> bool {
    result == AxError::Success || result == AxError::NotificationAlreadyRegistered
}

/// The error may pass: an application that was just started may not answer yet.
pub open spec fn transient(result: AxError) -> bool {
    result == AxError::CannotComplete || result == AxError::InvalidUIElement
}

/// Forgets applications that could not be observed, so that they are tried again: all of them
/// after the session was interrupted, and one of which something was heard.
pub fn reset_failed<T>(failed: &mut HashMap<i32, T>, pid: Option<i32>, reset: bool)
    ensures
        final(failed)@ == (if reset {
            Map::empty()
        } else {
            match pid {
                Some(pid) => old(failed)@.remove(pid),
                None => old(failed)@,
            }
        }),
{
    broadcast use vstd::std_specs::hash::group_hash_axioms;

    if reset {
        failed.clear();
    } else {
        match pid {
            Some(pid) => {
                failed.remove(&pid);
            },
            None => {},
        }
    }
}

/// The events of an application that are asked for.
pub open spec fn event_names() -> Seq<&'static str> {
    seq!["AXWindowCreated", "AXSheetCreated", "AXFocusedWindowChanged"]
}

/// The events of an application that are asked for.
pub fn process_events() -> (r: Vec<&'static str>)
    ensures
        r@ == event_names(),
{
    let r: Vec<&'static str> = vec![
        "AXWindowCreated",
        "AXSheetCreated",
        "AXFocusedWindowChanged",
    ];
    assert(r@ =~= event_names());
    r
}

/// The first result of a kind.
pub open spec fn first_of(results: Seq<AxError>, kind: spec_fn(AxError) -> bool) -> Option<AxError>
    decreases results.len(),
{
    if results.len() == 0 {
        None
    } else {
        match first_of(results.drop_last(), kind) {
            Some(first) => Some(first),
            None => if kind(results.last()) {
                Some(results.last())
            } else {
                None
            },
        }
    }
}

/// The first error that may pass.
pub open spec fn first_transient(results: Seq<AxError>) -> Option<AxError> {
    first_of(results, |result: AxError| transient(result))
}

/// The first error that does not pass.
pub open spec fn first_lasting(results: Seq<AxError>) -> Option<AxError> {
    first_of(results, |result: AxError| !subscribed(result) && !transient(result))
}

/// The names of the events that were subscribed to.
pub open spec fn subscribed_names(results: Seq<AxError>) -> Seq<&'static str>
    decreases results.len(),
{
    if results.len() == 0 {
        Seq::empty()
    } else {
        let before = subscribed_names(results.drop_last());
        if subscribed(results.last()) {
            before.push(event_names()[results.len() - 1])
        } else {
            before
        }
    }
}

/// What the attempts to be told of an application's events give, one for each event: an error that
/// may pass is an error, even where another attempt succeeded.
pub fn process_subscriptions(results: &Vec<AxError>) -> (r: Result<Vec<&'static str>, AxError>)
    requires
        results@.len() == event_names().len(),
    ensures
        match first_transient(results@) {
            Some(error) => r == Err::<Vec<&'static str>, AxError>(error),
            None => if subscribed_names(results@).len() > 0 {
                r is Ok && r->Ok_0@ == subscribed_names(results@)
            } else {
                r == Err::<Vec<&'static str>, AxError>(
                    match first_lasting(results@) {
                        Some(error) => error,
                        None => AxError::NotificationUnsupported,
                    },
                )
            },
        },
{
    let names = process_events();
    let mut subscriptions: Vec<&'static str> = Vec::new();
    let mut first_error: Option<AxError> = None;
    let mut transient_error: Option<AxError> = None;
    let mut i: usize = 0;
    assert(results@.take(0).len() == 0);
    while i < results.len()
        invariant
            i <= results@.len(),
            results@.len() == names@.len(),
            names@ == event_names(),
            subscriptions@ == subscribed_names(results@.take(i as int)),
            transient_error == first_transient(results@.take(i as int)),
            first_error == first_lasting(results@.take(i as int)),
        decreases results@.len() - i,
    {
        assert(results@.take(i + 1).drop_last() =~= results@.take(i as int));
        assert(results@.take(i + 1).last() == results@[i as int]);
        match results[i] {
            AxError::Success | AxError::NotificationAlreadyRegistered => {
                subscriptions.push(names[i]);
            },
            AxError::CannotComplete | AxError::InvalidUIElement => {
                if transient_error.is_none() {
                    transient_error = Some(results[i]);
                }
            },
            _ => {
                if first_error.is_none() {
                    first_error = Some(results[i]);
                }
            },
        }
        i += 1;
    }
    assert(results@.take(i as int) =~= results@);
    match transient_error {
        Some(error) => {
            return Err(error);
        },
        None => {},
    }
    if subscriptions.len() == 0 {
        return match first_error {
            Some(error) => Err(error),
            None => Err(AxError::NotificationUnsupported),
        };
    }
    Ok(subscriptions)
}

/// When an application is tried again after so many attempts, in milliseconds: only after an error
/// that may pass, and not after the last attempt.
pub open spec fn retry_delay(attempts: int, error: AxError) -> Option<u64> {
    if attempts >= MAX_ATTEMPTS || !transient(error) {
        None
    } else if attempts <= 1 {
        Some(250)
    } else if attempts == 2 {
        Some(1000)
    } else {
        Some(3000)
    }
}

/// When an application is tried again after so many attempts, in milliseconds.
pub fn retry_after(attempts: usize, error: AxError) -> (r: Option<u64>)
    ensures
        r == retry_delay(attempts as int, error),
{
    let passes = match error {
        AxError::CannotComplete | AxError::InvalidUIElement => true,
        _ => false,
    };
    if attempts >= MAX_ATTEMPTS || !passes {
        None
    } else if attempts <= 1 {
        Some(250)
    } else if attempts == 2 {
        Some(1000)
    } else {
        Some(3000)
    }
}

/// An application is not tried without end, nor after an error that does not pass.
pub proof fn attempts_are_bounded(attempts: int, error: AxError)
    ensures
        attempts >= MAX_ATTEMPTS ==> retry_delay(attempts, error) is None,
        !transient(error) ==> retry_delay(attempts, error) is None,
{
}

/// What is said of a failed attempt; `shown` says what the error is.
pub open spec fn attempt_view(attempts: usize, shown: Seq<char>) -> Seq<char> {
    "AX subscription attempt "@ + text::decimal_view(attempts as nat) + "/4: "@ + shown
}

/// What is said of a failed attempt; `shown` says what the error is.
pub fn attempt_detail(attempts: usize, shown: &str) -> (r: String)
    ensures
        r@ == attempt_view(attempts, shown@),
{
    "AX subscription attempt ".to_owned().concat(text::decimal(attempts as u64).as_str()).concat(
        "/4: ",
    ).concat(shown)
}

/// The kind of the event that tells of a failed attempt.
pub open spec fn attempt_kind_view(tried_again: bool) -> Seq<char> {
    if tried_again {
        "process.retry"@
    } else {
        "process.unavailable"@
    }
}

/// The kind of the event that tells of a failed attempt.
pub fn attempt_kind(tried_again: bool) -> (r: &'static str)
    ensures
        r@ == attempt_kind_view(tried_again),
{
    if tried_again {
        "process.retry"
    } else {
        "process.unavailable"
    }
}

/// What is said of an application that is observed from now on.
pub open spec fn observed_view(subscriptions: Seq<String>) -> Seq<char> {
    "subscribed: "@ + text::joined(text::views(subscriptions), ", "@) + "; initial window check"@
}

/// What is said of an application that is observed from now on.
pub fn observed_detail(subscriptions: &Vec<String>) -> (r: String)
    ensures
        r@ == observed_view(subscriptions@),
{
    "subscribed: ".to_owned().concat(text::join(subscriptions, ", ").as_str()).concat(
        "; initial window check",
    )
}

/// What is said of an application that was found: at first all are.
pub open spec fn discovered_view(initialized: bool) -> Seq<char> {
    if initialized {
        "new process from application-list event; installing window observer"@
    } else {
        "initial application snapshot; installing window observer"@
    }
}

/// What is said of an application that was found.
pub fn discovered_detail(initialized: bool) -> (r: &'static str)
    ensures
        r@ == discovered_view(initialized),
{
    if initialized {
        "new process from application-list event; installing window observer"
    } else {
        "initial application snapshot; installing window observer"
    }
}

/// What the handler does, after it has gone through the applications.
pub open spec fn state_name(failed: nat, processes: nat, dry_run: bool) -> Seq<char> {
    if failed > 0 {
        "partial"@
    } else if dry_run {
        "dry_run"@
    } else if processes == 0 {
        "waiting_for_system_ui"@
    } else {
        "listening"@
    }
}

/// `after` says what the handler does, after it has gone through the applications.
pub open spec fn is_reconciled(
    before: Status,
    processes: nat,
    failed: nat,
    dry_run: bool,
    after: Status,
) -> bool {
    &&& after.state@ == state_name(failed, processes, dry_run)
    &&& after.listening_processes == processes
    &&& after.unavailable_processes == failed
    &&& after.clicks_sent == before.clicks_sent
    &&& after.dialogs_closed == before.dialogs_closed
    &&& after.last_result == before.last_result
}

/// `after` says that the handler is not permitted to look at other applications.
pub open spec fn requires_permission(
    before: Status,
    executable: Option<&str>,
    after: Status,
) -> bool {
    &&& after.state@ == "accessibility_required"@
    &&& after.listening_processes == 0
    &&& after.unavailable_processes == 0
    &&& after.clicks_sent == before.clicks_sent
    &&& after.dialogs_closed == before.dialogs_closed
    &&& text::option_view(after.last_result) == (match executable {
        Some(path) => Some("Enable Accessibility for "@ + path@ + " and restart the service"@),
        None => None,
    })
}

impl Status {
    /// Notes what the handler does, after it has gone through the applications.
    pub fn note_reconciled(&mut self, processes: usize, failed: usize, dry_run: bool)
        ensures
            is_reconciled(
                *old(self),
                processes as nat,
                failed as nat,
                dry_run,
                *final(self),
            ),
    {
        self.listening_processes = processes;
        self.unavailable_processes = failed;
        self.state = if failed > 0 {
            "partial".to_owned()
        } else if dry_run {
            "dry_run".to_owned()
        } else if processes == 0 {
            "waiting_for_system_ui".to_owned()
        } else {
            "listening".to_owned()
        };
    }

    /// Notes that the windows of an application could not be read; `shown` says why.
    pub fn note_unreadable(&mut self, shown: &str)
        ensures
            final(self).state@ == "partial"@,
            text::option_view(final(self).last_result) == Some(
                "Cannot read system dialog: "@ + shown@,
            ),
            final(self).listening_processes == old(self).listening_processes,
            final(self).unavailable_processes == old(self).unavailable_processes,
            final(self).clicks_sent == old(self).clicks_sent,
            final(self).dialogs_closed == old(self).dialogs_closed,
    {
        self.state = "partial".to_owned();
        self.last_result = Some("Cannot read system dialog: ".to_owned().concat(shown));
    }

    /// Notes that the handler is not permitted to look at other applications, and tells whether
    /// that is new.
    pub fn note_permission_required(&mut self, executable: Option<&str>) -> (r: bool)
        ensures
            r == (old(self).state@ != "accessibility_required"@),
            requires_permission(*old(self), executable, *final(self)),
    {
        let new = !text::same(self.state.as_str(), "accessibility_required");
        self.state = "accessibility_required".to_owned();
        self.listening_processes = 0;
        self.unavailable_processes = 0;
        self.last_result = match executable {
            Some(path) => Some(
                "Enable Accessibility for ".to_owned().concat(path).concat(
                    " and restart the service",
                ),
            ),
            None => None,
        };
        new
    }
}

} // verus!
