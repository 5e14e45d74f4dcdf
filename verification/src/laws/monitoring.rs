//! What happens to windows that are answered, and to the applications that show them.

use vstd::prelude::*;
use vstd::string::*;

use crate::os_permissions;
use crate::os_permissions::applications;
use crate::os_permissions::applications::{AppFacts, Logged, Monitor};
use crate::os_permissions::dialogs;
use crate::os_permissions::dialogs::{Consideration, Dialog, Note, Press};
use crate::os_permissions::events;
use crate::os_permissions::events::{Appended, Event, Log};
use crate::os_permissions::monitor;
use crate::os_permissions::monitor::AxError;
use crate::os_permissions::rules::DialogSettings;
use crate::os_permissions::window::{MatchedButton, Skip};
use crate::os_permissions::{Guard, Status};

verus! {

/// A button is pressed once: a window that is found again as it was pressed is left alone, and in a
/// dry run none is pressed. What does not match is left alone, and is said once.
pub proof fn buttons_are_pressed_once(
    dialog: &mut Dialog,
    matched: &Result<MatchedButton, Skip>,
    dry_run: bool,
    r: Consideration,
)
    requires
        call_ensures(Dialog::consider, (dialog, matched, dry_run), r),
    ensures
        ({
            let done = *matched is Ok && old(dialog).last_attempt is Some && old(dialog).last_attempt->0@ == (*matched)->Ok_0.signature@;
            &&& *matched is Err <==> r is LeaveAlone
            &&& done <==> r is Attempted
            &&& *matched is Ok && !done && dry_run <==> r is DryRun
            &&& *matched is Ok && !done && !dry_run <==> r is Confirm
            &&& r is DryRun ==> final(dialog).last_attempt is Some
                && final(dialog).last_attempt->0@ == (*matched)->Ok_0.signature@
            &&& r is Confirm ==> final(dialog).last_attempt == old(dialog).last_attempt
            &&& r is Attempted ==> *final(dialog) == *old(dialog)
        }),
        final(dialog).window == old(dialog).window,
        final(dialog).awaiting_close == old(dialog).awaiting_close,
        final(dialog).deadline == old(dialog).deadline,
{
}

/// A button is pressed only where it was written down that it will be, and is known from then on.
pub proof fn attempts_are_recorded_first(
    dialog: &mut Dialog,
    matched: &MatchedButton,
    recorded: bool,
    r: bool,
)
    requires
        call_ensures(Dialog::attempt, (dialog, matched, recorded), r),
    ensures
        r <==> recorded,
        recorded ==> final(dialog).last_attempt is Some && final(dialog).last_attempt->0@
            == matched.signature@ && final(dialog).last_rule is Some
            && final(dialog).last_rule->0@ == matched.rule@ && final(dialog).last_button is Some
            && final(dialog).last_button->0@ == matched.label@ && !final(dialog).awaiting_close,
        !recorded ==> *final(dialog) == *old(dialog),
{
}

/// A window that was pressed has three seconds to close, also where it did not answer; one that
/// could not be pressed is not waited for.
pub proof fn pressed_windows_have_three_seconds(
    dialog: &mut Dialog,
    press: Press,
    shown: &str,
    now: u64,
    r: Note,
)
    requires
        call_ensures(Dialog::pressed, (dialog, press, shown, now), r),
        now <= u64::MAX - 3000,
    ensures
        press == Press::Failed ==> *final(dialog) == *old(dialog) && r.kind@ == "click.failed"@,
        press != Press::Failed ==> final(dialog).awaiting_close && final(dialog).deadline == Some(
            (now + 3000) as u64,
        ) && r.kind@ == "click.sent"@,
        final(dialog).last_attempt == old(dialog).last_attempt,
{
}

/// A window that is there after its time is not waited for any longer, which is said once.
pub proof fn overdue_windows_are_given_up(dialog: &mut Dialog, now: u64, r: Option<Note>)
    requires
        call_ensures(Dialog::expire, (dialog, now), r),
    ensures
        r is Some <==> old(dialog).awaiting_close && old(dialog).deadline is Some && now >= old(dialog).deadline->0,
        r is Some ==> !final(dialog).awaiting_close && r->0.kind@ == "click.unconfirmed"@,
        r is None ==> *final(dialog) == *old(dialog),
        final(dialog).last_attempt == old(dialog).last_attempt,
{
}

/// A button is pressed only where a second look shows the same button by the same rule in the same
/// window of the same application, and pressing is still permitted.
pub proof fn second_looks_confirm(
    matched: &MatchedButton,
    current: &MatchedButton,
    terminated: bool,
    same_identity: bool,
    permitted: bool,
    r: bool,
)
    requires
        call_ensures(
            dialogs::confirms,
            (matched, current, terminated, same_identity, permitted),
            r,
        ),
    ensures
        r ==> permitted && same_identity && !terminated && matched.button == current.button
            && matched.signature@ == current.signature@ && matched.rule@ == current.rule@,
        permitted && same_identity && !terminated && matched.button == current.button
            && matched.signature@ == current.signature@ && matched.rule@ == current.rule@ ==> r,
{
}

/// Windows that are gone are forgotten, and of those that were pressed it is said that they closed.
pub proof fn closed_windows_are_told(
    known: &mut Vec<Dialog>,
    windows: &Vec<u64>,
    r: Vec<Note>,
    dialog: Dialog,
)
    requires
        call_ensures(dialogs::settle, (known, windows), r),
    ensures
        final(known)@.contains(dialog) <==> old(known)@.contains(dialog) && windows@.contains(
            dialog.window,
        ),
        r@.len() == old(known)@.filter(
            |dialog: Dialog| dialog.awaiting_close && !windows@.contains(dialog.window),
        ).len(),
        forall|i: int| 0 <= i < r@.len() ==> (#[trigger] r@[i]).kind@ == "click.closed"@,
{
    let before = old(known)@;
    let keep = |dialog: Dialog| dialogs::is_present(dialog, windows@);
    let gone = |dialog: Dialog| dialogs::is_closed(dialog, windows@);
    let mine = |dialog: Dialog| dialog.awaiting_close && !windows@.contains(dialog.window);
    assert(gone =~= mine);
    let after = before.filter(keep);
    assert(final(known)@ == after);
    if after.contains(dialog) {
        let i = choose|i: int| 0 <= i < after.len() && after[i] == dialog;
        before.lemma_filter_pred(keep, i);
        before.lemma_filter_contains_rev(keep, dialog);
    }
    if before.contains(dialog) && windows@.contains(dialog.window) {
        let i = choose|i: int| 0 <= i < before.len() && before[i] == dialog;
        before.lemma_filter_contains(keep, i);
    }
    assert(dialogs::tell_closed(r@, before.filter(gone)));
}

/// A window is met once: from then on it is known, with nothing pressed in it.
pub proof fn windows_are_met_once(known: &mut Vec<Dialog>, window: u64, r: (usize, bool))
    requires
        call_ensures(dialogs::meet, (known, window), r),
    ensures
        r.0 < final(known)@.len(),
        final(known)@[r.0 as int].window == window,
        r.1 ==> final(known)@.len() == old(known)@.len() + 1 && final(known)@[r.0 as int].last_attempt is None && !final(known)@[r.0 as int].awaiting_close,
        !r.1 ==> final(known)@ == old(known)@,
        (exists|k: int| 0 <= k < old(known)@.len() && (#[trigger] old(known)@[k]).window == window)
            ==> !r.1,
{
    if exists|k: int| 0 <= k < old(known)@.len() && (#[trigger] old(known)@[k]).window == window {
        let k = choose|k: int|
            0 <= k < old(known)@.len() && (#[trigger] old(known)@[k]).window == window;
        if r.1 {
            assert(final(known)@.drop_last() == old(known)@);
        }
    }
}

/// An application that was just started may not answer yet: such an error may pass.
pub open spec fn may_pass(error: AxError) -> bool {
    error == AxError::CannotComplete || error == AxError::InvalidUIElement
}

/// An application that may not answer yet is tried four times, after a quarter of a second, one
/// second and three; any other error is final.
pub proof fn applications_are_tried_four_times(attempts: usize, error: AxError, r: Option<u64>)
    requires
        call_ensures(monitor::retry_after, (attempts, error), r),
    ensures
        r is Some <==> may_pass(error) && attempts < 4,
        may_pass(error) && attempts == 1 ==> r == Some(250u64),
        may_pass(error) && attempts == 2 ==> r == Some(1000u64),
        may_pass(error) && attempts == 3 ==> r == Some(3000u64),
{
}

/// Three events of an application are asked for.
pub proof fn three_events_are_asked_for(r: Vec<&'static str>)
    requires
        call_ensures(monitor::process_events, (), r),
    ensures
        r@.len() == 3,
        r@[0]@ == "AXWindowCreated"@,
        r@[1]@ == "AXSheetCreated"@,
        r@[2]@ == "AXFocusedWindowChanged"@,
{
}

/// An application is observed by the events that could be subscribed to; an error that may pass
/// is one, whatever else succeeded, and so is having none.
pub proof fn subscriptions_need_no_passing_error(
    results: &Vec<AxError>,
    r: Result<Vec<&'static str>, AxError>,
)
    requires
        call_ensures(monitor::process_subscriptions, (results,), r),
        results@.len() == 3,
    ensures
        r is Ok <==> (forall|i: int| 0 <= i < 3 ==> !may_pass(#[trigger] results@[i])) && (exists|
            i: int,
        |
            0 <= i < 3 && ((#[trigger] results@[i]) == AxError::Success || results@[i]
                == AxError::NotificationAlreadyRegistered)),
        (exists|i: int| 0 <= i < 3 && may_pass(#[trigger] results@[i])) ==> r is Err && may_pass(
            r->Err_0,
        ),
        may_pass(results@[0]) ==> r is Err && r->Err_0 == results@[0],
{
    let s = results@;
    let pass = |result: AxError| monitor::transient(result);
    assert(monitor::event_names().len() == 3);
    let s2 = s.drop_last();
    let s1 = s2.drop_last();
    let s0 = s1.drop_last();
    assert(s2.len() == 2 && s1.len() == 1 && s0.len() == 0);
    assert(s.last() == s[2] && s2.last() == s[1] && s1.last() == s[0]);
    assert(monitor::first_of(s0, pass) is None);
    assert(monitor::first_of(s1, pass) == if may_pass(s[0]) {
        Some(s[0])
    } else {
        None
    });
    assert(monitor::first_of(s2, pass) == if may_pass(s[0]) {
        Some(s[0])
    } else if may_pass(s[1]) {
        Some(s[1])
    } else {
        None
    });
    assert(monitor::first_of(s, pass) == if may_pass(s[0]) {
        Some(s[0])
    } else if may_pass(s[1]) {
        Some(s[1])
    } else if may_pass(s[2]) {
        Some(s[2])
    } else {
        None
    });
    assert(monitor::first_transient(s) == monitor::first_of(s, pass));
    assert(monitor::subscribed_names(s0).len() == 0);
    assert(monitor::subscribed_names(s1).len() == if monitor::subscribed(s[0]) {
        1int
    } else {
        0
    });
    assert(monitor::subscribed_names(s2).len() > 0 <==> monitor::subscribed(s[0])
        || monitor::subscribed(s[1]));
    assert(monitor::subscribed_names(s).len() > 0 <==> monitor::subscribed(s[0])
        || monitor::subscribed(s[1]) || monitor::subscribed(s[2]));
}

/// An application is observed while it runs and a rule is about it.
pub proof fn applications_are_observed_while_rules_apply(
    monitor: &mut Monitor,
    rules: &DialogSettings,
    app: &AppFacts,
    windows: &Vec<Dialog>,
    executable: &str,
    bundle: &str,
    observed: bool,
    r: Vec<Logged>,
)
    requires
        call_ensures(Monitor::keep_observed, (monitor, rules, app, windows), r),
        app.executable is Some,
        executable@ == app.executable->0@,
        bundle@ == app.bundle@,
        call_ensures(DialogSettings::observes, (rules, executable, bundle), observed),
    ensures
        !app.terminated && observed ==> final(monitor).observed@ == old(monitor).observed@
            && r@.len() == 0,
        app.terminated || !observed ==> !final(monitor).observed@.contains(app.pid) && r@.len()
            > 0 && r@[0].note.kind@ == "process.detached"@,
        forall|pid: i32|
            pid != app.pid ==> (#[trigger] final(monitor).observed@.contains(pid) == old(monitor).observed@.contains(pid)),
{
    assert(applications::concerns(*rules, *app) == observed);
}

/// A new application that a rule is about is observed from then on; one that is observed or could
/// not be is not new.
pub proof fn new_applications_are_discovered(
    monitor: &Monitor,
    rules: &DialogSettings,
    app: &AppFacts,
    executable: &str,
    bundle: &str,
    observed: bool,
    r: Option<Logged>,
)
    requires
        call_ensures(Monitor::discover, (monitor, rules, app), r),
        app.executable is Some,
        executable@ == app.executable->0@,
        bundle@ == app.bundle@,
        call_ensures(DialogSettings::observes, (rules, executable, bundle), observed),
    ensures
        r is Some <==> observed && !app.terminated && !monitor.observed@.contains(app.pid)
            && !monitor.failed@.contains_key(app.pid),
        r is Some ==> r->0.note.kind@ == "process.discovered"@ && r->0.pid == Some(app.pid),
{
    assert(applications::concerns(*rules, *app) == observed);
}

/// An application without an executable is not observed.
pub proof fn nameless_applications_are_not_observed(
    monitor: &Monitor,
    rules: &DialogSettings,
    app: &AppFacts,
    r: Option<Logged>,
)
    requires
        call_ensures(Monitor::discover, (monitor, rules, app), r),
        app.executable is None,
    ensures
        r is None,
{
}

/// An application is observed where it could be subscribed to; where it could not, the attempts
/// are counted, and it is tried again as long as it may be.
pub proof fn failed_attempts_are_counted(
    monitor: &mut Monitor,
    app: &AppFacts,
    previous_attempts: usize,
    attempts: usize,
    result: &Result<Vec<String>, AxError>,
    shown: &str,
    again: Option<u64>,
    error: AxError,
    r: (Logged, Option<u64>),
)
    requires
        call_ensures(Monitor::attach, (monitor, app, previous_attempts, result, shown), r),
        previous_attempts < usize::MAX,
        attempts == previous_attempts + 1,
        *result is Err ==> (*result)->Err_0 == error,
        call_ensures(monitor::retry_after, (attempts, error), again),
    ensures
        *result is Ok ==> final(monitor).observed@.contains(app.pid)
            && !final(monitor).failed@.contains_key(app.pid) && r.1 is None && r.0.note.kind@
            == "process.observed"@,
        *result is Err ==> final(monitor).observed@ == old(monitor).observed@
            && final(monitor).failed@.contains_key(app.pid) && final(monitor).failed@[app.pid]
            == attempts && r.1 == again,
        *result is Err && again is Some ==> r.0.note.kind@ == "process.retry"@,
        *result is Err && again is None ==> r.0.note.kind@ == "process.unavailable"@,
{
}

/// An application is tried again, with the attempts that were made, where it runs and that is
/// permitted.
pub proof fn attempts_go_on(
    monitor: &mut Monitor,
    pid: i32,
    terminated: bool,
    permitted: bool,
    r: Option<usize>,
)
    requires
        call_ensures(Monitor::retry, (monitor, pid, terminated, permitted), r),
    ensures
        r is Some <==> old(monitor).failed@.contains_key(pid) && !terminated && permitted,
        r is Some ==> r->0 == old(monitor).failed@[pid],
        !final(monitor).failed@.contains_key(pid),
        final(monitor).observed == old(monitor).observed,
{
}

/// Without permission nothing is observed, and that is said once.
pub proof fn lost_permission_ends_observing(
    monitor: &mut Monitor,
    status: &mut Status,
    executable: Option<&str>,
    r: Option<Logged>,
    pid: i32,
)
    requires
        call_ensures(Monitor::lose_permission, (monitor, status, executable), r),
    ensures
        !final(monitor).observed@.contains(pid),
        !final(monitor).failed@.contains_key(pid),
        final(status).state@ == "accessibility_required"@,
        final(status).clicks_sent == old(status).clicks_sent,
        r is Some <==> old(status).state@ != "accessibility_required"@,
{
}

/// The status says what is observed and what could not be: something that could not be comes
/// before all else, then a dry run, then that nothing is observed.
pub proof fn the_status_tells_what_is_observed(
    status: &mut Status,
    processes: usize,
    failed: usize,
    dry_run: bool,
)
    requires
        call_ensures(Status::note_reconciled, (status, processes, failed, dry_run), ()),
    ensures
        final(status).listening_processes == processes,
        final(status).unavailable_processes == failed,
        failed > 0 ==> final(status).state@ == "partial"@,
        failed == 0 && dry_run ==> final(status).state@ == "dry_run"@,
        failed == 0 && !dry_run && processes == 0 ==> final(status).state@
            == "waiting_for_system_ui"@,
        failed == 0 && !dry_run && processes > 0 ==> final(status).state@ == "listening"@,
        final(status).clicks_sent == old(status).clicks_sent,
        final(status).dialogs_closed == old(status).dialogs_closed,
{
}

/// Each press and each window that closed counts one.
pub proof fn presses_are_counted(status: &mut Status, matched: &MatchedButton)
    requires
        call_ensures(Status::note_sent, (status, matched), ()),
        old(status).clicks_sent < usize::MAX,
    ensures
        final(status).clicks_sent == old(status).clicks_sent + 1,
        final(status).dialogs_closed == old(status).dialogs_closed,
{
}

/// Each window that closed counts one.
pub proof fn closed_windows_are_counted(status: &mut Status)
    requires
        call_ensures(Status::note_closed, (status,), ()),
        old(status).dialogs_closed < usize::MAX,
    ensures
        final(status).dialogs_closed == old(status).dialogs_closed + 1,
        final(status).clicks_sent == old(status).clicks_sent,
{
}

/// Before there is a report, the status says whether the desktop is supported.
pub proof fn unreported_status_says_what_is_supported(
    reported: Option<Status>,
    supported: bool,
    r: Status,
)
    requires
        call_ensures(os_permissions::status, (reported, supported), r),
    ensures
        reported is Some ==> r == reported->0,
        reported is None && supported ==> r.state@ == "not_started"@,
        reported is None && !supported ==> r.state@ == "unsupported"@,
        reported is None ==> r.clicks_sent == 0 && r.dialogs_closed == 0 && r.listening_processes
            == 0,
{
}

/// Pressing is permitted from the start until it is stopped.
pub proof fn pressing_is_permitted_until_stopped(
    event_loop: bool,
    r: (Guard, &'static str),
    guard: &mut Guard,
)
    requires
        call_ensures(os_permissions::start, (event_loop,), r),
        call_ensures(Guard::stop, (guard,), ()),
    ensures
        r.0.permitted,
        event_loop ==> r.1@ == "starting"@,
        !event_loop ==> r.1@ == "no_desktop_event_loop"@,
        !final(guard).permitted,
{
}

/// The log is read from its end: the last events, and where only presses are wanted only those.
pub proof fn the_last_events_are_read(
    logged: Vec<Event>,
    clicks_only: bool,
    limit: usize,
    r: Vec<Event>,
    i: int,
)
    requires
        call_ensures(events::read, (logged, clicks_only, limit), r),
    ensures
        r@.len() <= limit,
        0 <= i < r@.len() ==> logged@.contains(r@[i]),
        0 <= i < r@.len() && clicks_only ==> exists|rest: Seq<char>|
            r@[i].kind@ == #[trigger] ("click."@ + rest),
        !clicks_only && logged@.len() <= limit ==> r@ == logged@,
        !clicks_only && logged@.len() > limit ==> r@ == logged@.skip(logged@.len() - limit),
{
    let keep = |event: Event| events::is_click(event);
    let all = events::wanted(logged@, clicks_only);
    if 0 <= i < r@.len() {
        let at = all.len() - r@.len() + i;
        assert(r@[i] == all[at]);
        if clicks_only {
            assert(all == logged@.filter(keep));
            assert(all.contains(all[at]));
            logged@.lemma_filter_contains_rev(keep, all[at]);
            logged@.lemma_filter_pred(keep, at);
            let kind = r@[i].kind@;
            assert(kind =~= "click."@ + kind.skip("click."@.len() as int)) by {
                assert(kind.subrange(0, "click."@.len() as int) =~= "click."@);
            }
        } else {
            assert(logged@.contains(logged@[at]));
        }
    }
}

/// The log stands beside the socket.
pub proof fn the_log_stands_beside_the_socket(
    socket: &str,
    r: String,
    directory: Seq<char>,
    name: Seq<char>,
)
    requires
        call_ensures(events::path, (socket,), r),
        socket@ == directory + seq!['/'] + name,
        forall|i: int| 0 <= i < name.len() ==> name[i] != '/',
    ensures
        r@ == directory + seq!['/'] + "dialog-events.jsonl"@,
{
    let at = directory.len() as int + 1;
    assert forall|k: int| at <= k < socket@.len() implies socket@[k] != '/' by {
        assert(socket@[k] == name[k - at]);
    }
    events::lemma_directory(socket@, at);
    assert(socket@.take(at) =~= directory + seq!['/']);
}

/// What is complete of the log ends with its last line break.
pub proof fn complete_lines_end_with_a_break(bytes: &Vec<u8>, r: usize)
    requires
        call_ensures(events::complete_length, (bytes,), r),
    ensures
        r <= bytes@.len(),
        r > 0 ==> bytes@[r - 1] == 10,
        forall|i: int| r <= i < bytes@.len() ==> bytes@[i] != 10,
{
    lemma_complete_end(bytes@);
}

proof fn lemma_complete_end(bytes: Seq<u8>)
    ensures
        ({
            let end = events::complete_end(bytes);
            &&& 0 <= end <= bytes.len()
            &&& end > 0 ==> bytes[end - 1] == 10
            &&& forall|i: int| end <= i < bytes.len() ==> bytes[i] != 10
        }),
    decreases bytes.len(),
{
    if bytes.len() > 0 && bytes.last() != 10 {
        let before = bytes.drop_last();
        lemma_complete_end(before);
        let end = events::complete_end(bytes);
        assert forall|i: int| end <= i < bytes.len() implies bytes[i] != 10 by {
            if i < before.len() {
                assert(before[i] == bytes[i]);
            }
        }
        if end > 0 {
            assert(before[end - 1] == bytes[end - 1]);
        }
    }
}

/// A line that was written counts. One of which something may be left stops the log until it is
/// repaired. More than twice of what is kept is to be shortened.
pub proof fn broken_logs_take_no_lines(log: &mut Log, appended: Appended, r: bool, may: bool)
    requires
        call_ensures(Log::append, (log, appended), r),
        old(log).count < usize::MAX,
        call_ensures(Log::may_append, (final(log),), may),
    ensures
        appended == Appended::Written ==> final(log).count == old(log).count + 1,
        appended != Appended::Written ==> final(log).count == old(log).count && !r,
        may <==> !old(log).repair_required && appended != Appended::Broken,
        r <==> appended == Appended::Written && final(log).count > 2 * final(log).retention,
        final(log).retention == old(log).retention,
{
}

} // verus!
