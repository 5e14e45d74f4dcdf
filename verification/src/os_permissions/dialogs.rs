//! The windows of an application and what was pressed in them.

use vstd::prelude::*;
use vstd::string::*;

use crate::os_permissions::window::{MatchedButton, Skip};
use crate::os_permissions::Status;
use crate::text;

verus! {

/// How many windows of an application are looked at.
pub const MAX_WINDOWS: usize = 32;

/// How long a pressed window is given to close.
pub const CLOSE_MILLIS: u64 = 3000;

/// What is written to the log.
#[derive(Debug)]
pub struct Note {
    pub kind: &'static str,
    pub rule: Option<String>,
    pub button: Option<String>,
    pub detail: String,
}

/// `note` says this.
pub open spec fn says(
    note: Note,
    kind: Seq<char>,
    rule: Option<String>,
    button: Option<String>,
    detail: Seq<char>,
) -> bool {
    &&& note.kind@ == kind
    &&& text::option_view(note.rule) == text::option_view(rule)
    &&& text::option_view(note.button) == text::option_view(button)
    &&& note.detail@ == detail
}

/// A window, and what was pressed in it last.
#[derive(Debug)]
pub struct Dialog {
    pub window: u64,
    /// By what the window was known when it was last pressed.
    pub last_attempt: Option<String>,
    /// What was last said of the window.
    pub last_observation: Option<String>,
    pub last_rule: Option<String>,
    pub last_button: Option<String>,
    /// Whether the window was pressed and is expected to close.
    pub awaiting_close: bool,
    /// Until when, in milliseconds.
    pub deadline: Option<u64>,
}

impl Clone for Dialog {
    fn clone(&self) -> (r: Self)
        ensures
            r == *self,
    {
        Dialog {
            window: self.window,
            last_attempt: self.last_attempt.clone(),
            last_observation: self.last_observation.clone(),
            last_rule: self.last_rule.clone(),
            last_button: self.last_button.clone(),
            awaiting_close: self.awaiting_close,
            deadline: self.deadline,
        }
    }
}

/// What is made of what was found in a window.
#[derive(Debug)]
pub enum Consideration {
    /// Nothing is pressed; what is said of it, if it was not said before.
    LeaveAlone(Option<Note>),
    /// It was pressed before.
    Attempted,
    /// It would be pressed.
    DryRun(Note),
    /// It is looked at once more, and then pressed.
    Confirm,
}

/// How pressing went.
#[derive(Clone, Copy, Debug, PartialEq, Eq, Structural)]
pub enum Press {
    Success,
    /// The window did not answer in time, and may have been pressed.
    CannotComplete,
    Failed,
}

impl Dialog {
    /// A window that was not pressed.
    pub fn new(window: u64) -> (r: Self)
        ensures
            r.window == window,
            r.last_attempt is None,
            r.last_observation is None,
            r.last_rule is None,
            r.last_button is None,
            !r.awaiting_close,
            r.deadline is None,
    {
        Dialog {
            window,
            last_attempt: None,
            last_observation: None,
            last_rule: None,
            last_button: None,
            awaiting_close: false,
            deadline: None,
        }
    }

    fn note(&self, kind: &'static str, detail: &str) -> (r: Note)
        ensures
            says(r, kind@, self.last_rule, self.last_button, detail@),
    {
        Note {
            kind,
            rule: self.last_rule.clone(),
            button: self.last_button.clone(),
            detail: detail.to_owned(),
        }
    }

    /// The window was pressed and is still there after the time it was given.
    pub open spec fn is_overdue(self, now: u64) -> bool {
        self.awaiting_close && self.deadline is Some && now >= self.deadline->0
    }

    /// Stops waiting for the window to close, where it was given enough time. It is not pressed
    /// again.
    pub fn expire(&mut self, now: u64) -> (r: Option<Note>)
        ensures
            *final(self) == (Dialog {
                awaiting_close: old(self).awaiting_close && !old(self).is_overdue(now),
                ..*old(self)
            }),
            match r {
                Some(note) => old(self).is_overdue(now) && says(
                    note,
                    "click.unconfirmed"@,
                    old(self).last_rule,
                    old(self).last_button,
                    "window still present after 3 seconds; click will not be retried"@,
                ),
                None => !old(self).is_overdue(now),
            },
    {
        let overdue = self.awaiting_close && match self.deadline {
            Some(deadline) => now >= deadline,
            None => false,
        };
        if !overdue {
            return None;
        }
        self.awaiting_close = false;
        Some(
            self.note(
                "click.unconfirmed",
                "window still present after 3 seconds; click will not be retried",
            ),
        )
    }

    /// What a match is known by was pressed last.
    pub open spec fn attempted(self, matched: MatchedButton) -> bool {
        self.last_attempt is Some && self.last_attempt->0@ == matched.signature@
    }

    /// `after` and `outcome` are what is made of what was found in the window.
    pub open spec fn considered(
        self,
        matched: Result<MatchedButton, Skip>,
        dry_run: bool,
        after: Dialog,
        outcome: Consideration,
    ) -> bool {
        &&& after.window == self.window
        &&& after.last_rule == self.last_rule
        &&& after.last_button == self.last_button
        &&& after.awaiting_close == self.awaiting_close
        &&& after.deadline == self.deadline
        &&& match matched {
            Err(skip) => {
                let said = text::option_view(self.last_observation) == Some(skip.reason_view());
                &&& after.last_attempt == self.last_attempt
                &&& text::option_view(after.last_observation) == Some(skip.reason_view())
                &&& match outcome {
                    Consideration::LeaveAlone(None) => said,
                    Consideration::LeaveAlone(Some(note)) => !said && says(
                        note,
                        "window.skipped"@,
                        None,
                        None,
                        skip.reason_view(),
                    ),
                    _ => false,
                }
            },
            Ok(matched) => if self.attempted(matched) {
                outcome is Attempted && after == self
            } else {
                &&& text::option_view(after.last_observation) == Some(
                    "matched "@ + matched.rule@,
                )
                &&& if dry_run {
                    &&& outcome matches Consideration::DryRun(note)
                    &&& says(
                        note,
                        "click.dry_run"@,
                        Some(matched.rule),
                        Some(matched.label),
                        "rule matched; no click in dry run"@,
                    )
                    &&& text::option_view(after.last_attempt) == Some(matched.signature@)
                } else {
                    outcome is Confirm && after.last_attempt == self.last_attempt
                }
            },
        }
    }

    /// Decides what is made of what was found in the window.
    pub fn consider(&mut self, matched: &Result<MatchedButton, Skip>, dry_run: bool) -> (r:
        Consideration)
        ensures
            old(self).considered(*matched, dry_run, *final(self), r),
    {
        let matched = match matched {
            Err(skip) => {
                let reason: &'static str = skip.reason();
                let said = match &self.last_observation {
                    Some(last) => text::same(last.as_str(), reason),
                    None => false,
                };
                if said {
                    return Consideration::LeaveAlone(None);
                }
                self.last_observation = Some(reason.to_owned());
                return Consideration::LeaveAlone(
                    Some(
                        Note {
                            kind: "window.skipped",
                            rule: None,
                            button: None,
                            detail: reason.to_owned(),
                        },
                    ),
                );
            },
            Ok(matched) => matched,
        };
        let attempted = match &self.last_attempt {
            Some(last) => text::same(last.as_str(), matched.signature.as_str()),
            None => false,
        };
        if attempted {
            return Consideration::Attempted;
        }
        self.last_observation = Some("matched ".to_owned().concat(matched.rule.as_str()));
        if dry_run {
            self.last_attempt = Some(matched.signature.clone());
            return Consideration::DryRun(
                Note {
                    kind: "click.dry_run",
                    rule: Some(matched.rule.clone()),
                    button: Some(matched.label.clone()),
                    detail: "rule matched; no click in dry run".to_owned(),
                },
            );
        }
        Consideration::Confirm
    }

    /// Notes that a button is about to be pressed, once that was written to the log. It is not
    /// pressed otherwise.
    pub fn attempt(&mut self, matched: &MatchedButton, recorded: bool) -> (r: bool)
        ensures
            r == recorded,
            if recorded {
                &&& final(self).window == old(self).window
                &&& final(self).last_observation == old(self).last_observation
                &&& final(self).last_attempt == Some(matched.signature)
                &&& final(self).last_rule == Some(matched.rule)
                &&& final(self).last_button == Some(matched.label)
                &&& !final(self).awaiting_close
                &&& final(self).deadline == old(self).deadline
            } else {
                *final(self) == *old(self)
            },
    {
        if !recorded {
            return false;
        }
        self.last_attempt = Some(matched.signature.clone());
        self.last_rule = Some(matched.rule.clone());
        self.last_button = Some(matched.label.clone());
        self.awaiting_close = false;
        true
    }

    /// Notes how pressing went; `shown` says it in the log. A press that may have had an effect is
    /// followed by waiting for the window to close, and none is repeated.
    pub fn pressed(&mut self, press: Press, shown: &str, now: u64) -> (r: Note)
        requires
            now <= u64::MAX - CLOSE_MILLIS,
        ensures
            if press is Failed {
                &&& *final(self) == *old(self)
                &&& says(
                    r,
                    "click.failed"@,
                    old(self).last_rule,
                    old(self).last_button,
                    "AXPress: "@ + shown@ + "; not retried"@,
                )
            } else {
                &&& *final(self) == (Dialog {
                    awaiting_close: true,
                    deadline: Some((now + CLOSE_MILLIS) as u64),
                    ..*old(self)
                })
                &&& says(
                    r,
                    "click.sent"@,
                    old(self).last_rule,
                    old(self).last_button,
                    "AXPress: "@ + shown@ + "; waiting for window to close"@,
                )
            },
    {
        match press {
            Press::Failed => {
                let detail = "AXPress: ".to_owned().concat(shown).concat("; not retried");
                self.note("click.failed", detail.as_str())
            },
            _ => {
                self.awaiting_close = true;
                self.deadline = Some(now + CLOSE_MILLIS);
                let detail = "AXPress: ".to_owned().concat(shown).concat(
                    "; waiting for window to close",
                );
                self.note("click.sent", detail.as_str())
            },
        }
    }
}

/// A button is pressed only if the second look finds the same button in the same window by the same
/// rule, the application is the same and still there, and pressing is still permitted.
pub fn confirms(
    matched: &MatchedButton,
    current: &MatchedButton,
    terminated: bool,
    same_identity: bool,
    permitted: bool,
) -> (r: bool)
    ensures
        r == (matched.button == current.button && matched.signature@ == current.signature@
            && matched.rule@ == current.rule@ && !terminated && same_identity && permitted),
{
    permitted && matched.button == current.button && text::same(
        matched.signature.as_str(),
        current.signature.as_str(),
    ) && text::same(matched.rule.as_str(), current.rule.as_str()) && !terminated && same_identity
}

/// What is written to the log before a button is pressed.
pub fn intent(matched: &MatchedButton) -> (r: Note)
    ensures
        says(
            r,
            "click.attempt"@,
            Some(matched.rule),
            Some(matched.label),
            "matched rule; sending AXPress"@,
        ),
{
    Note {
        kind: "click.attempt",
        rule: Some(matched.rule.clone()),
        button: Some(matched.label.clone()),
        detail: "matched rule; sending AXPress".to_owned(),
    }
}

/// A window is not pressed twice: once a press was attempted, the same window with the same text
/// and button is not pressed again, whatever came of it.
pub proof fn presses_are_not_repeated(
    dialog: Dialog,
    matched: MatchedButton,
    dry_run: bool,
    after: Dialog,
    outcome: Consideration,
)
    requires
        dialog.attempted(matched),
        dialog.considered(Ok(matched), dry_run, after, outcome),
    ensures
        outcome is Attempted,
        after.attempted(matched),
{
}

/// A dry run presses nothing.
pub proof fn dry_runs_press_nothing(
    dialog: Dialog,
    matched: Result<MatchedButton, Skip>,
    after: Dialog,
    outcome: Consideration,
)
    requires
        dialog.considered(matched, true, after, outcome),
    ensures
        !(outcome is Confirm),
{
}

/// The windows hold this one.
pub open spec fn is_present(dialog: Dialog, windows: Seq<u64>) -> bool {
    windows.contains(dialog.window)
}

/// The window was pressed and is gone.
pub open spec fn is_closed(dialog: Dialog, windows: Seq<u64>) -> bool {
    dialog.awaiting_close && !is_present(dialog, windows)
}

/// `notes` say of these windows that they closed.
pub open spec fn tell_closed(notes: Seq<Note>, closed: Seq<Dialog>) -> bool {
    &&& notes.len() == closed.len()
    &&& forall|i: int|
        0 <= i < notes.len() ==> says(
            #[trigger] notes[i],
            "click.closed"@,
            closed[i].last_rule,
            closed[i].last_button,
            "window absent after click; original tool result is unknown"@,
        )
}

fn holds(windows: &Vec<u64>, window: u64) -> (r: bool)
    ensures
        r == windows@.contains(window),
{
    let mut i: usize = 0;
    while i < windows.len()
        invariant
            i <= windows@.len(),
            forall|k: int| 0 <= k < i ==> windows@[k] != window,
        decreases windows@.len() - i,
    {
        if windows[i] == window {
            assert(windows@[i as int] == window);
            return true;
        }
        i += 1;
    }
    false
}

/// Forgets the windows that are gone, and says which of them closed after they were pressed. Those
/// that are left stay as they are.
pub fn settle(dialogs: &mut Vec<Dialog>, windows: &Vec<u64>) -> (r: Vec<Note>)
    ensures
        final(dialogs)@ == old(dialogs)@.filter(|dialog: Dialog| is_present(dialog, windows@)),
        tell_closed(
            r@,
            old(dialogs)@.filter(|dialog: Dialog| is_closed(dialog, windows@)),
        ),
{
    let ghost all = dialogs@;
    let ghost keep = |dialog: Dialog| is_present(dialog, windows@);
    let ghost gone = |dialog: Dialog| is_closed(dialog, windows@);
    let mut kept: Vec<Dialog> = Vec::new();
    let mut notes: Vec<Note> = Vec::new();
    let mut i: usize = 0;
    assert(all.take(0).filter(keep) =~= Seq::empty()) by {
        reveal(Seq::filter);
    }
    assert(all.take(0).filter(gone) =~= Seq::empty()) by {
        reveal(Seq::filter);
    }
    while i < dialogs.len()
        invariant
            i <= all.len(),
            dialogs@ == all,
            keep == (|dialog: Dialog| is_present(dialog, windows@)),
            gone == (|dialog: Dialog| is_closed(dialog, windows@)),
            kept@ == all.take(i as int).filter(keep),
            tell_closed(notes@, all.take(i as int).filter(gone)),
        decreases all.len() - i,
    {
        proof {
            all.take(i as int).lemma_filter_push(all[i as int], keep);
            all.take(i as int).lemma_filter_push(all[i as int], gone);
            assert(all.take(i + 1) =~= all.take(i as int).push(all[i as int]));
        }
        if holds(windows, dialogs[i].window) {
            kept.push(dialogs[i].clone());
        } else if dialogs[i].awaiting_close {
            notes.push(
                dialogs[i].note(
                    "click.closed",
                    "window absent after click; original tool result is unknown",
                ),
            );
        }
        i += 1;
    }
    assert(all.take(i as int) =~= all);
    *dialogs = kept;
    notes
}

/// The place of a window among those that are known, where it is put if it is new.
pub fn meet(dialogs: &mut Vec<Dialog>, window: u64) -> (r: (usize, bool))
    ensures
        r.0 < final(dialogs)@.len(),
        final(dialogs)@[r.0 as int].window == window,
        r.1 == (forall|k: int| 0 <= k < old(dialogs)@.len() ==> (#[trigger] old(dialogs)@[k]).window
            != window),
        if r.1 {
            &&& final(dialogs)@.len() == old(dialogs)@.len() + 1
            &&& final(dialogs)@.drop_last() == old(dialogs)@
            &&& r.0 == old(dialogs)@.len()
            &&& final(dialogs)@.last() == (Dialog {
                window,
                last_attempt: None,
                last_observation: None,
                last_rule: None,
                last_button: None,
                awaiting_close: false,
                deadline: None,
            })
        } else {
            final(dialogs)@ == old(dialogs)@
        },
{
    let mut i: usize = 0;
    while i < dialogs.len()
        invariant
            i <= dialogs@.len(),
            dialogs@ == old(dialogs)@,
            forall|k: int| 0 <= k < i ==> (#[trigger] dialogs@[k]).window != window,
        decreases dialogs@.len() - i,
    {
        if dialogs[i].window == window {
            return (i, false);
        }
        i += 1;
    }
    dialogs.push(Dialog::new(window));
    assert(dialogs@.drop_last() =~= old(dialogs)@);
    (i, true)
}

/// What is said of windows that were pressed, when their application is no longer observed.
pub fn abandon(dialogs: &Vec<Dialog>) -> (r: Vec<Note>)
    ensures
        ({
            let waiting = dialogs@.filter(|dialog: Dialog| dialog.awaiting_close);
            &&& r@.len() == waiting.len()
            &&& forall|i: int|
                0 <= i < r@.len() ==> says(
                    #[trigger] r@[i],
                    "click.unconfirmed"@,
                    waiting[i].last_rule,
                    waiting[i].last_button,
                    "host exited or rule removed before close was confirmed"@,
                )
        }),
{
    let ghost all = dialogs@;
    let ghost keep = |dialog: Dialog| dialog.awaiting_close;
    let mut notes: Vec<Note> = Vec::new();
    let mut i: usize = 0;
    assert(all.take(0).filter(keep) =~= Seq::empty()) by {
        reveal(Seq::filter);
    }
    while i < dialogs.len()
        invariant
            i <= all.len(),
            dialogs@ == all,
            keep == (|dialog: Dialog| dialog.awaiting_close),
            notes@.len() == all.take(i as int).filter(keep).len(),
            forall|k: int|
                0 <= k < notes@.len() ==> says(
                    #[trigger] notes@[k],
                    "click.unconfirmed"@,
                    all.take(i as int).filter(keep)[k].last_rule,
                    all.take(i as int).filter(keep)[k].last_button,
                    "host exited or rule removed before close was confirmed"@,
                ),
        decreases all.len() - i,
    {
        proof {
            all.take(i as int).lemma_filter_push(all[i as int], keep);
            assert(all.take(i + 1) =~= all.take(i as int).push(all[i as int]));
        }
        if dialogs[i].awaiting_close {
            notes.push(
                dialogs[i].note(
                    "click.unconfirmed",
                    "host exited or rule removed before close was confirmed",
                ),
            );
        }
        i += 1;
    }
    assert(all.take(i as int) =~= all);
    notes
}

/// Forgets what was last said of windows, so that it is said again under changed rules. What was
/// pressed is not forgotten.
pub fn forget_observations(dialogs: &mut Vec<Dialog>)
    ensures
        final(dialogs)@.len() == old(dialogs)@.len(),
        forall|i: int|
            0 <= i < final(dialogs)@.len() ==> (#[trigger] final(dialogs)@[i]) == (Dialog {
                last_observation: None,
                ..old(dialogs)@[i]
            }),
{
    let ghost all = dialogs@;
    let mut after: Vec<Dialog> = Vec::new();
    let mut i: usize = 0;
    while i < dialogs.len()
        invariant
            i <= all.len(),
            dialogs@ == all,
            after@.len() == i,
            forall|k: int|
                0 <= k < i ==> (#[trigger] after@[k]) == (Dialog { last_observation: None, ..all[k]
                }),
        decreases all.len() - i,
    {
        let mut dialog = dialogs[i].clone();
        dialog.last_observation = None;
        after.push(dialog);
        i += 1;
    }
    *dialogs = after;
}

impl Status {
    /// Counts a window that closed after it was pressed.
    pub fn note_closed(&mut self)
        requires
            old(self).dialogs_closed < usize::MAX,
        ensures
            final(self).dialogs_closed == old(self).dialogs_closed + 1,
            text::option_view(final(self).last_result) == Some("Dialog closed after click"@),
            final(self).state == old(self).state,
            final(self).listening_processes == old(self).listening_processes,
            final(self).unavailable_processes == old(self).unavailable_processes,
            final(self).clicks_sent == old(self).clicks_sent,
    {
        self.dialogs_closed = self.dialogs_closed + 1;
        self.last_result = Some("Dialog closed after click".to_owned());
    }

    /// Counts a press that was sent.
    pub fn note_sent(&mut self, matched: &MatchedButton)
        requires
            old(self).clicks_sent < usize::MAX,
        ensures
            final(self).clicks_sent == old(self).clicks_sent + 1,
            text::option_view(final(self).last_result) == Some(
                "Clicked "@ + matched.label@ + " via "@ + matched.rule@
                    + "; waiting for window to close"@,
            ),
            final(self).state == old(self).state,
            final(self).listening_processes == old(self).listening_processes,
            final(self).unavailable_processes == old(self).unavailable_processes,
            final(self).dialogs_closed == old(self).dialogs_closed,
    {
        self.clicks_sent = self.clicks_sent + 1;
        self.last_result = Some(
            "Clicked ".to_owned().concat(matched.label.as_str()).concat(" via ").concat(
                matched.rule.as_str(),
            ).concat("; waiting for window to close"),
        );
    }

    /// `self` is `before` but for its last result.
    pub open spec fn is_with_result(self, before: Status, result: Seq<char>) -> bool {
        &&& text::option_view(self.last_result) == Some(result)
        &&& self.state == before.state
        &&& self.listening_processes == before.listening_processes
        &&& self.unavailable_processes == before.unavailable_processes
        &&& self.clicks_sent == before.clicks_sent
        &&& self.dialogs_closed == before.dialogs_closed
    }

    /// Notes that a pressed window is still there after the time it was given.
    pub fn note_unconfirmed(&mut self)
        ensures
            final(self).is_with_result(
                *old(self),
                "Click sent; window still present (not retried)"@,
            ),
    {
        self.last_result = Some("Click sent; window still present (not retried)".to_owned());
    }

    /// Notes that a button was not pressed, since that could not be written to the log.
    pub fn note_unrecorded(&mut self)
        ensures
            final(self).is_with_result(*old(self), "Click skipped: cannot write event log"@),
    {
        self.last_result = Some("Click skipped: cannot write event log".to_owned());
    }

    /// Notes that pressing failed; `shown` says how.
    pub fn note_failed(&mut self, shown: &str)
        ensures
            final(self).is_with_result(*old(self), "Click failed: "@ + shown@),
    {
        self.last_result = Some("Click failed: ".to_owned().concat(shown));
    }
}

} // verus!
