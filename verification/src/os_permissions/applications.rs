//! The applications that are observed, and those that could not be.

use std::collections::{HashMap, HashSet};

use vstd::prelude::*;
use vstd::string::*;

use crate::os_permissions::dialogs;
use crate::os_permissions::dialogs::{Dialog, Note};
use crate::os_permissions::monitor;
use crate::os_permissions::monitor::AxError;
use crate::os_permissions::rules;
use crate::os_permissions::rules::DialogSettings;
use crate::os_permissions::Status;

verus! {

/// What is known of an application.
#[derive(Debug)]
pub struct AppFacts {
    pub pid: i32,
    pub name: String,
    pub terminated: bool,
    /// The executable, where the system tells it.
    pub executable: Option<String>,
    pub bundle: String,
}

/// A note, and the application that it is about.
#[derive(Debug)]
pub struct Logged {
    pub note: Note,
    pub pid: Option<i32>,
    pub app: String,
}

/// Some rule is about windows of the application.
pub open spec fn concerns(rules: DialogSettings, app: AppFacts) -> bool {
    app.executable is Some && exists|name: Seq<char>| #[trigger]
        rules.rules@.contains_key(name) && rules::rule_observes(
            name,
            rules.rules@[name],
            app.executable->0@,
            app.bundle@,
        )
}

fn is_concerned(rules: &DialogSettings, app: &AppFacts) -> (r: bool)
    ensures
        r == concerns(*rules, *app),
{
    match &app.executable {
        Some(executable) => rules.observes(executable.as_str(), app.bundle.as_str()),
        None => false,
    }
}

/// `logged` says this of an application.
pub open spec fn is_logged(
    logged: Logged,
    app: AppFacts,
    kind: Seq<char>,
    rule: Option<String>,
    button: Option<String>,
    detail: Seq<char>,
) -> bool {
    &&& logged.pid == Some(app.pid)
    &&& logged.app@ == app.name@
    &&& dialogs::says(logged.note, kind, rule, button, detail)
}

/// `logged` says that an application is no longer observed, and of each of its windows that was
/// pressed and has not closed that it is no longer waited for.
pub open spec fn is_detachment(logged: Seq<Logged>, app: AppFacts, windows: Seq<Dialog>) -> bool {
    let waiting = windows.filter(|dialog: Dialog| dialog.awaiting_close);
    &&& logged.len() == 1 + waiting.len()
    &&& is_logged(
        logged[0],
        app,
        "process.detached"@,
        None,
        None,
        "process exited or no enabled rule applies"@,
    )
    &&& forall|i: int|
        0 <= i < waiting.len() ==> is_logged(
            #[trigger] logged[i + 1],
            app,
            "click.unconfirmed"@,
            waiting[i].last_rule,
            waiting[i].last_button,
            "host exited or rule removed before close was confirmed"@,
        )
}

fn log(app: &AppFacts, note: Note) -> (r: Logged)
    ensures
        r.note == note,
        r.pid == Some(app.pid),
        r.app@ == app.name@,
{
    Logged { note, pid: Some(app.pid), app: app.name.clone() }
}

fn plain_note(kind: &'static str, detail: &str) -> (r: Note)
    ensures
        dialogs::says(r, kind@, None, None, detail@),
{
    Note { kind, rule: None, button: None, detail: detail.to_owned() }
}

/// The applications that are observed, and those that could not be, with the attempts so far.
#[derive(Debug)]
pub struct Monitor {
    pub observed: HashSet<i32>,
    pub failed: HashMap<i32, usize>,
    /// Whether the applications were gone through before.
    pub initialized: bool,
    pub dry_run: bool,
}

impl Monitor {
    /// Nothing is observed yet.
    pub fn new(dry_run: bool) -> (r: Self)
        ensures
            r.observed@ == Set::<i32>::empty(),
            r.failed@ == Map::<i32, usize>::empty(),
            !r.initialized,
            r.dry_run == dry_run,
    {
        Monitor { observed: HashSet::new(), failed: HashMap::new(), initialized: false, dry_run }
    }

    /// Everything but which applications are observed is the same.
    pub open spec fn same_but_observed(self, other: Self) -> bool {
        &&& self.failed == other.failed
        &&& self.initialized == other.initialized
        &&& self.dry_run == other.dry_run
    }

    /// Everything but which applications could not be observed is the same.
    pub open spec fn same_but_failed(self, other: Self) -> bool {
        &&& self.observed == other.observed
        &&& self.initialized == other.initialized
        &&& self.dry_run == other.dry_run
    }

    /// Stops observing an application that has ended or that no rule is about any more, and says
    /// so. `windows` are its windows.
    pub fn keep_observed(
        &mut self,
        rules: &DialogSettings,
        app: &AppFacts,
        windows: &Vec<Dialog>,
    ) -> (r: Vec<Logged>)
        ensures
            final(self).same_but_observed(*old(self)),
            if !app.terminated && concerns(*rules, *app) {
                final(self).observed@ == old(self).observed@ && r@.len() == 0
            } else {
                &&& final(self).observed@ == old(self).observed@.remove(app.pid)
                &&& is_detachment(r@, *app, windows@)
            },
    {
        broadcast use vstd::std_specs::hash::group_hash_axioms;

        let mut logged: Vec<Logged> = Vec::new();
        if !app.terminated && is_concerned(rules, app) {
            return logged;
        }
        self.observed.remove(&app.pid);
        logged.push(
            log(app, plain_note("process.detached", "process exited or no enabled rule applies")),
        );
        let mut notes: Vec<Note> = dialogs::abandon(windows);
        let ghost all = notes@;
        let ghost waiting = windows@.filter(|dialog: Dialog| dialog.awaiting_close);
        let total: usize = notes.len();
        let mut i: usize = 0;
        assert(all.skip(0) =~= all);
        while i < total
            invariant
                i <= total,
                total == all.len(),
                total == waiting.len(),
                notes@ == all.skip(i as int),
                forall|k: int|
                    0 <= k < all.len() ==> dialogs::says(
                        #[trigger] all[k],
                        "click.unconfirmed"@,
                        waiting[k].last_rule,
                        waiting[k].last_button,
                        "host exited or rule removed before close was confirmed"@,
                    ),
                logged@.len() == i + 1,
                is_logged(
                    logged@[0],
                    *app,
                    "process.detached"@,
                    None,
                    None,
                    "process exited or no enabled rule applies"@,
                ),
                forall|k: int|
                    0 <= k < i ==> is_logged(
                        #[trigger] logged@[k + 1],
                        *app,
                        "click.unconfirmed"@,
                        waiting[k].last_rule,
                        waiting[k].last_button,
                        "host exited or rule removed before close was confirmed"@,
                    ),
            decreases total - i,
        {
            let note = notes.remove(0);
            assert(note == all[i as int]);
            assert(notes@ =~= all.skip(i + 1));
            logged.push(log(app, note));
            i += 1;
        }
        logged
    }

    /// Forgets an application that could not be observed, once it has ended or no rule is about it
    /// any more.
    pub fn keep_failed(&mut self, rules: &DialogSettings, app: &AppFacts) -> (kept: bool)
        ensures
            kept == (!app.terminated && concerns(*rules, *app)),
            final(self).same_but_failed(*old(self)),
            final(self).failed@ == (if kept {
                old(self).failed@
            } else {
                old(self).failed@.remove(app.pid)
            }),
    {
        broadcast use vstd::std_specs::hash::group_hash_axioms;

        let kept = !app.terminated && is_concerned(rules, app);
        if !kept {
            self.failed.remove(&app.pid);
        }
        kept
    }

    /// An application is to be observed from now on: a rule is about it, it runs, and it is neither
    /// observed nor waiting to be.
    pub open spec fn is_new(self, rules: DialogSettings, app: AppFacts) -> bool {
        &&& !self.observed@.contains(app.pid)
        &&& !self.failed@.contains_key(app.pid)
        &&& !app.terminated
        &&& concerns(rules, app)
    }

    /// Whether an application is to be observed from now on, and what is said of it.
    pub fn discover(&self, rules: &DialogSettings, app: &AppFacts) -> (r: Option<Logged>)
        ensures
            match r {
                Some(logged) => self.is_new(*rules, *app) && is_logged(
                    logged,
                    *app,
                    "process.discovered"@,
                    None,
                    None,
                    monitor::discovered_view(self.initialized),
                ),
                None => !self.is_new(*rules, *app),
            },
    {
        broadcast use vstd::std_specs::hash::group_hash_axioms;

        if self.observed.contains(&app.pid) || self.failed.contains_key(&app.pid) || app.terminated
            || !is_concerned(rules, app) {
            return None;
        }
        let note = plain_note("process.discovered", monitor::discovered_detail(self.initialized));
        Some(log(app, note))
    }

    /// Takes over how observing an application went: to which events it was subscribed, or why it
    /// was not; `shown` says the error. It is tried again after the returned time, in milliseconds.
    pub fn attach(
        &mut self,
        app: &AppFacts,
        previous_attempts: usize,
        result: &Result<Vec<String>, AxError>,
        shown: &str,
    ) -> (r: (Logged, Option<u64>))
        requires
            previous_attempts < usize::MAX,
        ensures
            final(self).initialized == old(self).initialized,
            final(self).dry_run == old(self).dry_run,
            match result {
                Ok(subscriptions) => {
                    &&& final(self).observed@ == old(self).observed@.insert(app.pid)
                    &&& final(self).failed@ == old(self).failed@.remove(app.pid)
                    &&& r.1 is None
                    &&& is_logged(
                        r.0,
                        *app,
                        "process.observed"@,
                        None,
                        None,
                        monitor::observed_view(subscriptions@),
                    )
                },
                Err(error) => {
                    let attempts = (previous_attempts + 1) as usize;
                    &&& final(self).observed == old(self).observed
                    &&& final(self).failed@ == old(self).failed@.insert(app.pid, attempts)
                    &&& r.1 == monitor::retry_delay(attempts as int, *error)
                    &&& is_logged(
                        r.0,
                        *app,
                        monitor::attempt_kind_view(r.1 is Some),
                        None,
                        None,
                        monitor::attempt_view(attempts, shown@),
                    )
                },
            },
    {
        broadcast use vstd::std_specs::hash::group_hash_axioms;

        match result {
            Ok(subscriptions) => {
                self.failed.remove(&app.pid);
                self.observed.insert(app.pid);
                let detail = monitor::observed_detail(subscriptions);
                (log(app, plain_note("process.observed", detail.as_str())), None)
            },
            Err(error) => {
                let attempts: usize = previous_attempts + 1;
                let delay = monitor::retry_after(attempts, *error);
                self.failed.insert(app.pid, attempts);
                let detail = monitor::attempt_detail(attempts, shown);
                let note = plain_note(
                    monitor::attempt_kind(delay.is_some()),
                    detail.as_str(),
                );
                (log(app, note), delay)
            },
        }
    }

    /// The time has come to try an application again: after how many attempts it is, if it still
    /// is.
    pub fn retry(&mut self, pid: i32, terminated: bool, permitted: bool) -> (r: Option<usize>)
        ensures
            final(self).same_but_failed(*old(self)),
            final(self).failed@ == old(self).failed@.remove(pid),
            r == (if old(self).failed@.contains_key(pid) && !terminated && permitted {
                Some(old(self).failed@[pid])
            } else {
                None
            }),
    {
        broadcast use vstd::std_specs::hash::group_hash_axioms;

        match self.failed.remove(&pid) {
            Some(attempts) => {
                if !terminated && permitted {
                    Some(attempts)
                } else {
                    None
                }
            },
            None => None,
        }
    }

    /// Forgets applications that could not be observed, so that they are tried again: all of them
    /// after the session was interrupted or the rules have changed, and one of which something was
    /// heard.
    pub fn heard(&mut self, pid: Option<i32>, reset: bool)
        ensures
            final(self).same_but_failed(*old(self)),
            final(self).failed@ == (if reset {
                Map::empty()
            } else {
                match pid {
                    Some(pid) => old(self).failed@.remove(pid),
                    None => old(self).failed@,
                }
            }),
    {
        monitor::reset_failed(&mut self.failed, pid, reset);
    }

    /// Observes nothing any more, since the handler is not permitted to look at other applications,
    /// and says so unless that is known.
    pub fn lose_permission(&mut self, status: &mut Status, executable: Option<&str>) -> (r: Option<
        Logged,
    >)
        ensures
            final(self).observed@ == Set::<i32>::empty(),
            final(self).failed@ == Map::<i32, usize>::empty(),
            final(self).initialized == old(self).initialized,
            final(self).dry_run == old(self).dry_run,
            monitor::requires_permission(*old(status), executable, *final(status)),
            match r {
                Some(logged) => {
                    &&& old(status).state@ != "accessibility_required"@
                    &&& logged.pid is None
                    &&& logged.app@ == "watchcatd"@
                    &&& dialogs::says(
                        logged.note,
                        "monitor.permission_required"@,
                        None,
                        None,
                        "Grant Accessibility to watchcatd and restart"@,
                    )
                },
                None => old(status).state@ == "accessibility_required"@,
            },
    {
        self.observed.clear();
        self.failed.clear();
        if !status.note_permission_required(executable) {
            return None;
        }
        Some(
            Logged {
                note: plain_note(
                    "monitor.permission_required",
                    "Grant Accessibility to watchcatd and restart",
                ),
                pid: None,
                app: "watchcatd".to_owned(),
            },
        )
    }

    /// Notes that the applications were gone through.
    pub fn finish(&mut self, status: &mut Status)
        ensures
            final(self).initialized,
            final(self).observed == old(self).observed,
            final(self).failed == old(self).failed,
            final(self).dry_run == old(self).dry_run,
            monitor::is_reconciled(
                *old(status),
                old(self).observed@.len(),
                old(self).failed@.len(),
                old(self).dry_run,
                *final(status),
            ),
    {
        broadcast use vstd::std_specs::hash::group_hash_axioms;

        self.initialized = true;
        status.note_reconciled(self.observed.len(), self.failed.len(), self.dry_run);
    }
}

/// An application that is observed is not observed a second time, nor one that waits to be.
pub proof fn applications_are_observed_once(monitor: Monitor, rules: DialogSettings, app: AppFacts)
    requires
        monitor.observed@.contains(app.pid) || monitor.failed@.contains_key(app.pid),
    ensures
        !monitor.is_new(rules, app),
{
}

} // verus!
