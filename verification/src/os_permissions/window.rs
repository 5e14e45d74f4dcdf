//! The inspection of a window: which of its buttons a rule names.

use vstd::prelude::*;
use vstd::string::*;
use vstd::utf8::*;

use crate::os_permissions;
use crate::os_permissions::rules::{DialogRule, DialogSettings, DIRECTORY_RULE};
use crate::text;

verus! {

/// The most elements of a window that are looked at.
pub const MAX_ELEMENTS: usize = 256;

/// How deep in a window elements are looked at.
pub const MAX_DEPTH: usize = 20;

/// The most bytes of a window's text.
pub const MAX_TEXT_BYTES: usize = 16384;

/// How long a window is looked at.
pub const INSPECTION_MILLIS: u64 = 1000;

/// Why a window is left alone.
#[derive(Clone, Copy, Debug, PartialEq, Eq, Structural)]
pub enum Skip {
    UnreadableTitle,
    Stopped,
    BudgetExceeded,
    UnreadableRole,
    EditableFields,
    UnreadableButtonTitle,
    UnreadableButtonLabel,
    UnreadableButtonState,
    InvalidButtonState,
    UnreadableText,
    TextTooLong,
    UnreadableTree,
    NoRule,
    SeveralRules,
    NotOneButton,
}

impl Skip {
    /// What is said of it.
    pub open spec fn reason_view(self) -> Seq<char> {
        match self {
            Skip::UnreadableTitle => "cannot read window title"@,
            Skip::Stopped => "monitor stopped"@,
            Skip::BudgetExceeded => "window inspection budget exceeded"@,
            Skip::UnreadableRole => "cannot read element role"@,
            Skip::EditableFields => "window contains editable or credential fields"@,
            Skip::UnreadableButtonTitle => "cannot read button title"@,
            Skip::UnreadableButtonLabel => "cannot read button label"@,
            Skip::UnreadableButtonState => "cannot read button state"@,
            Skip::InvalidButtonState => "invalid button state"@,
            Skip::UnreadableText => "cannot read dialog text"@,
            Skip::TextTooLong => "window text exceeds inspection limit"@,
            Skip::UnreadableTree => "cannot read complete window tree"@,
            Skip::NoRule => "no enabled rule matches this window"@,
            Skip::SeveralRules => "multiple rules match; make selectors more specific"@,
            Skip::NotOneButton => "expected exactly one enabled matching button"@,
        }
    }

    /// What is said of it.
    pub fn reason(self) -> (r: &'static str)
        ensures
            r@ == self.reason_view(),
    {
        match self {
            Skip::UnreadableTitle => "cannot read window title",
            Skip::Stopped => "monitor stopped",
            Skip::BudgetExceeded => "window inspection budget exceeded",
            Skip::UnreadableRole => "cannot read element role",
            Skip::EditableFields => "window contains editable or credential fields",
            Skip::UnreadableButtonTitle => "cannot read button title",
            Skip::UnreadableButtonLabel => "cannot read button label",
            Skip::UnreadableButtonState => "cannot read button state",
            Skip::InvalidButtonState => "invalid button state",
            Skip::UnreadableText => "cannot read dialog text",
            Skip::TextTooLong => "window text exceeds inspection limit",
            Skip::UnreadableTree => "cannot read complete window tree",
            Skip::NoRule => "no enabled rule matches this window",
            Skip::SeveralRules => "multiple rules match; make selectors more specific",
            Skip::NotOneButton => "expected exactly one enabled matching button",
        }
    }
}

/// What an element is to an inspection.
#[derive(Clone, Copy, Debug, PartialEq, Eq, Structural)]
pub enum ElementKind {
    Editable,
    Button,
    Text,
    Other,
}

/// What the element of a role is.
pub open spec fn kind_of(role: Seq<char>) -> ElementKind {
    if role == "AXTextField"@ || role == "AXTextArea"@ {
        ElementKind::Editable
    } else if role == "AXButton"@ {
        ElementKind::Button
    } else if role == "AXStaticText"@ || role == "AXHeading"@ {
        ElementKind::Text
    } else {
        ElementKind::Other
    }
}

/// What the element of a role is.
pub fn element_kind(role: &str) -> (r: ElementKind)
    ensures
        r == kind_of(role@),
{
    if text::same(role, "AXTextField") || text::same(role, "AXTextArea") {
        ElementKind::Editable
    } else if text::same(role, "AXButton") {
        ElementKind::Button
    } else if text::same(role, "AXStaticText") || text::same(role, "AXHeading") {
        ElementKind::Text
    } else {
        ElementKind::Other
    }
}

/// Whether a button can be pressed.
#[derive(Clone, Copy, Debug, PartialEq, Eq, Structural)]
pub enum Enabled {
    Yes,
    No,
    /// It could not be read.
    Unreadable,
    /// It is no truth value.
    Invalid,
}

/// The elements in an element.
#[derive(Debug)]
pub enum Children {
    Elements(Vec<u64>),
    /// An element of this kind has none.
    Unsupported,
    Unreadable,
}

/// What was read of an element. A text is missing where it could not be read, or where nothing
/// depends on it.
#[derive(Debug)]
pub struct ElementFacts {
    pub role: Option<String>,
    pub title: Option<String>,
    pub description: Option<String>,
    pub value: Option<String>,
    pub enabled: Enabled,
    pub children: Children,
}

/// The label of a button, or why it is not known: its title, or its description where the title is
/// empty.
pub open spec fn label_of(facts: ElementFacts) -> Result<String, Skip> {
    match facts.title {
        None => Err(Skip::UnreadableButtonTitle),
        Some(title) => if title@.len() > 0 {
            Ok(title)
        } else {
            match facts.description {
                None => Err(Skip::UnreadableButtonLabel),
                Some(description) => Ok(description),
            }
        },
    }
}

/// The text of an element, or why it is not known: its value, or its title where the value is
/// blank.
pub open spec fn text_of(facts: ElementFacts) -> Result<String, Skip> {
    match facts.value {
        None => Err(Skip::UnreadableText),
        Some(value) => if !text::blank(value@) {
            Ok(value)
        } else {
            match facts.title {
                None => Err(Skip::UnreadableText),
                Some(title) => Ok(title),
            }
        },
    }
}

/// What an inspection has found.
#[derive(Debug)]
pub struct Inspection {
    /// What is still to be looked at, the next one last, with its depth.
    pub stack: Vec<(u64, usize)>,
    pub visited: Vec<u64>,
    pub text: String,
    /// The first text.
    pub heading: Option<String>,
    /// The buttons that can be pressed, with their labels.
    pub buttons: Vec<(u64, String)>,
}

/// What comes next in an inspection.
#[derive(Clone, Copy, Debug, PartialEq, Eq, Structural)]
pub enum Next {
    /// This element, at this depth, is looked at.
    Visit(u64, usize),
    /// The element was looked at before.
    Seen,
    /// All was looked at.
    Done,
    Refused(Skip),
}

/// What an element adds to what was found, without what is in it, or why the window is left alone.
pub open spec fn reading(found: Found, facts: ElementFacts, element: u64) -> Result<Found, Skip> {
    match facts.role {
        None => Err(Skip::UnreadableRole),
        Some(role) => match kind_of(role@) {
            ElementKind::Editable => Err(Skip::EditableFields),
            ElementKind::Button => match label_of(facts) {
                Err(skip) => Err(skip),
                Ok(label) => match facts.enabled {
                    Enabled::Unreadable => Err(Skip::UnreadableButtonState),
                    Enabled::Invalid => Err(Skip::InvalidButtonState),
                    Enabled::No => Ok(found),
                    Enabled::Yes => Ok(
                        Found { buttons: found.buttons.push((element, label@)), ..found },
                    ),
                },
            },
            ElementKind::Text => match text_of(facts) {
                Err(skip) => Err(skip),
                Ok(value) => if text::blank(value@) {
                    Ok(found)
                } else {
                    Ok(
                        Found {
                            text: found.text + value@ + "\n"@,
                            heading: if found.heading is Some {
                                found.heading
                            } else {
                                Some(value@)
                            },
                            ..found
                        },
                    )
                },
            },
            ElementKind::Other => Ok(found),
        },
    }
}

/// What was found of a window.
pub struct Found {
    pub text: Seq<char>,
    pub heading: Option<Seq<char>>,
    pub buttons: Seq<(u64, Seq<char>)>,
}

/// Elements in the order in which they are put on a stack, at a depth: the first one last.
pub open spec fn stacked(elements: Seq<u64>, depth: usize) -> Seq<(u64, usize)> {
    elements.reverse().map_values(|element: u64| (element, depth))
}

/// The elements with their labels, as plain values.
pub open spec fn button_views(buttons: Seq<(u64, String)>) -> Seq<(u64, Seq<char>)> {
    buttons.map_values(|button: (u64, String)| (button.0, button.1@))
}

impl Inspection {
    /// What was found.
    pub open spec fn found(self) -> Found {
        Found {
            text: self.text@,
            heading: text::option_view(self.heading),
            buttons: button_views(self.buttons@),
        }
    }

    /// The inspection of a window, before anything was looked at.
    pub fn new(window: u64) -> (r: Self)
        ensures
            r.stack@ == seq![(window, 0usize)],
            r.visited@.len() == 0,
            r.text@.len() == 0,
            r.heading is None,
            r.buttons@.len() == 0,
    {
        let mut stack: Vec<(u64, usize)> = Vec::new();
        stack.push((window, 0));
        assert(stack@ =~= seq![(window, 0usize)]);
        Inspection {
            stack,
            visited: Vec::new(),
            text: String::new(),
            heading: None,
            buttons: Vec::new(),
        }
    }

    fn was_visited(&self, element: u64) -> (r: bool)
        ensures
            r == self.visited@.contains(element),
    {
        let mut i: usize = 0;
        while i < self.visited.len()
            invariant
                i <= self.visited@.len(),
                forall|k: int| 0 <= k < i ==> self.visited@[k] != element,
            decreases self.visited@.len() - i,
        {
            if self.visited[i] == element {
                assert(self.visited@[i as int] == element);
                return true;
            }
            i += 1;
        }
        false
    }

    /// Takes the next element. Nothing is looked at once pressing is no longer permitted, or once
    /// too much was looked at, too deep or for too long.
    pub fn next(&mut self, permitted: bool, in_time: bool) -> (r: Next)
        ensures
            final(self).found() == old(self).found(),
            if old(self).stack@.len() == 0 {
                r == Next::Done && final(self).stack@ == old(self).stack@ && final(self).visited@
                    == old(self).visited@
            } else {
                let (element, depth) = old(self).stack@.last();
                &&& final(self).stack@ == old(self).stack@.drop_last()
                &&& if !permitted {
                    r == Next::Refused(Skip::Stopped) && final(self).visited@ == old(self).visited@
                } else if old(self).visited@.len() >= MAX_ELEMENTS || depth > MAX_DEPTH
                    || !in_time {
                    r == Next::Refused(Skip::BudgetExceeded) && final(self).visited@ == old(
                        self).visited@
                } else if old(self).visited@.contains(element) {
                    r == Next::Seen && final(self).visited@ == old(self).visited@
                } else {
                    r == Next::Visit(element, depth) && final(self).visited@ == old(
                        self).visited@.push(element)
                }
            },
    {
        match self.stack.pop() {
            None => Next::Done,
            Some((element, depth)) => {
                if !permitted {
                    return Next::Refused(Skip::Stopped);
                }
                if self.visited.len() >= MAX_ELEMENTS || depth > MAX_DEPTH || !in_time {
                    return Next::Refused(Skip::BudgetExceeded);
                }
                if self.was_visited(element) {
                    return Next::Seen;
                }
                self.visited.push(element);
                Next::Visit(element, depth)
            },
        }
    }

    fn read_button(&mut self, element: u64, facts: &ElementFacts) -> (r: Result<(), Skip>)
        requires
            facts.role is Some,
            kind_of(facts.role->0@) == ElementKind::Button,
        ensures
            match reading(old(self).found(), *facts, element) {
                Ok(found) => r is Ok && final(self).found() == found,
                Err(skip) => r == Err::<(), Skip>(skip),
            },
            final(self).stack == old(self).stack,
            final(self).visited == old(self).visited,
    {
        let label: String = match &facts.title {
            None => {
                return Err(Skip::UnreadableButtonTitle);
            },
            Some(title) => if text::char_count(title.as_str()) > 0 {
                title.clone()
            } else {
                match &facts.description {
                    None => {
                        return Err(Skip::UnreadableButtonLabel);
                    },
                    Some(description) => description.clone(),
                }
            },
        };
        match facts.enabled {
            Enabled::Unreadable => Err(Skip::UnreadableButtonState),
            Enabled::Invalid => Err(Skip::InvalidButtonState),
            Enabled::No => Ok(()),
            Enabled::Yes => {
                let ghost before = self.buttons@;
                let ghost shown = label@;
                self.buttons.push((element, label));
                assert(button_views(self.buttons@) =~= button_views(before).push((element, shown)));
                Ok(())
            },
        }
    }

    fn read_text(&mut self, element: u64, facts: &ElementFacts) -> (r: Result<(), Skip>)
        requires
            facts.role is Some,
            kind_of(facts.role->0@) == ElementKind::Text,
        ensures
            match reading(old(self).found(), *facts, element) {
                Ok(found) => r is Ok && final(self).found() == found,
                Err(skip) => r == Err::<(), Skip>(skip),
            },
            final(self).stack == old(self).stack,
            final(self).visited == old(self).visited,
    {
        let value: String = match &facts.value {
            None => {
                return Err(Skip::UnreadableText);
            },
            Some(value) => if !text::is_blank(value.as_str()) {
                value.clone()
            } else {
                match &facts.title {
                    None => {
                        return Err(Skip::UnreadableText);
                    },
                    Some(title) => title.clone(),
                }
            },
        };
        if !text::is_blank(value.as_str()) {
            if self.heading.is_none() {
                self.heading = Some(value.clone());
            }
            self.text.append(value.as_str());
            self.text.append("\n");
        }
        Ok(())
    }

    /// Takes what was read of an element that was to be looked at. An inspection that was refused is
    /// over.
    pub fn visit(&mut self, element: u64, depth: usize, facts: &ElementFacts) -> (r: Result<(), Skip>)
        requires
            depth <= MAX_DEPTH,
        ensures
            final(self).visited == old(self).visited,
            match reading(old(self).found(), *facts, element) {
                Err(skip) => r == Err::<(), Skip>(skip),
                Ok(found) => if encode_utf8(found.text).len() > MAX_TEXT_BYTES {
                    r == Err::<(), Skip>(Skip::TextTooLong)
                } else {
                    match facts.children {
                        Children::Unreadable => r == Err::<(), Skip>(Skip::UnreadableTree),
                        Children::Unsupported => r is Ok && final(self).found() == found && final(
                            self).stack@ == old(self).stack@,
                        Children::Elements(elements) => r is Ok && final(self).found() == found
                            && final(self).stack@ == old(self).stack@ + stacked(
                            elements@,
                            (depth + 1) as usize,
                        ),
                    }
                },
            },
    {
        let kind: ElementKind = match &facts.role {
            None => {
                return Err(Skip::UnreadableRole);
            },
            Some(role) => element_kind(role.as_str()),
        };
        match kind {
            ElementKind::Editable => {
                return Err(Skip::EditableFields);
            },
            ElementKind::Button => match self.read_button(element, facts) {
                Err(skip) => {
                    return Err(skip);
                },
                Ok(()) => {},
            },
            ElementKind::Text => match self.read_text(element, facts) {
                Err(skip) => {
                    return Err(skip);
                },
                Ok(()) => {},
            },
            ElementKind::Other => {},
        }
        if self.text.as_str().as_bytes().len() > MAX_TEXT_BYTES {
            return Err(Skip::TextTooLong);
        }
        match &facts.children {
            Children::Unreadable => {
                return Err(Skip::UnreadableTree);
            },
            Children::Unsupported => {},
            Children::Elements(elements) => {
                let ghost before = self.stack@;
                let ghost found = self.found();
                let count: usize = elements.len();
                let mut i: usize = 0;
                assert(before + stacked(elements@, (depth + 1) as usize).take(0) =~= before);
                while i < count
                    invariant
                        i <= count,
                        count == elements@.len(),
                        depth <= MAX_DEPTH,
                        self.stack@ == before + stacked(elements@, (depth + 1) as usize).take(
                            i as int,
                        ),
                        self.found() == found,
                        self.visited == old(self).visited,
                    decreases count - i,
                {
                    let ghost pushed = stacked(elements@, (depth + 1) as usize);
                    assert(pushed[i as int] == (elements@[count - 1 - i], (depth + 1) as usize));
                    self.stack.push((elements[count - 1 - i], depth + 1));
                    i += 1;
                    assert(self.stack@ =~= before + pushed.take(i as int));
                }
                assert(stacked(elements@, (depth + 1) as usize).take(i as int) =~= stacked(
                    elements@,
                    (depth + 1) as usize,
                ));
            },
        }
        Ok(())
    }
}

/// A window is left alone if anything in it can be edited, whatever was found before.
pub proof fn editable_windows_are_left_alone(found: Found, facts: ElementFacts, element: u64)
    requires
        facts.role is Some,
        kind_of(facts.role->0@) == ElementKind::Editable,
    ensures
        reading(found, facts, element) == Err::<Found, Skip>(Skip::EditableFields),
{
}

/// The button that a rule names in a window.
#[derive(Debug)]
pub struct MatchedButton {
    pub button: u64,
    /// The window's title and text and the button's label, by which a window is known again.
    pub signature: String,
    pub rule: String,
    pub label: String,
}

/// The rule names a button of this label.
pub open spec fn names_button(rule: Seq<char>, selectors: DialogRule, label: Seq<char>) -> bool {
    if rule == DIRECTORY_RULE@ {
        text::listed(os_permissions::allow_labels(), text::lowercased(text::trimmed(label)))
    } else {
        selectors.button is Some && selectors.button->0@ == label
    }
}

/// The buttons that a rule names.
pub open spec fn named_buttons(
    buttons: Seq<(u64, Seq<char>)>,
    rule: Seq<char>,
    selectors: DialogRule,
) -> Seq<(u64, Seq<char>)> {
    buttons.filter(|button: (u64, Seq<char>)| names_button(rule, selectors, button.1))
}

/// The first text of a window, empty where it has none.
pub open spec fn heading_of(found: Found) -> Seq<char> {
    match found.heading {
        Some(heading) => heading,
        None => Seq::empty(),
    }
}

/// By what a window with a button is known again.
pub open spec fn signature_of(title: Seq<char>, text: Seq<char>, label: Seq<char>) -> Seq<char> {
    title + "\n"@ + text + "\n"@ + label
}

/// `matched` is the one button that the one rule that answers the window names.
pub open spec fn is_match(
    matched: MatchedButton,
    found: Found,
    rules: Seq<(String, DialogRule)>,
    title: Seq<char>,
) -> bool {
    &&& rules.len() == 1
    &&& named_buttons(found.buttons, rules[0].0@, rules[0].1) == seq![
        (matched.button, matched.label@),
    ]
    &&& matched.rule == rules[0].0
    &&& matched.signature@ == signature_of(title, found.text, matched.label@)
}

fn has_button(rule: &str, selectors: &DialogRule, label: &str) -> (r: bool)
    ensures
        r == names_button(rule@, *selectors, label@),
{
    if text::same(rule, DIRECTORY_RULE) {
        os_permissions::is_allow_button(label)
    } else {
        match &selectors.button {
            Some(button) => text::same(button.as_str(), label),
            None => false,
        }
    }
}

impl Inspection {
    /// The button to press in a window of an application, after all of it was looked at: exactly
    /// one rule must answer the window, and it must name exactly one button.
    pub fn matching_button(
        &self,
        rules: &DialogSettings,
        executable: &str,
        bundle: &str,
        title: &str,
    ) -> (r: Result<MatchedButton, Skip>)
        ensures
            ({
                let answering = rules.answering(
                    executable@,
                    bundle@,
                    title@,
                    heading_of(self.found()),
                );
                match r {
                    Ok(matched) => is_match(matched, self.found(), answering, title@),
                    Err(Skip::NoRule) => answering.len() == 0,
                    Err(Skip::SeveralRules) => answering.len() > 1,
                    Err(Skip::NotOneButton) => answering.len() == 1 && named_buttons(
                        self.found().buttons,
                        answering[0].0@,
                        answering[0].1,
                    ).len() != 1,
                    Err(_) => false,
                }
            }),
    {
        let heading: &str = match &self.heading {
            Some(heading) => heading.as_str(),
            None => "",
        };
        proof {
            reveal_strlit("");
            assert(""@ =~= Seq::<char>::empty());
        }
        let matches = rules.matching(executable, bundle, title, heading);
        let ghost answering = rules.answering(
            executable@,
            bundle@,
            title@,
            heading_of(self.found()),
        );
        let ghost plain = |found: (&String, &DialogRule)| (*found.0, *found.1);
        assert(matches@.map_values(plain) == answering);
        assert(matches@.len() == answering.len());
        if matches.len() == 0 {
            return Err(Skip::NoRule);
        }
        if matches.len() > 1 {
            return Err(Skip::SeveralRules);
        }
        let rule: &String = matches[0].0;
        let selectors: &DialogRule = matches[0].1;
        assert(matches@.map_values(plain)[0] == (*rule, *selectors));
        let ghost all = button_views(self.buttons@);
        let ghost keep = |button: (u64, Seq<char>)| names_button(rule@, *selectors, button.1);
        let mut found: Option<usize> = None;
        let mut count: usize = 0;
        let mut i: usize = 0;
        assert(all.take(0).filter(keep) =~= Seq::empty()) by {
            reveal(Seq::filter);
        }
        while i < self.buttons.len()
            invariant
                i <= self.buttons@.len(),
                all == button_views(self.buttons@),
                keep == (|button: (u64, Seq<char>)| names_button(rule@, *selectors, button.1)),
                count == all.take(i as int).filter(keep).len(),
                count <= i,
                match found {
                    Some(at) => at < i && all.take(i as int).filter(keep).last() == all[at as int]
                        && count > 0,
                    None => count == 0,
                },
            decreases self.buttons@.len() - i,
        {
            proof {
                all.take(i as int).lemma_filter_push(all[i as int], keep);
                assert(all.take(i + 1) =~= all.take(i as int).push(all[i as int]));
            }
            if has_button(rule.as_str(), selectors, self.buttons[i].1.as_str()) {
                found = Some(i);
                count += 1;
            }
            i += 1;
        }
        assert(all.take(i as int) =~= all);
        let at: usize = match found {
            Some(at) if count == 1 => at,
            _ => {
                return Err(Skip::NotOneButton);
            },
        };
        let button: u64 = self.buttons[at].0;
        let label = self.buttons[at].1.clone();
        let signature = title.to_owned().concat("\n").concat(self.text.as_str()).concat(
            "\n",
        ).concat(label.as_str());
        assert(all.filter(keep) =~= seq![(button, label@)]);
        Ok(MatchedButton { button, signature, rule: rule.clone(), label })
    }
}

} // verus!
