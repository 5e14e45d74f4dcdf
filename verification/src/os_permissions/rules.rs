//! The rules that say which dialogs are answered.

use vstd::prelude::*;
use vstd::string::*;
use vstd::utf8::*;

use crate::os_permissions;
use crate::text;
use crate::textmap;
use crate::textmap::TextMap;

verus! {

/// The name of the built-in rule for directory consent dialogs.
pub const DIRECTORY_RULE: &'static str = "directory-access";

/// The most rules that are supported.
pub const MAX_RULES: usize = 100;

/// The longest name of a rule, in bytes.
pub const MAX_NAME_BYTES: usize = 80;

/// The longest value that a rule matches, in bytes.
pub const MAX_VALUE_BYTES: usize = 512;

/// Which dialogs one rule answers, and how.
#[derive(Debug)]
pub struct DialogRule {
    pub enabled: bool,
    /// Exact bundle identifier or absolute executable path of the window's owner.
    pub app: Option<String>,
    /// Exact window title.
    pub title: Option<String>,
    /// Part of the primary static text, not of supplementary descriptions.
    pub text: Option<String>,
    /// Exact button label.
    pub button: Option<String>,
}

impl Default for DialogRule {
    fn default() -> (r: Self)
        ensures
            r.enabled,
            r.app is None,
            r.title is None,
            r.text is None,
            r.button is None,
    {
        DialogRule { enabled: true, app: None, title: None, text: None, button: None }
    }
}

impl Clone for DialogRule {
    fn clone(&self) -> (r: Self)
        ensures
            r == *self,
    {
        DialogRule {
            enabled: self.enabled,
            app: self.app.clone(),
            title: self.title.clone(),
            text: self.text.clone(),
            button: self.button.clone(),
        }
    }
}

/// The rules by name.
#[derive(Debug)]
pub struct DialogSettings {
    pub rules: TextMap<DialogRule>,
}

impl Default for DialogSettings {
    fn default() -> (r: Self)
        ensures
            r.by_default(),
            r.valid(),
    {
        let mut rules: TextMap<DialogRule> = TextMap::new();
        rules.insert(DIRECTORY_RULE.to_owned(), DialogRule::default());
        proof {
            assert(rules@.dom() =~= set![DIRECTORY_RULE@]);
            lemma_directory_rule_name_is_valid();
            assert forall|name: Seq<char>| #[trigger] rules@.contains_key(name) implies
                rule_problem(name, rules@[name]) is None by {
                assert(name == DIRECTORY_RULE@);
            }
        }
        DialogSettings { rules }
    }
}

proof fn lemma_directory_rule_name_is_valid()
    ensures
        valid_name(DIRECTORY_RULE@),
{
    reveal_strlit("directory-access");
    assert(is_ascii_chars(DIRECTORY_RULE@));
    is_ascii_chars_encode_utf8(DIRECTORY_RULE@);
}

impl Clone for DialogSettings {
    fn clone(&self) -> (r: Self)
        ensures
            r.rules.entries() == self.rules.entries(),
            r.rules@ == self.rules@,
    {
        let rules = self.rules.clone();
        assert(rules.entries() =~= self.rules.entries());
        DialogSettings { rules }
    }
}

/// What can be wrong with a rule.
#[derive(Clone, Copy, Debug, PartialEq, Eq, Structural)]
pub enum RuleProblem {
    /// The name is empty, too long or holds an unusual character.
    InvalidName,
    /// A value is blank, too long or holds a control character.
    InvalidValue,
    /// The built-in rule has selectors.
    BuiltIn,
    /// The rule lacks an application, a button, or both a title and a text.
    MissingSelectors,
    /// The application is neither a bundle identifier nor an absolute path.
    InexactApp,
}

/// Why dialog settings are refused.
#[derive(Debug)]
pub enum DialogError {
    TooManyRules,
    Rule(String, RuleProblem),
}

impl DialogError {
    /// The error in words.
    pub open spec fn message_view(self) -> Seq<char> {
        match self {
            DialogError::TooManyRules => "at most 100 dialog rules are supported"@,
            DialogError::Rule(name, RuleProblem::InvalidName) => "invalid dialog rule name: "@
                + name@,
            DialogError::Rule(name, RuleProblem::InvalidValue) => "dialog rule "@ + name@
                + " requires nonempty, single-line match values (up to 512 bytes)"@,
            DialogError::Rule(_, RuleProblem::BuiltIn) =>
                "directory-access is built in; only enabled can be changed"@,
            DialogError::Rule(name, RuleProblem::MissingSelectors) => "dialog rule "@ + name@
                + " requires app, button, and title or text"@,
            DialogError::Rule(name, RuleProblem::InexactApp) => "dialog rule "@ + name@
                + ": app must be an exact bundle ID or absolute executable path"@,
        }
    }

    /// The error in words.
    pub fn message(&self) -> (r: String)
        ensures
            r@ == self.message_view(),
    {
        match self {
            DialogError::TooManyRules => "at most 100 dialog rules are supported".to_owned(),
            DialogError::Rule(name, problem) => match problem {
                RuleProblem::InvalidName => "invalid dialog rule name: ".to_owned().concat(
                    name.as_str(),
                ),
                RuleProblem::InvalidValue => "dialog rule ".to_owned().concat(
                    name.as_str(),
                ).concat(" requires nonempty, single-line match values (up to 512 bytes)"),
                RuleProblem::BuiltIn =>
                    "directory-access is built in; only enabled can be changed".to_owned(),
                RuleProblem::MissingSelectors => "dialog rule ".to_owned().concat(
                    name.as_str(),
                ).concat(" requires app, button, and title or text"),
                RuleProblem::InexactApp => "dialog rule ".to_owned().concat(
                    name.as_str(),
                ).concat(": app must be an exact bundle ID or absolute executable path"),
            },
        }
    }
}

/// A character that may stand in the name of a rule.
pub open spec fn name_char(c: char) -> bool {
    'a' <= c <= 'z' || 'A' <= c <= 'Z' || '0' <= c <= '9' || c == '-' || c == '_' || c == '.'
}

/// A name that a rule may have.
pub open spec fn valid_name(name: Seq<char>) -> bool {
    &&& name.len() > 0
    &&& encode_utf8(name).len() <= MAX_NAME_BYTES
    &&& forall|i: int| 0 <= i < name.len() ==> name_char(#[trigger] name[i])
}

/// A value that a rule may match: not blank, of one line and not too long.
pub open spec fn valid_value(value: Seq<char>) -> bool {
    &&& !text::blank(value)
    &&& encode_utf8(value).len() <= MAX_VALUE_BYTES
    &&& forall|i: int| 0 <= i < value.len() ==> !text::control(#[trigger] value[i])
}

/// A value that a rule may match, or none.
pub open spec fn valid_optional(value: Option<String>) -> bool {
    match value {
        Some(value) => valid_value(value@),
        None => true,
    }
}

/// The rule selects nothing itself.
pub open spec fn built_in(rule: DialogRule) -> bool {
    rule.app is None && rule.title is None && rule.text is None && rule.button is None
}

/// An absolute path, or a dotted identifier without wildcards and spaces.
pub open spec fn exact_app(app: Seq<char>) -> bool {
    ||| text::occurs_at(app, "/"@, 0)
    ||| app.contains('.') && !app.contains('*') && !app.contains('?') && !app.contains(' ')
}

/// What is wrong with a rule, taking the checks in order.
pub open spec fn rule_problem(name: Seq<char>, rule: DialogRule) -> Option<RuleProblem> {
    if !valid_name(name) {
        Some(RuleProblem::InvalidName)
    } else if !(valid_optional(rule.app) && valid_optional(rule.title) && valid_optional(rule.text)
        && valid_optional(rule.button)) {
        Some(RuleProblem::InvalidValue)
    } else if name == DIRECTORY_RULE@ && !built_in(rule) {
        Some(RuleProblem::BuiltIn)
    } else if name != DIRECTORY_RULE@ && (rule.app is None || rule.button is None || (
    rule.title is None && rule.text is None)) {
        Some(RuleProblem::MissingSelectors)
    } else if rule.app is Some && !exact_app(rule.app->0@) {
        Some(RuleProblem::InexactApp)
    } else {
        None
    }
}

fn is_valid_name(name: &str) -> (r: bool)
    ensures
        r == valid_name(name@),
{
    let chars = text::chars_of(name);
    if chars.len() == 0 || name.as_bytes().len() > MAX_NAME_BYTES {
        return false;
    }
    let mut i: usize = 0;
    while i < chars.len()
        invariant
            i <= chars@.len(),
            chars@ == name@,
            forall|k: int| 0 <= k < i ==> name_char(#[trigger] name@[k]),
        decreases chars@.len() - i,
    {
        let c: char = chars[i];
        if !(('a' <= c && c <= 'z') || ('A' <= c && c <= 'Z') || ('0' <= c && c <= '9') || c == '-'
            || c == '_' || c == '.') {
            assert(!name_char(name@[i as int]));
            return false;
        }
        i += 1;
    }
    true
}

fn is_valid_optional(value: &Option<String>) -> (r: bool)
    ensures
        r == valid_optional(*value),
{
    match value {
        None => true,
        Some(value) => {
            let s: &str = value.as_str();
            !text::is_blank(s) && s.as_bytes().len() <= MAX_VALUE_BYTES && !text::has_control(s)
        },
    }
}

fn is_exact_app(app: &str) -> (r: bool)
    ensures
        r == exact_app(app@),
{
    text::starts_with(app, "/") || (text::contains_char(app, '.') && !text::contains_char(app, '*')
        && !text::contains_char(app, '?') && !text::contains_char(app, ' '))
}

/// What is wrong with a rule, if anything is.
pub fn check_rule(name: &str, rule: &DialogRule) -> (r: Option<RuleProblem>)
    ensures
        r == rule_problem(name@, *rule),
{
    if !is_valid_name(name) {
        return Some(RuleProblem::InvalidName);
    }
    if !(is_valid_optional(&rule.app) && is_valid_optional(&rule.title) && is_valid_optional(
        &rule.text,
    ) && is_valid_optional(&rule.button)) {
        return Some(RuleProblem::InvalidValue);
    }
    if text::same(name, DIRECTORY_RULE) {
        if rule.app.is_some() || rule.title.is_some() || rule.text.is_some()
            || rule.button.is_some() {
            return Some(RuleProblem::BuiltIn);
        }
    } else if rule.app.is_none() || rule.button.is_none() || (rule.title.is_none()
        && rule.text.is_none()) {
        return Some(RuleProblem::MissingSelectors);
    }
    match &rule.app {
        Some(app) => if !is_exact_app(app.as_str()) {
            return Some(RuleProblem::InexactApp);
        },
        None => {},
    }
    None
}

/// The rule is that of the application at `executable`, or with the identifier `bundle`.
pub open spec fn rule_app_is(rule: DialogRule, executable: Seq<char>, bundle: Seq<char>) -> bool {
    rule.app is Some && (rule.app->0@ == executable || rule.app->0@ == bundle)
}

/// The executable belongs to the system.
pub open spec fn system_executable(executable: Seq<char>) -> bool {
    text::occurs_at(executable, "/System/Library/"@, 0)
}

/// The rule is about windows of the application.
pub open spec fn rule_observes(
    name: Seq<char>,
    rule: DialogRule,
    executable: Seq<char>,
    bundle: Seq<char>,
) -> bool {
    rule.enabled && if name == DIRECTORY_RULE@ {
        system_executable(executable)
    } else {
        rule_app_is(rule, executable, bundle)
    }
}

/// The rule answers a dialog of the application with this title and heading.
pub open spec fn rule_matches(
    name: Seq<char>,
    rule: DialogRule,
    executable: Seq<char>,
    bundle: Seq<char>,
    title: Seq<char>,
    heading: Seq<char>,
) -> bool {
    rule.enabled && if name == DIRECTORY_RULE@ {
        system_executable(executable) && os_permissions::directory_heading(
            text::lowercased(text::trimmed(heading)),
        )
    } else {
        &&& rule_app_is(rule, executable, bundle)
        &&& rule.title is Some ==> rule.title->0@ == title
        &&& rule.text is Some ==> text::contains_text(heading, rule.text->0@)
    }
}

fn is_rule_app(rule: &DialogRule, executable: &str, bundle: &str) -> (r: bool)
    ensures
        r == rule_app_is(*rule, executable@, bundle@),
{
    match &rule.app {
        Some(app) => text::same(app.as_str(), executable) || text::same(app.as_str(), bundle),
        None => false,
    }
}

fn does_match(
    name: &str,
    rule: &DialogRule,
    executable: &str,
    bundle: &str,
    title: &str,
    heading: &str,
) -> (r: bool)
    ensures
        r == rule_matches(name@, *rule, executable@, bundle@, title@, heading@),
{
    if !rule.enabled {
        return false;
    }
    if text::same(name, DIRECTORY_RULE) {
        return text::starts_with(executable, "/System/Library/")
            && os_permissions::is_file_access_request(heading);
    }
    if !is_rule_app(rule, executable, bundle) {
        return false;
    }
    let title_matches = match &rule.title {
        Some(expected) => text::same(expected.as_str(), title),
        None => true,
    };
    let text_matches = match &rule.text {
        Some(expected) => text::contains(heading, expected.as_str()),
        None => true,
    };
    title_matches && text_matches
}

impl DialogSettings {
    /// The only rule is the built-in one, and it is enabled.
    pub open spec fn by_default(self) -> bool {
        &&& self.rules@.dom() == set![DIRECTORY_RULE@]
        &&& built_in(self.rules@[DIRECTORY_RULE@])
        &&& self.rules@[DIRECTORY_RULE@].enabled
    }

    /// Whether the rules are the default ones.
    pub fn is_default(&self) -> (r: bool)
        ensures
            r == self.by_default(),
    {
        let count: usize = self.rules.len();
        let ghost entries = self.rules.entries();
        proof {
            if self.by_default() {
                assert(self.rules@.contains_key(DIRECTORY_RULE@));
                assert(has_one_key(entries, DIRECTORY_RULE@));
                lemma_one_key(entries, DIRECTORY_RULE@);
            }
        }
        if count != 1 {
            return false;
        }
        match self.rules.get(DIRECTORY_RULE) {
            None => false,
            Some(rule) => {
                proof {
                    textmap::lemma_key_is_unique(entries, 0);
                    assert(entries[textmap::key_index(entries, DIRECTORY_RULE@)].0@
                        == DIRECTORY_RULE@);
                    assert(self.rules@.dom() =~= set![DIRECTORY_RULE@]);
                }
                rule.enabled && rule.app.is_none() && rule.title.is_none() && rule.text.is_none()
                    && rule.button.is_none()
            },
        }
    }
}

spec fn has_one_key(entries: Seq<(String, DialogRule)>, key: Seq<char>) -> bool {
    textmap::map_of(entries).dom() == set![key]
}

proof fn lemma_one_key(entries: Seq<(String, DialogRule)>, key: Seq<char>)
    requires
        textmap::ordered(entries),
        has_one_key(entries, key),
    ensures
        entries.len() == 1,
{
    assert(textmap::map_of(entries).contains_key(key));
    let i = textmap::key_index(entries, key);
    assert(entries[i].0@ == key);
    if entries.len() > 1 {
        textmap::lemma_key_is_unique(entries, 0);
        textmap::lemma_key_is_unique(entries, 1);
        assert(set![key].contains(entries[0].0@));
        assert(set![key].contains(entries[1].0@));
        textmap::lemma_text_order_is_total(key, key);
        assert(textmap::text_less(entries[0].0@, entries[1].0@));
    }
}

impl DialogSettings {
    /// The entry at `index` is the first with a problem, and `problem` is it.
    pub open spec fn first_problem(self, index: int, problem: RuleProblem) -> bool {
        let entries = self.rules.entries();
        &&& 0 <= index < entries.len()
        &&& rule_problem(entries[index].0@, entries[index].1) == Some(problem)
        &&& forall|k: int|
            0 <= k < index ==> rule_problem((#[trigger] entries[k]).0@, entries[k].1) is None
    }

    /// The settings can be used: there are not too many rules and none has a problem.
    pub open spec fn valid(self) -> bool {
        &&& self.rules.entries().len() <= MAX_RULES
        &&& forall|name: Seq<char>| #[trigger]
            self.rules@.contains_key(name) ==> rule_problem(name, self.rules@[name]) is None
    }

    /// `error` is the first thing that is wrong with the settings.
    pub open spec fn refused_for(self, error: DialogError) -> bool {
        match error {
            DialogError::TooManyRules => self.rules.entries().len() > MAX_RULES,
            DialogError::Rule(name, problem) => {
                &&& self.rules.entries().len() <= MAX_RULES
                &&& exists|i: int| #[trigger]
                    self.first_problem(i, problem) && self.rules.entries()[i].0@ == name@
            },
        }
    }

    /// Checks the number of rules, then each rule in the order of their names.
    pub fn validate(&self) -> (r: Result<(), DialogError>)
        ensures
            r is Ok <==> self.valid(),
            r matches Err(error) ==> self.refused_for(error),
    {
        let count: usize = self.rules.len();
        if count > MAX_RULES {
            return Err(DialogError::TooManyRules);
        }
        let ghost entries = self.rules.entries();
        let mut i: usize = 0;
        while i < count
            invariant
                i <= count,
                count == entries.len(),
                entries == self.rules.entries(),
                textmap::ordered(entries),
                self.rules@ == textmap::map_of(entries),
                count <= MAX_RULES,
                forall|k: int|
                    0 <= k < i ==> rule_problem((#[trigger] entries[k]).0@, entries[k].1) is None,
            decreases count - i,
        {
            let name = self.rules.key_at(i);
            match check_rule(name.as_str(), self.rules.value_at(i)) {
                Some(problem) => {
                    proof {
                        assert(self.first_problem(i as int, problem));
                        textmap::lemma_key_is_unique(entries, i as int);
                        assert(self.rules@.contains_key(entries[i as int].0@));
                    }
                    return Err(DialogError::Rule(name.clone(), problem));
                },
                None => {},
            }
            i += 1;
        }
        proof {
            assert forall|name: Seq<char>| #[trigger] self.rules@.contains_key(name) implies
                rule_problem(name, self.rules@[name]) is None by {
                let k = textmap::key_index(entries, name);
                assert(entries[k].0@ == name);
                textmap::lemma_key_is_unique(entries, k);
            }
        }
        Ok(())
    }

    /// Some rule is about windows of the application.
    pub open spec fn observing(self, executable: Seq<char>, bundle: Seq<char>) -> bool {
        exists|name: Seq<char>| #[trigger]
            self.rules@.contains_key(name) && rule_observes(
                name,
                self.rules@[name],
                executable,
                bundle,
            )
    }

    /// Whether some rule is about windows of the application.
    pub fn observes(&self, executable: &str, bundle: &str) -> (r: bool)
        ensures
            r == self.observing(executable@, bundle@),
    {
        let count: usize = self.rules.len();
        let ghost entries = self.rules.entries();
        let mut i: usize = 0;
        while i < count
            invariant
                i <= count,
                count == entries.len(),
                entries == self.rules.entries(),
                textmap::ordered(entries),
                self.rules@ == textmap::map_of(entries),
                forall|k: int|
                    0 <= k < i ==> !rule_observes(
                        (#[trigger] entries[k]).0@,
                        entries[k].1,
                        executable@,
                        bundle@,
                    ),
            decreases count - i,
        {
            let name = self.rules.key_at(i);
            let rule = self.rules.value_at(i);
            proof {
                textmap::lemma_key_is_unique(entries, i as int);
            }
            let about = if text::same(name.as_str(), DIRECTORY_RULE) {
                text::starts_with(executable, "/System/Library/")
            } else {
                is_rule_app(rule, executable, bundle)
            };
            if rule.enabled && about {
                assert(self.rules@.contains_key(entries[i as int].0@));
                return true;
            }
            i += 1;
        }
        proof {
            assert forall|name: Seq<char>| #[trigger] self.rules@.contains_key(name) implies
                !rule_observes(name, self.rules@[name], executable@, bundle@) by {
                let k = textmap::key_index(entries, name);
                assert(entries[k].0@ == name);
                textmap::lemma_key_is_unique(entries, k);
            }
        }
        false
    }

    /// The names of the rules that answer a dialog, in order.
    pub open spec fn answering(
        self,
        executable: Seq<char>,
        bundle: Seq<char>,
        title: Seq<char>,
        heading: Seq<char>,
    ) -> Seq<(String, DialogRule)> {
        self.rules.entries().filter(
            |entry: (String, DialogRule)|
                rule_matches(entry.0@, entry.1, executable, bundle, title, heading),
        )
    }

    /// The rules that answer a dialog. More than one is ambiguous, even where they name the same
    /// button.
    pub fn matching(&self, executable: &str, bundle: &str, title: &str, heading: &str) -> (r: Vec<
        (&String, &DialogRule),
    >)
        ensures
            r@.map_values(|found: (&String, &DialogRule)| (*found.0, *found.1)) == self.answering(
                executable@,
                bundle@,
                title@,
                heading@,
            ),
    {
        let count: usize = self.rules.len();
        let ghost entries = self.rules.entries();
        let ghost accepts = |entry: (String, DialogRule)|
            rule_matches(entry.0@, entry.1, executable@, bundle@, title@, heading@);
        let ghost plain = |found: (&String, &DialogRule)| (*found.0, *found.1);
        let mut r: Vec<(&String, &DialogRule)> = Vec::new();
        let mut i: usize = 0;
        assert(entries.take(0).filter(accepts) =~= Seq::empty()) by {
            reveal(Seq::filter);
        }
        assert(r@.map_values(plain) =~= Seq::empty());
        while i < count
            invariant
                i <= count,
                count == entries.len(),
                entries == self.rules.entries(),
                accepts == (|entry: (String, DialogRule)|
                    rule_matches(entry.0@, entry.1, executable@, bundle@, title@, heading@)),
                plain == (|found: (&String, &DialogRule)| (*found.0, *found.1)),
                r@.map_values(plain) == entries.take(i as int).filter(accepts),
            decreases count - i,
        {
            let name = self.rules.key_at(i);
            let rule = self.rules.value_at(i);
            proof {
                entries.take(i as int).lemma_filter_push(entries[i as int], accepts);
                assert(entries.take(i + 1) =~= entries.take(i as int).push(entries[i as int]));
            }
            let ghost before = r@;
            if does_match(name.as_str(), rule, executable, bundle, title, heading) {
                r.push((name, rule));
                assert(r@.map_values(plain) =~= before.map_values(plain).push(entries[i as int]));
            }
            i += 1;
        }
        assert(entries.take(i as int) =~= entries);
        r
    }
}

} // verus!
