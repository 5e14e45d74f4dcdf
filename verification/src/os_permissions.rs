//! Recognition of the desktop's directory consent dialogs.

pub mod applications;
pub mod dialogs;
pub mod events;
pub mod monitor;
pub mod rules;
pub mod window;

use vstd::prelude::*;
use vstd::string::*;

use crate::text;

verus! {

/// What the dialog handler last reported.
#[derive(Debug, Default)]
pub struct Status {
    pub state: String,
    pub listening_processes: usize,
    pub unavailable_processes: usize,
    pub clicks_sent: usize,
    pub dialogs_closed: usize,
    pub last_result: Option<String>,
}

/// The reported status, or the one before any report: whether the desktop is supported decides it.
pub fn status(reported: Option<Status>, supported: bool) -> (r: Status)
    ensures
        match reported {
            Some(current) => r == current,
            None => {
                &&& r.state@ == (if supported {
                    "not_started"@
                } else {
                    "unsupported"@
                })
                &&& r.listening_processes == 0
                &&& r.unavailable_processes == 0
                &&& r.clicks_sent == 0
                &&& r.dialogs_closed == 0
                &&& r.last_result is None
            },
        },
{
    match reported {
        Some(current) => current,
        None => Status {
            state: if supported {
                "not_started".to_owned()
            } else {
                "unsupported".to_owned()
            },
            listening_processes: 0,
            unavailable_processes: 0,
            clicks_sent: 0,
            dialogs_closed: 0,
            last_result: None,
        },
    }
}

/// The permission to press buttons. It ends with the service.
#[derive(Debug, PartialEq, Eq, Structural)]
pub struct Guard {
    pub permitted: bool,
}

/// Starts handling dialogs: the permission to press, and what is reported at first. Without a
/// desktop whose events can be waited for nothing is handled.
pub fn start(event_loop: bool) -> (r: (Guard, &'static str))
    ensures
        r.0.permitted,
        r.1@ == (if event_loop {
            "starting"@
        } else {
            "no_desktop_event_loop"@
        }),
{
    (
        Guard { permitted: true },
        if event_loop {
            "starting"
        } else {
            "no_desktop_event_loop"
        },
    )
}

impl Guard {
    /// Ends the permission: nothing is pressed afterwards.
    pub fn stop(&mut self)
        ensures
            !final(self).permitted,
    {
        self.permitted = false;
    }
}

/// What follows the first phrase of the list that `s` begins with.
pub open spec fn after_phrase(s: Seq<char>, phrases: Seq<&'static str>) -> Option<Seq<char>>
    decreases phrases.len(),
{
    if phrases.len() == 0 {
        None
    } else if text::occurs_at(s, phrases[0]@, 0) {
        Some(s.skip(phrases[0]@.len() as int))
    } else {
        after_phrase(s, phrases.skip(1))
    }
}

fn strip_phrase(s: &str, phrases: &Vec<&'static str>) -> (r: Option<String>)
    ensures
        match r {
            Some(rest) => after_phrase(s@, phrases@) == Some(rest@),
            None => after_phrase(s@, phrases@) is None,
        },
{
    let chars = text::chars_of(s);
    let mut i: usize = 0;
    assert(phrases@.skip(0) =~= phrases@);
    while i < phrases.len()
        invariant
            i <= phrases@.len(),
            chars@ == s@,
            after_phrase(s@, phrases@.skip(i as int)) == after_phrase(s@, phrases@),
        decreases phrases@.len() - i,
    {
        if text::starts_with(s, phrases[i]) {
            let count: usize = text::char_count(phrases[i]);
            let rest = text::from_chars(
                vstd::slice::slice_subrange(chars.as_slice(), count, chars.len()),
            );
            assert(rest@ =~= s@.skip(count as int));
            return Some(rest);
        }
        assert(phrases@.skip(i as int).skip(1) =~= phrases@.skip(i + 1));
        i += 1;
    }
    None
}

/// A text of exactly one line: there is something, and no line break but perhaps at the end.
pub open spec fn single_line(s: Seq<char>) -> bool {
    s.len() > 0 && forall|i: int| 0 <= i < s.len() - 1 ==> s[i] != '\n'
}

fn is_single_line(s: &str) -> (r: bool)
    ensures
        r == single_line(s@),
{
    let chars = text::chars_of(s);
    if chars.len() == 0 {
        return false;
    }
    let mut i: usize = 0;
    while i < chars.len() - 1
        invariant
            i < chars@.len(),
            chars@ == s@,
            forall|k: int| 0 <= k < i ==> s@[k] != '\n',
        decreases chars@.len() - i,
    {
        if chars[i] == '\n' {
            return false;
        }
        i += 1;
    }
    true
}

/// What follows the quoted name that `s` begins with, without white space around it.
pub open spec fn after_quotation(s: Seq<char>, open: char, close: Seq<char>) -> Option<Seq<char>> {
    if s.len() > 0 && s[0] == open {
        match text::split_once_view(s.skip(1), close) {
            Some((_, rest)) => Some(text::trimmed(rest)),
            None => None,
        }
    } else {
        None
    }
}

fn strip_quotation(s: &str, open: char, close: &str) -> (r: Option<String>)
    ensures
        match r {
            Some(rest) => after_quotation(s@, open, close@) == Some(rest@),
            None => after_quotation(s@, open, close@) is None,
        },
{
    let chars = text::chars_of(s);
    if chars.len() == 0 || chars[0] != open {
        return None;
    }
    let tail = text::from_chars(vstd::slice::slice_subrange(chars.as_slice(), 1, chars.len()));
    assert(tail@ =~= s@.skip(1));
    match text::split_once(tail.as_str(), close) {
        Some((_, rest)) => Some(text::trim(rest.as_str())),
        None => None,
    }
}

/// What follows the quoted application name of a consent heading.
pub open spec fn after_application(s: Seq<char>) -> Option<Seq<char>> {
    match after_quotation(s, '\u{201c}', "”"@) {
        Some(rest) => Some(rest),
        None => match after_quotation(s, '"', "\""@) {
            Some(rest) => Some(rest),
            None => after_quotation(s, '\u{300c}', "」"@),
        },
    }
}

/// The English phrases that ask for access.
pub open spec fn english_phrases() -> Seq<&'static str> {
    seq!["would like to access ", "wants to access "]
}

/// The directory resources of English headings.
pub open spec fn english_resources() -> Seq<&'static str> {
    seq![
        "files on a removable volume",
        "files on a network volume",
        "a removable volume",
        "a network volume",
        "files in your desktop folder",
        "files in your documents folder",
        "files in your downloads folder",
    ]
}

/// The Chinese phrases that ask for access.
pub open spec fn chinese_phrases() -> Seq<&'static str> {
    seq!["想要访问", "想访问", "希望访问", "想要存取", "想存取"]
}

/// The directory resources of Chinese headings.
pub open spec fn chinese_resources() -> Seq<&'static str> {
    seq![
        "可移除宗卷上的文件",
        "可移动宗卷上的文件",
        "网络宗卷上的文件",
        "可卸除卷宗上的檔案",
        "網路卷宗上的檔案",
        "可移除宗卷上的檔案",
        "“桌面”文件夹中的文件",
        "“文稿”文件夹中的文件",
        "“下载”文件夹中的文件",
        "「桌面」檔案夾中的檔案",
        "「文件」檔案夾中的檔案",
        "「下載項目」檔案夾中的檔案",
    ]
}

/// What follows the application asks for access to a directory: an English phrase decides over a
/// Chinese one, and full stops at the end do not count.
pub open spec fn asks_for_directory(rest: Seq<char>) -> bool {
    match after_phrase(rest, english_phrases()) {
        Some(resource) => text::listed(english_resources(), text::trimmed_end_char(resource, '.')),
        None => match after_phrase(rest, chinese_phrases()) {
            Some(resource) => text::listed(
                chinese_resources(),
                text::trimmed_end_char(resource, '\u{3002}'),
            ),
            None => false,
        },
    }
}

/// A complete consent heading, trimmed and in lower case, that asks for access to a directory.
pub open spec fn directory_heading(lower: Seq<char>) -> bool {
    single_line(lower) && match after_application(lower) {
        Some(rest) => asks_for_directory(rest),
        None => false,
    }
}

/// Whether what follows the application in a heading asks for access to a directory.
pub fn asks_for_directory_access(rest: &str) -> (r: bool)
    ensures
        r == asks_for_directory(rest@),
{
    let english: Vec<&'static str> = vec!["would like to access ", "wants to access "];
    assert(english@ =~= english_phrases());
    if let Some(resource) = strip_phrase(rest, &english) {
        let resource = text::trim_end_char(resource.as_str(), '.');
        let resources: Vec<&'static str> = vec![
            "files on a removable volume",
            "files on a network volume",
            "a removable volume",
            "a network volume",
            "files in your desktop folder",
            "files in your documents folder",
            "files in your downloads folder",
        ];
        assert(resources@ =~= english_resources());
        return text::one_of(&resources, resource.as_str());
    }
    let chinese: Vec<&'static str> = vec!["想要访问", "想访问", "希望访问", "想要存取", "想存取"];
    assert(chinese@ =~= chinese_phrases());
    if let Some(resource) = strip_phrase(rest, &chinese) {
        let resource = text::trim_end_char(resource.as_str(), '\u{3002}');
        let resources: Vec<&'static str> = vec![
            "可移除宗卷上的文件",
            "可移动宗卷上的文件",
            "网络宗卷上的文件",
            "可卸除卷宗上的檔案",
            "網路卷宗上的檔案",
            "可移除宗卷上的檔案",
            "“桌面”文件夹中的文件",
            "“文稿”文件夹中的文件",
            "“下载”文件夹中的文件",
            "「桌面」檔案夾中的檔案",
            "「文件」檔案夾中的檔案",
            "「下載項目」檔案夾中的檔案",
        ];
        assert(resources@ =~= chinese_resources());
        return text::one_of(&resources, resource.as_str());
    }
    false
}

/// Whether a heading, trimmed and in lower case, asks for access to a directory.
pub fn is_directory_heading(lower: &str) -> (r: bool)
    ensures
        r == directory_heading(lower@),
{
    if !is_single_line(lower) {
        return false;
    }
    let rest = match strip_quotation(lower, '\u{201c}', "”") {
        Some(rest) => rest,
        None => match strip_quotation(lower, '"', "\"") {
            Some(rest) => rest,
            None => match strip_quotation(lower, '\u{300c}', "」") {
                Some(rest) => rest,
                None => {
                    return false;
                },
            },
        },
    };
    asks_for_directory_access(rest.as_str())
}

/// Whether a dialog's heading asks for access to a directory. Only a complete consent heading
/// does: no other text and no application name is searched.
pub fn is_file_access_request(heading: &str) -> (r: bool)
    ensures
        r == directory_heading(text::lowercased(text::trimmed(heading@))),
{
    let trimmed = text::trim(heading);
    let lower = text::to_lowercase(trimmed.as_str());
    is_directory_heading(lower.as_str())
}

/// The quotation marks that stand around the name of an application.
pub open spec fn is_quotation(open: char, close: char) -> bool {
    ||| open == '\u{201c}' && close == '\u{201d}'
    ||| open == '"' && close == '"'
    ||| open == '\u{300c}' && close == '\u{300d}'
}

/// A heading that begins with the quoted name of an application.
pub open spec fn heading_of(open: char, name: Seq<char>, close: char, tail: Seq<char>) -> Seq<char> {
    seq![open] + name + seq![close] + tail
}

/// A name that a quotation can hold: it has no closing mark and no line break.
pub open spec fn is_quotable(name: Seq<char>, close: char) -> bool {
    forall|i: int| 0 <= i < name.len() ==> (#[trigger] name[i]) != close && name[i] != '\n'
}

/// What follows the quoted name of an application decides about a heading.
pub proof fn lemma_tail_decides(open: char, name: Seq<char>, close: char, tail: Seq<char>)
    requires
        is_quotation(open, close),
        is_quotable(name, close),
    ensures
        directory_heading(heading_of(open, name, close, tail)) == (single_line(
            seq![close] + tail,
        ) && asks_for_directory(text::trimmed(tail))),
{
    let s = heading_of(open, name, close, tail);
    let rest = s.skip(1);
    let mark = seq![close];
    let at = name.len() as int;
    assert(rest =~= name + mark + tail);
    assert(text::occurs_at(rest, mark, at)) by {
        assert(rest.subrange(at, at + 1) =~= mark);
    }
    assert forall|k: int| 0 <= k < name.len() implies !text::occurs_at(rest, mark, k) by {
        assert(rest[k] == name[k]);
        if text::occurs_at(rest, mark, k) {
            assert(rest.subrange(k, k + 1)[0] == mark[0]);
        }
    }
    text::lemma_first_occurrence(rest, mark, at);
    assert(rest.skip(at + 1) =~= tail);
    reveal_strlit("”");
    reveal_strlit("\"");
    reveal_strlit("」");
    assert("”"@ =~= seq!['\u{201d}']);
    assert("\""@ =~= seq!['"']);
    assert("」"@ =~= seq!['\u{300d}']);
    assert(s[0] == open);
    assert(after_application(s) == Some(text::trimmed(tail)));
    let end = mark + tail;
    assert(single_line(s) == single_line(end)) by {
        let shift = at + 1;
        assert forall|i: int| 0 <= i < end.len() implies s[shift + i] == end[i] by {}
        assert forall|i: int| 1 <= i < shift implies s[i] == name[i - 1] by {}
        if single_line(end) {
            assert forall|i: int| 0 <= i < s.len() - 1 implies s[i] != '\n' by {
                if i >= shift {
                    assert(s[i] == end[i - shift]);
                }
            }
        }
        if single_line(s) {
            assert forall|i: int| 0 <= i < end.len() - 1 implies end[i] != '\n' by {
                assert(s[shift + i] == end[i]);
            }
        }
    }
}

/// The quoted name of the application never decides: two headings, in lower case, that differ in it
/// alone ask for the same.
pub proof fn application_names_do_not_decide(
    open: char,
    a: Seq<char>,
    b: Seq<char>,
    close: char,
    tail: Seq<char>,
)
    requires
        is_quotation(open, close),
        is_quotable(a, close),
        is_quotable(b, close),
    ensures
        directory_heading(heading_of(open, a, close, tail)) == directory_heading(
            heading_of(open, b, close, tail),
        ),
{
    lemma_tail_decides(open, a, close, tail);
    lemma_tail_decides(open, b, close, tail);
}

/// A text of more than one line, or of none, asks for nothing.
pub proof fn requests_are_one_line(lower: Seq<char>)
    requires
        !single_line(lower),
    ensures
        !directory_heading(lower),
{
}

/// The labels, in lower case, of the buttons that grant what a dialog asks for.
pub open spec fn allow_labels() -> Seq<&'static str> {
    seq!["allow", "ok", "允许", "允許", "好", "好的"]
}

/// Whether a label, trimmed and in lower case, is that of a button that grants.
pub fn is_allow_label(lower: &str) -> (r: bool)
    ensures
        r == text::listed(allow_labels(), lower@),
{
    let labels: Vec<&'static str> = vec!["allow", "ok", "允许", "允許", "好", "好的"];
    assert(labels@ =~= allow_labels());
    text::one_of(&labels, lower)
}

/// Whether a button's label is that of one that grants what its dialog asks for.
pub fn is_allow_button(title: &str) -> (r: bool)
    ensures
        r == text::listed(allow_labels(), text::lowercased(text::trimmed(title@))),
{
    let trimmed = text::trim(title);
    let lower = text::to_lowercase(trimmed.as_str());
    is_allow_label(lower.as_str())
}

} // verus!
