//! Which dialogs are answered, and how.

use vstd::prelude::*;
use vstd::string::*;
use vstd::utf8::*;

use crate::os_permissions;
use crate::os_permissions::rules;
use crate::os_permissions::rules::{DialogRule, DialogSettings, RuleProblem};
use crate::os_permissions::window;
use crate::os_permissions::window::{
    Children, ElementFacts, ElementKind, Enabled, Inspection, MatchedButton, Next, Skip,
};
use crate::text;

verus! {

/// Nothing but the character `c`, any number of times.
pub open spec fn only(s: Seq<char>, c: char) -> bool {
    forall|i: int| 0 <= i < s.len() ==> #[trigger] s[i] == c
}

/// The words with which an English heading asks.
pub open spec fn english_words(s: Seq<char>) -> bool {
    s == "would like to access "@ || s == "wants to access "@
}

/// The directories that an English heading asks for.
pub open spec fn english_directory(s: Seq<char>) -> bool {
    ||| s == "files in your desktop folder"@
    ||| s == "files in your documents folder"@
    ||| s == "files in your downloads folder"@
    ||| s == "files on a removable volume"@
    ||| s == "files on a network volume"@
    ||| s == "a removable volume"@
    ||| s == "a network volume"@
}

/// The words with which a Chinese heading asks.
pub open spec fn chinese_words(s: Seq<char>) -> bool {
    ||| s == "想要访问"@
    ||| s == "想访问"@
    ||| s == "希望访问"@
    ||| s == "想要存取"@
    ||| s == "想存取"@
}

/// The directories that a Chinese heading asks for.
pub open spec fn chinese_directory(s: Seq<char>) -> bool {
    ||| s == "可移除宗卷上的文件"@
    ||| s == "可移动宗卷上的文件"@
    ||| s == "网络宗卷上的文件"@
    ||| s == "可卸除卷宗上的檔案"@
    ||| s == "網路卷宗上的檔案"@
    ||| s == "可移除宗卷上的檔案"@
    ||| s == "“桌面”文件夹中的文件"@
    ||| s == "“文稿”文件夹中的文件"@
    ||| s == "“下载”文件夹中的文件"@
    ||| s == "「桌面」檔案夾中的檔案"@
    ||| s == "「文件」檔案夾中的檔案"@
    ||| s == "「下載項目」檔案夾中的檔案"@
}

/// An English request for a directory: words, a directory, and full stops.
pub open spec fn english_request(s: Seq<char>) -> bool {
    exists|words: Seq<char>, directory: Seq<char>, stops: Seq<char>| #[trigger]
        (words + directory + stops) == s && english_words(words) && english_directory(directory)
            && only(stops, '.')
}

/// A Chinese request for a directory: words, a directory, and full stops.
pub open spec fn chinese_request(s: Seq<char>) -> bool {
    exists|words: Seq<char>, directory: Seq<char>, stops: Seq<char>| #[trigger]
        (words + directory + stops) == s && chinese_words(words) && chinese_directory(directory)
            && only(stops, '\u{3002}')
}

proof fn lemma_stops_are_trimmed(s: Seq<char>, stops: Seq<char>, c: char)
    requires
        only(stops, c),
        s.len() > 0,
        s.last() != c,
    ensures
        text::trimmed_end_char(s + stops, c) == s,
    decreases stops.len(),
{
    let whole = s + stops;
    if stops.len() == 0 {
        assert(whole =~= s);
    } else {
        assert(whole.last() == stops.last());
        assert(whole.drop_last() =~= s + stops.drop_last());
        lemma_stops_are_trimmed(s, stops.drop_last(), c);
    }
}

proof fn lemma_trimmed_stops(s: Seq<char>, c: char)
    ensures
        exists|stops: Seq<char>| #[trigger]
            (text::trimmed_end_char(s, c) + stops) == s && only(stops, c),
    decreases s.len(),
{
    if s.len() > 0 && s.last() == c {
        lemma_trimmed_stops(s.drop_last(), c);
        let kept = text::trimmed_end_char(s.drop_last(), c);
        let stops = choose|stops: Seq<char>| #[trigger]
            (kept + stops) == s.drop_last() && only(stops, c);
        let more = stops.push(c);
        assert(only(more, c));
        assert(text::trimmed_end_char(s, c) == kept);
        assert(s =~= s.drop_last().push(c));
        assert(kept + more =~= (kept + stops).push(c));
        assert(text::trimmed_end_char(s, c) + more == s);
    } else {
        let none = Seq::<char>::empty();
        assert(only(none, c));
        assert(text::trimmed_end_char(s, c) + none =~= s);
    }
}

proof fn lemma_english()
    ensures
        "would like to access "@.len() == 21,
        "wants to access "@.len() == 16,
        "would like to access "@[0] == 'w',
        "would like to access "@[1] == 'o',
        "wants to access "@[0] == 'w',
        "wants to access "@[1] == 'a',
        "files in your desktop folder"@.len() == 28,
        "files in your documents folder"@.len() == 30,
        "files in your downloads folder"@.len() == 30,
        "files on a removable volume"@.len() == 27,
        "files on a network volume"@.len() == 25,
        "a removable volume"@.len() == 18,
        "a network volume"@.len() == 16,
        "files in your desktop folder"@.last() == 'r',
        "files in your documents folder"@.last() == 'r',
        "files in your downloads folder"@.last() == 'r',
        "files on a removable volume"@.last() == 'e',
        "files on a network volume"@.last() == 'e',
        "a removable volume"@.last() == 'e',
        "a network volume"@.last() == 'e',
{
    reveal_strlit("would like to access ");
    reveal_strlit("wants to access ");
    reveal_strlit("files in your desktop folder");
    reveal_strlit("files in your documents folder");
    reveal_strlit("files in your downloads folder");
    reveal_strlit("files on a removable volume");
    reveal_strlit("files on a network volume");
    reveal_strlit("a removable volume");
    reveal_strlit("a network volume");
}

proof fn lemma_chinese()
    ensures
        "想要访问"@.len() == 4,
        "想访问"@.len() == 3,
        "希望访问"@.len() == 4,
        "想要存取"@.len() == 4,
        "想存取"@.len() == 3,
        "想要访问"@[0] == '想',
        "想要访问"@[1] == '要',
        "想要访问"@[2] == '访',
        "想访问"@[0] == '想',
        "想访问"@[1] == '访',
        "希望访问"@[0] == '希',
        "想要存取"@[0] == '想',
        "想要存取"@[1] == '要',
        "想要存取"@[2] == '存',
        "想存取"@[0] == '想',
        "想存取"@[1] == '存',
        "可移除宗卷上的文件"@.len() > 0 && "可移除宗卷上的文件"@.last() == '件',
        "可移动宗卷上的文件"@.len() > 0 && "可移动宗卷上的文件"@.last() == '件',
        "网络宗卷上的文件"@.len() > 0 && "网络宗卷上的文件"@.last() == '件',
        "可卸除卷宗上的檔案"@.len() > 0 && "可卸除卷宗上的檔案"@.last() == '案',
        "網路卷宗上的檔案"@.len() > 0 && "網路卷宗上的檔案"@.last() == '案',
        "可移除宗卷上的檔案"@.len() > 0 && "可移除宗卷上的檔案"@.last() == '案',
        "“桌面”文件夹中的文件"@.len() > 0 && "“桌面”文件夹中的文件"@.last() == '件',
        "“文稿”文件夹中的文件"@.len() > 0 && "“文稿”文件夹中的文件"@.last() == '件',
        "“下载”文件夹中的文件"@.len() > 0 && "“下载”文件夹中的文件"@.last() == '件',
        "「桌面」檔案夾中的檔案"@.len() > 0 && "「桌面」檔案夾中的檔案"@.last() == '案',
        "「文件」檔案夾中的檔案"@.len() > 0 && "「文件」檔案夾中的檔案"@.last() == '案',
        "「下載項目」檔案夾中的檔案"@.len() > 0 && "「下載項目」檔案夾中的檔案"@.last() == '案',
{
    reveal_strlit("想要访问");
    reveal_strlit("想访问");
    reveal_strlit("希望访问");
    reveal_strlit("想要存取");
    reveal_strlit("想存取");
    reveal_strlit("可移除宗卷上的文件");
    reveal_strlit("可移动宗卷上的文件");
    reveal_strlit("网络宗卷上的文件");
    reveal_strlit("可卸除卷宗上的檔案");
    reveal_strlit("網路卷宗上的檔案");
    reveal_strlit("可移除宗卷上的檔案");
    reveal_strlit("“桌面”文件夹中的文件");
    reveal_strlit("“文稿”文件夹中的文件");
    reveal_strlit("“下载”文件夹中的文件");
    reveal_strlit("「桌面」檔案夾中的檔案");
    reveal_strlit("「文件」檔案夾中的檔案");
    reveal_strlit("「下載項目」檔案夾中的檔案");
}

proof fn lemma_starts(s: Seq<char>, words: Seq<char>, rest: Seq<char>)
    requires
        s == words + rest,
    ensures
        text::occurs_at(s, words, 0),
        s.skip(words.len() as int) == rest,
{
    assert(s.subrange(0, words.len() as int) =~= words);
    assert(s.skip(words.len() as int) =~= rest);
}

proof fn lemma_starts_rev(s: Seq<char>, words: Seq<char>)
    requires
        text::occurs_at(s, words, 0),
    ensures
        s == words + s.skip(words.len() as int),
        words.len() > 0 ==> s[0] == words[0],
        words.len() > 1 ==> s[1] == words[1],
        words.len() > 2 ==> s[2] == words[2],
        words.len() <= s.len(),
{
    assert(s.subrange(0, words.len() as int) == words);
    assert(s =~= words + s.skip(words.len() as int));
    if words.len() > 0 {
        assert(s.subrange(0, words.len() as int)[0] == s[0]);
    }
    if words.len() > 1 {
        assert(s.subrange(0, words.len() as int)[1] == s[1]);
    }
    if words.len() > 2 {
        assert(s.subrange(0, words.len() as int)[2] == s[2]);
    }
}

proof fn lemma_after_english(s: Seq<char>)
    ensures
        os_permissions::after_phrase(s, os_permissions::english_phrases()) == (if text::occurs_at(
            s,
            "would like to access "@,
            0,
        ) {
            Some(s.skip(21))
        } else if text::occurs_at(s, "wants to access "@, 0) {
            Some(s.skip(16))
        } else {
            None
        }),
{
    lemma_english();
    let phrases = os_permissions::english_phrases();
    reveal_with_fuel(os_permissions::after_phrase, 3);
    assert(phrases.skip(1) =~= seq!["wants to access "]);
    assert(phrases.skip(1).skip(1) =~= Seq::empty());
}

proof fn lemma_after_chinese(s: Seq<char>)
    ensures
        os_permissions::after_phrase(s, os_permissions::chinese_phrases()) == (if text::occurs_at(
            s,
            "想要访问"@,
            0,
        ) {
            Some(s.skip(4))
        } else if text::occurs_at(s, "想访问"@, 0) {
            Some(s.skip(3))
        } else if text::occurs_at(s, "希望访问"@, 0) {
            Some(s.skip(4))
        } else if text::occurs_at(s, "想要存取"@, 0) {
            Some(s.skip(4))
        } else if text::occurs_at(s, "想存取"@, 0) {
            Some(s.skip(3))
        } else {
            None
        }),
{
    lemma_chinese();
    let phrases = os_permissions::chinese_phrases();
    reveal_with_fuel(os_permissions::after_phrase, 6);
    assert(phrases.skip(1) =~= seq!["想访问", "希望访问", "想要存取", "想存取"]);
    assert(phrases.skip(1).skip(1) =~= seq!["希望访问", "想要存取", "想存取"]);
    assert(phrases.skip(1).skip(1).skip(1) =~= seq!["想要存取", "想存取"]);
    assert(phrases.skip(1).skip(1).skip(1).skip(1) =~= seq!["想存取"]);
    assert(phrases.skip(1).skip(1).skip(1).skip(1).skip(1) =~= Seq::empty());
}

proof fn lemma_listed_english(s: Seq<char>)
    ensures
        text::listed(os_permissions::english_resources(), s) == english_directory(s),
{
    let list = os_permissions::english_resources();
    assert(list.len() == 7);
    if english_directory(s) {
        assert(list[0]@ == s || list[1]@ == s || list[2]@ == s || list[3]@ == s || list[4]@ == s
            || list[5]@ == s || list[6]@ == s);
    }
}

proof fn lemma_listed_chinese(s: Seq<char>)
    ensures
        text::listed(os_permissions::chinese_resources(), s) == chinese_directory(s),
{
    let list = os_permissions::chinese_resources();
    assert(list.len() == 12);
    if chinese_directory(s) {
        assert(list[0]@ == s || list[1]@ == s || list[2]@ == s || list[3]@ == s || list[4]@ == s
            || list[5]@ == s || list[6]@ == s || list[7]@ == s || list[8]@ == s || list[9]@ == s
            || list[10]@ == s || list[11]@ == s);
    }
}

proof fn lemma_asks(rest: Seq<char>)
    ensures
        os_permissions::asks_for_directory(rest) == (english_request(rest) || chinese_request(rest)),
{
    lemma_english();
    lemma_chinese();
    lemma_after_english(rest);
    lemma_after_chinese(rest);
    let english = os_permissions::after_phrase(rest, os_permissions::english_phrases());
    let chinese = os_permissions::after_phrase(rest, os_permissions::chinese_phrases());
    if english_request(rest) {
        let (words, directory, stops) = choose|
            words: Seq<char>,
            directory: Seq<char>,
            stops: Seq<char>,
        | #[trigger]
            (words + directory + stops) == rest && english_words(words) && english_directory(
                directory,
            ) && only(stops, '.');
        assert(rest =~= words + (directory + stops));
        lemma_starts(rest, words, directory + stops);
        if text::occurs_at(rest, "would like to access "@, 0) {
            lemma_starts_rev(rest, "would like to access "@);
        }
        lemma_starts_rev(rest, words);
        assert(english == Some(directory + stops));
        lemma_stops_are_trimmed(directory, stops, '.');
        lemma_listed_english(directory);
    }
    if chinese_request(rest) {
        let (words, directory, stops) = choose|
            words: Seq<char>,
            directory: Seq<char>,
            stops: Seq<char>,
        | #[trigger]
            (words + directory + stops) == rest && chinese_words(words) && chinese_directory(
                directory,
            ) && only(stops, '\u{3002}');
        assert(rest =~= words + (directory + stops));
        lemma_starts(rest, words, directory + stops);
        lemma_starts_rev(rest, words);
        if text::occurs_at(rest, "would like to access "@, 0) {
            lemma_starts_rev(rest, "would like to access "@);
        }
        if text::occurs_at(rest, "wants to access "@, 0) {
            lemma_starts_rev(rest, "wants to access "@);
        }
        if text::occurs_at(rest, "想要访问"@, 0) {
            lemma_starts_rev(rest, "想要访问"@);
        }
        if text::occurs_at(rest, "想访问"@, 0) {
            lemma_starts_rev(rest, "想访问"@);
        }
        if text::occurs_at(rest, "希望访问"@, 0) {
            lemma_starts_rev(rest, "希望访问"@);
        }
        if text::occurs_at(rest, "想要存取"@, 0) {
            lemma_starts_rev(rest, "想要存取"@);
        }
        if text::occurs_at(rest, "想存取"@, 0) {
            lemma_starts_rev(rest, "想存取"@);
        }
        assert(english is None);
        assert(chinese == Some(directory + stops));
        lemma_stops_are_trimmed(directory, stops, '\u{3002}');
        lemma_listed_chinese(directory);
    }
    if os_permissions::asks_for_directory(rest) {
        if english is Some {
            let resource = english->0;
            let directory = text::trimmed_end_char(resource, '.');
            lemma_listed_english(directory);
            lemma_trimmed_stops(resource, '.');
            let stops = choose|stops: Seq<char>| #[trigger]
                (directory + stops) == resource && only(stops, '.');
            let words = if text::occurs_at(rest, "would like to access "@, 0) {
                "would like to access "@
            } else {
                "wants to access "@
            };
            lemma_starts_rev(rest, words);
            assert(words + directory + stops =~= words + resource);
            assert((words + directory + stops) == rest);
            assert(english_request(rest));
        } else {
            let resource = chinese->0;
            let directory = text::trimmed_end_char(resource, '\u{3002}');
            lemma_listed_chinese(directory);
            lemma_trimmed_stops(resource, '\u{3002}');
            let stops = choose|stops: Seq<char>| #[trigger]
                (directory + stops) == resource && only(stops, '\u{3002}');
            let words = if text::occurs_at(rest, "想要访问"@, 0) {
                "想要访问"@
            } else if text::occurs_at(rest, "想访问"@, 0) {
                "想访问"@
            } else if text::occurs_at(rest, "希望访问"@, 0) {
                "希望访问"@
            } else if text::occurs_at(rest, "想要存取"@, 0) {
                "想要存取"@
            } else {
                "想存取"@
            };
            lemma_starts_rev(rest, words);
            assert(words + directory + stops =~= words + resource);
            assert((words + directory + stops) == rest);
            assert(chinese_request(rest));
        }
    }
}

/// What follows the application in a heading asks for a directory exactly where it is the words of a
/// request and one of the known directories, in English or in Chinese, with or without full stops.
pub proof fn known_directories_are_asked_for(rest: &str, r: bool)
    requires
        call_ensures(os_permissions::asks_for_directory_access, (rest,), r),
    ensures
        r <==> english_request(rest@) || chinese_request(rest@),
{
    lemma_asks(rest@);
}

/// A heading, in lower case, of a quoted application, a space, the English words of a request, one of
/// the seven directories and any number of full stops is a directory heading, whatever the
/// application is called; and where what follows the application is neither an English nor a Chinese
/// request it is none.
pub proof fn consent_headings_are_recognized(
    lower: &str,
    open: char,
    name: Seq<char>,
    close: char,
    tail: Seq<char>,
    r: bool,
)
    requires
        call_ensures(os_permissions::is_directory_heading, (lower,), r),
        (open == '\u{201c}' && close == '\u{201d}') || (open == '"' && close == '"') || (open
            == '\u{300c}' && close == '\u{300d}'),
        forall|i: int| 0 <= i < name.len() ==> (#[trigger] name[i]) != close && name[i] != '\n',
        forall|i: int| 0 <= i < tail.len() ==> (#[trigger] tail[i]) != '\n',
        lower@ == seq![open] + name + seq![close] + tail,
    ensures
        r <==> english_request(text::trimmed(tail)) || chinese_request(text::trimmed(tail)),
{
    os_permissions::lemma_tail_decides(open, name, close, tail);
    let end = seq![close] + tail;
    assert forall|i: int| 0 <= i < end.len() - 1 implies end[i] != '\n' by {
        if i > 0 {
            assert(end[i] == tail[i - 1]);
        }
    }
    lemma_asks(text::trimmed(tail));
}

/// Each of the seven directories is recognized in each of the two English forms of a heading, ended
/// by one full stop.
pub proof fn every_english_directory_is_recognized(
    lower: &str,
    name: Seq<char>,
    words: Seq<char>,
    directory: Seq<char>,
    r: bool,
)
    requires
        call_ensures(os_permissions::is_directory_heading, (lower,), r),
        forall|i: int|
            0 <= i < name.len() ==> (#[trigger] name[i]) != '\u{201d}' && name[i] != '\n',
        words == "would like to access "@ || words == "wants to access "@,
        directory == "files in your desktop folder"@ || directory
            == "files in your documents folder"@ || directory == "files in your downloads folder"@
            || directory == "files on a removable volume"@ || directory
            == "files on a network volume"@ || directory == "a removable volume"@ || directory
            == "a network volume"@,
        lower@ == seq!['\u{201c}'] + name + seq!['\u{201d}'] + (seq![' '] + words + directory
            + seq!['.']),
    ensures
        r,
{
    lemma_english();
    reveal_strlit("would like to access ");
    reveal_strlit("wants to access ");
    reveal_strlit("files in your desktop folder");
    reveal_strlit("files in your documents folder");
    reveal_strlit("files in your downloads folder");
    reveal_strlit("files on a removable volume");
    reveal_strlit("files on a network volume");
    reveal_strlit("a removable volume");
    reveal_strlit("a network volume");
    let body = words + directory + seq!['.'];
    let tail = seq![' '] + words + directory + seq!['.'];
    assert(tail =~= seq![' '] + body);
    assert(forall|i: int| 0 <= i < words.len() ==> (#[trigger] words[i]) != '\n');
    assert(forall|i: int| 0 <= i < directory.len() ==> (#[trigger] directory[i]) != '\n');
    assert forall|i: int| 0 <= i < tail.len() implies (#[trigger] tail[i]) != '\n' by {
        if i == 0 {
        } else if i < 1 + words.len() {
            assert(tail[i] == words[i - 1]);
        } else if i < 1 + words.len() + directory.len() {
            assert(tail[i] == directory[i - 1 - words.len()]);
        }
    }
    consent_headings_are_recognized(lower, '\u{201c}', name, '\u{201d}', tail, r);
    assert(text::trimmed(tail) == body) by {
        assert(text::trimmed_start(tail) == body) by {
            assert(tail.skip(1) =~= body);
            assert(body[0] == words[0]);
            assert(!text::white('w'));
            reveal_with_fuel(text::trimmed_start, 2);
        }
        assert(body.last() == '.');
    }
    let stops = seq!['.'];
    assert(only(stops, '.'));
    assert(words + directory + stops == body);
    assert(english_request(body));
}

/// What does not begin with a quoted name, in one of the three kinds of marks, or is not one line, is
/// no directory heading.
pub proof fn other_texts_are_no_headings(lower: &str, r: bool)
    requires
        call_ensures(os_permissions::is_directory_heading, (lower,), r),
    ensures
        lower@.len() == 0 ==> !r,
        lower@.len() > 0 && lower@[0] != '\u{201c}' && lower@[0] != '"' && lower@[0] != '\u{300c}'
            ==> !r,
        (exists|i: int| 0 <= i < lower@.len() - 1 && lower@[i] == '\n') ==> !r,
{
}

/// A raw heading is recognized by what is left of it in lower case, without white space around it.
pub proof fn raw_headings_are_lowered_and_trimmed(
    heading: &str,
    lower: &str,
    recognized: bool,
    r: bool,
)
    requires
        call_ensures(os_permissions::is_file_access_request, (heading,), r),
        lower@ == text::lowercased(text::trimmed(heading@)),
        call_ensures(os_permissions::is_directory_heading, (lower,), recognized),
    ensures
        r == recognized,
{
}

/// Six labels, in lower case, are those of buttons that grant; no other is.
pub proof fn granting_buttons_have_known_labels(lower: &str, title: &str, label: bool, r: bool)
    requires
        call_ensures(os_permissions::is_allow_label, (lower,), label),
        call_ensures(os_permissions::is_allow_button, (title,), r),
        lower@ == text::lowercased(text::trimmed(title@)),
    ensures
        label <==> lower@ == "allow"@ || lower@ == "ok"@ || lower@ == "允许"@ || lower@ == "允許"@
            || lower@ == "好"@ || lower@ == "好的"@,
        r == label,
{
    let list = os_permissions::allow_labels();
    assert(list.len() == 6);
    if lower@ == "allow"@ || lower@ == "ok"@ || lower@ == "允许"@ || lower@ == "允許"@ || lower@ == "好"@
        || lower@ == "好的"@ {
        assert(list[0]@ == lower@ || list[1]@ == lower@ || list[2]@ == lower@ || list[3]@ == lower@
            || list[4]@ == lower@ || list[5]@ == lower@);
    }
}

/// A rule answers a window: the built-in one where the window belongs to the system and its heading
/// asks for a directory, every other where its application is named exactly and its title and text
/// are found.
pub open spec fn answers(
    name: Seq<char>,
    rule: DialogRule,
    executable: Seq<char>,
    bundle: Seq<char>,
    title: Seq<char>,
    heading: Seq<char>,
) -> bool {
    &&& rule.enabled
    &&& if name == "directory-access"@ {
        (exists|rest: Seq<char>| executable == #[trigger] ("/System/Library/"@ + rest))
            && os_permissions::directory_heading(text::lowercased(text::trimmed(heading)))
    } else {
        &&& rule.app is Some && (rule.app->0@ == executable || rule.app->0@ == bundle)
        &&& rule.title is Some ==> rule.title->0@ == title
        &&& rule.text is Some ==> exists|a: Seq<char>, b: Seq<char>|
            heading == #[trigger] (a + rule.text->0@ + b)
    }
}

/// A rule names a button: the built-in one those that grant, every other the one whose label it
/// holds.
pub open spec fn names(name: Seq<char>, rule: DialogRule, label: Seq<char>) -> bool {
    if name == "directory-access"@ {
        let lower = text::lowercased(text::trimmed(label));
        lower == "allow"@ || lower == "ok"@ || lower == "允许"@ || lower == "允許"@ || lower == "好"@
            || lower == "好的"@
    } else {
        rule.button is Some && rule.button->0@ == label
    }
}

proof fn lemma_answers(
    name: Seq<char>,
    rule: DialogRule,
    executable: Seq<char>,
    bundle: Seq<char>,
    title: Seq<char>,
    heading: Seq<char>,
)
    ensures
        rules::rule_matches(name, rule, executable, bundle, title, heading) == answers(
            name,
            rule,
            executable,
            bundle,
            title,
            heading,
        ),
{
    let prefix = "/System/Library/"@;
    if text::occurs_at(executable, prefix, 0) {
        lemma_starts_rev(executable, prefix);
        assert(executable == prefix + executable.skip(prefix.len() as int));
    }
    if exists|rest: Seq<char>| executable == #[trigger] (prefix + rest) {
        let rest = choose|rest: Seq<char>| executable == #[trigger] (prefix + rest);
        lemma_starts(executable, prefix, rest);
    }
    if rule.text is Some {
        let needle = rule.text->0@;
        if text::contains_text(heading, needle) {
            let at = choose|at: int| text::occurs_at(heading, needle, at);
            let a = heading.take(at);
            let b = heading.skip(at + needle.len());
            assert(heading.subrange(at, at + needle.len()) == needle);
            assert(heading =~= a + needle + b);
        }
        if exists|a: Seq<char>, b: Seq<char>| heading == #[trigger] (a + needle + b) {
            let (a, b) = choose|a: Seq<char>, b: Seq<char>| heading == #[trigger] (a + needle + b);
            assert(heading.subrange(a.len() as int, (a.len() + needle.len()) as int) =~= needle);
            assert(text::occurs_at(heading, needle, a.len() as int));
        }
    }
}

proof fn lemma_names(name: Seq<char>, rule: DialogRule, label: Seq<char>)
    ensures
        window::names_button(name, rule, label) == names(name, rule, label),
{
    let list = os_permissions::allow_labels();
    let lower = text::lowercased(text::trimmed(label));
    assert(list.len() == 6);
    if lower == "allow"@ || lower == "ok"@ || lower == "允许"@ || lower == "允許"@ || lower == "好"@
        || lower == "好的"@ {
        assert(list[0]@ == lower || list[1]@ == lower || list[2]@ == lower || list[3]@ == lower
            || list[4]@ == lower || list[5]@ == lower);
    }
}

/// A button is pressed only where exactly one rule answers the window and names exactly one of its
/// buttons, and it is that button.
pub proof fn one_rule_presses_one_button(
    inspection: &Inspection,
    settings: &DialogSettings,
    executable: &str,
    bundle: &str,
    title: &str,
    heading: Seq<char>,
    matched: MatchedButton,
)
    requires
        call_ensures(
            Inspection::matching_button,
            (inspection, settings, executable, bundle, title),
            Ok(matched),
        ),
        heading == (match inspection.heading {
            Some(heading) => heading@,
            None => Seq::empty(),
        }),
    ensures
        exists|i: int|
            0 <= i < settings.rules.entries().len() && (#[trigger] settings.rules.entries()[i]).0
                == matched.rule && answers(
                matched.rule@,
                settings.rules.entries()[i].1,
                executable@,
                bundle@,
                title@,
                heading,
            ) && names(matched.rule@, settings.rules.entries()[i].1, matched.label@),
        forall|i: int, j: int|
            #![trigger settings.rules.entries()[i], settings.rules.entries()[j]]
            0 <= i < settings.rules.entries().len() && 0 <= j < settings.rules.entries().len()
                && answers(
                settings.rules.entries()[i].0@,
                settings.rules.entries()[i].1,
                executable@,
                bundle@,
                title@,
                heading,
            ) && answers(
                settings.rules.entries()[j].0@,
                settings.rules.entries()[j].1,
                executable@,
                bundle@,
                title@,
                heading,
            ) ==> i == j,
        exists|k: int|
            0 <= k < inspection.buttons@.len() && (#[trigger] inspection.buttons@[k]).0
                == matched.button && inspection.buttons@[k].1@ == matched.label@,
        matched.signature@ == title@ + "\n"@ + inspection.text@ + "\n"@ + matched.label@,
{
    let entries = settings.rules.entries();
    let accepts = |entry: (String, DialogRule)|
        rules::rule_matches(entry.0@, entry.1, executable@, bundle@, title@, heading);
    let answering = entries.filter(accepts);
    assert(window::heading_of(inspection.found()) == heading);
    assert(answering == settings.answering(executable@, bundle@, title@, heading));
    assert(answering.len() == 1);
    entries.lemma_filter_pred(accepts, 0);
    assert(answering.contains(answering[0]));
    entries.lemma_filter_contains_rev(accepts, answering[0]);
    let i = choose|i: int| 0 <= i < entries.len() && entries[i] == answering[0];
    lemma_answers(entries[i].0@, entries[i].1, executable@, bundle@, title@, heading);
    let buttons = inspection.found().buttons;
    let named = window::named_buttons(buttons, answering[0].0@, answering[0].1);
    let keep = |button: (u64, Seq<char>)|
        window::names_button(answering[0].0@, answering[0].1, button.1);
    assert(named == buttons.filter(keep));
    buttons.lemma_filter_pred(keep, 0);
    assert(named[0] == (matched.button, matched.label@));
    assert(named.contains(named[0]));
    buttons.lemma_filter_contains_rev(keep, named[0]);
    let k = choose|k: int| 0 <= k < buttons.len() && buttons[k] == named[0];
    assert(inspection.buttons@[k].0 == matched.button);
    lemma_names(entries[i].0@, entries[i].1, matched.label@);
    assert forall|i: int, j: int|
        #![trigger entries[i], entries[j]]
        0 <= i < entries.len() && 0 <= j < entries.len() && answers(
            entries[i].0@,
            entries[i].1,
            executable@,
            bundle@,
            title@,
            heading,
        ) && answers(
            entries[j].0@,
            entries[j].1,
            executable@,
            bundle@,
            title@,
            heading,
        ) implies i == j by {
        lemma_answers(entries[i].0@, entries[i].1, executable@, bundle@, title@, heading);
        lemma_answers(entries[j].0@, entries[j].1, executable@, bundle@, title@, heading);
        if i < j {
            lemma_two_kept(entries, accepts, i, j);
        } else if j < i {
            lemma_two_kept(entries, accepts, j, i);
        }
    }
}

proof fn lemma_two_kept<A>(s: Seq<A>, keep: spec_fn(A) -> bool, i: int, j: int)
    requires
        0 <= i < j < s.len(),
        keep(s[i]),
        keep(s[j]),
    ensures
        s.filter(keep).len() >= 2,
    decreases s.len(),
{
    reveal(Seq::filter);
    let rest = s.drop_last();
    if j < rest.len() {
        lemma_two_kept(rest, keep, i, j);
    } else {
        lemma_one_kept(rest, keep, i);
    }
}

proof fn lemma_one_kept<A>(s: Seq<A>, keep: spec_fn(A) -> bool, i: int)
    requires
        0 <= i < s.len(),
        keep(s[i]),
    ensures
        s.filter(keep).len() >= 1,
    decreases s.len(),
{
    reveal(Seq::filter);
    if i < s.len() - 1 {
        lemma_one_kept(s.drop_last(), keep, i);
    }
}

/// Directory consent is granted: a window of the system whose heading asks for a directory, with one
/// button and that one granting, gets it pressed under the built-in rule, where that is the only
/// rule and enabled.
pub proof fn directory_consent_is_granted(
    inspection: &Inspection,
    settings: &DialogSettings,
    executable: &str,
    bundle: &str,
    title: &str,
    rest: Seq<char>,
    heading: Seq<char>,
    r: Result<MatchedButton, Skip>,
)
    requires
        call_ensures(
            Inspection::matching_button,
            (inspection, settings, executable, bundle, title),
            r,
        ),
        settings.rules.entries().len() == 1,
        settings.rules.entries()[0].0@ == "directory-access"@,
        settings.rules.entries()[0].1.enabled,
        executable@ == "/System/Library/"@ + rest,
        inspection.heading is Some,
        heading == text::lowercased(text::trimmed(inspection.heading->0@)),
        os_permissions::directory_heading(heading),
        inspection.buttons@.len() == 1,
        names(
            "directory-access"@,
            settings.rules.entries()[0].1,
            inspection.buttons@[0].1@,
        ),
    ensures
        r matches Ok(matched) && matched.button == inspection.buttons@[0].0,
{
    let entries = settings.rules.entries();
    let shown = inspection.heading->0@;
    let accepts = |entry: (String, DialogRule)|
        rules::rule_matches(entry.0@, entry.1, executable@, bundle@, title@, shown);
    let answering = entries.filter(accepts);
    assert(window::heading_of(inspection.found()) == shown);
    assert(answering == settings.answering(executable@, bundle@, title@, shown));
    lemma_answers(entries[0].0@, entries[0].1, executable@, bundle@, title@, shown);
    assert(entries =~= Seq::empty().push(entries[0]));
    reveal(Seq::filter);
    assert(entries.drop_last() =~= Seq::empty());
    assert(entries.drop_last().filter(accepts) =~= Seq::empty());
    assert(answering =~= seq![entries[0]]);
    lemma_names(entries[0].0@, entries[0].1, inspection.buttons@[0].1@);
    let buttons = inspection.found().buttons;
    let keep = |button: (u64, Seq<char>)|
        window::names_button(answering[0].0@, answering[0].1, button.1);
    assert(buttons.len() == 1);
    assert(buttons.drop_last() =~= Seq::empty());
    assert(buttons.drop_last().filter(keep) =~= Seq::empty());
    assert(buttons.filter(keep) =~= seq![buttons[0]]);
    assert(window::named_buttons(buttons, answering[0].0@, answering[0].1) == buttons.filter(keep));
    assert(settings.answering(executable@, bundle@, title@, window::heading_of(inspection.found()))
        == answering);
    match r {
        Ok(matched) => {
            assert(seq![(matched.button, matched.label@)][0] == buttons[0]);
        },
        Err(_) => {},
    }
}

/// The executable lies in the system's library.
pub open spec fn of_the_system(executable: Seq<char>) -> bool {
    exists|rest: Seq<char>| executable == #[trigger] ("/System/Library/"@ + rest)
}

/// The rule of this name is about the application.
pub open spec fn about(
    name: Seq<char>,
    rule: DialogRule,
    executable: Seq<char>,
    bundle: Seq<char>,
) -> bool {
    if name == "directory-access"@ {
        of_the_system(executable)
    } else {
        rule.app is Some && (rule.app->0@ == executable || rule.app->0@ == bundle)
    }
}

/// An application is observed exactly where some enabled rule is about it: the built-in one about
/// everything of the system, every other about the application that it names.
pub proof fn applications_are_observed_by_rule(
    settings: &DialogSettings,
    executable: &str,
    bundle: &str,
    r: bool,
)
    requires
        call_ensures(DialogSettings::observes, (settings, executable, bundle), r),
    ensures
        r <==> exists|name: Seq<char>| #[trigger]
            settings.rules@.contains_key(name) && settings.rules@[name].enabled && about(
                name,
                settings.rules@[name],
                executable@,
                bundle@,
            ),
{
    let prefix = "/System/Library/"@;
    if text::occurs_at(executable@, prefix, 0) {
        lemma_starts_rev(executable@, prefix);
        assert(executable@ == prefix + executable@.skip(prefix.len() as int));
    }
    if of_the_system(executable@) {
        let rest = choose|rest: Seq<char>| executable@ == #[trigger] (prefix + rest);
        lemma_starts(executable@, prefix, rest);
    }
    assert forall|name: Seq<char>| #[trigger] settings.rules@.contains_key(name) implies (
    settings.rules@[name].enabled && about(name, settings.rules@[name], executable@, bundle@))
        == rules::rule_observes(name, settings.rules@[name], executable@, bundle@) by {}
}

/// A rule of one's own needs an exact application, a button, and a title or a text, all of one line;
/// the built-in one takes none of them.
pub proof fn rules_are_exact(name: &str, rule: &DialogRule, r: Option<RuleProblem>)
    requires
        call_ensures(rules::check_rule, (name, rule), r),
    ensures
        r is None ==> name@.len() > 0 && forall|i: int|
            0 <= i < name@.len() ==> {
                let c = #[trigger] name@[i];
                'a' <= c <= 'z' || 'A' <= c <= 'Z' || '0' <= c <= '9' || c == '-' || c == '_' || c
                    == '.'
            },
        r is None ==> encode_utf8(name@).len() <= 80,
        r is None && name@ == "directory-access"@ ==> rule.app is None && rule.title is None
            && rule.text is None && rule.button is None,
        r is None && name@ != "directory-access"@ ==> rule.app is Some && rule.button is Some && (
        rule.title is Some || rule.text is Some),
        r is None && rule.app is Some ==> (rule.app->0@.len() > 0 && rule.app->0@[0] == '/') || (
        rule.app->0@.contains('.') && !rule.app->0@.contains('*') && !rule.app->0@.contains('?')
            && !rule.app->0@.contains(' ')),
        r is None && rule.button is Some ==> !text::blank(rule.button->0@) && encode_utf8(
            rule.button->0@,
        ).len() <= 512 && !rule.button->0@.contains('\n'),
        r is None && rule.text is Some ==> !text::blank(rule.text->0@) && encode_utf8(
            rule.text->0@,
        ).len() <= 512 && !rule.text->0@.contains('\n'),
        r is None && rule.title is Some ==> !text::blank(rule.title->0@) && encode_utf8(
            rule.title->0@,
        ).len() <= 512 && !rule.title->0@.contains('\n'),
        name@ == "directory-access"@ && rule.app is None && rule.title is None && rule.text is None
            && rule.button is None ==> r is None,
{
    reveal_strlit("/");
    reveal_strlit("directory-access");
    is_ascii_chars_encode_utf8("directory-access"@);
    if rule.app is Some && text::occurs_at(rule.app->0@, "/"@, 0) {
        lemma_starts_rev(rule.app->0@, "/"@);
    }
    assert(text::control('\n'));
}

/// Elements are what their role says: fields that can be edited, buttons, texts, or nothing that
/// matters.
pub proof fn elements_are_what_their_role_says(role: &str, r: ElementKind)
    requires
        call_ensures(window::element_kind, (role,), r),
    ensures
        r == ElementKind::Editable <==> role@ == "AXTextField"@ || role@ == "AXTextArea"@,
        r == ElementKind::Button <==> role@ == "AXButton"@,
        r == ElementKind::Text <==> role@ == "AXStaticText"@ || role@ == "AXHeading"@,
{
    reveal_strlit("AXTextField");
    reveal_strlit("AXTextArea");
    reveal_strlit("AXButton");
    reveal_strlit("AXStaticText");
    reveal_strlit("AXHeading");
    assert("AXTextField"@.len() == 11 && "AXTextArea"@.len() == 10 && "AXButton"@.len() == 8
        && "AXStaticText"@.len() == 12 && "AXHeading"@.len() == 9);
}

/// A window is looked at within bounds: at most 256 elements, at most 20 deep, in time, and only
/// while pressing is permitted. No element is looked at twice.
pub proof fn inspections_are_bounded(
    inspection: &mut Inspection,
    permitted: bool,
    in_time: bool,
    r: Next,
)
    requires
        call_ensures(Inspection::next, (inspection, permitted, in_time), r),
    ensures
        r matches Next::Visit(element, depth) ==> permitted && in_time && depth <= 20 && old(
            inspection).visited@.len() < 256 && !old(inspection).visited@.contains(element) && final(
            inspection).visited@.contains(element) && old(inspection).stack@.len() > 0 && old(
            inspection).stack@.last() == (element, depth),
        r is Done <==> old(inspection).stack@.len() == 0,
        old(inspection).stack@.len() > 0 && !permitted ==> r == Next::Refused(Skip::Stopped),
        old(inspection).stack@.len() > 0 && permitted && (!in_time || old(
            inspection).visited@.len() >= 256 || old(inspection).stack@.last().1 > 20) ==> r
            == Next::Refused(Skip::BudgetExceeded),
{
    match r {
        Next::Visit(element, depth) => {
            let visited = final(inspection).visited@;
            assert(visited[visited.len() - 1] == element);
        },
        _ => {},
    }
}

/// What an element adds: a button that can be pressed, under its title or else its description; a
/// text, the first of which is the heading. A field that can be edited ends the inspection.
pub proof fn elements_add_what_they_show(
    inspection: &mut Inspection,
    element: u64,
    depth: usize,
    facts: &ElementFacts,
    role: Seq<char>,
    r: Result<(), Skip>,
)
    requires
        call_ensures(Inspection::visit, (inspection, element, depth, facts), r),
        facts.role is Some,
        facts.role->0@ == role,
    ensures
        role == "AXTextField"@ || role == "AXTextArea"@ ==> r == Err::<(), Skip>(
            Skip::EditableFields,
        ),
        r is Ok && role == "AXButton"@ && facts.enabled == Enabled::Yes ==> facts.title is Some
            && final(inspection).found().buttons == old(inspection).found().buttons.push(
            (
                element,
                if facts.title->0@.len() > 0 {
                    facts.title->0@
                } else {
                    facts.description->0@
                },
            ),
        ) && text::option_view(final(inspection).heading) == text::option_view(
            old(inspection).heading,
        ),
        r is Ok && role == "AXButton"@ && facts.enabled == Enabled::No ==> final(
            inspection).found().buttons == old(inspection).found().buttons,
        role == "AXButton"@ && (facts.enabled == Enabled::Unreadable || facts.enabled
            == Enabled::Invalid) ==> r is Err,
        r is Ok && (role == "AXStaticText"@ || role == "AXHeading"@) && facts.value is Some
            && !text::blank(facts.value->0@) ==> final(inspection).text@ == old(inspection).text@
            + facts.value->0@ + "\n"@ && final(inspection).heading is Some && final(
            inspection).heading->0@ == (match old(inspection).heading {
            Some(heading) => heading@,
            None => facts.value->0@,
        }),
        r is Ok ==> encode_utf8(final(inspection).text@).len() <= 16_384,
        facts.children is Unreadable ==> r is Err,
        r is Ok && facts.children is Elements ==> final(inspection).stack@.len() == old(
            inspection).stack@.len() + facts.children->Elements_0@.len(),
        r is Ok && facts.children is Elements && facts.children->Elements_0@.len() > 0 ==> final(
            inspection).stack@.last() == (facts.children->Elements_0@[0], (depth + 1) as usize),
{
    reveal_strlit("AXTextField");
    reveal_strlit("AXTextArea");
    reveal_strlit("AXButton");
    reveal_strlit("AXStaticText");
    reveal_strlit("AXHeading");
    assert("AXTextField"@.len() == 11 && "AXTextArea"@.len() == 10 && "AXButton"@.len() == 8
        && "AXStaticText"@.len() == 12 && "AXHeading"@.len() == 9);
    let after = final(inspection).found();
    assert(after.text == final(inspection).text@);
    assert(after.heading == text::option_view(final(inspection).heading));
    assert(old(inspection).found().heading == text::option_view(old(inspection).heading));
}

} // verus!
