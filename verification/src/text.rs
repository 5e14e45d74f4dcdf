//! Text helpers whose results are stated over sequences of characters.

use vstd::prelude::*;
use vstd::string::*;
use vstd::utf8::*;

verus! {

/// `String::push` of the standard library appends one character.
pub assume_specification[ String::push ](buffer: &mut String, c: char)
    ensures
        final(buffer)@ == old(buffer)@.push(c),
;

/// Two texts with the same UTF-8 bytes hold the same characters.
pub proof fn lemma_bytes_determine_text(a: Seq<char>, b: Seq<char>)
    ensures
        encode_utf8(a) == encode_utf8(b) <==> a == b,
{
    encode_utf8_decode_utf8(a);
    encode_utf8_decode_utf8(b);
}

/// Whether two texts hold the same characters.
pub fn same(a: &str, b: &str) -> (r: bool)
    ensures
        r == (a@ == b@),
{
    let x: &[u8] = a.as_bytes();
    let y: &[u8] = b.as_bytes();
    proof {
        lemma_bytes_determine_text(a@, b@);
    }
    if x.len() != y.len() {
        return false;
    }
    let mut i: usize = 0;
    while i < x.len()
        invariant
            i <= x@.len(),
            x@.len() == y@.len(),
            forall|k: int| 0 <= k < i ==> x@[k] == y@[k],
            x@ == encode_utf8(a@),
            y@ == encode_utf8(b@),
            encode_utf8(a@) == encode_utf8(b@) <==> a@ == b@,
        decreases x@.len() - i,
    {
        if x[i] != y[i] {
            return false;
        }
        i += 1;
    }
    assert(x@ =~= y@);
    true
}

/// Whether two optional texts are both absent or hold the same characters.
pub fn same_option(a: &Option<String>, b: &Option<String>) -> (r: bool)
    ensures
        r == (option_view(*a) == option_view(*b)),
{
    match (a, b) {
        (Some(x), Some(y)) => same(x, y),
        (None, None) => true,
        _ => false,
    }
}

/// The characters of an optional text.
pub open spec fn option_view(text: Option<String>) -> Option<Seq<char>> {
    match text {
        Some(t) => Some(t@),
        None => None,
    }
}

/// The characters of each text of a list.
pub open spec fn views(list: Seq<String>) -> Seq<Seq<char>> {
    list.map_values(|t: String| t@)
}

/// Some text of the list holds exactly the characters `s`.
pub open spec fn listed(list: Seq<&'static str>, s: Seq<char>) -> bool {
    exists|i: int| 0 <= i < list.len() && (#[trigger] list[i])@ == s
}

/// Whether `s` is one of the texts of a list.
pub(crate) fn one_of(list: &Vec<&'static str>, s: &str) -> (r: bool)
    ensures
        r == listed(list@, s@),
{
    let mut i: usize = 0;
    while i < list.len()
        invariant
            i <= list@.len(),
            forall|k: int| 0 <= k < i ==> (#[trigger] list@[k])@ != s@,
        decreases list@.len() - i,
    {
        if same(list[i], s) {
            assert(list@[i as int]@ == s@);
            return true;
        }
        i += 1;
    }
    false
}

/// The characters of a text, one by one.
pub fn chars_of(text: &str) -> (r: Vec<char>)
    ensures
        r@ == text@,
{
    let mut r: Vec<char> = Vec::new();
    for c in iter: text.chars()
        invariant
            r@ == text@.take(iter.index() as int),
            iter.seq() == text@,
    {
        r.push(c);
    }
    r
}

/// The text made of the given characters.
pub fn from_chars(chars: &[char]) -> (r: String)
    ensures
        r@ == chars@,
{
    let mut r = String::new();
    let mut i: usize = 0;
    while i < chars.len()
        invariant
            i <= chars@.len(),
            r@ == chars@.take(i as int),
        decreases chars@.len() - i,
    {
        r.push(chars[i]);
        i += 1;
    }
    r
}

/// `needle` stands in `s` from index `at` on.
pub open spec fn occurs_at(s: Seq<char>, needle: Seq<char>, at: int) -> bool {
    &&& 0 <= at
    &&& at + needle.len() <= s.len()
    &&& s.subrange(at, at + needle.len()) == needle
}

/// `needle` stands somewhere in `s`.
pub open spec fn contains_text(s: Seq<char>, needle: Seq<char>) -> bool {
    exists|at: int| occurs_at(s, needle, at)
}

fn occurs_in_chars(s: &[char], needle: &[char], at: usize) -> (r: bool)
    requires
        at <= s@.len(),
    ensures
        r == occurs_at(s@, needle@, at as int),
{
    let total: usize = s.len();
    if needle.len() > total - at {
        return false;
    }
    let mut i: usize = 0;
    while i < needle.len()
        invariant
            i <= needle@.len(),
            total == s@.len(),
            at + needle@.len() <= s@.len(),
            forall|k: int| 0 <= k < i ==> s@[at + k] == needle@[k],
        decreases needle@.len() - i,
    {
        if s[at + i] != needle[i] {
            assert(s@.subrange(at as int, at + needle@.len())[i as int] != needle@[i as int]);
            return false;
        }
        i += 1;
    }
    assert(s@.subrange(at as int, at + needle@.len()) =~= needle@);
    true
}

/// Whether `text` begins with `prefix`.
pub fn starts_with(text: &str, prefix: &str) -> (r: bool)
    ensures
        r == occurs_at(text@, prefix@, 0),
{
    let s = chars_of(text);
    let p = chars_of(prefix);
    occurs_in_chars(&s, &p, 0)
}

/// `suffix` ends `s`.
pub open spec fn ends_with_text(s: Seq<char>, suffix: Seq<char>) -> bool {
    occurs_at(s, suffix, s.len() - suffix.len())
}

/// Whether `text` ends with `suffix`.
pub fn ends_with(text: &str, suffix: &str) -> (r: bool)
    ensures
        r == ends_with_text(text@, suffix@),
{
    let s = chars_of(text);
    let p = chars_of(suffix);
    if p.len() > s.len() {
        return false;
    }
    occurs_in_chars(&s, &p, s.len() - p.len())
}

/// The first index at which `needle` stands in `s`, where it does.
pub open spec fn first_occurrence(s: Seq<char>, needle: Seq<char>, at: int) -> bool {
    &&& occurs_at(s, needle, at)
    &&& forall|k: int| 0 <= k < at ==> !occurs_at(s, needle, k)
}

fn find_in_chars(s: &[char], needle: &[char]) -> (r: Option<usize>)
    ensures
        match r {
            Some(at) => first_occurrence(s@, needle@, at as int),
            None => !contains_text(s@, needle@),
        },
{
    let mut i: usize = 0;
    while i < s.len()
        invariant
            i <= s@.len(),
            forall|k: int| 0 <= k < i ==> !occurs_at(s@, needle@, k),
        decreases s@.len() - i,
    {
        if occurs_in_chars(s, needle, i) {
            return Some(i);
        }
        i += 1;
    }
    if occurs_in_chars(s, needle, i) {
        Some(i)
    } else {
        None
    }
}

/// Whether `needle` stands somewhere in `text`.
pub fn contains(text: &str, needle: &str) -> (r: bool)
    ensures
        r == contains_text(text@, needle@),
{
    let s = chars_of(text);
    let n = chars_of(needle);
    match find_in_chars(&s, &n) {
        Some(at) => {
            assert(occurs_at(text@, needle@, at as int));
            true
        },
        None => false,
    }
}

/// Whether the character `c` stands somewhere in `text`.
pub fn contains_char(text: &str, c: char) -> (r: bool)
    ensures
        r == text@.contains(c),
{
    let s = chars_of(text);
    let mut i: usize = 0;
    while i < s.len()
        invariant
            i <= s@.len(),
            s@ == text@,
            forall|k: int| 0 <= k < i ==> s@[k] != c,
        decreases s@.len() - i,
    {
        if s[i] == c {
            assert(text@[i as int] == c);
            return true;
        }
        i += 1;
    }
    false
}

/// The parts of `s` around the first place where `separator` stands.
pub open spec fn split_once_view(s: Seq<char>, separator: Seq<char>) -> Option<(Seq<char>, Seq<char>)> {
    if contains_text(s, separator) {
        let at = choose|at: int| first_occurrence(s, separator, at);
        Some((s.take(at), s.skip(at + separator.len())))
    } else {
        None
    }
}

/// Where a text occurs, exactly one place is the first.
pub proof fn lemma_first_occurrence(s: Seq<char>, needle: Seq<char>, at: int)
    requires
        first_occurrence(s, needle, at),
    ensures
        contains_text(s, needle),
        split_once_view(s, needle) == Some((s.take(at), s.skip(at + needle.len()))),
{
    assert(occurs_at(s, needle, at));
    let other = choose|other: int| first_occurrence(s, needle, other);
    assert(first_occurrence(s, needle, other));
    assert(other == at);
}

/// Splits `text` at the first `separator`.
pub fn split_once(text: &str, separator: &str) -> (r: Option<(String, String)>)
    ensures
        match r {
            Some((before, after)) => split_once_view(text@, separator@) == Some((before@, after@)),
            None => split_once_view(text@, separator@) is None,
        },
{
    let s = chars_of(text);
    let n = chars_of(separator);
    let total: usize = s.len();
    match find_in_chars(&s, &n) {
        Some(at) => {
            proof {
                lemma_first_occurrence(text@, separator@, at as int);
            }
            let before = from_chars(vstd::slice::slice_subrange(s.as_slice(), 0, at));
            let after = from_chars(vstd::slice::slice_subrange(s.as_slice(), at + n.len(), total));
            assert(before@ =~= text@.take(at as int));
            assert(after@ =~= text@.skip(at + separator@.len()));
            Some((before, after))
        },
        None => None,
    }
}

/// What stands in `s` before the first `c`, or all of `s` where there is none.
pub open spec fn before_char(s: Seq<char>, c: char) -> Seq<char>
    decreases s.len(),
{
    if s.len() == 0 || s[0] == c {
        Seq::empty()
    } else {
        seq![s[0]] + before_char(s.skip(1), c)
    }
}

/// What stands before a character ends where it first stands.
pub proof fn lemma_before_char(s: Seq<char>, c: char, at: int)
    requires
        0 <= at <= s.len(),
        forall|k: int| 0 <= k < at ==> s[k] != c,
        at < s.len() ==> s[at] == c,
    ensures
        before_char(s, c) == s.take(at),
    decreases s.len(),
{
    if at == 0 {
        assert(s.take(0) =~= Seq::<char>::empty());
    } else {
        assert forall|k: int| 0 <= k < at - 1 implies s.skip(1)[k] != c by {
            assert(s[k + 1] != c);
        }
        lemma_before_char(s.skip(1), c, at - 1);
        assert(s.take(at) =~= seq![s[0]] + s.skip(1).take(at - 1));
    }
}

/// The part of `text` before the first `c`.
pub fn before(text: &str, c: char) -> (r: String)
    ensures
        r@ == before_char(text@, c),
{
    let s = chars_of(text);
    let mut i: usize = 0;
    while i < s.len() && s[i] != c
        invariant
            i <= s@.len(),
            s@ == text@,
            forall|k: int| 0 <= k < i ==> s@[k] != c,
        decreases s@.len() - i,
    {
        i += 1;
    }
    proof {
        lemma_before_char(text@, c, i as int);
    }
    let r = from_chars(vstd::slice::slice_subrange(s.as_slice(), 0, i));
    assert(r@ =~= text@.take(i as int));
    r
}

/// `s` with every occurrence of `from`, taken left to right without overlap, replaced by `to`.
pub open spec fn replaced(s: Seq<char>, from: Seq<char>, to: Seq<char>) -> Seq<char>
    decreases s.len(),
{
    if from.len() == 0 || s.len() == 0 {
        s
    } else if occurs_at(s, from, 0) {
        to + replaced(s.skip(from.len() as int), from, to)
    } else {
        seq![s[0]] + replaced(s.skip(1), from, to)
    }
}

/// Replaces every occurrence of `from` in `text` by `to`.
pub fn replace(text: &str, from: &str, to: &str) -> (r: String)
    requires
        from@.len() > 0,
    ensures
        r@ == replaced(text@, from@, to@),
{
    let s = chars_of(text);
    let f = chars_of(from);
    let mut r = String::new();
    let mut i: usize = 0;
    proof {
        assert(text@.skip(0) =~= text@);
        assert(r@ + replaced(text@.skip(0), from@, to@) =~= replaced(text@, from@, to@));
    }
    while i < s.len()
        invariant
            i <= s@.len(),
            s@ == text@,
            f@ == from@,
            f@.len() > 0,
            r@ + replaced(text@.skip(i as int), from@, to@) == replaced(text@, from@, to@),
        decreases s@.len() - i,
    {
        let ghost rest = text@.skip(i as int);
        let ghost done = r@;
        if occurs_in_chars(&s, &f, i) {
            assert(rest.subrange(0, from@.len() as int) =~= text@.subrange(i as int, i + from@.len()));
            assert(occurs_at(rest, from@, 0));
            assert(rest.skip(from@.len() as int) =~= text@.skip(i + from@.len()));
            r.append(to);
            i += f.len();
            assert(r@ + replaced(text@.skip(i as int), from@, to@) =~= done + (to@ + replaced(
                rest.skip(from@.len() as int),
                from@,
                to@,
            )));
        } else {
            assert(!occurs_at(rest, from@, 0)) by {
                if occurs_at(rest, from@, 0) {
                    assert(rest.subrange(0, from@.len() as int) =~= text@.subrange(
                        i as int,
                        i + from@.len(),
                    ));
                }
            }
            assert(rest.skip(1) =~= text@.skip(i + 1));
            r.push(s[i]);
            i += 1;
            assert(r@ + replaced(text@.skip(i as int), from@, to@) =~= done + (seq![rest[0]]
                + replaced(rest.skip(1), from@, to@)));
        }
    }
    assert(text@.skip(i as int) =~= Seq::<char>::empty());
    assert(r@ + Seq::<char>::empty() =~= r@);
    r
}

/// The characters with the Unicode property White_Space.
pub open spec fn white(c: char) -> bool {
    ||| '\u{9}' <= c <= '\u{d}'
    ||| c == ' '
    ||| c == '\u{85}'
    ||| c == '\u{a0}'
    ||| c == '\u{1680}'
    ||| '\u{2000}' <= c <= '\u{200a}'
    ||| c == '\u{2028}'
    ||| c == '\u{2029}'
    ||| c == '\u{202f}'
    ||| c == '\u{205f}'
    ||| c == '\u{3000}'
}

/// Whether `c` is white space.
pub fn is_whitespace(c: char) -> (r: bool)
    ensures
        r == white(c),
{
    ('\u{9}' <= c && c <= '\u{d}') || c == ' ' || c == '\u{85}' || c == '\u{a0}' || c == '\u{1680}'
        || ('\u{2000}' <= c && c <= '\u{200a}') || c == '\u{2028}' || c == '\u{2029}' || c
        == '\u{202f}' || c == '\u{205f}' || c == '\u{3000}'
}

/// The control characters: the Unicode general category Cc.
pub open spec fn control(c: char) -> bool {
    c <= '\u{1f}' || '\u{7f}' <= c <= '\u{9f}'
}

/// Whether any character of `text` is a control character.
pub fn has_control(text: &str) -> (r: bool)
    ensures
        r == exists|i: int| 0 <= i < text@.len() && control(#[trigger] text@[i]),
{
    let s = chars_of(text);
    let mut i: usize = 0;
    while i < s.len()
        invariant
            i <= s@.len(),
            s@ == text@,
            forall|k: int| 0 <= k < i ==> !control(#[trigger] text@[k]),
        decreases s@.len() - i,
    {
        let c: char = s[i];
        if c <= '\u{1f}' || ('\u{7f}' <= c && c <= '\u{9f}') {
            assert(control(text@[i as int]));
            return true;
        }
        i += 1;
    }
    false
}

/// `s` without the white space that it begins with.
pub open spec fn trimmed_start(s: Seq<char>) -> Seq<char>
    decreases s.len(),
{
    if s.len() > 0 && white(s[0]) {
        trimmed_start(s.skip(1))
    } else {
        s
    }
}

/// `s` without the white space that it ends with.
pub open spec fn trimmed_end(s: Seq<char>) -> Seq<char>
    decreases s.len(),
{
    if s.len() > 0 && white(s.last()) {
        trimmed_end(s.drop_last())
    } else {
        s
    }
}

/// `s` without white space at either end.
pub open spec fn trimmed(s: Seq<char>) -> Seq<char> {
    trimmed_end(trimmed_start(s))
}

/// Nothing but white space stands in `s`.
pub open spec fn blank(s: Seq<char>) -> bool {
    forall|i: int| 0 <= i < s.len() ==> white(#[trigger] s[i])
}

/// Trimming leaves nothing exactly where there is nothing but white space.
pub proof fn lemma_trimmed_is_empty(s: Seq<char>)
    ensures
        trimmed(s).len() == 0 <==> blank(s),
    decreases s.len(),
{
    if s.len() > 0 && white(s[0]) {
        lemma_trimmed_is_empty(s.skip(1));
        if blank(s.skip(1)) {
            assert forall|i: int| 0 <= i < s.len() implies white(#[trigger] s[i]) by {
                if i > 0 {
                    assert(white(s.skip(1)[i - 1]));
                }
            }
        }
        if blank(s) {
            assert forall|i: int| 0 <= i < s.len() - 1 implies white(#[trigger] s.skip(1)[i]) by {
                assert(white(s[i + 1]));
            }
        }
    } else {
        lemma_trimmed_end_keeps_first(s);
    }
}

proof fn lemma_trimmed_end_keeps_first(s: Seq<char>)
    ensures
        s.len() > 0 && !white(s[0]) ==> trimmed_end(s).len() > 0 && trimmed_end(s)[0] == s[0],
        trimmed_end(s).len() <= s.len(),
    decreases s.len(),
{
    if s.len() > 0 && white(s.last()) {
        lemma_trimmed_end_keeps_first(s.drop_last());
    }
}

/// Removes white space from both ends of `text`.
pub fn trim(text: &str) -> (r: String)
    ensures
        r@ == trimmed(text@),
{
    let s = chars_of(text);
    let mut start: usize = 0;
    assert(s@.skip(0) =~= s@);
    while start < s.len() && is_whitespace(s[start])
        invariant
            start <= s@.len(),
            s@ == text@,
            trimmed_start(s@.skip(start as int)) == trimmed_start(s@),
        decreases s@.len() - start,
    {
        assert(s@.skip(start as int).skip(1) =~= s@.skip(start + 1));
        start += 1;
    }
    let mut end: usize = s.len();
    assert(s@.subrange(start as int, end as int) =~= trimmed_start(s@));
    while end > start && is_whitespace(s[end - 1])
        invariant
            start <= end <= s@.len(),
            trimmed_end(s@.subrange(start as int, end as int)) == trimmed_end(trimmed_start(s@)),
        decreases end,
    {
        let ghost part = s@.subrange(start as int, end as int);
        assert(part.last() == s@[end - 1]);
        assert(part.drop_last() =~= s@.subrange(start as int, end - 1));
        end -= 1;
    }
    let ghost part = s@.subrange(start as int, end as int);
    assert(part.len() > 0 ==> part.last() == s@[end - 1]);
    let r = from_chars(vstd::slice::slice_subrange(s.as_slice(), start, end));
    assert(r@ =~= part);
    r
}

/// Whether `text` holds nothing but white space.
pub fn is_blank(text: &str) -> (r: bool)
    ensures
        r == blank(text@),
{
    let s = chars_of(text);
    let mut i: usize = 0;
    while i < s.len()
        invariant
            i <= s@.len(),
            s@ == text@,
            forall|k: int| 0 <= k < i ==> white(#[trigger] text@[k]),
        decreases s@.len() - i,
    {
        if !is_whitespace(s[i]) {
            assert(!white(text@[i as int]));
            return false;
        }
        i += 1;
    }
    true
}

/// `s` without the run of `c` that it ends with.
pub open spec fn trimmed_end_char(s: Seq<char>, c: char) -> Seq<char>
    decreases s.len(),
{
    if s.len() > 0 && s.last() == c {
        trimmed_end_char(s.drop_last(), c)
    } else {
        s
    }
}

/// Removes every `c` from the end of `text`.
pub fn trim_end_char(text: &str, c: char) -> (r: String)
    ensures
        r@ == trimmed_end_char(text@, c),
{
    let s = chars_of(text);
    let mut end: usize = s.len();
    assert(s@.take(end as int) =~= s@);
    while end > 0 && s[end - 1] == c
        invariant
            end <= s@.len(),
            trimmed_end_char(s@.take(end as int), c) == trimmed_end_char(s@, c),
        decreases end,
    {
        assert(s@.take(end as int).last() == s@[end - 1]);
        assert(s@.take(end as int).drop_last() =~= s@.take(end - 1));
        end -= 1;
    }
    assert(end > 0 ==> s@.take(end as int).last() == s@[end - 1]);
    let r = from_chars(vstd::slice::slice_subrange(s.as_slice(), 0, end));
    assert(r@ =~= s@.take(end as int));
    r
}

/// The small letter of an ASCII capital; every other character as it is.
pub open spec fn ascii_lower(c: char) -> char {
    if 'A' <= c <= 'Z' {
        ((c as u32 + 32) as u32) as char
    } else {
        c
    }
}

/// `s` with each ASCII capital made small.
pub open spec fn ascii_lowered(s: Seq<char>) -> Seq<char> {
    s.map_values(|c: char| ascii_lower(c))
}

/// Makes the ASCII capitals of `text` small.
pub fn to_ascii_lowercase(text: &str) -> (r: String)
    ensures
        r@ == ascii_lowered(text@),
{
    let s = chars_of(text);
    let mut r = String::new();
    let mut i: usize = 0;
    while i < s.len()
        invariant
            i <= s@.len(),
            s@ == text@,
            r@ == ascii_lowered(text@.take(i as int)),
        decreases s@.len() - i,
    {
        let c: char = s[i];
        if 'A' <= c && c <= 'Z' {
            let code: u8 = c as u8 + 32;
            r.push(code as char);
        } else {
            r.push(c);
        }
        assert(text@.take(i + 1) =~= text@.take(i as int).push(c));
        i += 1;
        assert(r@ =~= ascii_lowered(text@.take(i as int)));
    }
    assert(text@.take(i as int) =~= text@);
    r
}

/// The first `count` characters of `s`, or all where there are fewer.
pub open spec fn first_chars(s: Seq<char>, count: nat) -> Seq<char> {
    if s.len() <= count {
        s
    } else {
        s.take(count as int)
    }
}

/// Keeps at most the first `count` characters of `text`.
pub fn take_chars(text: &str, count: usize) -> (r: String)
    ensures
        r@ == first_chars(text@, count as nat),
{
    let s = chars_of(text);
    if s.len() <= count {
        text.to_owned()
    } else {
        let r = from_chars(vstd::slice::slice_subrange(s.as_slice(), 0, count));
        assert(r@ =~= text@.take(count as int));
        r
    }
}

/// The number of characters of `text`.
pub fn char_count(text: &str) -> (r: usize)
    ensures
        r == text@.len(),
{
    chars_of(text).len()
}

/// The decimal digits of `n`.
pub open spec fn decimal_view(n: nat) -> Seq<char>
    decreases n,
{
    if n < 10 {
        seq![digit_char(n)]
    } else {
        decimal_view(n / 10).push(digit_char(n % 10))
    }
}

/// The digit for a number below ten.
pub open spec fn digit_char(d: nat) -> char {
    ((48 + d) as u8) as char
}

/// Writes `n` in decimal digits.
pub fn decimal(n: u64) -> (r: String)
    ensures
        r@ == decimal_view(n as nat),
    decreases n,
{
    let digit: u8 = (n % 10) as u8;
    let c: char = (48 + digit) as char;
    let mut r = if n < 10 {
        String::new()
    } else {
        decimal(n / 10)
    };
    r.push(c);
    proof {
        if n < 10 {
            assert(r@ =~= seq![digit_char(n as nat)]);
        }
    }
    r
}

/// A number with its sign, in decimal.
pub open spec fn signed_view(n: int) -> Seq<char> {
    if n < 0 {
        seq!['-'] + decimal_view((-n) as nat)
    } else {
        decimal_view(n as nat)
    }
}

/// Writes a number with its sign, in decimal.
pub fn signed_decimal(n: i64) -> (r: String)
    ensures
        r@ == signed_view(n as int),
{
    if n >= 0 {
        return decimal(n as u64);
    }
    let magnitude: u64 = (-(n as i128)) as u64;
    let digits = decimal(magnitude);
    let mut r = String::new();
    r.push('-');
    r.append(digits.as_str());
    assert(r@ =~= signed_view(n as int));
    r
}

/// The number that a run of decimal digits stands for.
pub open spec fn digits_value(s: Seq<char>) -> nat
    decreases s.len(),
{
    if s.len() == 0 {
        0
    } else {
        digits_value(s.drop_last()) * 10 + (s.last() as nat - 48) as nat
    }
}

/// Every character of `s` is a decimal digit.
pub open spec fn all_digits(s: Seq<char>) -> bool {
    forall|i: int| 0 <= i < s.len() ==> '0' <= #[trigger] s[i] <= '9'
}

/// The digits of an unsigned number in text: a leading plus sign does not count.
pub open spec fn unsigned_digits(s: Seq<char>) -> Seq<char> {
    if s.len() > 0 && s[0] == '+' {
        s.skip(1)
    } else {
        s
    }
}

/// The unsigned number that `s` holds, where it is one and is at most `limit`.
pub open spec fn unsigned_value(s: Seq<char>, limit: nat) -> Option<nat> {
    let digits = unsigned_digits(s);
    if digits.len() > 0 && all_digits(digits) && digits_value(digits) <= limit {
        Some(digits_value(digits))
    } else {
        None
    }
}

proof fn lemma_digits_value_grows(s: Seq<char>, i: int)
    requires
        all_digits(s),
        0 <= i <= s.len(),
    ensures
        digits_value(s.take(i)) <= digits_value(s),
    decreases s.len() - i,
{
    if i < s.len() {
        lemma_digits_value_grows(s, i + 1);
        assert(s.take(i + 1).drop_last() =~= s.take(i));
    } else {
        assert(s.take(i) =~= s);
    }
}

/// Reads an unsigned decimal number of at most `limit`.
pub fn parse_unsigned(text: &str, limit: u64) -> (r: Option<u64>)
    ensures
        match r {
            Some(value) => unsigned_value(text@, limit as nat) == Some(value as nat),
            None => unsigned_value(text@, limit as nat) is None,
        },
{
    let all = chars_of(text);
    let start: usize = if all.len() > 0 && all[0] == '+' {
        1
    } else {
        0
    };
    let ghost digits = unsigned_digits(text@);
    assert(all@.skip(start as int) =~= digits);
    if all.len() == start {
        return None;
    }
    let mut value: u64 = 0;
    let mut i: usize = start;
    assert(digits.take(0) =~= Seq::<char>::empty());
    while i < all.len()
        invariant
            start <= i <= all@.len(),
            digits == all@.skip(start as int),
            digits == unsigned_digits(text@),
            forall|k: int| 0 <= k < i - start ==> '0' <= #[trigger] digits[k] <= '9',
            value == digits_value(digits.take(i - start)),
            value <= limit,
        decreases all@.len() - i,
    {
        let c: char = all[i];
        assert(digits[i - start] == c);
        if c < '0' || c > '9' {
            return None;
        }
        let digit: u64 = (c as u8 - 48) as u64;
        assert(digits.take(i - start + 1).drop_last() =~= digits.take(i - start));
        assert(digits_value(digits.take(i - start + 1)) == value * 10 + digit);
        proof {
            if all_digits(digits) {
                lemma_digits_value_grows(digits, i - start + 1);
            }
        }
        if value > (u64::MAX - digit) / 10 || value * 10 + digit > limit {
            return None;
        }
        value = value * 10 + digit;
        i += 1;
    }
    assert(digits.take(i - start) =~= digits);
    Some(value)
}

/// The parts one after the other, with `separator` between them.
pub open spec fn joined(parts: Seq<Seq<char>>, separator: Seq<char>) -> Seq<char>
    decreases parts.len(),
{
    if parts.len() == 0 {
        Seq::empty()
    } else if parts.len() == 1 {
        parts[0]
    } else {
        joined(parts.drop_last(), separator) + separator + parts.last()
    }
}

/// The parts one after the other, with `separator` between them.
pub fn join(parts: &Vec<String>, separator: &str) -> (r: String)
    ensures
        r@ == joined(views(parts@), separator@),
{
    let ghost all = views(parts@);
    let mut r = String::new();
    let mut i: usize = 0;
    assert(r@ =~= joined(all.take(0), separator@));
    while i < parts.len()
        invariant
            i <= parts@.len(),
            all == views(parts@),
            r@ == joined(all.take(i as int), separator@),
        decreases parts@.len() - i,
    {
        assert(all.take(i + 1).drop_last() =~= all.take(i as int));
        assert(all.take(i + 1).last() == parts@[i as int]@);
        if i > 0 {
            r.append(separator);
        }
        r.append(parts[i].as_str());
        assert(r@ =~= joined(all.take(i + 1), separator@));
        i += 1;
    }
    assert(all.take(i as int) =~= all);
    r
}

/// The complete lines of `s`, each with its line break, and what follows the last break.
pub open spec fn line_split(s: Seq<char>) -> (Seq<Seq<char>>, Seq<char>)
    decreases s.len(),
{
    if s.len() == 0 {
        (Seq::empty(), Seq::empty())
    } else {
        let (lines, partial) = line_split(s.drop_last());
        if s.last() == '\n' {
            (lines.push(partial.push('\n')), Seq::empty())
        } else {
            (lines, partial.push(s.last()))
        }
    }
}

/// The complete lines of `text`, each with its line break.
pub fn complete_lines(text: &str) -> (r: Vec<String>)
    ensures
        views(r@) == line_split(text@).0,
{
    let s = chars_of(text);
    let mut r: Vec<String> = Vec::new();
    let mut partial = String::new();
    let mut i: usize = 0;
    assert(views(r@) =~= line_split(s@.take(0)).0);
    while i < s.len()
        invariant
            i <= s@.len(),
            s@ == text@,
            views(r@) == line_split(s@.take(i as int)).0,
            partial@ == line_split(s@.take(i as int)).1,
        decreases s@.len() - i,
    {
        let c: char = s[i];
        let ghost before = r@;
        assert(s@.take(i + 1).drop_last() =~= s@.take(i as int));
        assert(s@.take(i + 1).last() == c);
        partial.push(c);
        if c == '\n' {
            let ghost line = partial@;
            r.push(partial);
            assert(views(r@) =~= views(before).push(line));
            partial = String::new();
        }
        i += 1;
    }
    assert(s@.take(i as int) =~= s@);
    r
}

/// What `str::to_lowercase` of the standard library makes of a text.
pub uninterp spec fn lowercased(s: Seq<char>) -> Seq<char>;

/// `str::to_lowercase`: the Unicode lower case of a text, named and not described.
#[verifier::external_body]
pub(crate) fn to_lowercase(text: &str) -> (r: String)
    ensures
        r@ == lowercased(text@),
{
    text.to_lowercase()
}

} // verus!
