//! Times, texts and values: what the rest is measured in.

use vstd::prelude::*;
use vstd::string::*;

use crate::json::{Json, Number};
use crate::text;
use crate::time;
use crate::time::Timestamp;

verus! {

/// Times outside of leap seconds are ordered by the nanoseconds that they count.
pub proof fn times_are_ordered_by_nanoseconds(
    time: Timestamp,
    reference: Timestamp,
    offset: i128,
    r: bool,
)
    requires
        time.nanos < 1_000_000_000,
        reference.nanos < 1_000_000_000,
        call_ensures(Timestamp::not_before, (time, reference, offset), r),
    ensures
        r <==> time.seconds * 1_000_000_000 + time.nanos >= (reference.seconds + offset)
            * 1_000_000_000 + reference.nanos,
        r == time.is_not_before(reference, offset as int),
{
}

/// A time outside of leap seconds is moved by whole seconds, forth as far as back.
pub proof fn times_are_moved_by_seconds(
    time: Timestamp,
    offset: i128,
    back: i128,
    moved: Timestamp,
    returned: Option<Timestamp>,
)
    requires
        time.nanos < 1_000_000_000,
        back == -offset,
        call_ensures(Timestamp::moved, (time, offset), Some(moved)),
        call_ensures(Timestamp::moved, (moved, back), returned),
    ensures
        moved.seconds == time.seconds + offset,
        moved.nanos == time.nanos,
        returned == Some(time),
        moved == time.later(offset as int),
{
}

/// The nanoseconds between two times outside of leap seconds are their difference.
pub proof fn durations_are_differences(late: Timestamp, early: Timestamp, r: i128)
    requires
        late.nanos < 1_000_000_000,
        early.nanos < 1_000_000_000,
        call_ensures(Timestamp::since, (late, early), r),
    ensures
        r == (late.seconds * 1_000_000_000 + late.nanos) - (early.seconds * 1_000_000_000
            + early.nanos),
{
}

/// The later of two times is one of them, and neither is after it. A missing one is before all.
pub proof fn the_later_time_is_not_before_either(
    a: Option<Timestamp>,
    b: Option<Timestamp>,
    r: Option<Timestamp>,
)
    requires
        call_ensures(time::later_of, (a, b), r),
    ensures
        r == a || r == b,
        a matches Some(x) ==> r is Some && r->0.is_not_before(x, 0),
        b matches Some(x) ==> r is Some && r->0.is_not_before(x, 0),
{
}

/// A time is not after another exactly where it is missing, or the other is there and not before.
pub proof fn a_missing_time_is_after_none(
    a: Option<Timestamp>,
    b: Option<Timestamp>,
    r: bool,
)
    requires
        call_ensures(time::is_not_after, (a, b), r),
    ensures
        a is None ==> r,
        a is Some && b is None ==> !r,
        a is Some && b is Some ==> r == b->0.is_not_before(a->0, 0),
{
}

/// The calendar runs from the year -262143 to the year 262142.
pub proof fn the_calendar_has_an_end(t: Timestamp, r: bool)
    requires
        t.nanos < 1_000_000_000,
        call_ensures(Timestamp::is_writable, (t,), r),
    ensures
        r <==> -8_334_601_228_800 <= t.seconds <= 8_210_266_876_799,
{
}

/// A text contains another exactly where it is that one between two others.
pub proof fn contained_texts_stand_between_others(s: &str, needle: &str, r: bool)
    requires
        call_ensures(text::contains, (s, needle), r),
    ensures
        r <==> exists|a: Seq<char>, b: Seq<char>| s@ == #[trigger] (a + needle@ + b),
{
    if r {
        let at = choose|at: int| text::occurs_at(s@, needle@, at);
        let a = s@.take(at);
        let b = s@.skip(at + needle@.len());
        assert(s@.subrange(at, at + needle@.len()) == needle@);
        assert(s@ =~= a + needle@ + b);
    }
    if exists|a: Seq<char>, b: Seq<char>| s@ == #[trigger] (a + needle@ + b) {
        let (a, b) = choose|a: Seq<char>, b: Seq<char>| s@ == #[trigger] (a + needle@ + b);
        assert(s@.subrange(a.len() as int, (a.len() + needle@.len()) as int) =~= needle@);
        assert(text::occurs_at(s@, needle@, a.len() as int));
    }
}

/// A text starts with another exactly where it is that one and a rest.
pub proof fn prefixes_are_followed_by_a_rest(s: &str, prefix: &str, r: bool)
    requires
        call_ensures(text::starts_with, (s, prefix), r),
    ensures
        r <==> exists|b: Seq<char>| s@ == #[trigger] (prefix@ + b),
{
    if r {
        let b = s@.skip(prefix@.len() as int);
        assert(s@.subrange(0, prefix@.len() as int) == prefix@);
        assert(s@ =~= prefix@ + b);
    }
    if exists|b: Seq<char>| s@ == #[trigger] (prefix@ + b) {
        let b = choose|b: Seq<char>| s@ == #[trigger] (prefix@ + b);
        assert(s@.subrange(0, prefix@.len() as int) =~= prefix@);
    }
}

/// A text ends with another exactly where it is a start and that one.
pub proof fn suffixes_follow_a_start(s: &str, suffix: &str, r: bool)
    requires
        call_ensures(text::ends_with, (s, suffix), r),
    ensures
        r <==> exists|a: Seq<char>| s@ == #[trigger] (a + suffix@),
{
    if r {
        let at = s@.len() - suffix@.len();
        let a = s@.take(at);
        assert(s@.subrange(at, at + suffix@.len()) == suffix@);
        assert(s@ =~= a + suffix@);
    }
    if exists|a: Seq<char>| s@ == #[trigger] (a + suffix@) {
        let a = choose|a: Seq<char>| s@ == #[trigger] (a + suffix@);
        assert(s@.subrange(a.len() as int, (a.len() + suffix@.len()) as int) =~= suffix@);
    }
}

proof fn lemma_trimmed_start(s: Seq<char>)
    ensures
        exists|a: Seq<char>| s == #[trigger] (a + text::trimmed_start(s)) && text::blank(a),
        text::trimmed_start(s).len() > 0 ==> !text::white(text::trimmed_start(s)[0]),
    decreases s.len(),
{
    if s.len() > 0 && text::white(s[0]) {
        lemma_trimmed_start(s.skip(1));
        let rest = text::trimmed_start(s.skip(1));
        let a = choose|a: Seq<char>| s.skip(1) == #[trigger] (a + rest) && text::blank(a);
        let b = seq![s[0]] + a;
        assert(s =~= seq![s[0]] + s.skip(1));
        assert(s =~= b + rest);
        assert(text::blank(b)) by {
            assert forall|i: int| 0 <= i < b.len() implies text::white(#[trigger] b[i]) by {
                if i > 0 {
                    assert(b[i] == a[i - 1]);
                }
            }
        }
        assert(s == b + text::trimmed_start(s));
    } else {
        let a = Seq::<char>::empty();
        assert(text::blank(a));
        assert(s =~= a + text::trimmed_start(s));
    }
}

proof fn lemma_trimmed_end(s: Seq<char>)
    ensures
        exists|b: Seq<char>| s == #[trigger] (text::trimmed_end(s) + b) && text::blank(b),
        text::trimmed_end(s).len() > 0 ==> !text::white(text::trimmed_end(s).last()),
        text::trimmed_end(s).len() > 0 ==> text::trimmed_end(s)[0] == s[0],
    decreases s.len(),
{
    if s.len() > 0 && text::white(s.last()) {
        lemma_trimmed_end(s.drop_last());
        let rest = text::trimmed_end(s.drop_last());
        let b = choose|b: Seq<char>| s.drop_last() == #[trigger] (rest + b) && text::blank(b);
        let c = b.push(s.last());
        assert(s =~= s.drop_last().push(s.last()));
        assert(s =~= rest + c);
        assert(text::blank(c)) by {
            assert forall|i: int| 0 <= i < c.len() implies text::white(#[trigger] c[i]) by {
                if i < b.len() {
                    assert(c[i] == b[i]);
                }
            }
        }
        assert(s == text::trimmed_end(s) + c);
    } else {
        let b = Seq::<char>::empty();
        assert(text::blank(b));
        assert(s =~= text::trimmed_end(s) + b);
    }
}

/// Trimming takes white space off both ends and nothing else.
pub proof fn trimming_leaves_the_middle(s: &str, r: String)
    requires
        call_ensures(text::trim, (s,), r),
    ensures
        exists|a: Seq<char>, b: Seq<char>|
            s@ == #[trigger] (a + r@ + b) && text::blank(a) && text::blank(b),
        r@.len() > 0 ==> !text::white(r@[0]) && !text::white(r@.last()),
{
    let start = text::trimmed_start(s@);
    lemma_trimmed_start(s@);
    lemma_trimmed_end(start);
    let a = choose|a: Seq<char>| s@ == #[trigger] (a + start) && text::blank(a);
    let b = choose|b: Seq<char>| start == #[trigger] (r@ + b) && text::blank(b);
    assert(s@ =~= a + r@ + b);
}

/// The white space of ASCII is the space and the characters from tab to carriage return.
pub proof fn ascii_white_space(c: char, r: bool)
    requires
        (c as u32) < 128,
        call_ensures(text::is_whitespace, (c,), r),
    ensures
        r <==> c == ' ' || c == '\t' || c == '\n' || c == '\r' || c as u32 == 11 || c as u32 == 12,
        text::white(c) == r,
{
}

/// Lowering a text keeps its length and every character but the 26 capitals, each of which becomes
/// the letter 32 places on.
pub proof fn lowering_changes_capitals_alone(s: &str, r: String, i: int)
    requires
        call_ensures(text::to_ascii_lowercase, (s,), r),
        0 <= i < s@.len(),
    ensures
        r@.len() == s@.len(),
        65 <= s@[i] as u32 <= 90 ==> r@[i] as u32 == s@[i] as u32 + 32,
        !(65 <= s@[i] as u32 <= 90) ==> r@[i] == s@[i],
{
    assert(r@[i] == text::ascii_lower(s@[i]));
    let code: u32 = s@[i] as u32;
    if 65 <= code <= 90 {
        assert(((code + 32) as u32) as char as u32 == code + 32);
    }
}

/// Numbers are written in decimal: below ten as one digit, and otherwise as the tenth part and the
/// last digit.
pub proof fn numbers_are_written_in_decimal(n: u64, tenth: u64, r: String, shorter: String)
    requires
        tenth == n / 10,
        call_ensures(text::decimal, (n,), r),
        call_ensures(text::decimal, (tenth,), shorter),
    ensures
        r@.len() > 0,
        r@.last() as u32 == '0' as u32 + n % 10,
        n < 10 ==> r@.len() == 1,
        n >= 10 ==> r@.drop_last() == shorter@,
        r@ == text::decimal_view(n as nat),
{
    let d = n as nat % 10;
    assert(text::digit_char(d) as u32 == 48 + d);
    if n >= 10 {
        assert(r@.drop_last() =~= shorter@);
    }
}

/// A member of a value is what the object holds under that name; nothing else has members.
pub proof fn members_are_what_objects_hold(value: &Json, key: &str, r: Option<&Json>)
    requires
        call_ensures(Json::get, (value, key), r),
    ensures
        match *value {
            Json::Object(members) => match r {
                Some(found) => members@.contains_key(key@) && members@[key@] == *found,
                None => !members@.contains_key(key@),
            },
            _ => r is None,
        },
{
}

/// Values are read as what they are and as nothing else.
pub proof fn values_are_read_as_what_they_are(
    value: &Json,
    text: Option<&str>,
    flag: Option<bool>,
    count: Option<u64>,
    number: Option<i64>,
)
    requires
        call_ensures(Json::as_str, (value,), text),
        call_ensures(Json::as_bool, (value,), flag),
        call_ensures(Json::as_u64, (value,), count),
        call_ensures(Json::as_i64, (value,), number),
    ensures
        match *value {
            Json::Text(s) => text is Some && text->0@ == s@,
            _ => text is None,
        },
        match *value {
            Json::Bool(b) => flag == Some(b),
            _ => flag is None,
        },
        match *value {
            Json::Number(Number::Unsigned(n)) => count == Some(n) && (n <= i64::MAX ==> number
                == Some(n as i64)) && (n > i64::MAX ==> number is None),
            Json::Number(Number::Negative(n)) => count is None && number == Some(n),
            _ => count is None && number is None,
        },
{
}

} // verus!
