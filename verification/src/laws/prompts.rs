//! What becomes of prompt templates.

use vstd::prelude::*;
use vstd::string::*;

use crate::engine::policy;
use crate::models::Failure;
use crate::text;

verus! {

/// No placeholder starts in the text.
pub open spec fn braceless(s: Seq<char>) -> bool {
    forall|i: int| 0 <= i < s.len() ==> #[trigger] s[i] != '{'
}

/// What a failure says of itself holds no brace.
pub open spec fn plainly_told(failure: Failure) -> bool {
    &&& braceless(failure.provider@)
    &&& braceless(failure.condition@)
    &&& braceless(failure.provider_code@)
    &&& failure.model matches Some(model) ==> braceless(model@)
}

/// `value` is what stands for a placeholder.
pub open spec fn stands_for(
    placeholder: Seq<char>,
    failure: Failure,
    attempt: nat,
    max_attempts: nat,
    value: Seq<char>,
) -> bool {
    ||| placeholder == "{provider}"@ && value == failure.provider@
    ||| placeholder == "{model}"@ && value == (match failure.model {
        Some(model) => model@,
        None => "unknown"@,
    })
    ||| placeholder == "{condition}"@ && value == failure.condition@
    ||| placeholder == "{provider_code}"@ && value == failure.provider_code@
    ||| placeholder == "{attempt}"@ && value == text::decimal_view(attempt)
    ||| placeholder == "{max_attempts}"@ && value == text::decimal_view(max_attempts)
}

spec fn is_placeholder(p: Seq<char>) -> bool {
    &&& p.len() >= 2
    &&& p[0] == '{'
    &&& p.last() == '}'
    &&& forall|i: int| 0 < i < p.len() ==> #[trigger] p[i] != '{'
    &&& forall|i: int| 0 <= i < p.len() - 1 ==> #[trigger] p[i] != '}'
}

proof fn lemma_replacing_skips(a: Seq<char>, s: Seq<char>, from: Seq<char>, to: Seq<char>)
    requires
        braceless(a),
        is_placeholder(from),
    ensures
        text::replaced(a + s, from, to) == a + text::replaced(s, from, to),
    decreases a.len(),
{
    if a.len() == 0 {
        assert(a + s =~= s);
        assert(a + text::replaced(s, from, to) =~= text::replaced(s, from, to));
    } else {
        let whole = a + s;
        assert(whole[0] == a[0]);
        if text::occurs_at(whole, from, 0) {
            assert(whole.subrange(0, from.len() as int)[0] == from[0]);
            assert(false);
        }
        assert(whole.skip(1) =~= a.skip(1) + s);
        lemma_replacing_skips(a.skip(1), s, from, to);
        assert(a =~= seq![a[0]] + a.skip(1));
        assert(text::replaced(whole, from, to) =~= a + text::replaced(s, from, to));
    }
}

proof fn lemma_replacing_a_placeholder(p: Seq<char>, s: Seq<char>, from: Seq<char>, to: Seq<char>)
    requires
        is_placeholder(p),
        is_placeholder(from),
    ensures
        p == from ==> text::replaced(p + s, from, to) == to + text::replaced(s, from, to),
        p != from ==> text::replaced(p + s, from, to) == p + text::replaced(s, from, to),
{
    let whole = p + s;
    if p == from {
        assert(whole.subrange(0, from.len() as int) =~= from);
        assert(whole.skip(from.len() as int) =~= s);
    } else {
        if text::occurs_at(whole, from, 0) {
            let start = whole.subrange(0, from.len() as int);
            assert(start == from);
            if from.len() < p.len() {
                assert(start.last() == p[from.len() - 1]);
                assert(false);
            } else if from.len() > p.len() {
                assert(start[p.len() - 1] == p.last());
                assert(false);
            } else {
                assert(start =~= p);
            }
        }
        assert(whole[0] == p[0]);
        assert(whole.skip(1) =~= p.skip(1) + s);
        assert(braceless(p.skip(1)));
        lemma_replacing_skips(p.skip(1), s, from, to);
        assert(p =~= seq![p[0]] + p.skip(1));
        assert(text::replaced(whole, from, to) =~= p + text::replaced(s, from, to));
    }
}

proof fn lemma_digits_are_braceless(n: nat)
    ensures
        braceless(text::decimal_view(n)),
    decreases n,
{
    let d = n % 10;
    assert(text::digit_char(d) as u32 == 48 + d);
    if n >= 10 {
        lemma_digits_are_braceless(n / 10);
    }
}

proof fn lemma_placeholders()
    ensures
        is_placeholder("{provider}"@),
        is_placeholder("{model}"@),
        is_placeholder("{condition}"@),
        is_placeholder("{provider_code}"@),
        is_placeholder("{attempt}"@),
        is_placeholder("{max_attempts}"@),
        braceless("unknown"@),
        "{provider}"@.len() == 10,
        "{model}"@.len() == 7,
        "{condition}"@.len() == 11,
        "{provider_code}"@.len() == 15,
        "{attempt}"@.len() == 9,
        "{max_attempts}"@.len() == 14,
{
    reveal_strlit("{provider}");
    reveal_strlit("{model}");
    reveal_strlit("{condition}");
    reveal_strlit("{provider_code}");
    reveal_strlit("{attempt}");
    reveal_strlit("{max_attempts}");
    reveal_strlit("unknown");
}

proof fn lemma_step(a: Seq<char>, p: Seq<char>, s: Seq<char>, from: Seq<char>, to: Seq<char>)
    requires
        braceless(a),
        is_placeholder(p),
        is_placeholder(from),
    ensures
        text::replaced(a + p + s, from, to) == a + (if p == from {
            to
        } else {
            p
        }) + text::replaced(s, from, to),
{
    lemma_replacing_skips(a, p + s, from, to);
    lemma_replacing_a_placeholder(p, s, from, to);
    assert(a + p + s =~= a + (p + s));
    let kept = if p == from {
        to
    } else {
        p
    };
    assert(a + (kept + text::replaced(s, from, to)) =~= a + kept + text::replaced(s, from, to));
}

proof fn lemma_skip(a: Seq<char>, s: Seq<char>, from: Seq<char>, to: Seq<char>, v: Seq<char>)
    requires
        braceless(a),
        braceless(v),
        is_placeholder(from),
    ensures
        text::replaced(a + v + s, from, to) == a + v + text::replaced(s, from, to),
{
    assert(braceless(a + v));
    lemma_replacing_skips(a + v, s, from, to);
}

/// A placeholder in a template becomes its value, and what comes before and after it is rendered on
/// its own. With the next law this says what becomes of every template.
pub proof fn placeholders_become_their_values(
    template: &str,
    rest: &str,
    failure: &Failure,
    attempt: usize,
    max_attempts: usize,
    before: Seq<char>,
    placeholder: Seq<char>,
    value: Seq<char>,
    prompt: String,
    rest_prompt: String,
)
    requires
        call_ensures(policy::render_prompt, (template, failure, attempt, max_attempts), prompt),
        call_ensures(policy::render_prompt, (rest, failure, attempt, max_attempts), rest_prompt),
        template@ == before + placeholder + rest@,
        braceless(before),
        plainly_told(*failure),
        stands_for(placeholder, *failure, attempt as nat, max_attempts as nat, value),
    ensures
        prompt@ == before + value + rest_prompt@,
{
    lemma_placeholders();
    lemma_digits_are_braceless(attempt as nat);
    lemma_digits_are_braceless(max_attempts as nat);
    let model = match failure.model {
        Some(model) => model@,
        None => "unknown"@,
    };
    let a = before;
    let p = placeholder;
    let v = value;
    let names = seq![
        "{provider}"@,
        "{model}"@,
        "{condition}"@,
        "{provider_code}"@,
        "{attempt}"@,
        "{max_attempts}"@,
    ];
    let values = seq![
        failure.provider@,
        model,
        failure.condition@,
        failure.provider_code@,
        text::decimal_view(attempt as nat),
        text::decimal_view(max_attempts as nat),
    ];
    let s0 = rest@;
    let s1 = text::replaced(s0, names[0], values[0]);
    let s2 = text::replaced(s1, names[1], values[1]);
    let s3 = text::replaced(s2, names[2], values[2]);
    let s4 = text::replaced(s3, names[3], values[3]);
    let s5 = text::replaced(s4, names[4], values[4]);
    assert(braceless(v));
    lemma_step(a, p, s0, names[0], values[0]);
    lemma_skip(a, s0, names[0], values[0], v);
    lemma_step(a, p, s1, names[1], values[1]);
    lemma_skip(a, s1, names[1], values[1], v);
    lemma_step(a, p, s2, names[2], values[2]);
    lemma_skip(a, s2, names[2], values[2], v);
    lemma_step(a, p, s3, names[3], values[3]);
    lemma_skip(a, s3, names[3], values[3], v);
    lemma_step(a, p, s4, names[4], values[4]);
    lemma_skip(a, s4, names[4], values[4], v);
    lemma_step(a, p, s5, names[5], values[5]);
    lemma_skip(a, s5, names[5], values[5], v);
}

/// A template without placeholders is the prompt as it stands.
pub proof fn templates_without_placeholders_stay(
    template: &str,
    failure: &Failure,
    attempt: usize,
    max_attempts: usize,
    prompt: String,
)
    requires
        call_ensures(policy::render_prompt, (template, failure, attempt, max_attempts), prompt),
        braceless(template@),
    ensures
        prompt@ == template@,
{
    lemma_placeholders();
    let e = Seq::<char>::empty();
    let t = template@;
    assert(t + e =~= t);
    lemma_replacing_skips(t, e, "{provider}"@, failure.provider@);
    lemma_replacing_skips(t, e, "{model}"@, policy::model_name(*failure));
    lemma_replacing_skips(t, e, "{condition}"@, failure.condition@);
    lemma_replacing_skips(t, e, "{provider_code}"@, failure.provider_code@);
    lemma_replacing_skips(t, e, "{attempt}"@, text::decimal_view(attempt as nat));
    lemma_replacing_skips(t, e, "{max_attempts}"@, text::decimal_view(max_attempts as nat));
}

} // verus!
