//! Sorting that keeps what is equal in its order.

use vstd::prelude::*;

verus! {

/// `le` orders values: it is total and transitive.
pub open spec fn is_order<T>(le: spec_fn(T, T) -> bool) -> bool {
    &&& forall|a: T, b: T| #[trigger] le(a, b) || le(b, a)
    &&& forall|a: T, b: T, c: T| #[trigger] le(a, b) && #[trigger] le(b, c) ==> le(a, c)
}

/// Where a value goes among ordered ones: behind the last that it does not come before.
pub open spec fn place<T>(s: Seq<T>, x: T, le: spec_fn(T, T) -> bool) -> int
    decreases s.len(),
{
    if s.len() == 0 || le(s.last(), x) {
        s.len() as int
    } else {
        place(s.drop_last(), x, le)
    }
}

/// The values in order; those that are equal in it stay in their order.
pub open spec fn arranged<T>(s: Seq<T>, le: spec_fn(T, T) -> bool) -> Seq<T>
    decreases s.len(),
{
    if s.len() == 0 {
        s
    } else {
        let before = arranged(s.drop_last(), le);
        before.insert(place(before, s.last(), le), s.last())
    }
}

/// Each value comes before the next.
pub open spec fn ascending<T>(s: Seq<T>, le: spec_fn(T, T) -> bool) -> bool {
    forall|i: int, j: int| #![trigger s[i], s[j]] 0 <= i <= j < s.len() ==> le(s[i], s[j])
}

/// A place lies within what is ordered, and only what comes after the value stands behind it.
pub proof fn lemma_place<T>(s: Seq<T>, x: T, le: spec_fn(T, T) -> bool)
    ensures
        0 <= place(s, x, le) <= s.len(),
        place(s, x, le) > 0 ==> le(s[place(s, x, le) - 1], x),
        forall|k: int| place(s, x, le) <= k < s.len() ==> !le(#[trigger] s[k], x),
    decreases s.len(),
{
    if s.len() > 0 && !le(s.last(), x) {
        lemma_place(s.drop_last(), x, le);
        let at = place(s, x, le);
        assert forall|k: int| at <= k < s.len() implies !le(#[trigger] s[k], x) by {
            if k < s.len() - 1 {
                assert(!le(s.drop_last()[k], x));
            }
        }
    }
}

/// Arranging values loses none and adds none, and puts them in order.
pub proof fn arranging_keeps_values<T>(s: Seq<T>, le: spec_fn(T, T) -> bool)
    requires
        is_order(le),
    ensures
        arranged(s, le).to_multiset() == s.to_multiset(),
        arranged(s, le).len() == s.len(),
        ascending(arranged(s, le), le),
    decreases s.len(),
{
    broadcast use vstd::seq_lib::group_to_multiset_ensures;

    if s.len() > 0 {
        let rest = s.drop_last();
        let last = s.last();
        arranging_keeps_values(rest, le);
        let before = arranged(rest, le);
        let at = place(before, last, le);
        lemma_place(before, last, le);
        let after = arranged(s, le);
        assert(s =~= rest.push(last));
        assert(after == before.insert(at, last));
        assert forall|i: int, j: int|
            #![trigger after[i], after[j]]
            0 <= i <= j < after.len() implies le(after[i], after[j]) by {
            let oi = if i < at { i } else { i - 1 };
            let oj = if j < at { j } else { j - 1 };
            if i != at && j != at {
                assert(le(before[oi], before[oj]));
            } else if i == at && j == at {
                assert(le(last, last));
            } else if i == at {
                assert(!le(before[oj], last));
                assert(le(last, before[oj]) || le(before[oj], last));
            } else {
                assert(le(before[oi], before[at - 1]));
                assert(le(before[at - 1], last));
            }
        }
        vstd::seq_lib::to_multiset_insert(before, at, last);
        assert(after.to_multiset() =~= s.to_multiset());
    }
}

} // verus!
