//! A map from text to values, kept in the byte order of its keys.

use vstd::prelude::*;
use vstd::string::*;
use vstd::utf8::*;

use crate::text;

verus! {

/// The order in which byte strings are compared: by the first byte that differs, a prefix first.
pub open spec fn bytes_less(a: Seq<u8>, b: Seq<u8>) -> bool
    decreases a.len(),
{
    if b.len() == 0 {
        false
    } else if a.len() == 0 {
        true
    } else if a[0] != b[0] {
        a[0] < b[0]
    } else {
        bytes_less(a.skip(1), b.skip(1))
    }
}

/// The order of two texts: that of their UTF-8 bytes.
pub open spec fn text_less(a: Seq<char>, b: Seq<char>) -> bool {
    bytes_less(encode_utf8(a), encode_utf8(b))
}

proof fn lemma_bytes_less_total(a: Seq<u8>, b: Seq<u8>)
    ensures
        bytes_less(a, b) || bytes_less(b, a) || a == b,
        !(bytes_less(a, b) && bytes_less(b, a)),
        a == b ==> !bytes_less(a, b),
    decreases a.len(),
{
    if a.len() > 0 && b.len() > 0 && a[0] == b[0] {
        lemma_bytes_less_total(a.skip(1), b.skip(1));
        if a.skip(1) == b.skip(1) {
            assert(a =~= seq![a[0]] + a.skip(1));
            assert(b =~= seq![b[0]] + b.skip(1));
        }
    } else if a.len() == 0 && b.len() == 0 {
        assert(a =~= b);
    }
}

proof fn lemma_bytes_less_transitive(a: Seq<u8>, b: Seq<u8>, c: Seq<u8>)
    requires
        bytes_less(a, b),
        bytes_less(b, c),
    ensures
        bytes_less(a, c),
    decreases a.len(),
{
    if a.len() > 0 && b.len() > 0 && c.len() > 0 && a[0] == b[0] && b[0] == c[0] {
        lemma_bytes_less_transitive(a.skip(1), b.skip(1), c.skip(1));
    }
}

/// Of two texts, one comes before the other or they are the same; never two of these.
pub proof fn lemma_text_order_is_total(a: Seq<char>, b: Seq<char>)
    ensures
        text_less(a, b) || text_less(b, a) || a == b,
        !(text_less(a, b) && text_less(b, a)),
        a == b ==> !text_less(a, b),
{
    lemma_bytes_less_total(encode_utf8(a), encode_utf8(b));
    text::lemma_bytes_determine_text(a, b);
}

/// The order of texts is transitive.
pub proof fn lemma_text_order_is_transitive(a: Seq<char>, b: Seq<char>, c: Seq<char>)
    requires
        text_less(a, b),
        text_less(b, c),
    ensures
        text_less(a, c),
{
    lemma_bytes_less_transitive(encode_utf8(a), encode_utf8(b), encode_utf8(c));
}

/// Whether `a` comes before `b` in the order of their bytes.
pub fn less(a: &str, b: &str) -> (r: bool)
    ensures
        r == text_less(a@, b@),
{
    let x: &[u8] = a.as_bytes();
    let y: &[u8] = b.as_bytes();
    let mut i: usize = 0;
    assert(x@.skip(0) =~= x@);
    assert(y@.skip(0) =~= y@);
    while i < x.len() && i < y.len()
        invariant
            i <= x@.len(),
            i <= y@.len(),
            x@ == encode_utf8(a@),
            y@ == encode_utf8(b@),
            bytes_less(x@.skip(i as int), y@.skip(i as int)) == bytes_less(x@, y@),
        decreases x@.len() - i,
    {
        if x[i] != y[i] {
            return x[i] < y[i];
        }
        assert(x@.skip(i as int).skip(1) =~= x@.skip(i + 1));
        assert(y@.skip(i as int).skip(1) =~= y@.skip(i + 1));
        i += 1;
    }
    i < y.len()
}

/// The keys of `entries` ascend strictly, so that none occurs twice.
pub open spec fn ordered<V>(entries: Seq<(String, V)>) -> bool {
    forall|i: int, j: int|
        #![trigger entries[i], entries[j]]
        0 <= i < j < entries.len() ==> text_less(entries[i].0@, entries[j].0@)
}

/// Some entry has the key `key`.
pub open spec fn has_key<V>(entries: Seq<(String, V)>, key: Seq<char>) -> bool {
    exists|i: int| 0 <= i < entries.len() && #[trigger] entries[i].0@ == key
}

/// The index of the entry for `key`, where there is one.
pub open spec fn key_index<V>(entries: Seq<(String, V)>, key: Seq<char>) -> int {
    choose|i: int| 0 <= i < entries.len() && #[trigger] entries[i].0@ == key
}

/// The mapping that a list of entries stands for.
pub open spec fn map_of<V>(entries: Seq<(String, V)>) -> Map<Seq<char>, V> {
    Map::new(|key: Seq<char>| has_key(entries, key), |key: Seq<char>| entries[key_index(entries, key)].1)
}

/// In ordered entries each index is the only one of its key.
pub proof fn lemma_key_is_unique<V>(entries: Seq<(String, V)>, i: int)
    requires
        ordered(entries),
        0 <= i < entries.len(),
    ensures
        key_index(entries, entries[i].0@) == i,
        map_of(entries).contains_key(entries[i].0@),
        map_of(entries)[entries[i].0@] == entries[i].1,
{
    let key = entries[i].0@;
    let j = key_index(entries, key);
    assert(entries[i].0@ == key);
    assert(0 <= j < entries.len() && entries[j].0@ == key);
    lemma_text_order_is_total(key, key);
}

/// A map whose keys are texts.
#[derive(Debug)]
pub struct TextMap<V> {
    entries: Vec<(String, V)>,
}

impl<V> View for TextMap<V> {
    type V = Map<Seq<char>, V>;

    closed spec fn view(&self) -> Map<Seq<char>, V> {
        map_of(self.entries@)
    }
}

impl<V> TextMap<V> {
    #[verifier::type_invariant]
    spec fn keys_ascend(self) -> bool {
        ordered(self.entries@)
    }

    /// The entries in the order of their keys.
    pub closed spec fn entries(&self) -> Seq<(String, V)> {
        self.entries@
    }

    /// An empty map.
    pub fn new() -> (r: Self)
        ensures
            r@ == Map::<Seq<char>, V>::empty(),
            r.entries() == Seq::<(String, V)>::empty(),
    {
        let r = TextMap { entries: Vec::new() };
        assert(r@ =~= Map::<Seq<char>, V>::empty());
        r
    }

    /// The number of entries.
    pub fn len(&self) -> (r: usize)
        ensures
            r == self.entries().len(),
            ordered(self.entries()),
            self@ == map_of(self.entries()),
    {
        proof {
            use_type_invariant(&*self);
        }
        self.entries.len()
    }

    /// Whether there is no entry.
    pub fn is_empty(&self) -> (r: bool)
        ensures
            r == (self.entries().len() == 0),
            r == (self@ == Map::<Seq<char>, V>::empty()),
    {
        proof {
            if self.entries@.len() == 0 {
                assert(self@ =~= Map::<Seq<char>, V>::empty());
            } else {
                assert(self.entries@[0].0@ == self.entries@[0].0@);
                assert(self@.contains_key(self.entries@[0].0@));
            }
        }
        self.entries.len() == 0
    }

    /// The key of the entry at `index`, in the order of the keys.
    pub fn key_at(&self, index: usize) -> (r: &String)
        requires
            index < self.entries().len(),
        ensures
            *r == self.entries()[index as int].0,
    {
        &self.entries[index].0
    }

    /// The value of the entry at `index`, in the order of the keys.
    pub fn value_at(&self, index: usize) -> (r: &V)
        requires
            index < self.entries().len(),
        ensures
            *r == self.entries()[index as int].1,
    {
        &self.entries[index].1
    }

    fn position(&self, key: &str) -> (r: (usize, bool))
        ensures
            r.0 <= self.entries@.len(),
            forall|i: int| 0 <= i < r.0 ==> text_less(#[trigger] self.entries@[i].0@, key@),
            r.1 ==> r.0 < self.entries@.len() && self.entries@[r.0 as int].0@ == key@,
            !r.1 ==> forall|i: int|
                r.0 <= i < self.entries@.len() ==> text_less(key@, #[trigger] self.entries@[i].0@),
    {
        proof {
            use_type_invariant(&*self);
        }
        let mut i: usize = 0;
        while i < self.entries.len()
            invariant
                i <= self.entries@.len(),
                ordered(self.entries@),
                forall|k: int| 0 <= k < i ==> text_less(#[trigger] self.entries@[k].0@, key@),
            decreases self.entries@.len() - i,
        {
            let here: &str = self.entries[i].0.as_str();
            if text::same(here, key) {
                return (i, true);
            }
            if !less(here, key) {
                proof {
                    lemma_text_order_is_total(self.entries@[i as int].0@, key@);
                    assert forall|k: int| i <= k < self.entries@.len() implies text_less(
                        key@,
                        #[trigger] self.entries@[k].0@,
                    ) by {
                        if k > i {
                            lemma_text_order_is_transitive(
                                key@,
                                self.entries@[i as int].0@,
                                self.entries@[k].0@,
                            );
                        }
                    }
                }
                return (i, false);
            }
            i += 1;
        }
        (i, false)
    }

    proof fn lemma_absent(entries: Seq<(String, V)>, at: int, key: Seq<char>)
        requires
            0 <= at <= entries.len(),
            forall|i: int| 0 <= i < at ==> text_less(#[trigger] entries[i].0@, key),
            forall|i: int| at <= i < entries.len() ==> text_less(key, #[trigger] entries[i].0@),
        ensures
            !has_key(entries, key),
    {
        if has_key(entries, key) {
            let i = key_index(entries, key);
            assert(entries[i].0@ == key);
            lemma_text_order_is_total(key, key);
            if i < at {
                assert(text_less(entries[i].0@, key));
            } else {
                assert(text_less(key, entries[i].0@));
            }
        }
    }

    /// The value for `key`, if there is one.
    pub fn get(&self, key: &str) -> (r: Option<&V>)
        ensures
            match r {
                Some(value) => self@.contains_key(key@) && *value == self@[key@],
                None => !self@.contains_key(key@),
            },
    {
        let (at, found) = self.position(key);
        proof {
            use_type_invariant(&*self);
            if found {
                lemma_key_is_unique(self.entries@, at as int);
            } else {
                Self::lemma_absent(self.entries@, at as int, key@);
            }
        }
        if found {
            Some(&self.entries[at].1)
        } else {
            None
        }
    }

    /// Whether there is a value for `key`.
    pub fn contains_key(&self, key: &str) -> (r: bool)
        ensures
            r == self@.contains_key(key@),
    {
        match self.get(key) {
            Some(_) => true,
            None => false,
        }
    }

    /// Sets the value for `key` and returns the one that it replaces.
    pub fn insert(&mut self, key: String, value: V) -> (r: Option<V>)
        ensures
            final(self)@ == old(self)@.insert(key@, value),
            final(self).entries().len() == old(self).entries().len() + (if old(self)@.contains_key(key@) {
                0int
            } else {
                1
            }),
            match r {
                Some(previous) => old(self)@.contains_key(key@) && previous == old(self)@[key@],
                None => !old(self)@.contains_key(key@),
            },
    {
        let (at, found) = self.position(key.as_str());
        proof {
            use_type_invariant(&*self);
        }
        let ghost before = self.entries@;
        let ghost key_view = key@;
        let mut entries: Vec<(String, V)> = Vec::new();
        std::mem::swap(&mut entries, &mut self.entries);
        if found {
            proof {
                lemma_key_is_unique(before, at as int);
            }
            let (kept, previous) = entries.remove(at);
            entries.insert(at, (kept, value));
            proof {
                assert(entries@ =~= before.update(at as int, (before[at as int].0, value)));
                lemma_update_entry(before, at as int, value);
            }
            self.entries = entries;
            Some(previous)
        } else {
            proof {
                Self::lemma_absent(before, at as int, key_view);
                lemma_insert_entry(before, at as int, (key, value));
            }
            entries.insert(at, (key, value));
            self.entries = entries;
            None
        }
    }

    /// Removes the entry at `index`.
    pub fn remove_at(&mut self, index: usize) -> (r: (String, V))
        requires
            index < old(self).entries().len(),
        ensures
            r == old(self).entries()[index as int],
            final(self).entries() == old(self).entries().remove(index as int),
            final(self)@ == old(self)@.remove(r.0@),
    {
        proof {
            use_type_invariant(&*self);
        }
        let ghost before = self.entries@;
        let mut entries: Vec<(String, V)> = Vec::new();
        std::mem::swap(&mut entries, &mut self.entries);
        let removed = entries.remove(index);
        proof {
            lemma_remove_entry(before, index as int);
            assert(entries@ == before.remove(index as int));
        }
        self.entries = entries;
        removed
    }

    /// Removes the value for `key` and returns it.
    pub fn remove(&mut self, key: &str) -> (r: Option<V>)
        ensures
            final(self)@ == old(self)@.remove(key@),
            match r {
                Some(previous) => old(self)@.contains_key(key@) && previous == old(self)@[key@],
                None => !old(self)@.contains_key(key@) && final(self)@ == old(self)@,
            },
    {
        let (at, found) = self.position(key);
        proof {
            use_type_invariant(&*self);
        }
        if found {
            proof {
                lemma_key_is_unique(self.entries@, at as int);
            }
            let (_, previous) = self.remove_at(at);
            Some(previous)
        } else {
            proof {
                Self::lemma_absent(self.entries@, at as int, key@);
                assert(self@.remove(key@) =~= self@);
            }
            None
        }
    }

    /// Keeps the entries that `keep` marks, one mark for each entry in the order of the keys.
    pub fn retain(&mut self, keep: &Vec<bool>)
        requires
            keep@.len() == old(self).entries().len(),
        ensures
            final(self)@.submap_of(old(self)@),
            forall|i: int|
                0 <= i < keep@.len() ==> final(self)@.contains_key(
                    (#[trigger] old(self).entries()[i]).0@,
                ) == keep@[i],
    {
        let ghost first = self.entries();
        proof {
            use_type_invariant(&*self);
            assert(first.take(keep@.len() as int) =~= first);
        }
        let ghost whole = self@;
        let mut i: usize = keep.len();
        while i > 0
            invariant
                i <= keep@.len(),
                keep@.len() == first.len(),
                ordered(first),
                whole == map_of(first),
                i <= self.entries().len(),
                self.entries().take(i as int) == first.take(i as int),
                self@.submap_of(whole),
                forall|k: int|
                    0 <= k < keep@.len() ==> self@.contains_key((#[trigger] first[k]).0@) == (k < i
                        || keep@[k]),
            decreases i,
        {
            i -= 1;
            let ghost before = self.entries();
            let ghost key = first[i as int].0@;
            assert(before[i as int] == first[i as int]) by {
                assert(before.take(i + 1)[i as int] == first.take(i + 1)[i as int]);
            }
            let ghost held = self@;
            if !keep[i] {
                self.remove_at(i);
                assert(self@ == held.remove(key));
                assert(self@.submap_of(whole)) by {
                    assert(held.submap_of(whole));
                    assert forall|k: Seq<char>| #[trigger] self@.dom().contains(k) implies
                        whole.dom().contains(k) && self@[k] == whole[k] by {
                        assert(held.remove(key).dom().contains(k));
                        assert(held.dom().contains(k));
                        assert(held.remove(key)[k] == held[k]);
                        assert(held[k] == whole[k]);
                    }
                }
                assert(self.entries().take(i as int) =~= before.take(i + 1).take(i as int));
            } else {
                assert(self.entries().take(i as int) =~= before.take(i + 1).take(i as int));
            }
            assert(first.take(i + 1).take(i as int) =~= first.take(i as int));
            proof {
                assert forall|k: int| 0 <= k < keep@.len() implies self@.contains_key(
                    (#[trigger] first[k]).0@,
                ) == (k < i || keep@[k]) by {
                    if k != i {
                        lemma_key_is_unique(first, k);
                        lemma_key_is_unique(first, i as int);
                        assert(first[k].0@ != key);
                    }
                }
            }
        }
    }
}

/// Replacing the value of one of the ordered entries changes exactly its key's value.
pub proof fn lemma_update_entry<V>(entries: Seq<(String, V)>, at: int, value: V)
    requires
        ordered(entries),
        0 <= at < entries.len(),
    ensures
        ordered(entries.update(at, (entries[at].0, value))),
        map_of(entries.update(at, (entries[at].0, value))) == map_of(entries).insert(
            entries[at].0@,
            value,
        ),
{
    let after = entries.update(at, (entries[at].0, value));
    let key = entries[at].0@;
    assert forall|i: int, j: int|
        #![trigger after[i], after[j]]
        0 <= i < j < after.len() implies text_less(after[i].0@, after[j].0@) by {
        assert(text_less(entries[i].0@, entries[j].0@));
    }
    assert forall|k: Seq<char>| has_key(after, k) == has_key(entries, k) by {
        if has_key(after, k) {
            let i = key_index(after, k);
            assert(entries[i].0@ == k);
        }
        if has_key(entries, k) {
            let i = key_index(entries, k);
            assert(after[i].0@ == k);
        }
    }
    lemma_key_is_unique(entries, at);
    assert forall|k: Seq<char>| #[trigger] map_of(entries).contains_key(k) implies map_of(after)[k]
        == map_of(entries).insert(key, value)[k] by {
        let i = key_index(entries, k);
        assert(entries[i].0@ == k);
        assert(after[i].0@ == k);
        lemma_key_is_unique(entries, i);
        lemma_key_is_unique(after, i);
    }
    assert(map_of(after) =~= map_of(entries).insert(key, value));
}

/// Inserting an entry in its place adds exactly its key.
pub proof fn lemma_insert_entry<V>(entries: Seq<(String, V)>, at: int, entry: (String, V))
    requires
        ordered(entries),
        0 <= at <= entries.len(),
        forall|i: int| 0 <= i < at ==> text_less(#[trigger] entries[i].0@, entry.0@),
        forall|i: int| at <= i < entries.len() ==> text_less(entry.0@, #[trigger] entries[i].0@),
    ensures
        ordered(entries.insert(at, entry)),
        map_of(entries.insert(at, entry)) == map_of(entries).insert(entry.0@, entry.1),
{
    let after = entries.insert(at, entry);
    let key = entry.0@;
    assert forall|i: int, j: int|
        #![trigger after[i], after[j]]
        0 <= i < j < after.len() implies text_less(after[i].0@, after[j].0@) by {
        let oi = if i < at { i } else { i - 1 };
        let oj = if j < at { j } else { j - 1 };
        if i != at && j != at {
            assert(text_less(entries[oi].0@, entries[oj].0@));
        } else if i == at {
            assert(text_less(key, entries[oj].0@));
        } else {
            assert(text_less(entries[oi].0@, key));
        }
    }
    assert forall|k: Seq<char>| has_key(after, k) == (has_key(entries, k) || k == key) by {
        if has_key(after, k) {
            let i = key_index(after, k);
            if i < at {
                assert(entries[i].0@ == k);
            } else if i > at {
                assert(entries[i - 1].0@ == k);
            }
        }
        if has_key(entries, k) {
            let i = key_index(entries, k);
            if i < at {
                assert(after[i].0@ == k);
            } else {
                assert(after[i + 1].0@ == k);
            }
        }
        if k == key {
            assert(after[at].0@ == k);
        }
    }
    lemma_key_is_unique(after, at);
    assert forall|k: Seq<char>| #[trigger] map_of(entries).contains_key(k) && k != key implies map_of(
        after,
    )[k] == map_of(entries)[k] by {
        let i = key_index(entries, k);
        assert(entries[i].0@ == k);
        lemma_key_is_unique(entries, i);
        if i < at {
            lemma_key_is_unique(after, i);
        } else {
            lemma_key_is_unique(after, i + 1);
        }
    }
    assert(map_of(after) =~= map_of(entries).insert(key, entry.1));
}

/// Removing one of the ordered entries removes exactly its key.
pub proof fn lemma_remove_entry<V>(entries: Seq<(String, V)>, at: int)
    requires
        ordered(entries),
        0 <= at < entries.len(),
    ensures
        ordered(entries.remove(at)),
        map_of(entries.remove(at)) == map_of(entries).remove(entries[at].0@),
{
    let after = entries.remove(at);
    let key = entries[at].0@;
    assert forall|i: int, j: int|
        #![trigger after[i], after[j]]
        0 <= i < j < after.len() implies text_less(after[i].0@, after[j].0@) by {
        let oi = if i < at { i } else { i + 1 };
        let oj = if j < at { j } else { j + 1 };
        assert(text_less(entries[oi].0@, entries[oj].0@));
    }
    assert forall|k: Seq<char>| has_key(after, k) == (has_key(entries, k) && k != key) by {
        if has_key(after, k) {
            let i = key_index(after, k);
            let oi = if i < at { i } else { i + 1 };
            assert(entries[oi].0@ == k);
            lemma_key_is_unique(entries, oi);
            lemma_key_is_unique(entries, at);
        }
        if has_key(entries, k) && k != key {
            let i = key_index(entries, k);
            if i < at {
                assert(after[i].0@ == k);
            } else {
                assert(after[i - 1].0@ == k);
            }
        }
    }
    assert forall|k: Seq<char>| #[trigger] map_of(after).contains_key(k) implies map_of(after)[k]
        == map_of(entries)[k] by {
        let i = key_index(after, k);
        assert(after[i].0@ == k);
        lemma_key_is_unique(after, i);
        let oi = if i < at { i } else { i + 1 };
        lemma_key_is_unique(entries, oi);
    }
    assert(map_of(after) =~= map_of(entries).remove(key));
}

impl<V: Clone> Clone for TextMap<V> {
    fn clone(&self) -> (r: Self)
        ensures
            r.entries().len() == self.entries().len(),
            forall|i: int|
                0 <= i < self.entries().len() ==> (#[trigger] r.entries()[i]).0
                    == self.entries()[i].0,
            forall|i: int|
                0 <= i < self.entries().len() ==> cloned::<V>(
                    self.entries()[i].1,
                    (#[trigger] r.entries()[i]).1,
                ),
            r@ == map_of(r.entries()),
            self@ == map_of(self.entries()),
    {
        proof {
            use_type_invariant(&*self);
        }
        let mut entries: Vec<(String, V)> = Vec::new();
        let mut i: usize = 0;
        while i < self.entries.len()
            invariant
                i <= self.entries@.len(),
                entries@.len() == i,
                forall|k: int| 0 <= k < i ==> (#[trigger] entries@[k]).0 == self.entries@[k].0,
                forall|k: int|
                    0 <= k < i ==> cloned::<V>(self.entries@[k].1, (#[trigger] entries@[k]).1),
            decreases self.entries@.len() - i,
        {
            entries.push((self.entries[i].0.clone(), self.entries[i].1.clone()));
            i += 1;
        }
        proof {
            assert forall|k: int, j: int|
                #![trigger entries@[k], entries@[j]]
                0 <= k < j < entries@.len() implies text_less(entries@[k].0@, entries@[j].0@) by {
                assert(text_less(self.entries@[k].0@, self.entries@[j].0@));
            }
        }
        TextMap { entries }
    }
}

} // verus!
