//! A map from text keys to values, kept in the order of its keys.

use vstd::prelude::*;

use crate::text;

verus! {

/// Whether `a` comes before `b` in dictionary order by code point.
pub open spec fn text_before(a: Seq<char>, b: Seq<char>) -> bool
    decreases a.len(),
{
    if b.len() == 0 {
        false
    } else if a.len() == 0 {
        true
    } else if a[0] != b[0] {
        a[0] < b[0]
    } else {
        text_before(a.drop_first(), b.drop_first())
    }
}

/// Whether every text in a sequence comes before all those that follow it.
pub open spec fn in_order(keys: Seq<Seq<char>>) -> bool {
    forall|i: int, j: int|
        #![trigger keys[i], keys[j]]
        0 <= i < j < keys.len() ==> text_before(keys[i], keys[j])
}

/// No text comes before itself.
pub proof fn lemma_before_irreflexive(a: Seq<char>)
    ensures
        !text_before(a, a),
    decreases a.len(),
{
    if a.len() > 0 {
        lemma_before_irreflexive(a.drop_first());
    }
}

/// What comes before a text comes before all that follows it.
pub proof fn lemma_before_transitive(a: Seq<char>, b: Seq<char>, c: Seq<char>)
    requires
        text_before(a, b),
        text_before(b, c),
    ensures
        text_before(a, c),
    decreases a.len(),
{
    if a.len() > 0 && a[0] == b[0] && b[0] == c[0] {
        lemma_before_transitive(a.drop_first(), b.drop_first(), c.drop_first());
    }
}

/// Of two different texts one comes before the other.
pub proof fn lemma_before_total(a: Seq<char>, b: Seq<char>)
    ensures
        a == b || text_before(a, b) || text_before(b, a),
    decreases a.len(),
{
    if a.len() > 0 && b.len() > 0 && a[0] == b[0] {
        lemma_before_total(a.drop_first(), b.drop_first());
        assert(a =~= seq![a[0]] + a.drop_first());
        assert(b =~= seq![b[0]] + b.drop_first());
    } else if a.len() == 0 && b.len() == 0 {
        assert(a =~= b);
    }
}

/// Two texts that share a prefix are ordered by what follows it.
proof fn lemma_before_skip(a: Seq<char>, b: Seq<char>, n: int)
    requires
        0 <= n <= a.len(),
        n <= b.len(),
        forall|i: int| 0 <= i < n ==> a[i] == b[i],
    ensures
        text_before(a, b) == text_before(a.skip(n), b.skip(n)),
    decreases n,
{
    if n > 0 {
        let (s, t) = (a.drop_first(), b.drop_first());
        assert forall|i: int| 0 <= i < n - 1 implies s[i] == t[i] by {
            assert(a[i + 1] == b[i + 1]);
        }
        lemma_before_skip(s, t, n - 1);
        assert(s.skip(n - 1) =~= a.skip(n));
        assert(t.skip(n - 1) =~= b.skip(n));
    } else {
        assert(a.skip(0) =~= a);
        assert(b.skip(0) =~= b);
    }
}

/// Tells whether `a` comes before `b`.
fn is_before(a: &str, b: &str) -> (before: bool)
    ensures
        before == text_before(a@, b@),
{
    let left = text::chars_of(a);
    let right = text::chars_of(b);
    let mut i: usize = 0;
    while i < left.len() && i < right.len() && left[i] == right[i]
        invariant
            i <= left.len(),
            i <= right.len(),
            left@ == a@,
            right@ == b@,
            forall|j: int| 0 <= j < i ==> a@[j] == b@[j],
        decreases left.len() - i,
    {
        i = i + 1;
    }
    proof {
        lemma_before_skip(a@, b@, i as int);
    }
    if i >= right.len() {
        false
    } else if i >= left.len() {
        true
    } else {
        left[i] < right[i]
    }
}

/// A map with its values by their views.
pub open spec fn value_views<V: View>(map: Map<Seq<char>, V>) -> Map<Seq<char>, V::V> {
    map.map_values(|value: V| value@)
}

/// A key that is ordered and found again by its text.
pub trait TextKey: View<V = Seq<char>> + Sized {
    /// The key's text.
    fn key_text(&self) -> (key: &str)
        ensures
            key@ == self@,
    ;
}

impl TextKey for String {
    fn key_text(&self) -> (key: &str) {
        self.as_str()
    }
}

/// A map from text keys to values that holds each key once, in the order of the keys.
#[derive(Debug, PartialEq, Eq)]
pub struct OrderedMap<K: TextKey, V> {
    entries: Vec<(K, V)>,
}

impl<K: TextKey, V> View for OrderedMap<K, V> {
    type V = Map<Seq<char>, V>;

    closed spec fn view(&self) -> Map<Seq<char>, V> {
        Map::new(
            |key: Seq<char>| self.keys().contains(key),
            |key: Seq<char>| self.entries@[self.keys().index_of(key)].1,
        )
    }
}

impl<K: TextKey, V> OrderedMap<K, V> {
    /// The keys, in the order in which they are held.
    pub closed spec fn keys(self) -> Seq<Seq<char>> {
        Seq::new(self.entries@.len(), |i: int| self.entries@[i].0@)
    }

    #[verifier::type_invariant]
    spec fn keys_in_order(self) -> bool {
        in_order(self.keys())
    }

    proof fn lemma_index(&self, i: int)
        requires
            self.keys_in_order(),
            0 <= i < self.entries@.len(),
        ensures
            self@.contains_key(self.entries@[i].0@),
            self@[self.entries@[i].0@] == self.entries@[i].1,
    {
        let keys = self.keys();
        let key = keys[i];
        assert(keys.contains(key));
        let at = keys.index_of(key);
        assert(keys[at] == key);
        lemma_before_irreflexive(key);
        assert(at == i);
    }

    proof fn lemma_size(&self)
        requires
            self.keys_in_order(),
        ensures
            self@.dom().finite(),
            self@.len() == self.entries@.len(),
    {
        let keys = self.keys();
        assert forall|i: int, j: int|
            0 <= i < keys.len() && 0 <= j < keys.len() && i != j implies keys[i] != keys[j] by {
            lemma_before_irreflexive(keys[i]);
        }
        keys.unique_seq_to_set();
        vstd::seq_lib::seq_to_set_is_finite(keys);
        assert(self@.dom() =~= keys.to_set());
    }

    proof fn lemma_inserted(before: Self, after: Self, at: int, shift: int, key: Seq<char>)
        requires
            before.keys_in_order(),
            0 <= at < after.entries@.len(),
            0 <= shift <= 1,
            after.entries@.len() == before.entries@.len() + shift,
            after.entries@[at].0@ == key,
            forall|i: int| 0 <= i < at ==> after.entries@[i] == before.entries@[i],
            forall|i: int|
                at < i < after.entries@.len() ==> after.entries@[i] == before.entries@[i - shift],
            forall|i: int| 0 <= i < at ==> text_before(#[trigger] before.entries@[i].0@, key),
            forall|i: int|
                at <= i < before.entries@.len() && (shift == 0 ==> i > at) ==> text_before(
                    key,
                    #[trigger] before.entries@[i].0@,
                ),
            shift == 0 ==> before.entries@[at].0@ == key,
        ensures
            after.keys_in_order(),
            after@ == before@.insert(key, after.entries@[at].1),
    {
        let old_keys = before.keys();
        let keys = after.keys();
        assert forall|i: int, j: int| 0 <= i < j < keys.len() implies text_before(
            #[trigger] keys[i],
            #[trigger] keys[j],
        ) by {
            if i != at && j != at {
                let (a, b) = (if i < at { i } else { i - shift }, if j < at { j } else { j - shift });
                assert(keys[i] == old_keys[a] && keys[j] == old_keys[b]);
            } else if i == at {
                assert(keys[j] == before.entries@[j - shift].0@);
            } else {
                assert(keys[i] == before.entries@[i].0@);
            }
        }
        let expected = before@.insert(key, after.entries@[at].1);
        assert forall|k: Seq<char>| #[trigger] after@.dom().contains(k) implies expected.dom().contains(
            k,
        ) && after@[k] == expected[k] by {
            let i = keys.index_of(k);
            assert(keys[i] == k);
            after.lemma_index(i);
            if i != at {
                let old = if i < at { i } else { i - shift };
                assert(old_keys[old] == k);
                before.lemma_index(old);
                lemma_before_irreflexive(key);
            }
        }
        assert forall|k: Seq<char>| #[trigger] expected.dom().contains(k) implies after@.dom().contains(
            k,
        ) by {
            if k == key {
                after.lemma_index(at);
            } else {
                let old = old_keys.index_of(k);
                assert(old_keys[old] == k);
                let i = if old < at { old } else { old + shift };
                assert(old == at ==> shift == 1);
                assert(keys[i] == k);
                after.lemma_index(i);
            }
        }
        assert(after@.dom() =~= expected.dom());
        assert(after@ =~= expected);
    }

    proof fn lemma_removed(before: Self, after: Self, at: int)
        requires
            before.keys_in_order(),
            0 <= at < before.entries@.len(),
            after.entries@ == before.entries@.remove(at),
        ensures
            after.keys_in_order(),
            after@ == before@.remove(before.entries@[at].0@),
    {
        let old_keys = before.keys();
        let keys = after.keys();
        let key = old_keys[at];
        assert forall|i: int, j: int| 0 <= i < j < keys.len() implies text_before(
            #[trigger] keys[i],
            #[trigger] keys[j],
        ) by {
            let (a, b) = (if i < at { i } else { i + 1 }, if j < at { j } else { j + 1 });
            assert(keys[i] == old_keys[a] && keys[j] == old_keys[b]);
        }
        let expected = before@.remove(key);
        assert forall|k: Seq<char>| #[trigger] after@.dom().contains(k) implies expected.dom().contains(
            k,
        ) && after@[k] == expected[k] by {
            let i = keys.index_of(k);
            assert(keys[i] == k);
            after.lemma_index(i);
            let old = if i < at { i } else { i + 1 };
            assert(old_keys[old] == k);
            before.lemma_index(old);
            lemma_before_irreflexive(key);
        }
        assert forall|k: Seq<char>| #[trigger] expected.dom().contains(k) implies after@.dom().contains(
            k,
        ) by {
            let old = old_keys.index_of(k);
            assert(old_keys[old] == k);
            let i = if old < at { old } else { old - 1 };
            assert(keys[i] == k);
            after.lemma_index(i);
        }
        assert(after@.dom() =~= expected.dom());
        assert(after@ =~= expected);
    }

    /// The empty map.
    pub fn new() -> (map: Self)
        ensures
            map@ == Map::<Seq<char>, V>::empty(),
    {
        let map = OrderedMap { entries: Vec::new() };
        assert(map@ =~= Map::<Seq<char>, V>::empty());
        map
    }

    /// How many keys the map holds.
    pub fn len(&self) -> (len: usize)
        ensures
            len == self@.len(),
            self@.dom().finite(),
    {
        proof {
            use_type_invariant(self);
            self.lemma_size();
        }
        self.entries.len()
    }

    /// The key and the value at a position, counted in the order of the keys.
    pub fn entry(&self, at: usize) -> (entry: Option<(&K, &V)>)
        ensures
            in_order(self.keys()),
            self.keys().to_set() == self@.dom(),
            match entry {
                Some((key, value)) => {
                    &&& at < self.keys().len()
                    &&& self.keys()[at as int] == key@
                    &&& self@[key@] == *value
                },
                None => at >= self.keys().len(),
            },
    {
        proof {
            use_type_invariant(self);
            assert(self.keys().to_set() =~= self@.dom());
        }
        if at < self.entries.len() {
            proof {
                self.lemma_index(at as int);
            }
            let entry = &self.entries[at];
            Some((&entry.0, &entry.1))
        } else {
            None
        }
    }

    /// The first position whose key does not come before `key`, and whether it holds `key`.
    fn locate(&self, key: &K) -> (found: (usize, bool))
        ensures
            found.0 <= self.entries@.len(),
            forall|i: int|
                0 <= i < found.0 ==> text_before(#[trigger] self.entries@[i].0@, key@),
            forall|i: int|
                found.0 <= i < self.entries@.len() && (found.1 ==> i > found.0) ==> text_before(
                    key@,
                    #[trigger] self.entries@[i].0@,
                ),
            found.1 ==> found.0 < self.entries@.len() && self.entries@[found.0 as int].0@ == key@,
            found.1 == self@.contains_key(key@),
    {
        proof {
            use_type_invariant(self);
        }
        let mut at: usize = 0;
        while at < self.entries.len() && is_before(self.entries[at].0.key_text(), key.key_text())
            invariant
                at <= self.entries@.len(),
                forall|i: int|
                    0 <= i < at ==> text_before(#[trigger] self.entries@[i].0@, key@),
            decreases self.entries@.len() - at,
        {
            at = at + 1;
        }
        let found = at < self.entries.len() && text::same_text(
            self.entries[at].0.key_text(),
            key.key_text(),
        );
        proof {
            let keys = self.keys();
            lemma_before_irreflexive(key@);
            if at < keys.len() {
                lemma_before_total(keys[at as int], key@);
            }
            assert forall|i: int|
                at <= i < self.entries@.len() && (found ==> i > at) implies text_before(
                key@,
                #[trigger] self.entries@[i].0@,
            ) by {
                assert(keys[i] == self.entries@[i].0@);
                if i > at {
                    assert(text_before(keys[at as int], keys[i]));
                    if !found {
                        lemma_before_transitive(key@, keys[at as int], keys[i]);
                    }
                }
            }
            if found {
                self.lemma_index(at as int);
            } else if keys.contains(key@) {
                let i = keys.index_of(key@);
                assert(self.entries@[i].0@ == key@);
            }
        }
        (at, found)
    }

    /// The value for a key.
    pub fn get(&self, key: &K) -> (value: Option<&V>)
        ensures
            match value {
                Some(value) => self@.contains_key(key@) && self@[key@] == *value,
                None => !self@.contains_key(key@),
            },
    {
        let (at, found) = self.locate(key);
        if found {
            proof {
                use_type_invariant(self);
                self.lemma_index(at as int);
            }
            Some(&self.entries[at].1)
        } else {
            None
        }
    }

    /// Tells whether the map holds a key.
    pub fn contains_key(&self, key: &K) -> (held: bool)
        ensures
            held == self@.contains_key(key@),
    {
        self.locate(key).1
    }

    /// Holds `value` for `key` from now on, in place of any value the key had.
    pub fn insert(&mut self, key: K, value: V)
        ensures
            final(self)@ == old(self)@.insert(key@, value),
    {
        let (at, found) = self.locate(&key);
        proof {
            use_type_invariant(&*self);
        }
        let ghost before = *self;
        let ghost inserted = key@;
        let mut entries: Vec<(K, V)> = Vec::new();
        std::mem::swap(&mut entries, &mut self.entries);
        if found {
            entries.remove(at);
        }
        entries.insert(at, (key, value));
        proof {
            let after = OrderedMap { entries };
            let shift: int = if found { 0 } else { 1 };
            assert(entries@[at as int].0@ == inserted);
            assert forall|i: int| 0 <= i < at implies entries@[i] == before.entries@[i] by {}
            assert forall|i: int| at < i < entries@.len() implies entries@[i]
                == before.entries@[i - shift] by {}
            Self::lemma_inserted(before, after, at as int, shift, inserted);
        }
        self.entries = entries;
    }

    /// Takes a key and its value out of the map.
    pub fn remove(&mut self, key: &K) -> (value: Option<V>)
        ensures
            final(self)@ == old(self)@.remove(key@),
            match value {
                Some(value) => old(self)@.contains_key(key@) && old(self)@[key@] == value,
                None => !old(self)@.contains_key(key@),
            },
    {
        let (at, found) = self.locate(key);
        proof {
            use_type_invariant(&*self);
        }
        let ghost before = *self;
        if !found {
            assert(self@.remove(key@) =~= self@);
            return None;
        }
        let mut entries: Vec<(K, V)> = Vec::new();
        std::mem::swap(&mut entries, &mut self.entries);
        let entry = entries.remove(at);
        proof {
            before.lemma_index(at as int);
            Self::lemma_removed(before, OrderedMap { entries }, at as int);
        }
        self.entries = entries;
        Some(entry.1)
    }
}

} // verus!
