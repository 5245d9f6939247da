//! A finite map kept as a list of entries with distinct keys.
use vstd::prelude::*;
use crate::account::{AccountId, CodeHash};

verus! {

/// Keys that can be compared in executable code by their view.
pub trait MapKey: View + Sized {
    fn same(&self, other: &Self) -> (r: bool)
        ensures
            r == (self@ == other@),
    ;
}

impl MapKey for AccountId {
    fn same(&self, other: &Self) -> (r: bool) {
        AccountId::same(self, other)
    }
}

impl MapKey for CodeHash {
    fn same(&self, other: &Self) -> (r: bool) {
        CodeHash::same(self, other)
    }
}

impl MapKey for u16 {
    fn same(&self, other: &Self) -> (r: bool) {
        *self == *other
    }
}

impl MapKey for u32 {
    fn same(&self, other: &Self) -> (r: bool) {
        *self == *other
    }
}

impl MapKey for String {
    fn same(&self, other: &Self) -> (r: bool) {
        *self == *other
    }
}

impl<A: MapKey, B: MapKey> MapKey for (A, B) {
    fn same(&self, other: &Self) -> (r: bool) {
        self.0.same(&other.0) && self.1.same(&other.1)
    }
}

/// Whether no two entries of `s` have the same key.
pub open spec fn keys_distinct<K: View, V>(s: Seq<(K, V)>) -> bool {
    forall|i: int, j: int|
        0 <= i < s.len() && 0 <= j < s.len() && i != j ==> #[trigger] s[i].0@ != #[trigger] s[j].0@
}

/// Whether some entry of `s` has key `k`.
pub open spec fn has_key<K: View, V>(s: Seq<(K, V)>, k: K::V) -> bool {
    exists|i: int| 0 <= i < s.len() && #[trigger] s[i].0@ == k
}

/// The position of the entry of `s` with key `k`.
pub open spec fn key_index<K: View, V>(s: Seq<(K, V)>, k: K::V) -> int {
    choose|i: int| 0 <= i < s.len() && #[trigger] s[i].0@ == k
}

/// The map that the entries `s` stand for.
pub open spec fn entries_map<K: View, V>(s: Seq<(K, V)>) -> Map<K::V, V> {
    Map::new(|k: K::V| has_key(s, k), |k: K::V| s[key_index(s, k)].1)
}

/// The sum of the values of `s`.
pub open spec fn values_sum<K>(s: Seq<(K, u128)>) -> int
    decreases s.len(),
{
    if s.len() == 0 {
        0
    } else {
        values_sum(s.drop_last()) + s.last().1
    }
}

/// Replacing one value changes the sum by the difference.
pub proof fn lemma_values_sum_update<K>(s: Seq<(K, u128)>, i: int, e: (K, u128))
    requires
        0 <= i < s.len(),
    ensures
        values_sum(s.update(i, e)) == values_sum(s) - s[i].1 + e.1,
    decreases s.len(),
{
    if i == s.len() - 1 {
        assert(s.update(i, e).drop_last() =~= s.drop_last());
    } else {
        lemma_values_sum_update(s.drop_last(), i, e);
        assert(s.update(i, e).drop_last() =~= s.drop_last().update(i, e));
    }
}

/// Appending a value adds it to the sum.
pub proof fn lemma_values_sum_push<K>(s: Seq<(K, u128)>, e: (K, u128))
    ensures
        values_sum(s.push(e)) == values_sum(s) + e.1,
{
    assert(s.push(e).drop_last() =~= s);
}

/// Every value is at most the sum.
pub proof fn lemma_value_le_sum<K>(s: Seq<(K, u128)>, i: int)
    requires
        0 <= i < s.len(),
    ensures
        s[i].1 <= values_sum(s),
    decreases s.len(),
{
    lemma_values_sum_nonneg(s.drop_last());
    if i < s.len() - 1 {
        lemma_value_le_sum(s.drop_last(), i);
    }
}

/// Two values at different positions add up to at most the sum.
pub proof fn lemma_two_values_le_sum<K>(s: Seq<(K, u128)>, i: int, j: int)
    requires
        0 <= i < s.len(),
        0 <= j < s.len(),
        i != j,
    ensures
        s[i].1 + s[j].1 <= values_sum(s),
    decreases s.len(),
{
    let n = s.len() - 1;
    if i == n {
        lemma_value_le_sum(s.drop_last(), j);
    } else if j == n {
        lemma_value_le_sum(s.drop_last(), i);
    } else {
        lemma_two_values_le_sum(s.drop_last(), i, j);
    }
}

/// The sum is never negative.
pub proof fn lemma_values_sum_nonneg<K>(s: Seq<(K, u128)>)
    ensures
        values_sum(s) >= 0,
    decreases s.len(),
{
    if s.len() > 0 {
        lemma_values_sum_nonneg(s.drop_last());
    }
}

/// A finite map from keys to values.
pub struct KeyMap<K, V> {
    entries: Vec<(K, V)>,
}

impl<K: View, V> View for KeyMap<K, V> {
    type V = Map<K::V, V>;

    open spec fn view(&self) -> Map<K::V, V> {
        entries_map(self.entries())
    }
}

impl<K: View, V> KeyMap<K, V> {
    /// The entries, in the order they were first inserted.
    pub closed spec fn entries(&self) -> Seq<(K, V)> {
        self.entries@
    }
}

impl<K: MapKey, V> KeyMap<K, V> {
    /// The keys of the entries are distinct.
    pub open spec fn wf(&self) -> bool {
        keys_distinct(self.entries())
    }

    /// The map with no entries.
    pub fn new() -> (r: Self)
        ensures
            r.wf(),
            r@ == Map::<K::V, V>::empty(),
            r.entries() == Seq::<(K, V)>::empty(),
    {
        let r = KeyMap { entries: Vec::new() };
        assert(r@ =~= Map::<K::V, V>::empty());
        r
    }

    /// The position of the entry with key `k`, if there is one.
    pub fn find(&self, k: &K) -> (r: Option<usize>)
        requires
            self.wf(),
        ensures
            r is None <==> !self@.contains_key(k@),
            r matches Some(i) ==> i < self.entries().len() && self.entries()[i as int].0@ == k@
                && key_index(self.entries(), k@) == i,
    {
        let mut i: usize = 0;
        while i < self.entries.len()
            invariant
                0 <= i <= self.entries@.len(),
                keys_distinct(self.entries@),
                forall|j: int| 0 <= j < i ==> #[trigger] self.entries@[j].0@ != k@,
            decreases self.entries@.len() - i,
        {
            if self.entries[i].0.same(k) {
                let ghost s = self.entries@;
                assert(has_key(s, k@));
                assert(key_index(s, k@) == i as int) by {
                    let c = key_index(s, k@);
                    assert(s[i as int].0@ == k@);
                    assert(s[c].0@ == k@);
                };
                return Some(i);
            }
            i = i + 1;
        }
        None
    }

    /// Looks up the value under `k`.
    pub fn get(&self, k: &K) -> (r: Option<&V>)
        requires
            self.wf(),
        ensures
            r is None <==> !self@.contains_key(k@),
            r matches Some(v) ==> *v == self@[k@],
    {
        match self.find(k) {
            Some(i) => Some(&self.entries[i].1),
            None => None,
        }
    }

    /// Replaces the value of the entry at position `i`.
    pub fn set_at(&mut self, i: usize, v: V)
        requires
            old(self).wf(),
            i < old(self).entries().len(),
        ensures
            final(self).wf(),
            final(self).entries() == old(self).entries().update(
                i as int,
                (old(self).entries()[i as int].0, v),
            ),
            final(self)@ == old(self)@.insert(old(self).entries()[i as int].0@, v),
    {
        let ghost s = self.entries@;
        let ghost k = s[i as int].0@;
        let mut e = self.entries.remove(i);
        e.1 = v;
        self.entries.insert(i, e);
        let ghost t = self.entries@;
        assert(t =~= s.update(i as int, (s[i as int].0, v)));
        assert(keys_distinct(t));
        assert(t[i as int].0@ == k);
        assert forall|q: K::V| #[trigger] has_key(t, q) == has_key(s, q) by {
            if has_key(s, q) {
                let j = key_index(s, q);
                assert(t[j].0@ == q);
            }
            if has_key(t, q) {
                let j = key_index(t, q);
                assert(s[j].0@ == q);
            }
        };
        assert forall|q: K::V| has_key(t, q) implies #[trigger] t[key_index(t, q)].1 == (if q == k {
            v
        } else {
            s[key_index(s, q)].1
        }) by {
            let j = key_index(t, q);
            let js = key_index(s, q);
            assert(has_key(s, q));
            assert(s[js].0@ == q);
            assert(t[js].0@ == q);
            assert(j == js);
            if q == k {
                assert(j == i as int);
            }
        };
        assert(self@ =~= old(self)@.insert(k, v));
    }

    /// Adds an entry under a key that has none.
    pub fn push_new(&mut self, k: K, v: V)
        requires
            old(self).wf(),
            !old(self)@.contains_key(k@),
        ensures
            final(self).wf(),
            final(self).entries() == old(self).entries().push((k, v)),
            final(self)@ == old(self)@.insert(k@, v),
    {
        let ghost s = self.entries@;
        let ghost kv = k@;
        self.entries.push((k, v));
        let ghost t = self.entries@;
        assert(t =~= s.push(t.last()));
        assert forall|a: int, b: int|
            0 <= a < t.len() && 0 <= b < t.len() && a != b implies #[trigger] t[a].0@
            != #[trigger] t[b].0@ by {
            if a == s.len() {
                assert(s[b].0@ != kv);
            } else if b == s.len() {
                assert(s[a].0@ != kv);
            }
        };
        assert forall|q: K::V| #[trigger] has_key(t, q) == (has_key(s, q) || q == kv) by {
            if has_key(s, q) {
                let j = key_index(s, q);
                assert(t[j].0@ == q);
            }
            if q == kv {
                assert(t[s.len() as int].0@ == q);
            }
            if has_key(t, q) && q != kv {
                let j = key_index(t, q);
                assert(j < s.len());
                assert(s[j].0@ == q);
            }
        };
        assert forall|q: K::V| has_key(t, q) implies #[trigger] t[key_index(t, q)].1 == (if q == kv {
            v
        } else {
            s[key_index(s, q)].1
        }) by {
            let j = key_index(t, q);
            if q == kv {
                assert(t[s.len() as int].0@ == q);
                assert(j == s.len());
            } else {
                let js = key_index(s, q);
                assert(has_key(s, q));
                assert(t[js].0@ == q);
                assert(j == js);
            }
        };
        assert(self@ =~= old(self)@.insert(kv, v));
    }

    /// Removes the entry under `k`, if there is one.
    pub fn remove(&mut self, k: &K)
        requires
            old(self).wf(),
        ensures
            final(self).wf(),
            final(self)@ == old(self)@.remove(k@),
    {
        match self.find(k) {
            None => {
                assert(self@ =~= old(self)@.remove(k@));
            },
            Some(i) => {
                let ghost s = self.entries@;
                self.entries.remove(i);
                let ghost t = self.entries@;
                assert(t =~= s.remove(i as int));
                assert forall|a: int, b: int|
                    0 <= a < t.len() && 0 <= b < t.len() && a != b implies #[trigger] t[a].0@
                    != #[trigger] t[b].0@ by {
                    let sa = if a < i { a } else { a + 1 };
                    let sb = if b < i { b } else { b + 1 };
                    assert(t[a] == s[sa]);
                    assert(t[b] == s[sb]);
                };
                assert forall|q: K::V| #[trigger] has_key(t, q) == (has_key(s, q) && q != k@) by {
                    if has_key(t, q) {
                        let j = key_index(t, q);
                        let sj = if j < i { j } else { j + 1 };
                        assert(s[sj].0@ == q);
                        assert(sj != i);
                    }
                    if has_key(s, q) && q != k@ {
                        let j = key_index(s, q);
                        assert(j != i);
                        let tj = if j < i { j } else { j - 1 };
                        assert(t[tj].0@ == q);
                    }
                };
                assert forall|q: K::V| has_key(t, q) implies #[trigger] t[key_index(t, q)].1 == s[key_index(
                    s,
                    q,
                )].1 by {
                    let j = key_index(t, q);
                    let sj = if j < i { j } else { j + 1 };
                    assert(s[sj].0@ == q);
                    assert(key_index(s, q) == sj);
                };
                assert(self@ =~= old(self)@.remove(k@));
            },
        }
    }

    /// Sets the value under `k`, adding an entry if there is none.
    pub fn insert(&mut self, k: K, v: V)
        requires
            old(self).wf(),
        ensures
            final(self).wf(),
            final(self)@ == old(self)@.insert(k@, v),
    {
        match self.find(&k) {
            Some(i) => self.set_at(i, v),
            None => self.push_new(k, v),
        }
    }
}

impl<K: MapKey> KeyMap<K, u128> {
    /// The sum of all values held.
    pub open spec fn total(&self) -> int {
        values_sum(self.entries())
    }

    /// The value under `k`, or 0 where there is none.
    pub open spec fn value_or_zero(&self, k: K::V) -> u128 {
        if self@.contains_key(k) {
            self@[k]
        } else {
            0
        }
    }

    /// Every value is at most the sum of all values.
    pub proof fn lemma_value_le_total(&self, k: K::V)
        requires
            self.wf(),
        ensures
            self.value_or_zero(k) <= self.total(),
    {
        lemma_values_sum_nonneg(self.entries());
        if self@.contains_key(k) {
            lemma_value_le_sum(self.entries(), key_index(self.entries(), k));
        }
    }

    /// The values under two different keys add up to at most the sum of all values.
    pub proof fn lemma_two_values_le_total(&self, a: K::V, b: K::V)
        requires
            self.wf(),
            a != b,
        ensures
            self.value_or_zero(a) + self.value_or_zero(b) <= self.total(),
    {
        lemma_values_sum_nonneg(self.entries());
        let s = self.entries();
        if self@.contains_key(a) && self@.contains_key(b) {
            let i = key_index(s, a);
            let j = key_index(s, b);
            lemma_two_values_le_sum(s, i, j);
        } else if self@.contains_key(a) {
            lemma_value_le_sum(s, key_index(s, a));
        } else if self@.contains_key(b) {
            lemma_value_le_sum(s, key_index(s, b));
        }
    }

    /// Sets the value under `k`; the sum changes by the difference.
    pub fn put(&mut self, k: K, v: u128)
        requires
            old(self).wf(),
        ensures
            final(self).wf(),
            final(self)@ == old(self)@.insert(k@, v),
            final(self).total() == old(self).total() - old(self).value_or_zero(k@) + v,
    {
        match self.find(&k) {
            Some(i) => {
                proof {
                    lemma_values_sum_update(self.entries(), i as int, (self.entries()[i as int].0, v));
                }
                self.set_at(i, v);
            },
            None => {
                proof {
                    lemma_values_sum_push(self.entries(), (k, v));
                }
                self.push_new(k, v);
            },
        }
    }
}

} // verus!
