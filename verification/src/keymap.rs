//! Maps kept as lists of entries whose keys are pairwise distinct, and a
//! map keyed by 32-byte hashes or addresses built on them.

use vstd::prelude::*;

verus! {

/// Whether no two entries of `s` share a key.
pub open spec fn keys_distinct<K, V>(s: Seq<(K, V)>) -> bool {
    forall|i: int, j: int| 0 <= i < j < s.len() ==> s[i].0 != s[j].0
}

/// The map that the entries of `s` describe (a later entry wins).
pub open spec fn entries_to_map<K, V>(s: Seq<(K, V)>) -> Map<K, V>
    decreases s.len(),
{
    if s.len() == 0 {
        Map::empty()
    } else {
        entries_to_map(s.drop_last()).insert(s.last().0, s.last().1)
    }
}

/// The sum of the values of the entries of `s`.
pub open spec fn sum_entries(s: Seq<([u8; 32], u64)>) -> int
    decreases s.len(),
{
    if s.len() == 0 {
        0
    } else {
        sum_entries(s.drop_last()) + s.last().1
    }
}

/// The value stored under `k`, or 0 where there is none.
pub open spec fn value_or_zero(m: Map<[u8; 32], u64>, k: [u8; 32]) -> u64 {
    if m.contains_key(k) {
        m[k]
    } else {
        0
    }
}

/// The sum of the values of a finite map.
pub open spec fn map_total<K>(m: Map<K, u64>) -> int
    decreases m.dom().len(),
{
    if m.dom().finite() && m.dom().len() > 0 {
        let k = m.dom().choose();
        m[k] + map_total(m.remove(k))
    } else {
        0
    }
}

/// Taking any one key out of a finite map takes its value out of the sum.
pub proof fn lemma_map_total_remove<K>(m: Map<K, u64>, k: K)
    requires
        m.dom().finite(),
        m.contains_key(k),
    ensures
        map_total(m) == m[k] + map_total(m.remove(k)),
    decreases m.dom().len(),
{
    assert(m.dom().len() > 0) by {
        if m.dom().len() == 0 {
            assert(m.dom().contains(k));
        }
    }
    let c = m.dom().choose();
    if c != k {
        let mc = m.remove(c);
        let mk = m.remove(k);
        assert(mc.dom() =~= m.dom().remove(c));
        assert(mk.dom() =~= m.dom().remove(k));
        lemma_map_total_remove(mc, k);
        lemma_map_total_remove(mk, c);
        assert(mc.remove(k) =~= mk.remove(c));
    }
}

/// With distinct keys, the sum of the entries is the sum of the map.
pub proof fn lemma_sum_entries_is_map_total(s: Seq<([u8; 32], u64)>)
    requires
        keys_distinct(s),
    ensures
        sum_entries(s) == map_total(entries_to_map(s)),
    decreases s.len(),
{
    if s.len() > 0 {
        let d = s.drop_last();
        let m = entries_to_map(d);
        let k = s.last().0;
        lemma_sum_entries_is_map_total(d);
        lemma_entries_len(d);
        if m.contains_key(k) {
            let j = lemma_entries_key(d, k);
            assert(s[j].0 == k);
        }
        let full = m.insert(k, s.last().1);
        assert(full.dom() =~= m.dom().insert(k));
        lemma_map_total_remove(full, k);
        assert(full.remove(k) =~= m);
    }
}

/// A key of the map stands in some entry.
pub proof fn lemma_entries_key<K, V>(s: Seq<(K, V)>, k: K) -> (i: int)
    requires
        entries_to_map(s).contains_key(k),
    ensures
        0 <= i < s.len(),
        s[i].0 == k,
    decreases s.len(),
{
    if s.last().0 == k {
        s.len() - 1
    } else {
        lemma_entries_key(s.drop_last(), k)
    }
}

/// Each entry's value is the map's value for its key.
pub proof fn lemma_entries_index<K, V>(s: Seq<(K, V)>, i: int)
    requires
        keys_distinct(s),
        0 <= i < s.len(),
    ensures
        entries_to_map(s).contains_key(s[i].0),
        entries_to_map(s)[s[i].0] == s[i].1,
    decreases s.len(),
{
    if i < s.len() - 1 {
        lemma_entries_index(s.drop_last(), i);
    }
}

/// Replacing an entry's value stores that value under its key.
pub proof fn lemma_entries_update<K, V>(s: Seq<(K, V)>, i: int, v: V)
    requires
        keys_distinct(s),
        0 <= i < s.len(),
    ensures
        keys_distinct(s.update(i, (s[i].0, v))),
        entries_to_map(s.update(i, (s[i].0, v))) == entries_to_map(s).insert(s[i].0, v),
    decreases s.len(),
{
    let t = s.update(i, (s[i].0, v));
    if i == s.len() - 1 {
        assert(t.drop_last() =~= s.drop_last());
    } else {
        lemma_entries_update(s.drop_last(), i, v);
        assert(t.drop_last() =~= s.drop_last().update(i, (s[i].0, v)));
        assert(s.last().0 != s[i].0);
    }
    assert(entries_to_map(t) =~= entries_to_map(s).insert(s[i].0, v));
}

/// Appending an entry with a new key keeps the keys distinct and stores it.
pub proof fn lemma_entries_push<K, V>(s: Seq<(K, V)>, k: K, v: V)
    requires
        keys_distinct(s),
        !entries_to_map(s).contains_key(k),
    ensures
        keys_distinct(s.push((k, v))),
        entries_to_map(s.push((k, v))) == entries_to_map(s).insert(k, v),
{
    let t = s.push((k, v));
    assert(t.drop_last() =~= s);
    assert forall|a: int, b: int| 0 <= a < b < t.len() implies t[a].0 != t[b].0 by {
        if b == t.len() - 1 {
            lemma_entries_index(s, a);
        }
    }
}

/// Removing an entry removes its key.
pub proof fn lemma_entries_remove<K, V>(s: Seq<(K, V)>, i: int)
    requires
        keys_distinct(s),
        0 <= i < s.len(),
    ensures
        keys_distinct(s.remove(i)),
        entries_to_map(s.remove(i)) == entries_to_map(s).remove(s[i].0),
    decreases s.len(),
{
    let t = s.remove(i);
    let k = s[i].0;
    if i == s.len() - 1 {
        assert(t =~= s.drop_last());
        if entries_to_map(s.drop_last()).contains_key(k) {
            let j = lemma_entries_key(s.drop_last(), k);
            assert(s[j].0 == k);
        }
        assert(entries_to_map(t) =~= entries_to_map(s).remove(k));
    } else {
        lemma_entries_remove(s.drop_last(), i);
        assert(t.drop_last() =~= s.drop_last().remove(i));
        assert(t.last() == s.last());
        assert(s.last().0 != k);
        assert(entries_to_map(t) =~= entries_to_map(s).remove(k));
    }
}

/// With distinct keys, the map has one key per entry.
pub proof fn lemma_entries_len<K, V>(s: Seq<(K, V)>)
    requires
        keys_distinct(s),
    ensures
        entries_to_map(s).dom().finite(),
        entries_to_map(s).dom().len() == s.len(),
    decreases s.len(),
{
    if s.len() > 0 {
        let d = s.drop_last();
        lemma_entries_len(d);
        if entries_to_map(d).contains_key(s.last().0) {
            let j = lemma_entries_key(d, s.last().0);
            assert(s[j].0 == s.last().0);
        }
        assert(entries_to_map(s).dom() =~= entries_to_map(d).dom().insert(s.last().0));
    }
}

proof fn lemma_sum_update(s: Seq<([u8; 32], u64)>, i: int, v: u64)
    requires
        0 <= i < s.len(),
    ensures
        sum_entries(s.update(i, (s[i].0, v))) == sum_entries(s) - s[i].1 + v,
    decreases s.len(),
{
    let t = s.update(i, (s[i].0, v));
    if i == s.len() - 1 {
        assert(t.drop_last() =~= s.drop_last());
    } else {
        lemma_sum_update(s.drop_last(), i, v);
        assert(t.drop_last() =~= s.drop_last().update(i, (s[i].0, v)));
    }
}

proof fn lemma_sum_prefix(s: Seq<([u8; 32], u64)>, i: int)
    requires
        0 <= i <= s.len(),
    ensures
        sum_entries(s.take(i)) <= sum_entries(s),
        sum_entries(s.take(i)) >= 0,
    decreases s.len(),
{
    if i == s.len() {
        assert(s.take(i) =~= s);
        lemma_sum_nonneg(s);
    } else {
        lemma_sum_prefix(s.drop_last(), i);
        assert(s.drop_last().take(i) =~= s.take(i));
    }
}

proof fn lemma_sum_nonneg(s: Seq<([u8; 32], u64)>)
    ensures
        sum_entries(s) >= 0,
    decreases s.len(),
{
    if s.len() > 0 {
        lemma_sum_nonneg(s.drop_last());
    }
}

/// Whether two 32-byte arrays are equal.
pub fn bytes32_eq(a: &[u8; 32], b: &[u8; 32]) -> (r: bool)
    ensures
        r == (*a == *b),
{
    let mut i: usize = 0;
    while i < 32
        invariant
            i <= 32,
            forall|j: int| 0 <= j < i ==> a@[j] == b@[j],
        decreases 32 - i,
    {
        if a[i] != b[i] {
            assert(a@[i as int] != b@[i as int]);
            return false;
        }
        i = i + 1;
    }
    assert(*a =~= *b);
    true
}

/// A finite map from 32-byte keys to values.
pub struct ByteKeyMap<V> {
    entries: Vec<([u8; 32], V)>,
}

impl<V> View for ByteKeyMap<V> {
    type V = Map<[u8; 32], V>;

    closed spec fn view(&self) -> Map<[u8; 32], V> {
        entries_to_map(self.entries@)
    }
}

impl<V> ByteKeyMap<V> {
    /// The map's internal invariant: no key is stored twice.
    pub closed spec fn wf(&self) -> bool {
        keys_distinct(self.entries@)
    }

    /// An empty map.
    pub fn new() -> (r: Self)
        ensures
            r.wf(),
            r@ == Map::<[u8; 32], V>::empty(),
    {
        let r = ByteKeyMap { entries: Vec::new() };
        assert(r@ =~= Map::<[u8; 32], V>::empty());
        r
    }

    /// A well-formed map has finitely many keys.
    pub proof fn lemma_finite(&self)
        requires
            self.wf(),
        ensures
            self@.dom().finite(),
    {
        lemma_entries_len(self.entries@);
    }

    /// The position of the entry for `k`, if there is one.
    fn find(&self, k: &[u8; 32]) -> (r: Option<usize>)
        requires
            self.wf(),
        ensures
            match r {
                Some(i) => i < self.entries@.len() && self.entries@[i as int].0 == *k,
                None => !self@.contains_key(*k),
            },
    {
        let mut i: usize = 0;
        while i < self.entries.len()
            invariant
                i <= self.entries@.len(),
                forall|j: int| 0 <= j < i ==> self.entries@[j].0 != *k,
            decreases self.entries@.len() - i,
        {
            if bytes32_eq(&self.entries[i].0, k) {
                return Some(i);
            }
            i = i + 1;
        }
        proof {
            if self@.contains_key(*k) {
                let j = lemma_entries_key(self.entries@, *k);
            }
        }
        None
    }

    /// Whether `k` has a value.
    pub fn contains_key(&self, k: &[u8; 32]) -> (r: bool)
        requires
            self.wf(),
        ensures
            r == self@.contains_key(*k),
    {
        match self.find(k) {
            Some(i) => {
                proof {
                    lemma_entries_index(self.entries@, i as int);
                }
                true
            },
            None => false,
        }
    }

    /// The value stored under `k`, if any.
    pub fn get(&self, k: &[u8; 32]) -> (r: Option<&V>)
        requires
            self.wf(),
        ensures
            r is Some <==> self@.contains_key(*k),
            r matches Some(v) ==> *v == self@[*k],
    {
        match self.find(k) {
            Some(i) => {
                proof {
                    lemma_entries_index(self.entries@, i as int);
                }
                Some(&self.entries[i].1)
            },
            None => None,
        }
    }

    /// Stores `v` under `k`, replacing any earlier value.
    pub fn insert(&mut self, k: [u8; 32], v: V)
        requires
            old(self).wf(),
        ensures
            final(self).wf(),
            final(self)@ == old(self)@.insert(k, v),
    {
        match self.find(&k) {
            Some(i) => {
                proof {
                    lemma_entries_update(self.entries@, i as int, v);
                }
                self.entries.set(i, (k, v));
            },
            None => {
                proof {
                    lemma_entries_push(self.entries@, k, v);
                }
                self.entries.push((k, v));
            },
        }
    }
}

impl ByteKeyMap<u64> {
    /// The sum of all stored values.
    pub closed spec fn total(&self) -> int {
        sum_entries(self.entries@)
    }

    /// The total is the sum of the map's values.
    pub proof fn lemma_total_is_map_total(&self)
        requires
            self.wf(),
        ensures
            self.total() == map_total(self@),
            self@.dom().finite(),
    {
        lemma_sum_entries_is_map_total(self.entries@);
        lemma_entries_len(self.entries@);
    }


    /// The sum of all stored values; the sum must fit in a `u64`.
    pub fn sum(&self) -> (r: u64)
        requires
            self.total() <= u64::MAX,
        ensures
            r == self.total(),
    {
        let mut acc: u64 = 0;
        let mut i: usize = 0;
        while i < self.entries.len()
            invariant
                i <= self.entries@.len(),
                acc == sum_entries(self.entries@.take(i as int)),
                sum_entries(self.entries@) <= u64::MAX,
            decreases self.entries@.len() - i,
        {
            proof {
                assert(self.entries@.take(i + 1).drop_last() =~= self.entries@.take(i as int));
                lemma_sum_prefix(self.entries@, i + 1);
            }
            acc = acc + self.entries[i].1;
            i = i + 1;
        }
        assert(self.entries@.take(i as int) =~= self.entries@);
        acc
    }

    /// Stores `v` under `k`; the total changes by the difference between
    /// `v` and the value stored before (0 where there was none).
    pub fn set(&mut self, k: [u8; 32], v: u64)
        requires
            old(self).wf(),
        ensures
            final(self).wf(),
            final(self)@ == old(self)@.insert(k, v),
            final(self).total() == old(self).total() - value_or_zero(old(self)@, k) + v,
    {
        match self.find(&k) {
            Some(i) => {
                proof {
                    lemma_entries_update(self.entries@, i as int, v);
                    lemma_sum_update(self.entries@, i as int, v);
                    lemma_entries_index(self.entries@, i as int);
                }
                self.entries.set(i, (k, v));
            },
            None => {
                proof {
                    lemma_entries_push(self.entries@, k, v);
                }
                self.entries.push((k, v));
                assert(self.entries@.drop_last() =~= old(self).entries@);
            },
        }
    }

    /// A copy of the map.
    pub fn duplicate(&self) -> (r: Self)
        requires
            self.wf(),
        ensures
            r.wf(),
            r@ == self@,
            r.total() == self.total(),
    {
        let mut entries: Vec<([u8; 32], u64)> = Vec::new();
        let mut i: usize = 0;
        while i < self.entries.len()
            invariant
                i <= self.entries@.len(),
                entries@ == self.entries@.take(i as int),
            decreases self.entries@.len() - i,
        {
            let e = self.entries[i];
            entries.push(e);
            assert(entries@ =~= self.entries@.take(i + 1));
            i = i + 1;
        }
        assert(entries@ =~= self.entries@);
        ByteKeyMap { entries }
    }

    /// The value stored under `k`, or 0.
    pub fn get_or_zero(&self, k: &[u8; 32]) -> (r: u64)
        requires
            self.wf(),
        ensures
            r == value_or_zero(self@, *k),
    {
        match self.get(k) {
            Some(v) => *v,
            None => 0,
        }
    }
}

} // verus!
