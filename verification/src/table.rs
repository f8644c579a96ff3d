//! A small map from keys to values, kept as a list of entries.

use vstd::prelude::*;

verus! {

/// A key that can be compared for equality.
pub trait TableKey: Copy {
    /// Whether the two keys are the same.
    fn same(&self, other: &Self) -> (r: bool)
        ensures
            r == (*self == *other),
    ;
}

impl TableKey for u64 {
    fn same(&self, other: &Self) -> (r: bool) {
        *self == *other
    }
}

/// The map that a list of entries stands for: a later entry wins over an
/// earlier one with the same key.
pub open spec fn entries_map<K, V>(s: Seq<(K, V)>) -> Map<K, V>
    decreases s.len(),
{
    if s.len() == 0 {
        Map::empty()
    } else {
        entries_map(s.drop_last()).insert(s.last().0, s.last().1)
    }
}

/// Position `i` holds the last entry with key `k`.
spec fn last_at<K, V>(s: Seq<(K, V)>, k: K, i: int) -> bool {
    &&& 0 <= i < s.len()
    &&& s[i].0 == k
    &&& forall|j: int| i < j < s.len() ==> (#[trigger] s[j]).0 != k
}

proof fn lemma_found<K, V>(s: Seq<(K, V)>, k: K, i: int)
    requires
        last_at(s, k, i),
    ensures
        entries_map(s).contains_key(k),
        entries_map(s)[k] == s[i].1,
    decreases s.len(),
{
    if i < s.len() - 1 {
        assert(s[s.len() - 1].0 != k);
        lemma_found(s.drop_last(), k, i);
    }
}

proof fn lemma_absent<K, V>(s: Seq<(K, V)>, k: K)
    requires
        forall|j: int| 0 <= j < s.len() ==> (#[trigger] s[j]).0 != k,
    ensures
        !entries_map(s).contains_key(k),
    decreases s.len(),
{
    if s.len() > 0 {
        assert(s[s.len() - 1].0 != k);
        lemma_absent(s.drop_last(), k);
    }
}

proof fn lemma_replaced<K, V>(s: Seq<(K, V)>, k: K, i: int, v: V)
    requires
        last_at(s, k, i),
    ensures
        entries_map(s.update(i, (k, v))) == entries_map(s).insert(k, v),
    decreases s.len(),
{
    let t = s.update(i, (k, v));
    if i < s.len() - 1 {
        assert(s[s.len() - 1].0 != k);
        lemma_replaced(s.drop_last(), k, i, v);
        assert(t.drop_last() =~= s.drop_last().update(i, (k, v)));
        assert(entries_map(t) =~= entries_map(s).insert(k, v));
    } else {
        assert(t.drop_last() =~= s.drop_last());
        assert(entries_map(t) =~= entries_map(s).insert(k, v));
    }
}

/// A map from `K` to `V`.
pub struct Table<K, V> {
    entries: Vec<(K, V)>,
}

impl<K, V> View for Table<K, V> {
    type V = Map<K, V>;

    closed spec fn view(&self) -> Map<K, V> {
        entries_map(self.entries@)
    }
}

impl<K: TableKey, V> Table<K, V> {
    /// A table without entries.
    pub fn new() -> (r: Self)
        ensures
            r@ == Map::<K, V>::empty(),
    {
        Table { entries: Vec::new() }
    }

    fn find(&self, k: K) -> (r: Option<usize>)
        ensures
            match r {
                Some(i) => last_at(self.entries@, k, i as int),
                None => forall|j: int|
                    0 <= j < self.entries@.len() ==> (#[trigger] self.entries@[j]).0 != k,
            },
    {
        let mut i: usize = self.entries.len();
        while i > 0
            invariant
                i <= self.entries@.len(),
                forall|j: int|
                    i <= j < self.entries@.len() ==> (#[trigger] self.entries@[j]).0 != k,
            decreases i,
        {
            i = i - 1;
            if self.entries[i].0.same(&k) {
                return Some(i);
            }
        }
        None
    }

    /// The value stored under `k`, if there is one.
    pub fn get(&self, k: K) -> (r: Option<&V>)
        ensures
            match r {
                Some(v) => self@.contains_key(k) && self@[k] == *v,
                None => !self@.contains_key(k),
            },
    {
        match self.find(k) {
            Some(i) => {
                proof {
                    lemma_found(self.entries@, k, i as int);
                }
                Some(&self.entries[i].1)
            },
            None => {
                proof {
                    lemma_absent(self.entries@, k);
                }
                None
            },
        }
    }

    /// A place to change the value stored under `k`, if there is one.
    pub fn get_mut(&mut self, k: K) -> (r: Option<&mut V>)
        ensures
            match r {
                Some(v) => {
                    &&& old(self)@.contains_key(k)
                    &&& old(self)@[k] == *v
                    &&& final(self)@ == old(self)@.insert(k, *final(v))
                },
                None => !old(self)@.contains_key(k) && final(self)@ == old(self)@,
            },
    {
        match self.find(k) {
            Some(i) => {
                proof {
                    lemma_found(self.entries@, k, i as int);
                    assert forall|v: V|
                        #[trigger] entries_map(self.entries@.update(i as int, (k, v)))
                            == entries_map(self.entries@).insert(k, v) by {
                        lemma_replaced(self.entries@, k, i as int, v);
                    }
                }
                Some(&mut self.entries[i].1)
            },
            None => {
                proof {
                    lemma_absent(self.entries@, k);
                }
                None
            },
        }
    }

    /// Stores `v` under `k`, in place of what was there.
    pub fn set(&mut self, k: K, v: V)
        ensures
            final(self)@ == old(self)@.insert(k, v),
    {
        match self.find(k) {
            Some(i) => {
                proof {
                    lemma_replaced(self.entries@, k, i as int, v);
                }
                self.entries.set(i, (k, v));
            },
            None => {
                proof {
                    assert(self.entries@.push((k, v)).drop_last() =~= self.entries@);
                }
                self.entries.push((k, v));
            },
        }
    }
}

impl<K: TableKey, V: Copy> Table<K, V> {
    /// A second table with the same entries.
    pub fn copy(&self) -> (r: Self)
        ensures
            r@ == self@,
    {
        let mut entries: Vec<(K, V)> = Vec::new();
        let mut i: usize = 0;
        while i < self.entries.len()
            invariant
                i <= self.entries@.len(),
                entries@ =~= self.entries@.take(i as int),
            decreases self.entries@.len() - i,
        {
            entries.push(self.entries[i]);
            i = i + 1;
        }
        assert(entries@ =~= self.entries@);
        Table { entries }
    }
}

} // verus!
