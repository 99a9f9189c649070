//! A small keyed store: a vector of entries in which no key occurs twice,
//! seen by contracts as a finite map.

use vstd::prelude::*;

verus! {

/// A value that can serve as the key of a [`Table`].
pub trait Key: View + Sized {
    /// Whether two keys stand for the same mathematical value.
    fn same(&self, other: &Self) -> (b: bool)
        ensures
            b == (self@ == other@),
    ;
}

impl Key for u64 {
    fn same(&self, other: &Self) -> (b: bool) {
        *self == *other
    }
}

impl Key for (u64, u64) {
    fn same(&self, other: &Self) -> (b: bool) {
        self.0 == other.0 && self.1 == other.1
    }
}

/// Whether two byte strings hold the same bytes.
pub fn bytes_equal(a: &Vec<u8>, b: &Vec<u8>) -> (r: bool)
    ensures
        r == (a@ == b@),
{
    if a.len() != b.len() {
        return false;
    }
    let mut i: usize = 0;
    while i < a.len()
        invariant
            a@.len() == b@.len(),
            i <= a@.len(),
            forall|j: int| 0 <= j < i ==> a@[j] == b@[j],
        decreases a@.len() - i,
    {
        if a[i] != b[i] {
            return false;
        }
        i += 1;
    }
    assert(a@ =~= b@);
    true
}

impl Key for Vec<u8> {
    fn same(&self, other: &Self) -> (b: bool) {
        bytes_equal(self, other)
    }
}

impl Key for (u64, Vec<u8>) {
    fn same(&self, other: &Self) -> (b: bool) {
        self.0 == other.0 && bytes_equal(&self.1, &other.1)
    }
}

/// Whether no key occurs in two of the `entries`.
pub open spec fn keys_distinct<K: View, V>(entries: Seq<(K, V)>) -> bool {
    forall|i: int, j: int| 0 <= i < j < entries.len() ==> entries[i].0@ != entries[j].0@
}

/// Whether one of the `entries` has key `k`.
pub open spec fn has_key<K: View, V>(entries: Seq<(K, V)>, k: K::V) -> bool {
    exists|i: int| 0 <= i < entries.len() && #[trigger] entries[i].0@ == k
}

/// The position of an entry with key `k`, where there is one.
pub open spec fn position_of<K: View, V>(entries: Seq<(K, V)>, k: K::V) -> int {
    choose|i: int| 0 <= i < entries.len() && #[trigger] entries[i].0@ == k
}

/// The map that `entries` describe: it has the keys that occur in them, and
/// for each the value of an entry with that key. Where the keys are
/// distinct, that is the only one.
pub open spec fn map_of<K: View, V: View>(entries: Seq<(K, V)>) -> Map<K::V, V::V> {
    Map::new(|k: K::V| has_key(entries, k), |k: K::V| entries[position_of(entries, k)].1@)
}

/// Among entries with distinct keys, the map holds each entry's value
/// under its key.
pub proof fn map_of_holds_each_entry<K: View, V: View>(entries: Seq<(K, V)>, i: int)
    requires
        keys_distinct(entries),
        0 <= i < entries.len(),
    ensures
        map_of(entries).dom().contains(entries[i].0@),
        map_of(entries)[entries[i].0@] == entries[i].1@,
        position_of(entries, entries[i].0@) == i,
{
    let k = entries[i].0@;
    assert(entries[i].0@ == k);
    let j = position_of(entries, k);
    assert(0 <= j < entries.len() && entries[j].0@ == k);
    if j < i {
        assert(entries[j].0@ != entries[i].0@);
    } else if i < j {
        assert(entries[i].0@ != entries[j].0@);
    }
}

/// Every key of the map is the key of an entry, at the position that
/// `position_of` names.
pub proof fn map_of_holds_entries_only<K: View, V: View>(entries: Seq<(K, V)>, k: K::V)
    requires
        map_of(entries).dom().contains(k),
    ensures
        0 <= position_of(entries, k) < entries.len(),
        entries[position_of(entries, k)].0@ == k,
        map_of(entries)[k] == entries[position_of(entries, k)].1@,
{
}

/// The map of finitely many entries has finitely many keys.
pub proof fn map_of_is_finite<K: View, V: View>(entries: Seq<(K, V)>)
    ensures
        map_of(entries).dom().finite(),
    decreases entries.len(),
{
    if entries.len() == 0 {
        assert(map_of(entries).dom() =~= Set::<K::V>::empty());
    } else {
        let shorter = entries.drop_last();
        map_of_is_finite(shorter);
        assert forall|k: K::V| #[trigger]
            map_of(entries).dom().contains(k) == map_of(shorter).dom().insert(
                entries.last().0@,
            ).contains(k) by {
            if has_key(entries, k) {
                let i = position_of(entries, k);
                if i < shorter.len() {
                    assert(shorter[i].0@ == k);
                }
            }
            if has_key(shorter, k) {
                let i = position_of(shorter, k);
                assert(entries[i].0@ == k);
            }
            assert(entries[entries.len() - 1].0@ == entries.last().0@);
        }
        assert(map_of(entries).dom() =~= map_of(shorter).dom().insert(entries.last().0@));
    }
}

/// A finite map from keys to values, held as a vector of entries.
pub struct Table<K, V> {
    entries: Vec<(K, V)>,
}

impl<K: Key, V: View> View for Table<K, V> {
    type V = Map<K::V, V::V>;

    open spec fn view(&self) -> Map<K::V, V::V> {
        map_of(self.entries())
    }
}

impl<K: Key, V: View> Table<K, V> {
    /// The entries, in the order in which the table holds them.
    pub closed spec fn entries(&self) -> Seq<(K, V)> {
        self.entries@
    }

    /// No key occurs in two entries.
    pub open spec fn wf(&self) -> bool {
        keys_distinct(self.entries())
    }

    /// An empty table.
    pub fn new() -> (t: Self)
        ensures
            t.wf(),
            t.entries() == Seq::<(K, V)>::empty(),
            t@ == Map::<K::V, V::V>::empty(),
    {
        let t = Table { entries: Vec::new() };
        assert(t@ =~= Map::<K::V, V::V>::empty());
        t
    }

    /// A table of the given entries, or nothing where a key occurs twice
    /// among them.
    pub fn from_entries(entries: Vec<(K, V)>) -> (r: Option<Self>)
        ensures
            r is Some == keys_distinct(entries@),
            r matches Some(t) ==> t.wf() && t.entries() == entries@ && t@ == map_of(entries@),
    {
        let mut i: usize = 0;
        while i < entries.len()
            invariant
                i <= entries@.len(),
                forall|a: int, b: int| 0 <= a < b < i ==> entries@[a].0@ != entries@[b].0@,
            decreases entries@.len() - i,
        {
            let mut j: usize = 0;
            while j < i
                invariant
                    j <= i < entries@.len(),
                    forall|a: int| 0 <= a < j ==> entries@[a].0@ != entries@[i as int].0@,
                decreases i - j,
            {
                if entries[j].0.same(&entries[i].0) {
                    return None;
                }
                j += 1;
            }
            i += 1;
        }
        Some(Table { entries })
    }

    /// The entries of the table, in the order in which it held them.
    pub fn into_entries(self) -> (entries: Vec<(K, V)>)
        ensures
            entries@ == self.entries(),
    {
        self.entries
    }

    /// How many entries the table has.
    pub fn len(&self) -> (n: usize)
        ensures
            n == self.entries().len(),
    {
        self.entries.len()
    }

    /// The entry at position `i`.
    pub fn entry(&self, i: usize) -> (pair: &(K, V))
        requires
            i < self.entries().len(),
        ensures
            *pair == self.entries()[i as int],
    {
        &self.entries[i]
    }

    /// The position of the entry with key `k`, if there is one.
    fn find(&self, k: &K) -> (r: Option<usize>)
        ensures
            match r {
                Some(i) => i < self.entries().len() && self.entries()[i as int].0@ == k@,
                None => !has_key(self.entries(), k@),
            },
    {
        let mut i: usize = 0;
        while i < self.entries.len()
            invariant
                i <= self.entries@.len(),
                forall|j: int| 0 <= j < i ==> self.entries@[j].0@ != k@,
            decreases self.entries@.len() - i,
        {
            if self.entries[i].0.same(k) {
                return Some(i);
            }
            i += 1;
        }
        None
    }

    /// Whether the table has an entry for `k`.
    pub fn contains_key(&self, k: &K) -> (b: bool)
        ensures
            b == self@.dom().contains(k@),
    {
        self.find(k).is_some()
    }

    /// The value stored for `k`, if there is one.
    pub fn get(&self, k: &K) -> (r: Option<&V>)
        requires
            self.wf(),
        ensures
            r is Some == self@.dom().contains(k@),
            r matches Some(v) ==> v@ == self@[k@],
    {
        match self.find(k) {
            Some(i) => {
                proof {
                    map_of_holds_each_entry(self.entries(), i as int);
                }
                Some(&self.entries[i].1)
            },
            None => None,
        }
    }

    /// Stores `v` for `k`, replacing the value of an entry that already has that key.
    pub fn insert(&mut self, k: K, v: V)
        requires
            old(self).wf(),
        ensures
            final(self).wf(),
            final(self)@ == old(self)@.insert(k@, v@),
    {
        let ghost before = self.entries();
        let ghost wanted = map_of(before).insert(k@, v@);
        match self.find(&k) {
            Some(i) => {
                self.entries[i] = (k, v);
                proof {
                    let after = self.entries();
                    assert forall|a: int| 0 <= a < after.len() implies #[trigger] after[a].0@
                        == before[a].0@ by {}
                    assert(keys_distinct(after));
                    assert forall|q: K::V| #[trigger]
                        map_of(after).dom().contains(q) == wanted.dom().contains(q) by {
                        if has_key(after, q) {
                            let j = position_of(after, q);
                            assert(before[j].0@ == q);
                        }
                        if has_key(before, q) {
                            let j = position_of(before, q);
                            assert(after[j].0@ == q);
                        }
                        map_of_holds_each_entry(before, i as int);
                    }
                    assert forall|q: K::V| map_of(after).dom().contains(q) implies #[trigger] map_of(
                        after,
                    )[q] == wanted[q] by {
                        let j = position_of(after, q);
                        map_of_holds_each_entry(after, j);
                        if j != i {
                            map_of_holds_each_entry(before, j);
                        }
                    }
                    assert(map_of(after) =~= wanted);
                }
            },
            None => {
                self.entries.push((k, v));
                proof {
                    let after = self.entries();
                    let n = before.len() as int;
                    assert forall|a: int| 0 <= a < n implies #[trigger] after[a].0@ == before[a].0@ by {}
                    assert forall|a: int, b: int| 0 <= a < b < after.len() implies after[a].0@
                        != after[b].0@ by {
                        if b < n {
                            assert(after[a].0@ == before[a].0@);
                            assert(after[b].0@ == before[b].0@);
                        } else {
                            assert(before[a].0@ != k@);
                        }
                    }
                    assert forall|q: K::V| #[trigger]
                        map_of(after).dom().contains(q) == wanted.dom().contains(q) by {
                        if has_key(after, q) {
                            let j = position_of(after, q);
                            if j < n {
                                assert(before[j].0@ == q);
                            }
                        }
                        if has_key(before, q) {
                            let j = position_of(before, q);
                            assert(after[j].0@ == q);
                        }
                        assert(after[n].0@ == k@);
                    }
                    assert forall|q: K::V| map_of(after).dom().contains(q) implies #[trigger] map_of(
                        after,
                    )[q] == wanted[q] by {
                        let j = position_of(after, q);
                        map_of_holds_each_entry(after, j);
                        if j < n {
                            map_of_holds_each_entry(before, j);
                        }
                    }
                    assert(map_of(after) =~= wanted);
                }
            },
        }
    }

    /// Takes the entry for `k` out of the table and hands back its value,
    /// if there is one.
    pub fn remove(&mut self, k: &K) -> (r: Option<V>)
        requires
            old(self).wf(),
        ensures
            final(self).wf(),
            final(self)@ == old(self)@.remove(k@),
            r is Some == old(self)@.dom().contains(k@),
            r matches Some(v) ==> v@ == old(self)@[k@],
    {
        let ghost before = self.entries();
        let ghost wanted = map_of(before).remove(k@);
        match self.find(k) {
            None => {
                assert(map_of(before) =~= wanted);
                None
            },
            Some(i) => {
                proof {
                    map_of_holds_each_entry(before, i as int);
                }
                let entry = self.entries.remove(i);
                proof {
                    let after = self.entries();
                    assert forall|a: int| 0 <= a < after.len() implies #[trigger] after[a].0@ == (if a
                        < i {
                        before[a].0@
                    } else {
                        before[a + 1].0@
                    }) by {}
                    assert forall|a: int, b: int| 0 <= a < b < after.len() implies after[a].0@
                        != after[b].0@ by {
                        let a0 = if a < i { a } else { a + 1 };
                        let b0 = if b < i { b } else { b + 1 };
                        assert(before[a0].0@ != before[b0].0@);
                    }
                    assert forall|q: K::V| #[trigger]
                        map_of(after).dom().contains(q) == wanted.dom().contains(q) by {
                        if has_key(after, q) {
                            let j = position_of(after, q);
                            let j0 = if j < i { j } else { j + 1 };
                            assert(before[j0].0@ == q);
                            map_of_holds_each_entry(before, j0);
                        }
                        if has_key(before, q) && q != k@ {
                            let j = position_of(before, q);
                            let j1 = if j < i { j } else { j - 1 };
                            assert(after[j1].0@ == q);
                        }
                    }
                    assert forall|q: K::V| map_of(after).dom().contains(q) implies #[trigger] map_of(
                        after,
                    )[q] == wanted[q] by {
                        let j = position_of(after, q);
                        map_of_holds_each_entry(after, j);
                        let j0 = if j < i { j } else { j + 1 };
                        map_of_holds_each_entry(before, j0);
                    }
                    assert(map_of(after) =~= wanted);
                }
                Some(entry.1)
            },
        }
    }
}

} // verus!
