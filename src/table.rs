//! A small table of values keyed by unique integer ids, kept in order of insertion.
use vstd::prelude::*;

verus! {

/// Whether no two entries share a key.
pub open spec fn unique_keys<V>(s: Seq<(u64, V)>) -> bool {
    forall|i: int, j: int| 0 <= i < s.len() && 0 <= j < s.len() && i != j ==> s[i].0 != s[j].0
}

/// Whether some entry has key `k`.
pub open spec fn has_key<V>(s: Seq<(u64, V)>, k: u64) -> bool {
    exists|i: int| 0 <= i < s.len() && s[i].0 == k
}

/// The index of an entry with key `k`.
pub open spec fn key_index<V>(s: Seq<(u64, V)>, k: u64) -> int {
    choose|i: int| 0 <= i < s.len() && s[i].0 == k
}

/// The entries after setting key `k` to `v`: in place where the key is present, else last.
pub open spec fn inserted<V>(s: Seq<(u64, V)>, k: u64, v: V) -> Seq<(u64, V)> {
    if has_key(s, k) {
        s.update(key_index(s, k), (k, v))
    } else {
        s.push((k, v))
    }
}

/// The entries after replacing the value of key `k` by `v`, where it is present.
pub open spec fn replaced<V>(s: Seq<(u64, V)>, k: u64, v: V) -> Seq<(u64, V)> {
    if has_key(s, k) {
        s.update(key_index(s, k), (k, v))
    } else {
        s
    }
}

/// The entries after removing the one with key `k`, if any.
pub open spec fn removed<V>(s: Seq<(u64, V)>, k: u64) -> Seq<(u64, V)> {
    if has_key(s, k) {
        s.remove(key_index(s, k))
    } else {
        s
    }
}

/// Values keyed by unique ids, in order of insertion.
#[derive(Debug)]
pub struct Table<V> {
    entries: Vec<(u64, V)>,
}

impl<V> Table<V> {
    /// The entries, in order of insertion.
    pub closed spec fn entries(&self) -> Seq<(u64, V)> {
        self.entries@
    }

    pub open spec fn wf(&self) -> bool {
        unique_keys(self.entries())
    }

    /// An empty table.
    pub fn new() -> (r: Self)
        ensures
            r.wf(),
            r.entries() == Seq::<(u64, V)>::empty(),
    {
        Table { entries: Vec::new() }
    }

    /// The number of entries.
    pub fn len(&self) -> (r: usize)
        ensures
            r == self.entries().len(),
    {
        self.entries.len()
    }

    /// The index of the entry with key `k`, if any.
    pub fn index_of(&self, k: u64) -> (r: Option<usize>)
        requires
            self.wf(),
        ensures
            r matches Some(i) ==> i < self.entries().len() && self.entries()[i as int].0 == k
                && i == key_index(self.entries(), k),
            r is None ==> !has_key(self.entries(), k),
    {
        let mut i: usize = 0;
        while i < self.entries.len()
            invariant
                unique_keys(self.entries@),
                i <= self.entries@.len(),
                forall|j: int| 0 <= j < i ==> self.entries@[j].0 != k,
            decreases self.entries@.len() - i,
        {
            if self.entries[i].0 == k {
                proof {
                    assert(self.entries@[i as int].0 == k);
                    assert(has_key(self.entries@, k));
                    let j = key_index(self.entries@, k);
                    assert(self.entries@[j].0 == k);
                }
                return Some(i);
            }
            i = i + 1;
        }
        None
    }

    /// The entry at index `i`.
    pub fn at(&self, i: usize) -> (r: &(u64, V))
        requires
            i < self.entries().len(),
        ensures
            *r == self.entries()[i as int],
    {
        &self.entries[i]
    }

    /// The value with key `k`, if any.
    pub fn get(&self, k: u64) -> (r: Option<&V>)
        requires
            self.wf(),
        ensures
            r is None <==> !has_key(self.entries(), k),
            r matches Some(v) ==> {
                let i = key_index(self.entries(), k);
                &&& 0 <= i < self.entries().len()
                &&& self.entries()[i].0 == k
                &&& self.entries()[i].1 == *v
            },
    {
        match self.index_of(k) {
            None => None,
            Some(i) => Some(&self.entries[i].1),
        }
    }

    /// Sets the value of key `k`: in place where the key is present, whose value is returned,
    /// else as a new last entry.
    pub fn insert(&mut self, k: u64, v: V) -> (r: Option<V>)
        requires
            old(self).wf(),
        ensures
            final(self).wf(),
            r is Some <==> has_key(old(self).entries(), k),
            r is None ==> final(self).entries() == old(self).entries().push((k, v)),
            r matches Some(o) ==> {
                let i = key_index(old(self).entries(), k);
                &&& 0 <= i < old(self).entries().len()
                &&& old(self).entries()[i].0 == k
                &&& o == old(self).entries()[i].1
                &&& final(self).entries() == old(self).entries().update(i, (k, v))
            },
    {
        match self.index_of(k) {
            None => {
                self.entries.push((k, v));
                None
            },
            Some(i) => {
                let (_, o) = self.entries.remove(i);
                self.entries.insert(i, (k, v));
                assert(self.entries@ =~= old(self).entries@.update(i as int, (k, v)));
                Some(o)
            },
        }
    }

    /// Replaces the value of key `k` where it is present. Returns whether it was.
    pub fn replace(&mut self, k: u64, v: V) -> (r: bool)
        requires
            old(self).wf(),
        ensures
            final(self).wf(),
            r == has_key(old(self).entries(), k),
            !r ==> final(self).entries() == old(self).entries(),
            r ==> {
                let i = key_index(old(self).entries(), k);
                &&& 0 <= i < old(self).entries().len()
                &&& old(self).entries()[i].0 == k
                &&& final(self).entries() == old(self).entries().update(i, (k, v))
            },
    {
        match self.index_of(k) {
            None => false,
            Some(i) => {
                let _ = self.entries.remove(i);
                self.entries.insert(i, (k, v));
                assert(self.entries@ =~= old(self).entries@.update(i as int, (k, v)));
                true
            },
        }
    }

    /// Removes the entry with key `k`, returning its value, if any.
    pub fn remove(&mut self, k: u64) -> (r: Option<V>)
        requires
            old(self).wf(),
        ensures
            final(self).wf(),
            r is Some <==> has_key(old(self).entries(), k),
            r is None ==> final(self).entries() == old(self).entries(),
            r matches Some(o) ==> {
                let i = key_index(old(self).entries(), k);
                &&& 0 <= i < old(self).entries().len()
                &&& old(self).entries()[i].0 == k
                &&& o == old(self).entries()[i].1
                &&& final(self).entries() == old(self).entries().remove(i)
            },
            !has_key(final(self).entries(), k),
    {
        match self.index_of(k) {
            None => None,
            Some(i) => {
                let (_, o) = self.entries.remove(i);
                assert forall|j: int| 0 <= j < self.entries@.len() implies self.entries@[j].0
                    != k by {
                    if j < i {
                        assert(self.entries@[j] == old(self).entries@[j]);
                    } else {
                        assert(self.entries@[j] == old(self).entries@[j + 1]);
                    }
                }
                Some(o)
            },
        }
    }
}

} // verus!
