//! Items kept under the endpoint that each belongs to.

use crate::endpoint::Endpoint;
use vstd::prelude::*;

verus! {

/// An item and the endpoint that it is kept under.
pub struct Entry<T> {
    pub key: Endpoint,
    pub item: T,
}

/// Items kept under endpoints, in the order in which they were entered. An
/// endpoint is looked up from the front, and entering an item under an
/// endpoint that is there replaces the item: no endpoint gets a second entry.
pub struct Roster<T> {
    pub entries: Vec<Entry<T>>,
}

/// The position of the first entry under `key` at or after `from`, or the
/// length if there is none.
pub open spec fn spec_position<T>(entries: Seq<Entry<T>>, key: Endpoint, from: int) -> int
    decreases entries.len() - from,
{
    if from >= entries.len() {
        entries.len() as int
    } else if from >= 0 && entries[from].key == key {
        from
    } else {
        spec_position(entries, key, from + 1)
    }
}

/// The first entry under `key` is where the lookup says, and no entry before
/// it is under `key`.
pub proof fn lemma_position<T>(entries: Seq<Entry<T>>, key: Endpoint, from: int)
    requires
        0 <= from <= entries.len(),
    ensures
        from <= spec_position(entries, key, from) <= entries.len(),
        spec_position(entries, key, from) < entries.len() ==> entries[spec_position(
            entries,
            key,
            from,
        )].key == key,
        forall|i: int| from <= i < spec_position(entries, key, from) ==> entries[i].key != key,
    decreases entries.len() - from,
{
    if from < entries.len() && entries[from].key != key {
        lemma_position(entries, key, from + 1);
    }
}

/// Where two sequences have the same length and entries under `key` at the
/// same places, equal there, a lookup of `key` finds the same in both.
pub proof fn lemma_same_keys<T>(a: Seq<Entry<T>>, b: Seq<Entry<T>>, key: Endpoint)
    requires
        a.len() <= b.len(),
        forall|j: int| 0 <= j < a.len() && (a[j].key == key || b[j].key == key) ==> a[j] == b[j],
        forall|j: int| a.len() <= j < b.len() ==> b[j].key != key,
    ensures
        spec_position(a, key, 0) <= a.len(),
        spec_position(b, key, 0) <= b.len(),
        spec_position(a, key, 0) == a.len() <==> spec_position(b, key, 0) == b.len(),
        spec_position(a, key, 0) < a.len() ==> spec_position(b, key, 0) == spec_position(
            a,
            key,
            0,
        ) && b[spec_position(b, key, 0)] == a[spec_position(a, key, 0)],
{
    lemma_position(a, key, 0);
    lemma_position(b, key, 0);
    let pa = spec_position(a, key, 0);
    let pb = spec_position(b, key, 0);
    if pa < a.len() {
        assert(b[pa].key == key);
        if pb < pa {
            assert(a[pb].key == key);
        }
    } else {
        if pb < b.len() {
            if pb < a.len() {
                assert(a[pb].key == key);
            }
        }
    }
}

/// Taking the entry at `i` out does not change what a lookup of another key
/// finds.
pub proof fn lemma_removed<T>(a: Seq<Entry<T>>, i: int, key: Endpoint)
    requires
        0 <= i < a.len(),
        a[i].key != key,
    ensures
        spec_position(a, key, 0) <= a.len(),
        spec_position(a.remove(i), key, 0) <= a.len() - 1,
        spec_position(a, key, 0) == a.len() <==> spec_position(a.remove(i), key, 0) == a.len()
            - 1,
        spec_position(a, key, 0) < a.len() ==> spec_position(a.remove(i), key, 0) < a.len() - 1
            && a.remove(i)[spec_position(a.remove(i), key, 0)] == a[spec_position(a, key, 0)],
{
    let b = a.remove(i);
    lemma_position(a, key, 0);
    lemma_position(b, key, 0);
    let pa = spec_position(a, key, 0);
    let pb = spec_position(b, key, 0);
    if pa < a.len() {
        let q = if pa < i {
            pa
        } else {
            pa - 1
        };
        assert(b[q] == a[pa]);
        if pb < q {
            let r = if pb < i {
                pb
            } else {
                pb + 1
            };
            assert(a[r] == b[pb]);
        }
    } else {
        if pb < b.len() {
            let r = if pb < i {
                pb
            } else {
                pb + 1
            };
            assert(a[r] == b[pb]);
        }
    }
}

impl<T> Roster<T> {
    /// At most one entry is under each endpoint.
    pub open spec fn unique(&self) -> bool {
        forall|i: int, j: int|
            0 <= i < self.entries@.len() && 0 <= j < self.entries@.len()
                && self.entries@[i].key == self.entries@[j].key ==> i == j
    }

    /// The position of the entry under `key`, if there is one.
    pub open spec fn spec_find(&self, key: Endpoint) -> Option<int> {
        let p = spec_position(self.entries@, key, 0);
        if p < self.entries@.len() {
            Some(p)
        } else {
            None
        }
    }

    pub open spec fn spec_contains(&self, key: Endpoint) -> bool {
        self.spec_find(key) is Some
    }

    /// The item under `key`, if there is one.
    pub open spec fn spec_get(&self, key: Endpoint) -> Option<T> {
        match self.spec_find(key) {
            Some(i) => Some(self.entries@[i].item),
            None => None,
        }
    }

    pub fn new() -> (r: Self)
        ensures
            r.entries@.len() == 0,
            r.unique(),
    {
        Roster { entries: Vec::new() }
    }

    pub fn len(&self) -> (n: usize)
        ensures
            n == self.entries@.len(),
    {
        self.entries.len()
    }

    /// Looks `key` up.
    pub fn find(&self, key: &Endpoint) -> (r: Option<usize>)
        ensures
            match r {
                Some(i) => self.spec_find(*key) == Some(i as int) && i < self.entries@.len()
                    && self.entries@[i as int].key == *key,
                None => self.spec_find(*key) is None && forall|i: int|
                    0 <= i < self.entries@.len() ==> self.entries@[i].key != *key,
            },
    {
        let mut i: usize = 0;
        while i < self.entries.len()
            invariant
                i <= self.entries@.len(),
                spec_position(self.entries@, *key, 0) == spec_position(
                    self.entries@,
                    *key,
                    i as int,
                ),
                forall|j: int| 0 <= j < i ==> self.entries@[j].key != *key,
            decreases self.entries@.len() - i,
        {
            if self.entries[i].key.ip == key.ip && self.entries[i].key.port == key.port {
                return Some(i);
            }
            i = i + 1;
        }
        None
    }

    pub fn contains(&self, key: &Endpoint) -> (r: bool)
        ensures
            r == self.spec_contains(*key),
    {
        self.find(key).is_some()
    }

    /// Enters `item` under `key`: in place of the entry under `key` if there
    /// is one, else at the end. Returns the item that was replaced.
    pub fn put(&mut self, key: Endpoint, item: T) -> (replaced: Option<T>)
        ensures
            match old(self).spec_find(key) {
                Some(i) => final(self).entries@.len() == old(self).entries@.len() && final(self).entries@[i].key == key && final(self).entries@[i].item == item && replaced
                    == Some(old(self).entries@[i].item) && forall|j: int|
                    0 <= j < old(self).entries@.len() && j != i ==> final(self).entries@[j] == old(self).entries@[j],
                None => final(self).entries@ == old(self).entries@.push(Entry { key, item })
                    && replaced is None,
            },
            final(self).spec_find(key) is Some,
            old(self).unique() ==> final(self).unique(),
            forall|k: Endpoint| #[trigger]
                old(self).spec_contains(k) ==> final(self).spec_contains(k),
            final(self).spec_get(key) == Some(item),
            forall|k: Endpoint| k != key ==> #[trigger] final(self).spec_get(k) == old(self).spec_get(k),
            forall|j: int|
                0 <= j < final(self).entries@.len() ==> (#[trigger] final(self).entries@[j]).key
                    == key && final(self).entries@[j].item == item || (j < old(self).entries@.len()
                    && final(self).entries@[j] == old(self).entries@[j]),
    {
        proof {
            lemma_position(self.entries@, key, 0);
            assert forall|k: Endpoint| #[trigger] old(self).spec_contains(k) implies spec_position(
                old(self).entries@,
                k,
                0,
            ) < old(self).entries@.len() && old(self).entries@[spec_position(
                old(self).entries@,
                k,
                0,
            )].key == k by {
                lemma_position(old(self).entries@, k, 0);
            }
        }
        match self.find(&key) {
            Some(i) => {
                let mut entry = Entry { key, item };
                core::mem::swap(&mut self.entries[i], &mut entry);
                proof {
                    lemma_position(self.entries@, key, 0);
                    assert(self.entries@[i as int].key == key);
                    assert forall|k: Endpoint| #[trigger]
                        old(self).spec_contains(k) implies self.spec_contains(k) by {
                        let p = spec_position(old(self).entries@, k, 0);
                        lemma_position(old(self).entries@, k, 0);
                        lemma_position(self.entries@, k, 0);
                        assert(0 <= p < old(self).entries@.len());
                        assert(old(self).entries@[p].key == k);
                        assert(self.entries@[p].key == k);
                    }
                    assert forall|k: Endpoint| k != key implies #[trigger] self.spec_get(k) == old(self).spec_get(k) by {
                        lemma_same_keys(old(self).entries@, self.entries@, k);
                    }
                }
                Some(entry.item)
            },
            None => {
                self.entries.push(Entry { key, item });
                proof {
                    lemma_position(self.entries@, key, 0);
                    assert(self.entries@[self.entries@.len() - 1].key == key);
                    assert forall|k: Endpoint| #[trigger]
                        old(self).spec_contains(k) implies self.spec_contains(k) by {
                        let p = spec_position(old(self).entries@, k, 0);
                        lemma_position(old(self).entries@, k, 0);
                        lemma_position(self.entries@, k, 0);
                        assert(0 <= p < old(self).entries@.len());
                        assert(old(self).entries@[p].key == k);
                        assert(self.entries@[p].key == k);
                    }
                    assert forall|k: Endpoint| k != key implies #[trigger] self.spec_get(k) == old(self).spec_get(k) by {
                        lemma_same_keys(old(self).entries@, self.entries@, k);
                    }
                }
                None
            },
        }
    }

    /// Takes the entry under `key` out, if there is one, and returns its item.
    pub fn take(&mut self, key: &Endpoint) -> (taken: Option<T>)
        ensures
            match old(self).spec_find(*key) {
                Some(i) => final(self).entries@ == old(self).entries@.remove(i) && taken == Some(
                    old(self).entries@[i].item,
                ),
                None => final(self).entries@ == old(self).entries@ && taken is None,
            },
            old(self).unique() ==> final(self).unique() && final(self).spec_find(*key) is None,
            forall|k: Endpoint| k != *key ==> #[trigger] final(self).spec_get(k) == old(self).spec_get(k),
    {
        match self.find(key) {
            Some(i) => {
                let entry = self.entries.remove(i);
                proof {
                    assert forall|k: Endpoint| k != *key implies #[trigger] self.spec_get(k) == old(self).spec_get(k) by {
                        lemma_removed(old(self).entries@, i as int, k);
                    }
                    lemma_position(self.entries@, *key, 0);
                    if old(self).unique() {
                        assert forall|a: int, b: int|
                            0 <= a < self.entries@.len() && 0 <= b < self.entries@.len()
                                && self.entries@[a].key == self.entries@[b].key implies a == b by {
                            let a0 = if a < i { a } else { a + 1 };
                            let b0 = if b < i { b } else { b + 1 };
                            assert(old(self).entries@[a0].key == old(self).entries@[b0].key);
                        }
                        let p = spec_position(self.entries@, *key, 0);
                        if p < self.entries@.len() {
                            let q = if p < i { p } else { p + 1 };
                            assert(old(self).entries@[q].key == old(self).entries@[i as int].key);
                        }
                    }
                }
                Some(entry.item)
            },
            None => None,
        }
    }
}

} // verus!
