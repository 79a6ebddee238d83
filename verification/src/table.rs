//! Bounded tables and bounded queues: the shapes of the maps that the
//! datapath and the control plane share.

use crate::endpoint::KConnection;
use crate::endpoint::KEndpoint;
use std::collections::HashMap;
use std::collections::VecDeque;
use vstd::prelude::*;

verus! {

broadcast use vstd::std_specs::hash::group_hash_axioms;

/// A key that a table can hold: it has a 128-bit form of its own.
pub trait TableKey: Sized + Copy {
    /// The 128-bit form of the key.
    spec fn bits(self) -> u128;

    fn to_bits(&self) -> (b: u128)
        ensures
            b == self.bits(),
    ;

    /// Different keys have different forms.
    proof fn lemma_bits_injective(a: Self, b: Self)
        ensures
            a.bits() == b.bits() ==> a == b,
    ;
}

impl TableKey for u32 {
    open spec fn bits(self) -> u128 {
        self as u128
    }

    fn to_bits(&self) -> (b: u128) {
        *self as u128
    }

    proof fn lemma_bits_injective(a: Self, b: Self) {
    }
}

impl TableKey for u128 {
    open spec fn bits(self) -> u128 {
        self
    }

    fn to_bits(&self) -> (b: u128) {
        *self
    }

    proof fn lemma_bits_injective(a: Self, b: Self) {
    }
}

impl TableKey for KEndpoint {
    open spec fn bits(self) -> u128 {
        self.spec_key() as u128
    }

    fn to_bits(&self) -> (b: u128) {
        self.key() as u128
    }

    proof fn lemma_bits_injective(a: Self, b: Self) {
        KEndpoint::lemma_key(a, b);
    }
}

impl TableKey for KConnection {
    open spec fn bits(self) -> u128 {
        self.spec_key()
    }

    fn to_bits(&self) -> (b: u128) {
        self.key()
    }

    proof fn lemma_bits_injective(a: Self, b: Self) {
        KConnection::lemma_key(a, b);
    }
}

/// What a map of 128-bit forms holds, seen as a map of keys.
pub open spec fn keyed<K: TableKey, V>(m: Map<u128, (K, V)>) -> Map<K, V> {
    Map::new(|k: K| m.contains_key(k.bits()), |k: K| m[k.bits()].1)
}

proof fn lemma_keyed_insert<K: TableKey, V>(m: Map<u128, (K, V)>, k: K, v: V)
    ensures
        keyed(m.insert(k.bits(), (k, v))) == keyed(m).insert(k, v),
        keyed(m).contains_key(k) <==> m.contains_key(k.bits()),
{
    assert forall|k2: K| k2.bits() == k.bits() implies k2 == k by {
        K::lemma_bits_injective(k2, k);
    }
    assert(keyed(m.insert(k.bits(), (k, v))) =~= keyed(m).insert(k, v));
}

proof fn lemma_keyed_empty<K: TableKey, V>(m: Map<u128, (K, V)>)
    requires
        m == Map::<u128, (K, V)>::empty(),
    ensures
        keyed(m) == Map::<K, V>::empty(),
        keyed(m).dom().finite(),
        keyed(m).dom().len() == 0,
        m.dom().len() == 0,
{
    assert(keyed(m) =~= Map::<K, V>::empty());
    assert(m.dom() =~= Set::<u128>::empty());
    assert(keyed(m).dom() =~= Set::<K>::empty());
}

proof fn lemma_keyed_remove<K: TableKey, V>(m: Map<u128, (K, V)>, k: K)
    ensures
        keyed(m.remove(k.bits())) == keyed(m).remove(k),
{
    assert forall|k2: K| k2.bits() == k.bits() implies k2 == k by {
        K::lemma_bits_injective(k2, k);
    }
    assert(keyed(m.remove(k.bits())) =~= keyed(m).remove(k));
}

/// Whether a table with these entries and this capacity takes an entry
/// under `k`: the key is there already, or there is room for one more.
pub open spec fn accepts<K, V>(m: Map<K, V>, capacity: usize, k: K) -> bool {
    m.contains_key(k) || m.dom().len() < capacity
}

/// The entries after `v` was offered under `k`.
pub open spec fn offered<K, V>(m: Map<K, V>, capacity: usize, k: K, v: V) -> Map<K, V> {
    if accepts(m, capacity, k) {
        m.insert(k, v)
    } else {
        m
    }
}

/// The items of a queue after `item` was offered.
pub open spec fn queued<T>(s: Seq<T>, capacity: usize, item: T) -> Seq<T> {
    if s.len() < capacity {
        s.push(item)
    } else {
        s
    }
}

/// A map from keys to values that holds at most `capacity` entries.
pub struct Table<K: TableKey, V: Copy> {
    entries: HashMap<u128, (K, V)>,
    capacity: usize,
}

impl<K: TableKey, V: Copy> View for Table<K, V> {
    type V = Map<K, V>;

    closed spec fn view(&self) -> Map<K, V> {
        keyed(self.entries@)
    }
}

impl<K: TableKey, V: Copy> Table<K, V> {
    #[verifier::type_invariant]
    spec fn wf(&self) -> bool {
        &&& keyed(self.entries@).dom().finite()
        &&& keyed(self.entries@).dom().len() == self.entries@.dom().len()
    }

    /// The largest number of entries that the table takes.
    pub closed spec fn spec_capacity(&self) -> usize {
        self.capacity
    }

    /// Whether the table takes an entry under `k`.
    pub open spec fn accepts(&self, k: K) -> bool {
        accepts(self@, self.spec_capacity(), k)
    }

    /// An empty table.
    pub fn new(capacity: usize) -> (t: Self)
        ensures
            t@ == Map::<K, V>::empty(),
            t.spec_capacity() == capacity,
    {
        let entries: HashMap<u128, (K, V)> = HashMap::new();
        proof {
            lemma_keyed_empty::<K, V>(entries@);
        }
        Table { entries, capacity }
    }

    #[verifier::when_used_as_spec(spec_capacity)]
    pub fn capacity(&self) -> (c: usize)
        ensures
            c == self.spec_capacity(),
    {
        self.capacity
    }

    /// The number of entries.
    pub fn len(&self) -> (n: usize)
        ensures
            n == self@.dom().len(),
            self@.dom().finite(),
    {
        proof {
            use_type_invariant(self);
        }
        self.entries.len()
    }

    /// The value under `k`, if there is one.
    pub fn get(&self, k: &K) -> (r: Option<V>)
        ensures
            r == if self@.contains_key(*k) {
                Some(self@[*k])
            } else {
                None::<V>
            },
    {
        let b = k.to_bits();
        match self.entries.get(&b) {
            Some(kv) => Some(kv.1),
            None => None,
        }
    }

    pub fn contains_key(&self, k: &K) -> (r: bool)
        ensures
            r == self@.contains_key(*k),
    {
        let b = k.to_bits();
        self.entries.contains_key(&b)
    }

    /// Whether the table would take an entry under `k`.
    pub fn accepts_key(&self, k: &K) -> (r: bool)
        ensures
            r == self.accepts(*k),
    {
        proof {
            use_type_invariant(self);
        }
        let b = k.to_bits();
        self.entries.contains_key(&b) || self.entries.len() < self.capacity
    }

    /// Puts `v` under `k` if the table accepts the key, and says whether it
    /// did. A full table refuses a new key and stays as it is.
    pub fn insert(&mut self, k: K, v: V) -> (ok: bool)
        ensures
            ok == old(self).accepts(k),
            final(self)@ == offered(old(self)@, old(self).spec_capacity(), k, v),
            final(self).spec_capacity() == old(self).spec_capacity(),
    {
        proof {
            use_type_invariant(&*self);
            lemma_keyed_insert(self.entries@, k, v);
        }
        let b = k.to_bits();
        if self.entries.contains_key(&b) || self.entries.len() < self.capacity {
            // The map is taken out while it changes, so that the table is
            // well-formed at every call.
            let mut entries: HashMap<u128, (K, V)> = HashMap::new();
            proof {
                lemma_keyed_empty::<K, V>(entries@);
            }
            core::mem::swap(&mut self.entries, &mut entries);
            entries.insert(b, (k, v));
            assert(keyed(entries@).dom() =~= old(self)@.dom().insert(k));
            assert(entries@.dom() =~= old(self).entries@.dom().insert(b));
            core::mem::swap(&mut self.entries, &mut entries);
            true
        } else {
            false
        }
    }

    /// Takes the entry under `k` out and returns its value, if there was one.
    pub fn remove(&mut self, k: &K) -> (r: Option<V>)
        ensures
            r == if old(self)@.contains_key(*k) {
                Some(old(self)@[*k])
            } else {
                None::<V>
            },
            final(self)@ == old(self)@.remove(*k),
            final(self).spec_capacity() == old(self).spec_capacity(),
    {
        proof {
            use_type_invariant(&*self);
            lemma_keyed_remove(self.entries@, *k);
            lemma_keyed_insert(self.entries@, *k, arbitrary());
        }
        let b = k.to_bits();
        let mut entries: HashMap<u128, (K, V)> = HashMap::new();
        proof {
            lemma_keyed_empty::<K, V>(entries@);
        }
        core::mem::swap(&mut self.entries, &mut entries);
        let r = entries.remove(&b);
        assert(keyed(entries@).dom() =~= old(self)@.dom().remove(*k));
        assert(entries@.dom() =~= old(self).entries@.dom().remove(b));
        core::mem::swap(&mut self.entries, &mut entries);
        match r {
            Some(kv) => Some(kv.1),
            None => None,
        }
    }
}

/// A first-in, first-out queue that holds at most `capacity` items.
pub struct Fifo<T> {
    items: VecDeque<T>,
    capacity: usize,
}

impl<T> View for Fifo<T> {
    type V = Seq<T>;

    closed spec fn view(&self) -> Seq<T> {
        self.items@
    }
}

impl<T: Copy> Fifo<T> {
    /// The item at position `i`, the oldest being at 0.
    pub fn get(&self, i: usize) -> (r: Option<T>)
        ensures
            r == if i < self@.len() {
                Some(self@[i as int])
            } else {
                None::<T>
            },
    {
        if i < self.items.len() {
            Some(self.items[i])
        } else {
            None
        }
    }
}

impl<T> Fifo<T> {
    /// The largest number of items that the queue takes.
    pub closed spec fn spec_capacity(&self) -> usize {
        self.capacity
    }

    /// An empty queue.
    pub fn new(capacity: usize) -> (q: Self)
        ensures
            q@ == Seq::<T>::empty(),
            q.spec_capacity() == capacity,
    {
        Fifo { items: VecDeque::new(), capacity }
    }

    #[verifier::when_used_as_spec(spec_capacity)]
    pub fn capacity(&self) -> (c: usize)
        ensures
            c == self.spec_capacity(),
    {
        self.capacity
    }

    pub fn len(&self) -> (n: usize)
        ensures
            n == self@.len(),
    {
        self.items.len()
    }

    /// Appends `item` unless the queue is full, and says whether it did.
    pub fn push(&mut self, item: T) -> (ok: bool)
        ensures
            ok == (old(self)@.len() < old(self).spec_capacity()),
            final(self)@ == queued(old(self)@, old(self).spec_capacity(), item),
            final(self).spec_capacity() == old(self).spec_capacity(),
    {
        if self.items.len() < self.capacity {
            self.items.push_back(item);
            true
        } else {
            false
        }
    }

    /// Takes the oldest item out, if there is one.
    pub fn pop(&mut self) -> (r: Option<T>)
        ensures
            r == if old(self)@.len() > 0 {
                Some(old(self)@[0])
            } else {
                None::<T>
            },
            final(self)@ == if old(self)@.len() > 0 {
                old(self)@.subrange(1, old(self)@.len() as int)
            } else {
                old(self)@
            },
            final(self).spec_capacity() == old(self).spec_capacity(),
    {
        self.items.pop_front()
    }
}

} // verus!
