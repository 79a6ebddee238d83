//! A ring of a fixed number of slots with a head and a tail.
//!
//! The ring does not count its items: a push into a full ring overwrites the
//! oldest item, and a pop from an empty ring hands out a stale slot. Between
//! the two, it is a first-in, first-out queue.

use vstd::prelude::*;

verus! {

/// Number of slots of a ring.
pub const CAPACITY: usize = 10000;

/// The ring.
pub struct Queue<T: Sized + Copy + Clone + Default> {
    head: usize,
    tail: usize,
    data: Vec<T>,
}

impl<T: Sized + Copy + Clone + Default> Queue<T> {
    #[verifier::type_invariant]
    spec fn wf(&self) -> bool {
        &&& self.data@.len() == CAPACITY
        &&& self.head < CAPACITY
        &&& self.tail < CAPACITY
    }

    /// The slots.
    pub closed spec fn spec_data(&self) -> Seq<T> {
        self.data@
    }

    /// The slot that the next pop reads.
    pub closed spec fn spec_head(&self) -> int {
        self.head as int
    }

    /// The slot that the next push writes.
    pub closed spec fn spec_tail(&self) -> int {
        self.tail as int
    }

    /// The number of items from the head up to the tail.
    pub open spec fn spec_len(&self) -> int {
        (self.spec_tail() - self.spec_head() + CAPACITY) % (CAPACITY as int)
    }

    /// The items from the head up to the tail, oldest first.
    pub open spec fn spec_items(&self) -> Seq<T> {
        Seq::new(
            self.spec_len() as nat,
            |i: int| self.spec_data()[(self.spec_head() + i) % (CAPACITY as int)],
        )
    }

    pub open spec fn spec_increase(i: int) -> int {
        (i + 1) % (CAPACITY as int)
    }

    /// A ring with head and tail at the first slot, hence without items.
    pub fn new() -> (q: Self)
        ensures
            q.spec_head() == 0,
            q.spec_tail() == 0,
            q.spec_data().len() == CAPACITY,
            q.spec_items() == Seq::<T>::empty(),
    {
        let mut data: Vec<T> = Vec::new();
        while data.len() < CAPACITY
            invariant
                data@.len() <= CAPACITY,
            decreases CAPACITY - data@.len(),
        {
            data.push(Default::default());
        }
        let q = Queue { head: 0, tail: 0, data };
        assert(q.spec_items() =~= Seq::<T>::empty());
        q
    }

    fn increase(i: usize) -> (r: usize)
        requires
            i < CAPACITY,
        ensures
            r == Self::spec_increase(i as int),
            r < CAPACITY,
    {
        (i + 1) % CAPACITY
    }

    /// Writes `item` at the tail and moves the tail on. While fewer than
    /// `CAPACITY - 1` items are in the ring, this appends the item.
    pub fn push(&mut self, item: T)
        ensures
            final(self).spec_data() == old(self).spec_data().update(old(self).spec_tail(), item),
            final(self).spec_tail() == Self::spec_increase(old(self).spec_tail()),
            final(self).spec_head() == old(self).spec_head(),
            old(self).spec_len() < CAPACITY - 1 ==> final(self).spec_items() == old(self).spec_items().push(item),
    {
        proof {
            use_type_invariant(&*self);
        }
        let next = Self::increase(self.tail);
        self.data[self.tail] = item;
        self.tail = next;
        proof {
            if old(self).spec_len() < CAPACITY - 1 {
                assert(self.spec_len() == old(self).spec_len() + 1);
                assert(self.spec_items() =~= old(self).spec_items().push(item));
            }
        }
    }

    /// Reads the slot at the head and moves the head on. While the ring has
    /// items, this takes the oldest one out.
    pub fn pop(&mut self) -> (item: T)
        ensures
            item == old(self).spec_data()[old(self).spec_head()],
            final(self).spec_data() == old(self).spec_data(),
            final(self).spec_head() == Self::spec_increase(old(self).spec_head()),
            final(self).spec_tail() == old(self).spec_tail(),
            old(self).spec_len() > 0 ==> item == old(self).spec_items()[0] && final(self).spec_items() == old(self).spec_items().subrange(1, old(self).spec_len()),
    {
        proof {
            use_type_invariant(&*self);
        }
        let item = self.data[self.head];
        self.head = Self::increase(self.head);
        proof {
            if old(self).spec_len() > 0 {
                assert(self.spec_len() == old(self).spec_len() - 1);
                assert(self.spec_items() =~= old(self).spec_items().subrange(
                    1,
                    old(self).spec_len(),
                ));
            }
        }
        item
    }
}

/// A ring as the control plane hands it to the shared maps.
pub struct UQueue<T: Clone + Copy + Sized + Default>(pub Queue<T>);

impl<T: Clone + Copy + Sized + Default> UQueue<T> {
    pub fn new() -> (q: Self)
        ensures
            q.0.spec_head() == 0,
            q.0.spec_tail() == 0,
            q.0.spec_items() == Seq::<T>::empty(),
    {
        UQueue(Queue::new())
    }

    pub fn push(&mut self, item: T)
        ensures
            final(self).0.spec_data() == old(self).0.spec_data().update(
                old(self).0.spec_tail(),
                item,
            ),
            final(self).0.spec_tail() == Queue::<T>::spec_increase(old(self).0.spec_tail()),
            final(self).0.spec_head() == old(self).0.spec_head(),
            old(self).0.spec_len() < CAPACITY - 1 ==> final(self).0.spec_items() == old(self).0.spec_items().push(item),
    {
        self.0.push(item);
    }

    pub fn pop(&mut self) -> (item: T)
        ensures
            item == old(self).0.spec_data()[old(self).0.spec_head()],
            final(self).0.spec_data() == old(self).0.spec_data(),
            final(self).0.spec_head() == Queue::<T>::spec_increase(old(self).0.spec_head()),
            final(self).0.spec_tail() == old(self).0.spec_tail(),
            old(self).0.spec_len() > 0 ==> item == old(self).0.spec_items()[0] && final(self).0.spec_items() == old(self).0.spec_items().subrange(1, old(self).0.spec_len()),
    {
        self.0.pop()
    }
}

} // verus!
