//! A bounded position-history FIFO.
//!
//! A `Queue` is a first-in-first-out sequence with a declared capacity. The
//! queue itself never evicts: the owner pops the front whenever a push would
//! leave more than `capacity - 1` live entries, keeping an approximately
//! constant-size trailing window. Indexing with `get_at(i)` reads the i-th
//! oldest surviving entry, so a fixed index is a fixed staleness ("lag").
//!
//! One authoritative length field (`items_in_q`, always equal to the backing
//! vector's length) tracks the live entries.
use vstd::prelude::*;

verus! {

pub struct Queue<T> {
    queue: Vec<T>,
    items_in_q: usize,
    capacity: usize,
}

impl<T> Queue<T> {
    /// The live entries, oldest first.
    pub closed spec fn view(self) -> Seq<T> {
        self.queue@
    }

    /// The declared capacity the owner keeps the queue under.
    pub closed spec fn cap(self) -> nat {
        self.capacity as nat
    }

    /// The one length field agrees with the backing storage.
    pub closed spec fn wf(self) -> bool {
        self.items_in_q == self.queue@.len()
    }

    /// An empty queue with declared capacity `n`.
    pub fn new(n: usize) -> (q: Queue<T>)
        ensures
            q.wf(),
            q@ == Seq::<T>::empty(),
            q.cap() == n,
    {
        Queue { queue: Vec::with_capacity(n), items_in_q: 0, capacity: n }
    }

    /// Appends `x` at the back. Pushing never evicts; keeping the length
    /// under the capacity is the owner's obligation.
    pub fn push(&mut self, x: T)
        requires
            old(self).wf(),
            old(self)@.len() < usize::MAX,
        ensures
            final(self).wf(),
            final(self)@ == old(self)@.push(x),
            final(self).cap() == old(self).cap(),
    {
        self.items_in_q = self.items_in_q + 1;
        self.queue.push(x);
    }

    /// Removes and returns the oldest entry. Popping an empty queue is the
    /// underflow the owner must never cause.
    pub fn pop(&mut self) -> (r: T)
        requires
            old(self).wf(),
            old(self)@.len() > 0,
        ensures
            final(self).wf(),
            r == old(self)@[0],
            final(self)@ == old(self)@.skip(1),
            final(self).cap() == old(self).cap(),
    {
        self.items_in_q = self.items_in_q - 1;
        let r = self.queue.remove(0);
        proof {
            assert(self.queue@ =~= old(self)@.skip(1));
        }
        r
    }

    /// How many entries are live.
    pub fn get_items_in_q(&self) -> (n: usize)
        requires
            self.wf(),
        ensures
            n == self@.len(),
    {
        self.items_in_q
    }

    /// Length of the backing storage; with one authoritative length this is
    /// the number of live entries.
    pub fn get_length(&self) -> (n: usize)
        ensures
            n == self@.len(),
    {
        self.queue.len()
    }

    /// The entry at offset `i` from the front: the i-th oldest surviving
    /// value when `i` is under the live length, absent otherwise.
    pub fn get_at(&self, i: usize) -> (r: Option<&T>)
        requires
            self.wf(),
        ensures
            i < self@.len() ==> r == Some(&self@[i as int]),
            i >= self@.len() ==> r is None,
    {
        if i < self.items_in_q {
            Some(&self.queue[i])
        } else {
            None
        }
    }

    /// The oldest entry without removing it.
    pub fn peek(&self) -> (r: Option<&T>)
        ensures
            self@.len() > 0 ==> r == Some(&self@[0]),
            self@.len() == 0 ==> r is None,
    {
        if self.queue.len() > 0 {
            Some(&self.queue[0])
        } else {
            None
        }
    }

    /// Whether no entry is live.
    pub fn empty(&self) -> (r: bool)
        ensures
            r <==> self@.len() == 0,
    {
        self.queue.is_empty()
    }
}

impl<T: Copy> Queue<T> {
    /// Sets every one of the declared capacity's slots to `value`, so the
    /// queue starts full of a known placeholder.
    pub fn fill_with(&mut self, value: T)
        ensures
            final(self).wf(),
            final(self)@ == Seq::new(old(self).cap(), |i: int| value),
            final(self).cap() == old(self).cap(),
    {
        let mut v: Vec<T> = Vec::with_capacity(self.capacity);
        let mut i: usize = 0;
        while i < self.capacity
            invariant
                i <= self.capacity,
                v@.len() == i,
                forall|j: int| 0 <= j < i ==> v@[j] == value,
            decreases self.capacity - i,
        {
            v.push(value);
            i = i + 1;
        }
        self.queue = v;
        self.items_in_q = self.capacity;
        proof {
            assert(self.queue@ =~= Seq::new(self.capacity as nat, |i: int| value));
        }
    }
}

} // verus!
