use crate::datatypes::Transaction;
use std::collections::VecDeque;
use vstd::prelude::*;

verus! {

/// The last `n` elements of `s` (all of `s` when it is shorter).
pub open spec fn keep_last<T>(s: Seq<T>, n: nat) -> Seq<T> {
    if s.len() <= n {
        s
    } else {
        s.subrange(s.len() - n, s.len() as int)
    }
}

/// The contents of a buffer of capacity `cap` that held `s` after `items`
/// are pushed into it one at a time, first to last.
pub open spec fn after_pushes<T>(s: Seq<T>, items: Seq<T>, cap: nat) -> Seq<T>
    decreases items.len(),
{
    if items.len() == 0 {
        s
    } else {
        keep_last(after_pushes(s, items.drop_last(), cap).push(items.last()), cap)
    }
}

/// The first transaction of `s` at or after position `i` whose id is `id`.
pub open spec fn find_from(s: Seq<Transaction>, id: u32, i: int) -> Option<Transaction>
    decreases s.len() - i,
{
    if i < 0 || i >= s.len() {
        None
    } else if s[i].id == id {
        Some(s[i])
    } else {
        find_from(s, id, i + 1)
    }
}

/// The oldest transaction of `s` whose id is `id`, if any.
pub open spec fn find_by_id(s: Seq<Transaction>, id: u32) -> Option<Transaction> {
    find_from(s, id, 0)
}

/// A first-in first-out buffer of fixed capacity: once full, each push
/// drops the oldest item.
pub struct RingBuffer<T> {
    inside: VecDeque<T>,
    capacity: usize,
}

impl<T> View for RingBuffer<T> {
    type V = Seq<T>;

    /// The items held, oldest first.
    closed spec fn view(&self) -> Seq<T> {
        self.inside@
    }
}

impl<T> RingBuffer<T> {
    /// Well-formedness: never more items than the capacity.
    pub closed spec fn wf(&self) -> bool {
        self.inside@.len() <= self.capacity
    }

    /// The number of items the buffer keeps.
    pub closed spec fn capacity(&self) -> nat {
        self.capacity as nat
    }

    /// Create an empty `RingBuffer` that keeps at most `capacity` items.
    pub fn with_capacity(capacity: usize) -> (r: Self)
        ensures
            r.wf(),
            r@ == Seq::<T>::empty(),
            r.capacity() == capacity,
    {
        RingBuffer { inside: VecDeque::with_capacity(capacity), capacity }
    }

    /// Push a new item into the buffer, removing the oldest item if the
    /// buffer is full. A buffer of capacity zero keeps nothing.
    pub fn push(&mut self, item: T)
        requires
            old(self).wf(),
        ensures
            final(self).wf(),
            final(self).capacity() == old(self).capacity(),
            final(self)@ == keep_last(old(self)@.push(item), old(self).capacity()),
    {
        if self.capacity == 0 {
            return;
        }
        if self.inside.len() == self.capacity {
            self.inside.pop_front();
        }
        self.inside.push_back(item);
        proof {
            let s = old(self)@.push(item);
            if s.len() > self.capacity {
                assert(self.inside@ =~= s.subrange(s.len() - self.capacity, s.len() as int));
            }
        }
    }

    /// Remove and return the oldest item, or `None` when the buffer is empty.
    pub fn pop(&mut self) -> (r: Option<T>)
        requires
            old(self).wf(),
        ensures
            final(self).wf(),
            final(self).capacity() == old(self).capacity(),
            old(self)@.len() == 0 ==> r is None && final(self)@ == old(self)@,
            old(self)@.len() > 0 ==> r == Some(old(self)@[0]) && final(self)@ == old(self)@.drop_first(),
    {
        self.inside.pop_front()
    }

    /// Whether the buffer holds no item.
    pub fn is_empty(&self) -> (r: bool)
        ensures
            r == (self@.len() == 0),
    {
        self.inside.len() == 0
    }
}

impl RingBuffer<Transaction> {
    /// Get a transaction by its id: the oldest one held with that id.
    ///
    /// Lookups scan the buffer; disputes are rare next to deposits and
    /// withdrawals, so the buffer favours pushing over searching.
    pub fn get_by_tx(&self, id: u32) -> (r: Option<&Transaction>)
        ensures
            match r {
                Some(t) => find_by_id(self@, id) == Some(*t),
                None => find_by_id(self@, id) is None,
            },
    {
        let mut i: usize = 0;
        while i < self.inside.len()
            invariant
                i <= self.inside@.len(),
                find_from(self.inside@, id, 0) == find_from(self.inside@, id, i as int),
            decreases self.inside@.len() - i,
        {
            if self.inside[i].id == id {
                return Some(&self.inside[i]);
            }
            i = i + 1;
        }
        None
    }
}

} // verus!
