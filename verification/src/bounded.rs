//! A fixed-capacity FIFO container: pushes append at the back, and once the
//! element count would exceed the capacity the oldest (front) entries are
//! evicted until the count is back at the capacity.

use vstd::pervasive::cloned;
use vstd::prelude::*;

verus! {

/// What a sequence holds after trimming to at most `cap` elements by
/// dropping the oldest (front) entries.
pub open spec fn evict_to<T>(cap: int, s: Seq<T>) -> Seq<T> {
    if s.len() <= cap {
        s
    } else {
        s.skip(s.len() - cap)
    }
}

/// The contents after pushing `items`, one at a time and in order, onto a
/// store of capacity `cap` that currently holds `s`.
pub open spec fn push_all<T>(cap: int, s: Seq<T>, items: Seq<T>) -> Seq<T>
    decreases items.len(),
{
    if items.len() == 0 {
        s
    } else {
        push_all(cap, evict_to(cap, s.push(items[0])), items.drop_first())
    }
}

/// A container enforcing a maximum element count with oldest-first eviction.
pub struct BoundedStore<T> {
    items: Vec<T>,
    capacity: usize,
}

impl<T> View for BoundedStore<T> {
    type V = Seq<T>;

    closed spec fn view(&self) -> Seq<T> {
        self.items@
    }
}

impl<T> BoundedStore<T> {
    /// The fixed capacity this store was constructed with.
    pub closed spec fn cap(&self) -> int {
        self.capacity as int
    }

    /// A store is well formed when it never holds more than its capacity.
    pub closed spec fn wf(&self) -> bool {
        &&& 1 <= self.capacity
        &&& self@.len() <= self.capacity
    }

    pub fn new(capacity: usize) -> (r: Self)
        requires
            1 <= capacity,
        ensures
            r.wf(),
            r@ == Seq::<T>::empty(),
            r.cap() == capacity,
    {
        BoundedStore { items: Vec::new(), capacity }
    }

    pub fn len(&self) -> (r: usize)
        ensures
            r == self@.len(),
    {
        self.items.len()
    }

    /// Appends `item`; if the count would exceed the capacity, evicts the
    /// oldest entry so the count stays at the capacity.
    pub fn push(&mut self, item: T)
        requires
            old(self).wf(),
        ensures
            final(self).wf(),
            final(self).cap() == old(self).cap(),
            final(self)@ == evict_to(old(self).cap(), old(self)@.push(item)),
    {
        self.items.push(item);
        if self.items.len() > self.capacity {
            self.items.remove(0);
            proof {
                let full = old(self)@.push(item);
                assert(self@ =~= evict_to(old(self).cap(), full));
            }
        }
    }

    /// Empties the store.
    pub fn clear(&mut self)
        requires
            old(self).wf(),
        ensures
            final(self).wf(),
            final(self).cap() == old(self).cap(),
            final(self)@ == Seq::<T>::empty(),
    {
        self.items.clear();
    }

    /// A well-formed store never holds more than its capacity.
    pub proof fn lemma_wf_len(&self)
        requires
            self.wf(),
        ensures
            self@.len() <= self.cap(),
            1 <= self.cap(),
    {
    }

    /// The entry at position `i`, oldest first.
    pub fn get(&self, i: usize) -> (r: &T)
        requires
            i < self@.len(),
        ensures
            *r == self@[i as int],
    {
        &self.items[i]
    }

    /// A copy of the current contents in insertion order.
    pub fn snapshot(&self) -> (r: Vec<T>) where T: Clone
        ensures
            r@.len() == self@.len(),
            forall|i: int| 0 <= i < self@.len() ==> cloned::<T>(self@[i], #[trigger] r@[i]),
    {
        self.items.clone()
    }
}

/// Pushing a run of items onto a well-formed store leaves exactly the last
/// `cap` entries of (previous contents followed by the pushed items), in
/// push order.
pub proof fn lemma_push_run<T>(cap: int, s: Seq<T>, items: Seq<T>)
    requires
        1 <= cap,
        s.len() <= cap,
    ensures
        push_all(cap, s, items) == evict_to(cap, s + items),
    decreases items.len(),
{
    if items.len() == 0 {
        assert(s + items =~= s);
    } else {
        let x = items[0];
        let rest = items.drop_first();
        let stepped = evict_to(cap, s.push(x));
        assert(stepped.len() <= cap);
        lemma_push_run(cap, stepped, rest);
        assert(stepped + rest =~= evict_to(cap, (s + items).take(s.len() as int + 1)) + rest);
        assert(evict_to(cap, stepped + rest) =~= evict_to(cap, s + items));
    }
}

/// More pushes than the capacity leave exactly the last `cap` pushed items:
/// starting from empty, after `items.len() > cap` pushes the store holds
/// `items.skip(items.len() - cap)` and is full.
pub proof fn lemma_overfill<T>(cap: int, items: Seq<T>)
    requires
        1 <= cap,
        cap < items.len(),
    ensures
        push_all(cap, Seq::<T>::empty(), items) == items.skip(items.len() - cap),
        push_all(cap, Seq::<T>::empty(), items).len() == cap,
{
    lemma_push_run(cap, Seq::<T>::empty(), items);
    assert(Seq::<T>::empty() + items =~= items);
}

} // verus!
