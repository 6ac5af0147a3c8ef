//! The broadcast bridge: one producer publishing extension events to any
//! number of subscribers, each holding an independent bounded backlog that
//! drops its oldest undelivered event rather than blocking the producer.

use crate::bounded::{evict_to, BoundedStore};
use crate::extension::ExtensionLog;
use vstd::prelude::*;

verus! {

/// Single-producer, multi-consumer fan-out with per-subscriber bounded
/// backlogs. Publishing never blocks: a full backlog drops its oldest
/// entry. A subscriber sees only events published after it subscribed.
pub struct BroadcastBridge {
    queues: Vec<BoundedStore<ExtensionLog>>,
    capacity: usize,
}

impl BroadcastBridge {
    /// The backlog capacity every subscriber is given.
    pub closed spec fn cap(&self) -> int {
        self.capacity as int
    }

    /// How many subscribers are attached.
    pub closed spec fn subscriber_count(&self) -> int {
        self.queues@.len() as int
    }

    /// The undelivered events of subscriber `h`, oldest first.
    pub closed spec fn backlog(&self, h: int) -> Seq<ExtensionLog> {
        self.queues@[h]@
    }

    pub closed spec fn wf(&self) -> bool {
        &&& 1 <= self.capacity
        &&& forall|i: int|
            0 <= i < self.queues@.len() ==> (#[trigger] self.queues@[i]).wf()
                && self.queues@[i].cap() == self.capacity
    }

    pub fn new(capacity: usize) -> (r: Self)
        requires
            1 <= capacity,
        ensures
            r.wf(),
            r.cap() == capacity,
            r.subscriber_count() == 0,
    {
        BroadcastBridge { queues: Vec::new(), capacity }
    }

    pub fn capacity(&self) -> (r: usize)
        ensures
            r == self.cap(),
    {
        self.capacity
    }

    pub fn subscriber_len(&self) -> (r: usize)
        ensures
            r == self.subscriber_count(),
    {
        self.queues.len()
    }

    /// Attaches a new subscriber and returns its handle. The new backlog is
    /// empty: nothing published earlier is delivered to a late joiner.
    pub fn subscribe(&mut self) -> (h: usize)
        requires
            old(self).wf(),
        ensures
            final(self).wf(),
            final(self).cap() == old(self).cap(),
            h == old(self).subscriber_count(),
            final(self).subscriber_count() == old(self).subscriber_count() + 1,
            final(self).backlog(h as int) == Seq::<ExtensionLog>::empty(),
            forall|i: int|
                0 <= i < old(self).subscriber_count() ==> final(self).backlog(i) == old(
                    self,
                ).backlog(i),
    {
        let h = self.queues.len();
        self.queues.push(BoundedStore::new(self.capacity));
        h
    }

    /// Delivers `event` to every attached subscriber, in publish order per
    /// subscriber; a full backlog drops its oldest undelivered event. With
    /// no subscribers this is a silent no-op.
    pub fn publish(&mut self, event: ExtensionLog)
        requires
            old(self).wf(),
        ensures
            final(self).wf(),
            final(self).cap() == old(self).cap(),
            final(self).subscriber_count() == old(self).subscriber_count(),
            forall|i: int|
                0 <= i < old(self).subscriber_count() ==> final(self).backlog(i) == evict_to(
                    old(self).cap(),
                    old(self).backlog(i).push(event),
                ),
    {
        let n = self.queues.len();
        let mut i: usize = 0;
        while i < n
            invariant
                old(self).wf(),
                n == self.queues@.len(),
                n == old(self).queues@.len(),
                i <= n,
                self.capacity == old(self).capacity,
                forall|k: int| i <= k < n ==> self.queues@[k] == old(self).queues@[k],
                forall|k: int|
                    0 <= k < i ==> (#[trigger] self.queues@[k]).wf() && self.queues@[k].cap()
                        == self.capacity && self.queues@[k]@ == evict_to(
                        old(self).cap(),
                        old(self).queues@[k]@.push(event),
                    ),
            decreases n - i,
        {
            let copy = event.clone();
            self.queues[i].push(copy);
            i += 1;
        }
    }

    /// Removes and returns subscriber `h`'s undelivered events, oldest
    /// first, leaving its backlog empty; other subscribers are untouched.
    pub fn drain(&mut self, h: usize) -> (r: Vec<ExtensionLog>)
        requires
            old(self).wf(),
            h < old(self).subscriber_count(),
        ensures
            final(self).wf(),
            final(self).cap() == old(self).cap(),
            final(self).subscriber_count() == old(self).subscriber_count(),
            r@ == old(self).backlog(h as int),
            final(self).backlog(h as int) == Seq::<ExtensionLog>::empty(),
            forall|i: int|
                0 <= i < old(self).subscriber_count() && i != h ==> final(self).backlog(i) == old(
                    self,
                ).backlog(i),
    {
        let n = self.queues[h].len();
        let mut out: Vec<ExtensionLog> = Vec::new();
        let mut i: usize = 0;
        while i < n
            invariant
                h < self.queues@.len(),
                *self == *old(self),
                n == self.queues@[h as int]@.len(),
                i <= n,
                out@ == self.queues@[h as int]@.subrange(0, i as int),
            decreases n - i,
        {
            out.push(self.queues[h].get(i).clone());
            i += 1;
            proof {
                let b = self.queues@[h as int]@;
                assert(b.subrange(0, i as int) =~= b.subrange(0, i as int - 1).push(
                    b[i as int - 1],
                ));
            }
        }
        proof {
            assert(self.queues@[h as int]@.subrange(0, n as int) =~= self.queues@[h as int]@);
        }
        self.queues[h].clear();
        out
    }
}

} // verus!
