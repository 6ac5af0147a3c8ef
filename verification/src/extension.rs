//! Extension events and the host's bounded mirror of them: the payload
//! shapes the browser extension posts, the event record they become, and a
//! FIFO store that retains only the most recent events.

use crate::bounded::{evict_to, BoundedStore};
use vstd::prelude::*;

verus! {

/// How many extension events the mirror retains before evicting the oldest.
pub const EXTENSION_LOG_CAPACITY: usize = 100;

/// An event younger than this at the time of a status query counts as
/// recent activity (milliseconds).
pub const RECENT_ACTIVITY_WINDOW_MS: i64 = 60000;

/// A timestamped entry describing activity reported by the external browser
/// extension. `elements` carries the optional structured payload in its
/// JSON text form.
#[derive(Debug)]
pub struct ExtensionLog {
    /// Milliseconds since the Unix epoch, assigned by the server.
    pub timestamp: i64,
    pub domain: String,
    pub activity: String,
    pub url: String,
    pub title: String,
    pub elements: Option<String>,
}

/// The body shape of an ingestion POST.
#[derive(Debug)]
pub struct ExtensionMessage {
    pub event_type: String,
    pub data: ExtensionMessageData,
}

/// The inner `data` object of an ingestion POST.
#[derive(Debug)]
pub struct ExtensionMessageData {
    pub domain: String,
    pub activity: String,
    pub url: String,
    pub title: String,
    pub elements: Option<String>,
}

impl Clone for ExtensionLog {
    fn clone(&self) -> (r: Self)
        ensures
            r == *self,
    {
        ExtensionLog {
            timestamp: self.timestamp,
            domain: self.domain.clone(),
            activity: self.activity.clone(),
            url: self.url.clone(),
            title: self.title.clone(),
            elements: (match &self.elements {
                Some(s) => Some(s.clone()),
                None => None,
            }),
        }
    }
}

impl Clone for ExtensionMessageData {
    fn clone(&self) -> (r: Self)
        ensures
            r == *self,
    {
        ExtensionMessageData {
            domain: self.domain.clone(),
            activity: self.activity.clone(),
            url: self.url.clone(),
            title: self.title.clone(),
            elements: (match &self.elements {
                Some(s) => Some(s.clone()),
                None => None,
            }),
        }
    }
}

impl Clone for ExtensionMessage {
    fn clone(&self) -> (r: Self)
        ensures
            r == *self,
    {
        ExtensionMessage { event_type: self.event_type.clone(), data: self.data.clone() }
    }
}

/// The event was observed less than `RECENT_ACTIVITY_WINDOW_MS` before
/// `now_ms`.
pub open spec fn recent_at(e: ExtensionLog, now_ms: i64) -> bool {
    now_ms - e.timestamp < RECENT_ACTIVITY_WINDOW_MS
}

/// The host's mirror of extension events: a bounded FIFO holding at most
/// the latest `EXTENSION_LOG_CAPACITY` events.
pub struct ExtensionLogStore {
    store: BoundedStore<ExtensionLog>,
}

impl View for ExtensionLogStore {
    type V = Seq<ExtensionLog>;

    closed spec fn view(&self) -> Seq<ExtensionLog> {
        self.store@
    }
}

impl ExtensionLogStore {
    pub closed spec fn wf(&self) -> bool {
        &&& self.store.wf()
        &&& self.store.cap() == EXTENSION_LOG_CAPACITY
    }

    pub fn new() -> (r: Self)
        ensures
            r.wf(),
            r@ == Seq::<ExtensionLog>::empty(),
    {
        ExtensionLogStore { store: BoundedStore::new(EXTENSION_LOG_CAPACITY) }
    }

    /// Appends a received event; once the mirror holds
    /// `EXTENSION_LOG_CAPACITY` events the oldest is evicted.
    pub fn mirror_extension_event(&mut self, event: ExtensionLog)
        requires
            old(self).wf(),
        ensures
            final(self).wf(),
            final(self)@ == evict_to(EXTENSION_LOG_CAPACITY as int, old(self)@.push(event)),
    {
        self.store.push(event);
    }

    pub fn len(&self) -> (r: usize)
        ensures
            r == self@.len(),
    {
        self.store.len()
    }

    /// A copy of the retained events, oldest first.
    pub fn get_extension_logs(&self) -> (r: Vec<ExtensionLog>)
        ensures
            r@ == self@,
    {
        let n = self.store.len();
        let mut out: Vec<ExtensionLog> = Vec::new();
        let mut i: usize = 0;
        while i < n
            invariant
                n == self@.len(),
                i <= n,
                out@ == self@.subrange(0, i as int),
            decreases n - i,
        {
            out.push(self.store.get(i).clone());
            i += 1;
            proof {
                assert(self@.subrange(0, i as int) =~= self@.subrange(0, i as int - 1).push(
                    self@[i as int - 1],
                ));
            }
        }
        proof {
            assert(self@.subrange(0, n as int) =~= self@);
        }
        out
    }

    /// Discards every retained event.
    pub fn clear_extension_logs(&mut self)
        requires
            old(self).wf(),
        ensures
            final(self).wf(),
            final(self)@ == Seq::<ExtensionLog>::empty(),
    {
        self.store.clear();
    }

    /// Whether any retained event was observed within the recent-activity
    /// window before `now_ms`.
    pub fn has_recent_activity(&self, now_ms: i64) -> (r: bool)
        ensures
            r == exists|i: int| 0 <= i < self@.len() && recent_at(self@[i], now_ms),
    {
        let n = self.store.len();
        let mut i: usize = 0;
        while i < n
            invariant
                n == self@.len(),
                i <= n,
                forall|k: int| 0 <= k < i ==> !recent_at(self@[k], now_ms),
            decreases n - i,
        {
            let e = self.store.get(i);
            if (now_ms as i128) - (e.timestamp as i128) < (RECENT_ACTIVITY_WINDOW_MS as i128) {
                proof {
                    assert(recent_at(self@[i as int], now_ms));
                }
                return true;
            }
            i += 1;
        }
        false
    }
}

} // verus!
