//! Decision logic of the HTTP ingestion surface: what a POST of extension
//! data does to the bridge and what each route answers. The HTTP layer
//! itself (routing, JSON encoding and decoding) lives outside the library
//! and hands in plain values.

use crate::bounded::evict_to;
use crate::bridge::BroadcastBridge;
use crate::clock::now_millis;
use crate::extension::{ExtensionLog, ExtensionMessage};
use vstd::prelude::*;

verus! {

/// The reply to a POST of extension data.
#[derive(Debug, PartialEq, Eq, Structural)]
pub enum IngestReply {
    /// Served as HTTP 200 with body `{"status":"received","timestamp":<ms>}`.
    Received { timestamp: i64 },
    /// Served as HTTP 400 with body `{"error":"Invalid JSON"}`.
    InvalidPayload,
}

/// The rejection classes the HTTP layer distinguishes.
#[derive(Debug, PartialEq, Eq, Structural)]
pub enum Rejection {
    /// No route matched the request.
    NotFound,
    /// The request body failed to deserialize.
    InvalidBody,
    /// An unexpected internal fault.
    Internal,
}

/// The event a validated payload turns into: client-reported fields under a
/// server-assigned timestamp.
pub open spec fn event_of_message(m: ExtensionMessage, now_ms: i64) -> ExtensionLog {
    ExtensionLog {
        timestamp: now_ms,
        domain: m.data.domain,
        activity: m.data.activity,
        url: m.data.url,
        title: m.data.title,
        elements: m.data.elements,
    }
}

/// Builds the extension event for a validated payload.
pub fn build_event(message: ExtensionMessage, now_ms: i64) -> (r: ExtensionLog)
    ensures
        r == event_of_message(message, now_ms),
{
    ExtensionLog {
        timestamp: now_ms,
        domain: message.data.domain,
        activity: message.data.activity,
        url: message.data.url,
        title: message.data.title,
        elements: message.data.elements,
    }
}

/// Handles a POST of extension data whose body parsed to `payload` (`None`
/// when the body was malformed), at server time `now_ms`. A malformed body
/// changes nothing and is answered with the invalid-payload reply; a valid
/// one is published to every subscriber and answered with a receipt
/// carrying the server timestamp. A publish with no subscribers is a
/// silent no-op, not an error.
pub fn handle_extension_post_at(
    bridge: &mut BroadcastBridge,
    payload: Option<ExtensionMessage>,
    now_ms: i64,
) -> (r: IngestReply)
    requires
        old(bridge).wf(),
    ensures
        final(bridge).wf(),
        final(bridge).cap() == old(bridge).cap(),
        final(bridge).subscriber_count() == old(bridge).subscriber_count(),
        payload is None ==> r == IngestReply::InvalidPayload && *final(bridge) == *old(bridge),
        payload matches Some(m) ==> r == (IngestReply::Received { timestamp: now_ms })
            && forall|i: int|
            0 <= i < old(bridge).subscriber_count() ==> final(bridge).backlog(i) == evict_to(
                old(bridge).cap(),
                old(bridge).backlog(i).push(event_of_message(m, now_ms)),
            ),
    {
    match payload {
        None => IngestReply::InvalidPayload,
        Some(message) => {
            let event = build_event(message, now_ms);
            bridge.publish(event);
            IngestReply::Received { timestamp: now_ms }
        },
    }
}

/// Handles a POST of extension data, stamping it with the current
/// wall-clock time. The clock's value is not pinned; everything else is.
pub fn handle_extension_post(bridge: &mut BroadcastBridge, payload: Option<ExtensionMessage>) -> (r:
    IngestReply)
    requires
        old(bridge).wf(),
    ensures
        final(bridge).wf(),
        final(bridge).cap() == old(bridge).cap(),
        final(bridge).subscriber_count() == old(bridge).subscriber_count(),
        payload is None ==> r == IngestReply::InvalidPayload && *final(bridge) == *old(bridge),
        payload matches Some(m) ==> exists|t: i64|
            r == (IngestReply::Received { timestamp: t }) && forall|i: int|
                0 <= i < old(bridge).subscriber_count() ==> final(bridge).backlog(i) == evict_to(
                    old(bridge).cap(),
                    old(bridge).backlog(i).push(event_of_message(m, t)),
                ),
    {
    let now_ms = now_millis();
    let r = handle_extension_post_at(bridge, payload, now_ms);
    proof {
        if payload is Some {
            let m = payload->0;
            assert(r == (IngestReply::Received { timestamp: now_ms }) && forall|i: int|
                0 <= i < old(bridge).subscriber_count() ==> final(bridge).backlog(i) == evict_to(
                    old(bridge).cap(),
                    old(bridge).backlog(i).push(event_of_message(m, now_ms)),
                ));
        }
    }
    r
}

/// The status code and error message served for a rejection.
pub fn rejection_reply(rejection: &Rejection) -> (r: (u16, String))
    ensures
        *rejection is NotFound ==> r.0 == 404 && r.1@ == "Not Found"@,
        *rejection is InvalidBody ==> r.0 == 400 && r.1@ == "Invalid JSON"@,
        *rejection is Internal ==> r.0 == 500 && r.1@ == "Internal Server Error"@,
    {
    match rejection {
        Rejection::NotFound => (404, "Not Found".to_owned()),
        Rejection::InvalidBody => (400, "Invalid JSON".to_owned()),
        Rejection::Internal => (500, "Internal Server Error".to_owned()),
    }
}

/// The body fields of `GET /health`: always the ok status and the service
/// name.
pub fn health_reply() -> (r: (String, String))
    ensures
        r.0@ == "ok"@,
        r.1@ == "cortex-extension-bridge"@,
    {
    ("ok".to_owned(), "cortex-extension-bridge".to_owned())
}

/// The body fields of `GET /status`: the connected-extension count and the
/// running marker.
pub fn status_reply(connected_extensions: u32) -> (r: (u32, String))
    ensures
        r.0 == connected_extensions,
        r.1@ == "running"@,
    {
    (connected_extensions, "running".to_owned())
}

} // verus!
