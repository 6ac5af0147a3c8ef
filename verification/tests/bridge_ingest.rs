use extension_bridge::bridge::BroadcastBridge;
use extension_bridge::extension::{
    ExtensionLog, ExtensionLogStore, ExtensionMessage, ExtensionMessageData,
    EXTENSION_LOG_CAPACITY,
};
use extension_bridge::ingest::{
    handle_extension_post, handle_extension_post_at, health_reply, rejection_reply, status_reply,
    IngestReply, Rejection,
};

fn event(ts: i64, domain: &str) -> ExtensionLog {
    ExtensionLog {
        timestamp: ts,
        domain: domain.to_string(),
        activity: "scroll".to_string(),
        url: format!("http://{}", domain),
        title: "T".to_string(),
        elements: None,
    }
}

fn message_from_json(body: &str) -> Option<ExtensionMessage> {
    let v: serde_json::Value = serde_json::from_str(body).ok()?;
    let data = v.get("data")?;
    Some(ExtensionMessage {
        event_type: v.get("event_type")?.as_str()?.to_string(),
        data: ExtensionMessageData {
            domain: data.get("domain")?.as_str()?.to_string(),
            activity: data.get("activity")?.as_str()?.to_string(),
            url: data.get("url")?.as_str()?.to_string(),
            title: data.get("title")?.as_str()?.to_string(),
            elements: match data.get("elements") {
                None => None,
                Some(e) if e.is_null() => None,
                Some(e) => Some(e.to_string()),
            },
        },
    })
}

#[test]
fn late_subscriber_sees_nothing_published_before() {
    let mut bridge = BroadcastBridge::new(10);
    bridge.publish(event(1, "a.com"));
    let h = bridge.subscribe();
    assert_eq!(h, 0);
    assert!(bridge.drain(h).is_empty());
}

#[test]
fn publish_reaches_every_subscriber_in_order() {
    let mut bridge = BroadcastBridge::new(10);
    let h1 = bridge.subscribe();
    let h2 = bridge.subscribe();
    bridge.publish(event(1, "a.com"));
    bridge.publish(event(2, "b.com"));
    for h in [h1, h2] {
        let got = bridge.drain(h);
        assert_eq!(got.len(), 2);
        assert_eq!(got[0].timestamp, 1);
        assert_eq!(got[1].timestamp, 2);
    }
    assert!(bridge.drain(h1).is_empty());
}

#[test]
fn overfull_backlog_keeps_last_capacity_events() {
    let mut bridge = BroadcastBridge::new(EXTENSION_LOG_CAPACITY);
    assert_eq!(bridge.capacity(), EXTENSION_LOG_CAPACITY);
    let h = bridge.subscribe();
    for i in 0..150i64 {
        bridge.publish(event(i, "a.com"));
    }
    let got = bridge.drain(h);
    assert_eq!(got.len(), 100);
    assert_eq!(got[0].timestamp, 50);
    assert_eq!(got[99].timestamp, 149);
}

#[test]
fn publish_without_subscribers_is_a_no_op() {
    let mut bridge = BroadcastBridge::new(10);
    bridge.publish(event(1, "a.com"));
    assert_eq!(bridge.subscriber_len(), 0);
}

#[test]
fn valid_post_publishes_one_matching_event() {
    let body = r#"{"event_type":"page","data":{"domain":"a.com","activity":"scroll","url":"http://a.com","title":"A","elements":null}}"#;
    let msg = message_from_json(body).expect("body parses");
    let mut bridge = BroadcastBridge::new(EXTENSION_LOG_CAPACITY);
    let h = bridge.subscribe();
    let reply = handle_extension_post_at(&mut bridge, Some(msg), 777);
    assert_eq!(reply, IngestReply::Received { timestamp: 777 });
    let got = bridge.drain(h);
    assert_eq!(got.len(), 1);
    assert_eq!(got[0].timestamp, 777);
    assert_eq!(got[0].domain, "a.com");
    assert_eq!(got[0].activity, "scroll");
    assert_eq!(got[0].url, "http://a.com");
    assert_eq!(got[0].title, "A");
    assert_eq!(got[0].elements, None);
}

#[test]
fn post_with_wall_clock_reports_a_timestamp() {
    let body = r#"{"event_type":"page","data":{"domain":"a.com","activity":"scroll","url":"http://a.com","title":"A"}}"#;
    let msg = message_from_json(body).expect("body parses");
    let mut bridge = BroadcastBridge::new(EXTENSION_LOG_CAPACITY);
    let h = bridge.subscribe();
    match handle_extension_post(&mut bridge, Some(msg)) {
        IngestReply::Received { timestamp } => {
            let got = bridge.drain(h);
            assert_eq!(got.len(), 1);
            assert_eq!(got[0].timestamp, timestamp);
        }
        IngestReply::InvalidPayload => panic!("valid payload rejected"),
    }
}

#[test]
fn malformed_body_is_rejected_with_invalid_json() {
    let bad = "{\"event_type\": oops";
    let parsed = message_from_json(bad);
    assert!(parsed.is_none());
    let mut bridge = BroadcastBridge::new(EXTENSION_LOG_CAPACITY);
    let h = bridge.subscribe();
    let reply = handle_extension_post_at(&mut bridge, parsed, 123);
    assert_eq!(reply, IngestReply::InvalidPayload);
    assert!(bridge.drain(h).is_empty());
    let (code, text) = rejection_reply(&Rejection::InvalidBody);
    assert_eq!(code, 400);
    assert_eq!(text, "Invalid JSON");
}

#[test]
fn rejection_replies_cover_every_class() {
    assert_eq!(rejection_reply(&Rejection::NotFound), (404, "Not Found".to_string()));
    assert_eq!(rejection_reply(&Rejection::InvalidBody), (400, "Invalid JSON".to_string()));
    assert_eq!(
        rejection_reply(&Rejection::Internal),
        (500, "Internal Server Error".to_string())
    );
}

#[test]
fn health_and_status_bodies() {
    let (status, service) = health_reply();
    assert_eq!(status, "ok");
    assert_eq!(service, "cortex-extension-bridge");
    let (count, state) = status_reply(3);
    assert_eq!(count, 3);
    assert_eq!(state, "running");
}

#[test]
fn mirror_store_keeps_last_capacity_events() {
    let mut store = ExtensionLogStore::new();
    for i in 0..150i64 {
        store.mirror_extension_event(event(i, "a.com"));
    }
    let logs = store.get_extension_logs();
    assert_eq!(logs.len(), EXTENSION_LOG_CAPACITY);
    assert_eq!(logs[0].timestamp, 50);
    assert_eq!(logs[99].timestamp, 149);
    assert_eq!(store.len(), 100);
}

#[test]
fn mirror_store_clear_empties() {
    let mut store = ExtensionLogStore::new();
    store.mirror_extension_event(event(1, "a.com"));
    store.clear_extension_logs();
    assert_eq!(store.len(), 0);
    assert!(store.get_extension_logs().is_empty());
}

#[test]
fn recent_activity_uses_sixty_second_window() {
    let mut store = ExtensionLogStore::new();
    store.mirror_extension_event(event(1000, "a.com"));
    assert!(store.has_recent_activity(1000 + 59_999));
    assert!(!store.has_recent_activity(1000 + 60_000));
    let empty = ExtensionLogStore::new();
    assert!(!empty.has_recent_activity(0));
}
