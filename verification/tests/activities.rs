use extension_bridge::bounded::BoundedStore;
use extension_bridge::database::{Database, NewActivityRecord, ACTIVITY_LOG_CAPACITY};

fn record(ts: i64, what: &str) -> NewActivityRecord {
    NewActivityRecord {
        timestamp: ts,
        activity: what.to_string(),
        productive: false,
        app: "browser".to_string(),
        bundle_id: None,
        domain: Some("example.com".to_string()),
    }
}

#[test]
fn bounded_store_keeps_last_capacity_items() {
    let mut store: BoundedStore<i64> = BoundedStore::new(3);
    for x in 1..=10i64 {
        store.push(x);
    }
    assert_eq!(store.snapshot(), vec![8, 9, 10]);
    assert_eq!(store.len(), 3);
    store.clear();
    assert_eq!(store.len(), 0);
    assert_eq!(store.snapshot(), Vec::<i64>::new());
}

#[test]
fn bounded_store_under_capacity_keeps_all() {
    let mut store: BoundedStore<i64> = BoundedStore::new(5);
    for x in 1..=4i64 {
        store.push(x);
    }
    assert_eq!(store.snapshot(), vec![1, 2, 3, 4]);
}

#[test]
fn log_activity_assigns_monotonic_ids() {
    let mut db = Database::new();
    assert_eq!(db.log_activity(record(10, "a")), 1);
    assert_eq!(db.log_activity(record(20, "b")), 2);
    assert_eq!(db.next_activity_id(), 3);
}

#[test]
fn activity_log_evicts_oldest_at_capacity() {
    let mut db = Database::new();
    let extra = 5;
    for i in 0..(ACTIVITY_LOG_CAPACITY + extra) {
        db.log_activity(record(i as i64, "x"));
    }
    let all = db.get_recent_activities(i64::MAX);
    assert_eq!(all.len(), ACTIVITY_LOG_CAPACITY);
    assert_eq!(all[0].id, extra as i64 + 1);
    assert_eq!(all[all.len() - 1].id, (ACTIVITY_LOG_CAPACITY + extra) as i64);
}

#[test]
fn recent_full_log_in_chronological_order() {
    let mut db = Database::new();
    db.log_activity(record(10, "a"));
    db.log_activity(record(20, "b"));
    db.log_activity(record(30, "c"));
    let r = db.get_recent_activities(50);
    assert_eq!(r.len(), 3);
    assert_eq!(r[0].timestamp, 10);
    assert_eq!(r[1].timestamp, 20);
    assert_eq!(r[2].timestamp, 30);
}

#[test]
fn recent_zero_or_negative_is_empty() {
    let mut db = Database::new();
    db.log_activity(record(10, "a"));
    assert!(db.get_recent_activities(0).is_empty());
    assert!(db.get_recent_activities(-5).is_empty());
}

#[test]
fn recent_window_is_the_tail() {
    let mut db = Database::new();
    for ts in [10, 20, 30, 40, 50] {
        db.log_activity(record(ts, "a"));
    }
    let r = db.get_recent_activities(2);
    assert_eq!(r.len(), 2);
    assert_eq!(r[0].timestamp, 40);
    assert_eq!(r[1].timestamp, 50);
}

#[test]
fn in_range_is_inclusive_both_ends() {
    let mut db = Database::new();
    for ts in [10, 20, 30] {
        db.log_activity(record(ts, "a"));
    }
    let r = db.get_activities_in_range(10, 20);
    assert_eq!(r.len(), 2);
    assert_eq!(r[0].timestamp, 10);
    assert_eq!(r[1].timestamp, 20);
    let single = db.get_activities_in_range(30, 30);
    assert_eq!(single.len(), 1);
    assert_eq!(single[0].timestamp, 30);
}

#[test]
fn in_range_empty_when_start_after_end() {
    let mut db = Database::new();
    for ts in [10, 20, 30] {
        db.log_activity(record(ts, "a"));
    }
    assert!(db.get_activities_in_range(30, 15).is_empty());
}

#[test]
fn in_range_preserves_chronological_order() {
    let mut db = Database::new();
    for ts in [5, 15, 25, 35] {
        db.log_activity(record(ts, "a"));
    }
    let r = db.get_activities_in_range(10, 40);
    let stamps: Vec<i64> = r.iter().map(|a| a.timestamp).collect();
    assert_eq!(stamps, vec![15, 25, 35]);
}
