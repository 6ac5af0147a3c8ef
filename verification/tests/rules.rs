use extension_bridge::database::{Database, NewRule, StoreError};

fn new_rule(name: &str) -> NewRule {
    NewRule {
        name: name.to_string(),
        natural_language: format!("when {}", name),
        rule_json: "{}".to_string(),
    }
}

#[test]
fn create_rule_assigns_monotonic_ids() {
    let mut db = Database::new();
    let a = db.create_rule_at(new_rule("a"), 100);
    let b = db.create_rule_at(new_rule("b"), 100);
    assert_eq!(a.id, 1);
    assert_eq!(b.id, 2);
    assert!(a.is_active);
    assert_eq!(a.created_at, 100);
    assert_eq!(a.name, "a");
}

#[test]
fn ids_never_reused_after_delete() {
    let mut db = Database::new();
    let a = db.create_rule_at(new_rule("a"), 100);
    let b = db.create_rule_at(new_rule("b"), 110);
    assert!(db.delete_rule(a.id).is_ok());
    assert!(db.delete_rule(b.id).is_ok());
    let c = db.create_rule_at(new_rule("c"), 120);
    assert_eq!(c.id, 3);
    let d = db.create_rule_at(new_rule("d"), 130);
    assert_eq!(d.id, 4);
}

#[test]
fn create_rule_wall_clock() {
    let mut db = Database::new();
    let r = db.create_rule(new_rule("a"));
    assert_eq!(r.id, 1);
    assert!(r.is_active);
    assert_eq!(db.next_rule_id(), 2);
}

#[test]
fn toggle_twice_restores_flag() {
    let mut db = Database::new();
    let r = db.create_rule_at(new_rule("a"), 100);
    assert!(r.is_active);
    assert!(db.toggle_rule(r.id).is_ok());
    assert!(!db.get_all_rules()[0].is_active);
    assert!(db.toggle_rule(r.id).is_ok());
    assert!(db.get_all_rules()[0].is_active);
}

#[test]
fn toggle_absent_yields_not_found_without_change() {
    let mut db = Database::new();
    db.create_rule_at(new_rule("a"), 100);
    let before: Vec<i64> = db.get_all_rules().iter().map(|r| r.id).collect();
    assert_eq!(db.toggle_rule(99), Err(StoreError::NotFound));
    let after: Vec<i64> = db.get_all_rules().iter().map(|r| r.id).collect();
    assert_eq!(before, after);
    assert!(db.get_all_rules()[0].is_active);
}

#[test]
fn delete_absent_yields_not_found_without_change() {
    let mut db = Database::new();
    db.create_rule_at(new_rule("a"), 100);
    assert_eq!(db.delete_rule(99), Err(StoreError::NotFound));
    assert_eq!(db.get_all_rules().len(), 1);
    assert_eq!(db.next_rule_id(), 2);
}

#[test]
fn list_all_descending_with_stable_ties() {
    let mut db = Database::new();
    db.create_rule_at(new_rule("A"), 100);
    db.create_rule_at(new_rule("B"), 100);
    db.create_rule_at(new_rule("C"), 200);
    let names: Vec<String> = db.get_all_rules().iter().map(|r| r.name.clone()).collect();
    assert_eq!(names, vec!["C".to_string(), "A".to_string(), "B".to_string()]);
}

#[test]
fn list_active_filters_and_sorts() {
    let mut db = Database::new();
    let a = db.create_rule_at(new_rule("a"), 100);
    db.create_rule_at(new_rule("b"), 300);
    db.create_rule_at(new_rule("c"), 200);
    assert!(db.toggle_rule(a.id).is_ok());
    let names: Vec<String> = db.get_active_rules().iter().map(|r| r.name.clone()).collect();
    assert_eq!(names, vec!["b".to_string(), "c".to_string()]);
    assert_eq!(db.get_all_rules().len(), 3);
}

#[test]
fn store_error_message_text() {
    assert_eq!(StoreError::NotFound.message(), "Rule not found");
}
