use item_store::catalog::{default_label_list, seed_plan, Catalog, PriorityLevel};
use item_store::error::{affected_outcome, ErrorKind};
use item_store::handlers::{create_item, delete_item, get_items, update_item, Response};
use item_store::store::{ItemStore, ItemView};

fn seeded_store() -> ItemStore {
    let mut s = ItemStore::new();
    s.ensure_seeded();
    s
}

fn labels(c: &Catalog) -> Vec<(i32, String)> {
    c.levels.iter().map(|l| (l.id, l.label.clone())).collect()
}

fn add(s: &mut ItemStore, name: &str, priority_id: i32) -> ItemView {
    s.create(name.to_string(), String::new(), priority_id).ok().unwrap()
}

#[test]
fn create_fix_bug_scenario() {
    let mut s = seeded_store();
    let out = create_item(&mut s, "Fix bug".to_string(), String::new(), 1);
    assert_eq!(out.status(), 201);
    match out {
        Response::Created(v) => {
            assert_eq!(v.id, 1);
            assert_eq!(v.name, "Fix bug");
            assert_eq!(v.description, "");
            assert_eq!(v.priority_id, 1);
            assert_eq!(v.priority_label, "Urgente");
        }
        _ => panic!("expected a created item"),
    }
}

#[test]
fn created_labels_follow_the_catalog() {
    let mut s = seeded_store();
    let a = add(&mut s, "a", 2);
    let b = add(&mut s, "b", 3);
    assert_eq!(a.priority_label, "Medio");
    assert_eq!(b.priority_label, "Bajo");
    for v in s.list() {
        let level = s.catalog.levels.iter().find(|l| l.id == v.priority_id).unwrap();
        assert_eq!(level.label, v.priority_label);
    }
}

#[test]
fn create_with_unknown_priority_fails() {
    let mut s = seeded_store();
    let r = s.create("x".to_string(), "d".to_string(), 4);
    assert!(matches!(r, Err(ErrorKind::ConstraintViolation)));
    let r = s.create("x".to_string(), "d".to_string(), 0);
    assert!(matches!(r, Err(ErrorKind::ConstraintViolation)));
    assert!(s.list().is_empty());
    assert_eq!(s.next_id, 1);
    let out = create_item(&mut s, "y".to_string(), String::new(), -3);
    assert_eq!(out.status(), 500);
    assert!(matches!(out, Response::Failed(ErrorKind::ConstraintViolation)));
}

#[test]
fn create_before_seeding_fails() {
    let mut s = ItemStore::new();
    let r = s.create("x".to_string(), String::new(), 1);
    assert!(matches!(r, Err(ErrorKind::ConstraintViolation)));
}

#[test]
fn create_without_identifiers_left_fails() {
    let mut s = seeded_store();
    s.next_id = i64::MAX;
    let r = s.create("x".to_string(), String::new(), 1);
    assert!(matches!(r, Err(ErrorKind::TransientStoreError)));
    assert!(s.list().is_empty());
}

#[test]
fn list_after_creates_and_deletes() {
    let mut s = seeded_store();
    for i in 0..5 {
        add(&mut s, &format!("item {}", i), 1 + (i % 3));
    }
    assert!(s.delete(2).is_ok());
    assert!(s.delete(4).is_ok());
    assert!(matches!(s.delete(4), Err(ErrorKind::NotFound)));
    let listed = s.list();
    assert_eq!(listed.len(), 3);
    let ids: Vec<i64> = listed.iter().map(|v| v.id).collect();
    assert_eq!(ids, vec![1, 3, 5]);
    add(&mut s, "late", 2);
    let ids: Vec<i64> = s.list().iter().map(|v| v.id).collect();
    assert_eq!(ids, vec![1, 3, 5, 6]);
}

#[test]
fn list_of_empty_store_is_ok() {
    let s = seeded_store();
    let out = get_items(&s);
    assert_eq!(out.status(), 200);
    assert!(matches!(out, Response::Listed(v) if v.is_empty()));
}

#[test]
fn update_missing_item_is_not_found() {
    let mut s = seeded_store();
    add(&mut s, "keep", 1);
    let out = update_item(&mut s, 9, "n".to_string(), "d".to_string(), 2);
    assert_eq!(out.status(), 404);
    assert!(matches!(out, Response::Failed(ErrorKind::NotFound)));
    let listed = s.list();
    assert_eq!(listed.len(), 1);
    assert_eq!(listed[0].name, "keep");
    assert_eq!(listed[0].priority_id, 1);
    let r = s.update(9, "n".to_string(), "d".to_string(), 77);
    assert!(matches!(r, Err(ErrorKind::NotFound)));
}

#[test]
fn update_replaces_all_fields() {
    let mut s = seeded_store();
    let v = s.create("old".to_string(), "old text".to_string(), 1).ok().unwrap();
    let out = update_item(&mut s, v.id, "new".to_string(), String::new(), 3);
    assert_eq!(out.status(), 200);
    match out {
        Response::Updated(u) => {
            assert_eq!(u.id, v.id);
            assert_eq!(u.name, "new");
            assert_eq!(u.description, "");
            assert_eq!(u.priority_id, 3);
            assert_eq!(u.priority_label, "Bajo");
        }
        _ => panic!("expected an updated item"),
    }
    let found = s.find(v.id).unwrap();
    assert_eq!(found.name, "new");
}

#[test]
fn update_with_unknown_priority_fails() {
    let mut s = seeded_store();
    let v = add(&mut s, "a", 2);
    let r = s.update(v.id, "b".to_string(), "c".to_string(), 8);
    assert!(matches!(r, Err(ErrorKind::ConstraintViolation)));
    let found = s.find(v.id).unwrap();
    assert_eq!(found.name, "a");
    assert_eq!(found.priority_label, "Medio");
}

#[test]
fn delete_twice() {
    let mut s = seeded_store();
    let v = add(&mut s, "gone", 1);
    let first = delete_item(&mut s, v.id);
    assert_eq!(first.status(), 200);
    assert!(matches!(first, Response::Deleted));
    let second = delete_item(&mut s, v.id);
    assert_eq!(second.status(), 404);
    assert!(matches!(second, Response::Failed(ErrorKind::NotFound)));
    assert!(s.find(v.id).is_none());
}

#[test]
fn seeding_twice_changes_nothing() {
    let mut s = ItemStore::new();
    s.ensure_seeded();
    let once = labels(&s.catalog);
    assert_eq!(
        once,
        vec![(1, "Urgente".to_string()), (2, "Medio".to_string()), (3, "Bajo".to_string())]
    );
    s.ensure_seeded();
    assert_eq!(labels(&s.catalog), once);
    assert_eq!(s.catalog.count(), 3);
}

#[test]
fn catalog_lookups() {
    let mut c = Catalog::new();
    assert_eq!(c.count(), 0);
    assert!(!c.contains(1));
    assert!(c.label(1).is_none());
    c.ensure_seeded();
    assert!(c.contains(3));
    assert!(!c.contains(4));
    assert_eq!(c.label(2).unwrap(), "Medio");
    assert!(c.label(0).is_none());
}

#[test]
fn seed_plan_only_for_an_empty_catalog() {
    assert_eq!(seed_plan(0), vec!["Urgente", "Medio", "Bajo"]);
    assert!(seed_plan(1).is_empty());
    assert!(seed_plan(5).is_empty());
    assert_eq!(default_label_list(), vec!["Urgente", "Medio", "Bajo"]);
}

#[test]
fn rows_affected_decide_not_found() {
    assert!(affected_outcome(1).is_ok());
    assert!(affected_outcome(3).is_ok());
    assert!(matches!(affected_outcome(0), Err(ErrorKind::NotFound)));
}

#[test]
fn error_status_table() {
    assert_eq!(ErrorKind::NotFound.status_code(), 404);
    assert_eq!(ErrorKind::ConstraintViolation.status_code(), 500);
    assert_eq!(ErrorKind::TransientStoreError.status_code(), 500);
    assert_eq!(ErrorKind::StartupFailure.status_code(), 500);
}

#[test]
fn find_joins_the_label() {
    let mut s = seeded_store();
    let v = s.create("n".to_string(), "desc".to_string(), 3).ok().unwrap();
    let f = s.find(v.id).unwrap();
    assert_eq!(f.description, "desc");
    assert_eq!(f.priority_label, "Bajo");
    assert!(s.find(v.id + 1).is_none());
}

#[test]
fn pre_existing_catalog_with_gaps() {
    let mut s = ItemStore::new();
    s.catalog = Catalog {
        levels: vec![
            PriorityLevel { id: 7, label: "Alta".to_string() },
            PriorityLevel { id: 3, label: "Baja".to_string() },
        ],
    };
    s.ensure_seeded();
    assert_eq!(labels(&s.catalog), vec![(7, "Alta".to_string()), (3, "Baja".to_string())]);
    assert!(s.catalog.contains(7));
    assert!(!s.catalog.contains(1));
    assert_eq!(s.catalog.label(3).unwrap(), "Baja");
    let v = add(&mut s, "task", 7);
    assert_eq!(v.priority_label, "Alta");
    let r = s.create("other".to_string(), String::new(), 1);
    assert!(matches!(r, Err(ErrorKind::ConstraintViolation)));
}
