use chrono::TimeZone;
use tomato::todo::{generate_id, TodoStore};

const MILLIS: u128 = 1_700_000_000_000;

#[test]
fn toggle_sets_completed_at() {
    let mut store = TodoStore::default();
    let id = store.add("Do the thing".to_string(), MILLIS, 0).unwrap();
    assert!(store.toggle(&id).unwrap());
    let todo = store.items.iter().find(|t| t.id == id).unwrap();
    assert!(todo.done);
    assert!(todo.completed_at.is_some());
    assert!(store.toggle(&id).unwrap());
    let todo = store.items.iter().find(|t| t.id == id).unwrap();
    assert!(!todo.done);
    assert!(todo.completed_at.is_none());
}

#[test]
fn active_task_management() {
    let mut store = TodoStore::default();
    let id = store.add("Active task".to_string(), MILLIS, 1).unwrap();
    store.set_active(Some(id.clone()));
    assert_eq!(store.active_task().unwrap().title, "Active task");

    assert!(store.increment_active_pomodoro());
    assert_eq!(store.active_task().unwrap().pomodoros_done, 1);

    assert!(store.remove(&id));
    assert!(store.active_task().is_none());
}

// ---- further cases ----

#[test]
fn ids_are_millis_dash_sequence() {
    assert_eq!(generate_id(1_712_345_678_901, 42), "1712345678901-42");
    assert_eq!(generate_id(0, 0), "0-0");
    assert_eq!(generate_id(u128::MAX, u64::MAX), format!("{}-{}", u128::MAX, u64::MAX));
}

#[test]
fn add_appends_an_open_task() {
    let mut store = TodoStore::default();
    let a = store.add("first".to_string(), MILLIS, 0).unwrap();
    let b = store.add("second".to_string(), MILLIS, 1).unwrap();
    assert_eq!(a, "1700000000000-0");
    assert_eq!(b, "1700000000000-1");
    assert_eq!(store.items.len(), 2);
    assert_eq!(store.items[1].title, "second");
    assert!(!store.items[1].done);
    assert_eq!(store.items[1].pomodoros_done, 0);
    assert_eq!(store.items[1].pomodoros_estimated, 0);
    assert!(store.items[1].completed_at.is_none());
    assert_eq!(store.remaining_count(), 2);
}

#[test]
fn unknown_ids_change_nothing() {
    let mut store = TodoStore::default();
    store.add("task".to_string(), MILLIS, 0).unwrap();
    assert!(!store.toggle("nope").unwrap());
    assert!(!store.remove("nope"));
    assert!(!store.increment_pomodoro("nope"));
    assert!(!store.rename("nope", "x".to_string()));
    assert!(!store.set_estimate("nope", 3));
    assert_eq!(store.items.len(), 1);
    assert_eq!(store.items[0].title, "task");
    assert!(!store.increment_active_pomodoro());
    store.set_active(Some("gone".to_string()));
    assert!(store.active_task().is_none());
    assert!(!store.increment_active_pomodoro());
}

#[test]
fn clear_completed_drops_done_tasks_and_their_focus() {
    let mut store = TodoStore::default();
    let a = store.add("a".to_string(), MILLIS, 0).unwrap();
    let b = store.add("b".to_string(), MILLIS, 1).unwrap();
    let c = store.add("c".to_string(), MILLIS, 2).unwrap();
    store.toggle(&a).unwrap();
    store.toggle(&c).unwrap();
    store.set_active(Some(c.clone()));
    assert_eq!(store.remaining_count(), 1);
    store.clear_completed();
    assert_eq!(store.items.len(), 1);
    assert_eq!(store.items[0].id, b);
    assert!(store.active_id.is_none());
    assert_eq!(store.remaining_count(), 1);
}

#[test]
fn clear_completed_keeps_open_focus() {
    let mut store = TodoStore::default();
    let a = store.add("a".to_string(), MILLIS, 0).unwrap();
    let b = store.add("b".to_string(), MILLIS, 1).unwrap();
    store.toggle(&a).unwrap();
    store.set_active(Some(b.clone()));
    store.clear_completed();
    assert_eq!(store.active_id.as_deref(), Some(b.as_str()));
    assert_eq!(store.active_task().unwrap().title, "b");
}

#[test]
fn remove_keeps_other_focus() {
    let mut store = TodoStore::default();
    let a = store.add("a".to_string(), MILLIS, 0).unwrap();
    let b = store.add("b".to_string(), MILLIS, 1).unwrap();
    store.set_active(Some(b.clone()));
    assert!(store.remove(&a));
    assert_eq!(store.items.len(), 1);
    assert!(store.is_active(&b));
    assert!(!store.is_active(&a));
}

#[test]
fn rename_and_estimate_change_one_task() {
    let mut store = TodoStore::default();
    let a = store.add("a".to_string(), MILLIS, 0).unwrap();
    let b = store.add("b".to_string(), MILLIS, 1).unwrap();
    assert!(store.rename(&b, "bee".to_string()));
    assert!(store.set_estimate(&a, 4));
    assert_eq!(store.items[0].title, "a");
    assert_eq!(store.items[0].pomodoros_estimated, 4);
    assert_eq!(store.items[1].title, "bee");
    assert_eq!(store.items[1].pomodoros_estimated, 0);
    assert!(store.increment_pomodoro(&a));
    assert!(store.increment_pomodoro(&a));
    assert_eq!(store.items[0].pomodoros_done, 2);
    assert_eq!(store.items[1].pomodoros_done, 0);
}

#[test]
fn display_order_puts_open_tasks_first() {
    let mut store = TodoStore::default();
    let ids: Vec<String> = (0..5).map(|i| store.add(format!("t{i}"), MILLIS, i).unwrap()).collect();
    store.toggle(&ids[0]).unwrap();
    store.toggle(&ids[3]).unwrap();
    assert_eq!(store.display_order(), vec![1, 2, 4, 0, 3]);
    assert_eq!(store.position(&ids[3]), Some(3));
    assert_eq!(store.position("none"), None);
}

#[test]
fn edits_keep_the_creation_time() {
    let mut store = TodoStore::default();
    let id = store.add("kept".to_string(), MILLIS, 9).unwrap();
    let created = store.items[0].created_at.0;
    store.toggle(&id).unwrap();
    store.rename(&id, "still kept".to_string());
    store.set_estimate(&id, 2);
    store.increment_pomodoro(&id);
    let copy = store.items[0].clone();
    assert_eq!(copy.created_at.0, created);
    assert_eq!(copy.completed_at.map(|t| t.0), store.items[0].completed_at.as_ref().map(|t| t.0));
    assert_eq!(copy.title, "still kept");
    assert!(copy.done);
}

#[test]
fn add_at_and_toggle_at_stamp_the_given_instant() {
    let created = tomato::clock::UtcTime(chrono::Utc.with_ymd_and_hms(2024, 5, 1, 9, 0, 0).unwrap());
    let finished = tomato::clock::UtcTime(chrono::Utc.with_ymd_and_hms(2024, 5, 1, 9, 25, 0).unwrap());
    let mut store = TodoStore::default();
    let id = store.add_at("stamped".to_string(), MILLIS, 3, created.clone());
    assert_eq!(id, "1700000000000-3");
    assert_eq!(store.items[0].created_at.0, created.0);
    assert!(store.items[0].completed_at.is_none());
    assert!(store.toggle_at(&id, finished.clone()));
    assert!(store.items[0].done);
    assert_eq!(store.items[0].completed_at.as_ref().map(|t| t.0), Some(finished.0));
    assert_eq!(store.items[0].created_at.0, created.0);
    assert!(store.toggle_at(&id, finished));
    assert!(!store.items[0].done);
    assert!(store.items[0].completed_at.is_none());
    assert!(!store.toggle_at("missing", created));
}

#[test]
fn toggle_active_switches_the_focus_task() {
    let mut store = TodoStore::default();
    let a = store.add("a".to_string(), MILLIS, 0).unwrap();
    let b = store.add("b".to_string(), MILLIS, 1).unwrap();
    store.toggle_active(a.clone());
    assert_eq!(store.active_id.as_deref(), Some(a.as_str()));
    store.toggle_active(b.clone());
    assert_eq!(store.active_id.as_deref(), Some(b.as_str()));
    store.toggle_active(b);
    assert!(store.active_id.is_none());
}

#[test]
fn titles_are_stored_as_given() {
    let mut store = TodoStore::default();
    let id = store.add("  spaced  ".to_string(), MILLIS, 0).unwrap();
    assert_eq!(store.items[0].title, "  spaced  ");
    assert!(store.rename(&id, " renamed ".to_string()));
    assert_eq!(store.items[0].title, " renamed ");
}

#[test]
fn different_parts_give_different_ids() {
    let ids = [generate_id(12, 3), generate_id(1, 23), generate_id(123, 0), generate_id(12, 30), generate_id(0, 123)];
    for (i, a) in ids.iter().enumerate() {
        for b in &ids[i + 1..] {
            assert_ne!(a, b);
        }
    }
}
