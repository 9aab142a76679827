use std::cell::Cell;

use cursetool::cache::{fresh, Database, Query};

fn counted<'a>(calls: &'a Cell<u32>, value: &'a str) -> impl FnOnce() -> Result<String, String> + 'a {
    move || {
        calls.set(calls.get() + 1);
        Ok(value.to_string())
    }
}

#[test]
fn fresh_entry_is_served_without_compute() {
    let mut db = Database::for_tests();
    let calls = Cell::new(0);
    let first = db.get_or_put_at("https://example.org/a", 100, 1000, counted(&calls, "one"));
    assert_eq!(first, Ok("one".to_string()));
    let second = db.get_or_put_at("https://example.org/a", 100, 1099, counted(&calls, "two"));
    assert_eq!(second, Ok("one".to_string()));
    assert_eq!(calls.get(), 1);
}

#[test]
fn stale_entry_is_recomputed() {
    let mut db = Database::for_tests();
    let calls = Cell::new(0);
    db.get_or_put_at("k", 100, 1000, counted(&calls, "old")).unwrap();
    let r = db.get_or_put_at("k", 100, 1100, counted(&calls, "new"));
    assert_eq!(r, Ok("new".to_string()));
    assert_eq!(calls.get(), 2);
    assert_eq!(db.lookup("k", 100, 1199), Some("new".to_string()));
    assert_eq!(db.lookup("k", 100, 1200), None);
}

#[test]
fn ttl_is_a_parameter_of_the_read() {
    let mut db = Database::for_tests();
    db.store("k", "v".to_string(), 1000);
    assert_eq!(db.lookup("k", 86400 * 365, 1000 + 86400 * 2), Some("v".to_string()));
    assert_eq!(db.lookup("k", 86400, 1000 + 86400 * 2), None);
}

#[test]
fn upsert_keeps_one_row_per_key() {
    let mut db = Database::for_tests();
    db.store("k", "first".to_string(), 10);
    db.store("k", "second".to_string(), 20);
    assert_eq!(db.len(), 1);
    assert_eq!(db.lookup("k", 100, 20), Some("second".to_string()));
    db.store("other", "x".to_string(), 20);
    assert_eq!(db.len(), 2);
}

#[test]
fn miss_then_hit() {
    let mut db = Database::for_tests();
    let calls = Cell::new(0);
    let a = db.get_or_put_at("k", 86400, 5000, counted(&calls, "payload"));
    let b = db.get_or_put_at("k", 86400, 5000, counted(&calls, "other"));
    assert_eq!(a, Ok("payload".to_string()));
    assert_eq!(b, Ok("payload".to_string()));
    assert_eq!(calls.get(), 1);
}

#[test]
fn failed_compute_is_not_cached() {
    let mut db = Database::for_tests();
    let failed: Result<String, String> = db.get_or_put_at("k", 100, 1000, || Err("offline".to_string()));
    assert_eq!(failed, Err("offline".to_string()));
    assert_eq!(db.len(), 0);
    let calls = Cell::new(0);
    let r = db.get_or_put_at("k", 100, 1001, counted(&calls, "ok"));
    assert_eq!(r, Ok("ok".to_string()));
    assert_eq!(calls.get(), 1);
}

#[test]
fn get_or_put_with_clock() {
    let mut db = Database::for_tests();
    let calls = Cell::new(0);
    let a = db.get_or_put("k", 3600, counted(&calls, "now"));
    let b = db.get_or_put("k", 3600, counted(&calls, "later"));
    assert_eq!(a, Ok("now".to_string()));
    assert_eq!(b, Ok("now".to_string()));
    assert_eq!(calls.get(), 1);
}

#[test]
fn rows_load_with_later_rows_winning() {
    let rows = vec![
        Query { url: "a".to_string(), result: "1".to_string(), downloaded: 10 },
        Query { url: "b".to_string(), result: "2".to_string(), downloaded: 10 },
        Query { url: "a".to_string(), result: "3".to_string(), downloaded: 30 },
    ];
    let db = Database::from_rows(rows);
    assert_eq!(db.len(), 2);
    assert_eq!(db.lookup("a", 100, 40), Some("3".to_string()));
    assert_eq!(db.lookup("b", 100, 40), Some("2".to_string()));
}

#[test]
fn freshness_boundary() {
    assert!(fresh(1000, 1099, 100));
    assert!(!fresh(1000, 1100, 100));
    assert!(!fresh(1000, 1000, 0));
    assert!(fresh(u64::MAX, 0, u64::MAX));
}
