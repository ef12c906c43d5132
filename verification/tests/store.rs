use tally::database::Connection;
use tally::errors::{InsertError, StorageError};
use tally::models::Counter;

fn fresh() -> Connection {
    Connection::new(":memory:").expect("open in-memory store")
}

#[test]
fn new_counter_has_default_values() {
    let c = Counter::new("water");
    assert_eq!(c.name, "water");
    assert_eq!(c.count, 0);
    assert_eq!(c.step, 1);
    assert_eq!(c.template, "{}");
}

#[test]
fn first_open_seeds_a_default_counter() {
    let conn = fresh();
    let default = Counter::get_default(&conn).unwrap();
    assert_eq!(default, Some("tally".to_string()));
    let seeded = Counter::get(&conn, "tally").unwrap().expect("seeded counter");
    assert_eq!(seeded.count, 0);
    assert_eq!(seeded.step, 1);
    assert_eq!(seeded.template, "{}");
}

#[test]
fn get_absent_returns_none() {
    let conn = fresh();
    assert!(Counter::get(&conn, "missing").unwrap().is_none());
}

#[test]
fn insert_then_get_round_trips_every_field() {
    let mut conn = fresh();
    let c = Counter {
        name: "beans".to_string(),
        count: -42,
        step: 3,
        template: "beans: {}".to_string(),
    };
    c.insert(&mut conn).unwrap();
    let back = Counter::get(&conn, "beans").unwrap().expect("inserted row");
    assert_eq!(back.name, "beans");
    assert_eq!(back.count, -42);
    assert_eq!(back.step, 3);
    assert_eq!(back.template, "beans: {}");
}

#[test]
fn insert_of_taken_name_reports_conflict() {
    let mut conn = fresh();
    let c = Counter::new("dup");
    c.insert(&mut conn).unwrap();
    let again = Counter::new("dup");
    assert_eq!(again.insert(&mut conn), Err(InsertError::AlreadyExists));
}

#[test]
fn update_replaces_the_row() {
    let mut conn = fresh();
    let mut c = Counter::get_or_create(&mut conn, "coffee").unwrap();
    c.count = 9;
    c.step = 2;
    c.template = "cups: {}".to_string();
    c.update(&mut conn).unwrap();
    let back = Counter::get(&conn, "coffee").unwrap().unwrap();
    assert_eq!(back.count, 9);
    assert_eq!(back.step, 2);
    assert_eq!(back.template, "cups: {}");
}

#[test]
fn update_of_absent_name_is_a_silent_no_op() {
    let mut conn = fresh();
    let ghost_row = Counter {
        name: "nobody".to_string(),
        count: 1,
        step: 1,
        template: "{}".to_string(),
    };
    ghost_row.update(&mut conn).unwrap();
    assert!(Counter::get(&conn, "nobody").unwrap().is_none());
}

#[test]
fn get_or_create_is_idempotent() {
    let mut conn = fresh();
    let first = Counter::get_or_create(&mut conn, "tea").unwrap();
    let second = Counter::get_or_create(&mut conn, "tea").unwrap();
    assert_eq!(first.count, second.count);
    assert_eq!(first.step, second.step);
    assert_eq!(first.template, second.template);
}

#[test]
fn get_or_create_keeps_an_existing_record() {
    let mut conn = fresh();
    let mut c = Counter::get_or_create(&mut conn, "kept").unwrap();
    c.count = 123;
    c.update(&mut conn).unwrap();
    let again = Counter::get_or_create(&mut conn, "kept").unwrap();
    assert_eq!(again.count, 123);
}

#[test]
fn increment_then_decrement_restores_the_count() {
    let mut conn = fresh();
    let start = Counter::get_or_create(&mut conn, "c").unwrap().count;
    assert_eq!(Counter::increment(&mut conn, "c", 7).unwrap(), start + 7);
    assert_eq!(Counter::decrement(&mut conn, "c", 7).unwrap(), start);
    assert_eq!(Counter::get(&conn, "c").unwrap().unwrap().count, start);
    // a negative amount is an amount too
    assert_eq!(Counter::increment(&mut conn, "c", -3).unwrap(), start - 3);
    assert_eq!(Counter::decrement(&mut conn, "c", -3).unwrap(), start);
}

#[test]
fn increment_of_absent_name_creates_the_counter() {
    let mut conn = fresh();
    assert_eq!(Counter::increment(&mut conn, "born", 4).unwrap(), 4);
    let c = Counter::get(&conn, "born").unwrap().unwrap();
    assert_eq!(c.count, 4);
    assert_eq!(c.step, 1);
    assert_eq!(c.template, "{}");
}

#[test]
fn decrement_of_absent_name_creates_the_counter() {
    let mut conn = fresh();
    assert_eq!(Counter::decrement(&mut conn, "debt", 4).unwrap(), -4);
    assert_eq!(Counter::get(&conn, "debt").unwrap().unwrap().count, -4);
}

#[test]
fn repeated_increments_are_all_counted() {
    let mut conn = fresh();
    let start = Counter::get_or_create(&mut conn, "n").unwrap().count;
    for _ in 0..100 {
        Counter::increment(&mut conn, "n", 1).unwrap();
    }
    assert_eq!(Counter::get(&conn, "n").unwrap().unwrap().count, start + 100);
}

#[test]
fn interleaved_writers_lose_no_update() {
    let dir = tempfile::tempdir().expect("scratch directory");
    let path = dir.path().join("tally.db");
    let path = path.to_str().expect("scratch path");
    let mut a = Connection::new(path).unwrap();
    let mut b = Connection::new(path).unwrap();
    Counter::get_or_create(&mut a, "shared").unwrap();
    for _ in 0..50 {
        Counter::increment(&mut a, "shared", 1).unwrap();
        Counter::increment(&mut b, "shared", 1).unwrap();
    }
    assert_eq!(Counter::get(&a, "shared").unwrap().unwrap().count, 100);
    assert_eq!(Counter::get(&b, "shared").unwrap().unwrap().count, 100);
}

#[test]
fn set_default_is_monotonic() {
    let mut conn = fresh();
    let a = Counter::get_or_create(&mut conn, "first").unwrap();
    let b = Counter::get_or_create(&mut conn, "second").unwrap();
    a.set_default(&mut conn).unwrap();
    assert_eq!(Counter::get_default(&conn).unwrap(), Some("first".to_string()));
    b.set_default(&mut conn).unwrap();
    assert_eq!(Counter::get_default(&conn).unwrap(), Some("second".to_string()));
}

#[test]
fn deleting_the_default_leaves_the_ledger_entry() {
    let mut conn = fresh();
    assert_eq!(Counter::delete(&mut conn, "tally").unwrap(), true);
    assert!(Counter::get(&conn, "tally").unwrap().is_none());
    // the stale entry is returned as-is; the caller handles it
    assert_eq!(Counter::get_default(&conn).unwrap(), Some("tally".to_string()));
}

#[test]
fn delete_tells_absent_from_removed() {
    let mut conn = fresh();
    assert_eq!(Counter::delete(&mut conn, "nothing").unwrap(), false);
    Counter::get_or_create(&mut conn, "doomed").unwrap();
    assert_eq!(Counter::delete(&mut conn, "doomed").unwrap(), true);
    assert!(Counter::get(&conn, "doomed").unwrap().is_none());
    assert_eq!(Counter::delete(&mut conn, "doomed").unwrap(), false);
}

#[test]
fn get_all_lists_every_counter_once() {
    let mut conn = fresh();
    Counter::get_or_create(&mut conn, "a").unwrap();
    Counter::get_or_create(&mut conn, "b").unwrap();
    let mut names: Vec<String> = Counter::get_all(&conn).unwrap().into_iter().map(|c| c.name).collect();
    names.sort();
    assert_eq!(names, vec!["a".to_string(), "b".to_string(), "tally".to_string()]);
}

#[test]
fn unopenable_path_is_reported() {
    let r = Connection::new("/this/directory/does/not/exist/tally.db");
    assert!(matches!(r, Err(StorageError::Unopenable)));
}

#[test]
fn text_with_embedded_nul_round_trips() {
    let mut conn = fresh();
    let c = Counter {
        name: "nul\u{0}name".to_string(),
        count: 1,
        step: 1,
        template: "x\u{0}y{}".to_string(),
    };
    c.insert(&mut conn).unwrap();
    let back = Counter::get(&conn, "nul\u{0}name").unwrap().expect("stored row");
    assert_eq!(back.name, "nul\u{0}name");
    assert_eq!(back.template, "x\u{0}y{}");
    let all = Counter::get_all(&conn).unwrap();
    assert!(all.iter().any(|c| c.name == "nul\u{0}name"));
    let named = Counter::new("nul\u{0}name");
    named.set_default(&mut conn).unwrap();
    assert_eq!(
        Counter::get_default(&conn).unwrap(),
        Some("nul\u{0}name".to_string())
    );
}

#[test]
fn seeding_happens_once() {
    let mut conn = fresh();
    // the open already seeded this fresh store
    assert_eq!(conn.seed_if_empty().unwrap(), false);
    let all = Counter::get_all(&conn).unwrap();
    assert_eq!(all.len(), 1);
    assert_eq!(all[0].name, "tally");
    // an emptied store is seeded again on request
    assert_eq!(Counter::delete(&mut conn, "tally").unwrap(), true);
    assert_eq!(conn.seed_if_empty().unwrap(), true);
    let seeded = Counter::get(&conn, "tally").unwrap().expect("reseeded counter");
    assert_eq!(seeded.count, 0);
    assert_eq!(seeded.step, 1);
    assert_eq!(seeded.template, "{}");
    assert_eq!(Counter::get_default(&conn).unwrap(), Some("tally".to_string()));
}
