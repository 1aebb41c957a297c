use sweeper::storage::{Message, Storage};

fn msg(telegram_id: i64, chat: i64, date: u64) -> Message {
    Message { telegram_id, chat_telegram_id: chat, date }
}

fn ids(v: &[Message]) -> Vec<i64> {
    v.iter().map(|m| m.telegram_id).collect()
}

#[test]
fn scenario_two_records() {
    // Two records, lifetime 100: a sweep at 205 takes only the first, a sweep
    // at 305 takes the second, a sweep at 400 takes nothing.
    let path = "file:scenario_two_records?mode=memory&cache=shared";
    let holder = rusqlite::Connection::open(path).unwrap();
    let mut store = Storage::new(path, 100).unwrap();
    store.add(msg(1, 7, 100)).unwrap();
    store.add(msg(2, 7, 200)).unwrap();

    let first = store.sweep_expired(205, 100).unwrap();
    assert_eq!(ids(&first), vec![1]);

    let second = store.sweep_expired(305, 100).unwrap();
    assert_eq!(ids(&second), vec![2]);

    let third = store.sweep_expired(400, 100).unwrap();
    assert!(third.is_empty());
    drop(holder);
}

#[test]
fn threshold_boundary() {
    // A record expires exactly when now - created_at reaches the lifetime,
    // and never a second earlier.
    let path = "file:threshold_boundary?mode=memory&cache=shared";
    let holder = rusqlite::Connection::open(path).unwrap();
    let mut store = Storage::new(path, 100).unwrap();
    store.add(msg(1, 7, 100)).unwrap();

    let early = store.sweep_expired(199, 100).unwrap();
    assert!(early.is_empty());

    let exact = store.sweep_expired(200, 100).unwrap();
    assert_eq!(ids(&exact), vec![1]);
    drop(holder);
}

#[test]
fn no_duplication_across_sweeps() {
    // Once returned, a record is gone: repeating the same sweep, or sweeping
    // any later time, never hands it out again.
    let path = "file:no_duplication_across_sweeps?mode=memory&cache=shared";
    let holder = rusqlite::Connection::open(path).unwrap();
    let mut store = Storage::new(path, 10).unwrap();
    store.add(msg(1, 7, 50)).unwrap();
    store.add(msg(2, 7, 60)).unwrap();

    let first = store.sweep_expired(100, 10).unwrap();
    assert_eq!(ids(&first), vec![1, 2]);

    let again = store.sweep_expired(100, 10).unwrap();
    assert!(again.is_empty());
    let later = store.sweep_expired(1000, 10).unwrap();
    assert!(later.is_empty());
    drop(holder);
}

#[test]
fn returns_oldest_first() {
    // Records come back ordered by creation time, however they went in.
    let path = "file:returns_oldest_first?mode=memory&cache=shared";
    let holder = rusqlite::Connection::open(path).unwrap();
    let mut store = Storage::new(path, 1).unwrap();
    store.add(msg(3, 7, 300)).unwrap();
    store.add(msg(1, 7, 100)).unwrap();
    store.add(msg(2, 7, 200)).unwrap();

    let swept = store.sweep_expired(1000, 1).unwrap();
    assert_eq!(ids(&swept), vec![1, 2, 3]);
    drop(holder);
}

#[test]
fn equal_dates_all_returned() {
    let path = "file:equal_dates_all_returned?mode=memory&cache=shared";
    let holder = rusqlite::Connection::open(path).unwrap();
    let mut store = Storage::new(path, 5).unwrap();
    store.add(msg(1, 7, 100)).unwrap();
    store.add(msg(2, 7, 100)).unwrap();

    let mut swept = ids(&store.sweep_expired(105, 5).unwrap());
    swept.sort();
    assert_eq!(swept, vec![1, 2]);
    drop(holder);
}

#[test]
fn sweep_of_empty_store_is_empty() {
    let path = "file:sweep_of_empty_store_is_empty?mode=memory&cache=shared";
    let holder = rusqlite::Connection::open(path).unwrap();
    let mut store = Storage::new(path, 100).unwrap();
    assert!(store.sweep_expired(1_000_000, 100).unwrap().is_empty());
    drop(holder);
}

#[test]
fn lifetime_longer_than_now_returns_nothing() {
    let path = "file:lifetime_longer_than_now?mode=memory&cache=shared";
    let holder = rusqlite::Connection::open(path).unwrap();
    let mut store = Storage::new(path, 1000).unwrap();
    store.add(msg(1, 7, 0)).unwrap();
    assert!(store.sweep_expired(999, 1000).unwrap().is_empty());
    assert_eq!(ids(&store.sweep_expired(1000, 1000).unwrap()), vec![1]);
    drop(holder);
}

#[test]
fn durability_across_reopen() {
    // Records inserted before a restart of the store are still pending after
    // it, and records already swept do not come back.
    let path = "file:durability_across_reopen?mode=memory&cache=shared";
    let holder = rusqlite::Connection::open(path).unwrap();
    {
        let mut store = Storage::new(path, 10).unwrap();
        store.add(msg(1, 7, 100)).unwrap();
        store.add(msg(2, 7, 200)).unwrap();
        store.add(msg(3, 7, 300)).unwrap();
        let swept = store.sweep_expired(110, 10).unwrap();
        assert_eq!(ids(&swept), vec![1]);
    }
    {
        let mut store = Storage::new(path, 10).unwrap();
        let swept = store.sweep_expired(10_000, 10).unwrap();
        assert_eq!(ids(&swept), vec![2, 3]);
    }
    drop(holder);
}

#[test]
fn failed_sweep_leaves_store_unchanged() {
    // Failure injection: make the persistence layer fail under the sweep.
    // The failed call must leave every pending record in place.
    let path = "file:failed_sweep_unchanged?mode=memory&cache=shared";
    let holder = rusqlite::Connection::open(path).unwrap();
    let mut store = Storage::new(path, 10).unwrap();
    store.add(msg(1, 7, 100)).unwrap();
    store.add(msg(2, 7, 200)).unwrap();

    holder
        .execute("ALTER TABLE message RENAME TO message_hidden", ())
        .unwrap();
    assert!(store.sweep_expired(10_000, 10).is_err());
    holder
        .execute("ALTER TABLE message_hidden RENAME TO message", ())
        .unwrap();

    let swept = store.sweep_expired(10_000, 10).unwrap();
    assert_eq!(ids(&swept), vec![1, 2]);
    drop(holder);
}

#[test]
fn failed_insert_stores_nothing() {
    let path = "file:failed_insert_stores_nothing?mode=memory&cache=shared";
    let holder = rusqlite::Connection::open(path).unwrap();
    let mut store = Storage::new(path, 10).unwrap();

    holder
        .execute("ALTER TABLE message RENAME TO message_hidden", ())
        .unwrap();
    assert!(store.add(msg(1, 7, 100)).is_err());
    holder
        .execute("ALTER TABLE message_hidden RENAME TO message", ())
        .unwrap();

    assert!(store.sweep_expired(10_000, 10).unwrap().is_empty());
    drop(holder);
}

#[test]
fn new_fails_on_unusable_path() {
    let err = Storage::new("/nonexistent-dir-for-sure/sub/str.db", 10);
    assert!(err.is_err());
}

#[test]
fn reopen_is_idempotent() {
    // Opening an existing store again must not wipe or re-initialize it.
    let path = "file:reopen_is_idempotent?mode=memory&cache=shared";
    let holder = rusqlite::Connection::open(path).unwrap();
    let mut first = Storage::new(path, 10).unwrap();
    first.add(msg(5, 7, 100)).unwrap();
    let _second = Storage::new(path, 10).unwrap();
    let swept = first.sweep_expired(10_000, 10).unwrap();
    assert_eq!(ids(&swept), vec![5]);
    drop(holder);
}

#[test]
fn clean_uses_wall_clock() {
    // A record dated at the epoch has long expired for any small lifetime, so
    // a wall-clock sweep returns it; a record dated far in the future stays.
    let path = "file:clean_uses_wall_clock?mode=memory&cache=shared";
    let holder = rusqlite::Connection::open(path).unwrap();
    let mut store = Storage::new(path, 60).unwrap();
    store.add(msg(1, 7, 1)).unwrap();
    store.add(msg(2, 7, i64::MAX as u64 - 1000)).unwrap();
    let swept = store.clean().unwrap();
    assert_eq!(ids(&swept), vec![1]);
    let rest = store.sweep_expired(i64::MAX as u64, 60).unwrap();
    assert_eq!(ids(&rest), vec![2]);
    drop(holder);
}
