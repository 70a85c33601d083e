use issue_sync::checkpoint::{checkpoint_record, record_synced, CheckpointRecord, CheckpointStore, EPOCH};
use issue_sync::issue::{fingerprint, SearchableComment, SearchableIssue};
use issue_sync::u64_from_i64;

#[test]
fn empty_store_reports_epoch() {
    let store = CheckpointStore::new();
    assert_eq!(store.last_change_at(), EPOCH);
    assert_eq!(store.get(1), None);
}

#[test]
fn latest_change_is_largest_time() {
    let mut store = CheckpointStore::new();
    store.store(1, 10, 500);
    store.store(2, 20, 900);
    store.store(3, 30, 700);
    assert_eq!(store.last_change_at(), 900);
}

#[test]
fn older_restore_keeps_other_ids_time() {
    let mut store = CheckpointStore::new();
    store.store(1, 10, 500);
    store.store(2, 20, 900);
    store.store(1, 11, 100);
    assert_eq!(store.last_change_at(), 900);
    assert_eq!(store.get(1), Some(CheckpointRecord { id: 1, fingerprint: 11, last_update_at: 100 }));
}

#[test]
fn restoring_the_leading_id_moves_latest_change() {
    let mut store = CheckpointStore::new();
    store.store(1, 10, 500);
    store.store(2, 20, 900);
    store.store(2, 21, 300);
    assert_eq!(store.last_change_at(), 500);
}

#[test]
fn negative_times_are_not_hidden_by_epoch() {
    let mut store = CheckpointStore::new();
    store.store(4, 1, -50);
    assert_eq!(store.last_change_at(), -50);
}

#[test]
fn store_twice_is_idempotent() {
    let t: i64 = 1_700_000_000_000_000;
    let mut store = CheckpointStore::new();
    store.store(7, 123, t);
    store.store(7, 123, t);
    assert_eq!(store.get(7), Some(CheckpointRecord { id: 7, fingerprint: 123, last_update_at: t }));
    assert_eq!(store.last_change_at(), t);
}

#[test]
fn fold_keeps_values_that_fit() {
    assert_eq!(u64_from_i64(0), 0);
    assert_eq!(u64_from_i64(42), 42);
    assert_eq!(u64_from_i64(i64::MAX as u64), i64::MAX);
}

#[test]
fn fold_negates_remainder_above_signed_range() {
    assert_eq!(u64_from_i64(i64::MAX as u64 + 1), -1);
    assert_eq!(u64_from_i64(i64::MAX as u64 + 5), -5);
    assert_eq!(u64_from_i64(u64::MAX), -1);
    assert_eq!(u64_from_i64(i64::MAX as u64 * 2), 0);
}

#[test]
fn record_carries_id_fingerprint_and_time() {
    let issue = SearchableIssue::new(42, 7, "Bug".to_string(), "crash".to_string(), 2_000)
        .with_comments(vec![SearchableComment::new("alice".to_string(), "confirmed".to_string())]);
    let rec = checkpoint_record(&issue);
    assert_eq!(rec.id, 42);
    assert_eq!(rec.last_update_at, 2_000);
    assert_eq!(rec.fingerprint, u64_from_i64(fingerprint(&issue)));
}

#[test]
fn record_synced_stores_the_record() {
    let issue = SearchableIssue::new(9, 3, "t".to_string(), "b".to_string(), 77);
    let mut store = CheckpointStore::new();
    record_synced(&mut store, &issue);
    assert_eq!(store.get(9), Some(checkpoint_record(&issue)));
    assert_eq!(store.last_change_at(), 77);
}
