use maps_dispatcher::batch::{object_key, ready_marker_key, BatchInfo, MAX_DATE_MILLIS};
use maps_dispatcher::storage::{mark_batch_ready, Storage};

#[test]
fn epoch_zero_batch_identity() {
    let b = BatchInfo::from_millis(0).expect("the epoch is within range");
    assert_eq!(b.batch_id, "0");
    assert_eq!(b.date_prefix, "1970/01/01");
    assert_eq!(b.created_at_millis, 0);
}

#[test]
fn known_instant_batch_identity() {
    // 2000-01-12T01:02:03.004Z
    let b = BatchInfo::from_millis(947638923004).expect("within range");
    assert_eq!(b.batch_id, "947638923004");
    assert_eq!(b.date_prefix, "2000/01/12");
}

#[test]
fn double_digit_month_and_day_need_no_padding() {
    // 2000-10-31T00:00:00Z
    let b = BatchInfo::from_millis(972950400000).expect("within range");
    assert_eq!(b.date_prefix, "2000/10/31");
}

#[test]
fn instants_past_year_9999_are_rejected() {
    let last = BatchInfo::from_millis(MAX_DATE_MILLIS).expect("the last instant is in range");
    assert_eq!(last.date_prefix, "9999/12/31");
    assert!(BatchInfo::from_millis(MAX_DATE_MILLIS + 1).is_none());
}

#[test]
fn keys_are_namespaced_by_date_and_batch() {
    let b = BatchInfo::from_millis(947638923004).unwrap();
    assert_eq!(
        object_key(&b, "france.osm.pbf"),
        "batches/2000/01/12/947638923004/france.osm.pbf"
    );
    assert_eq!(ready_marker_key(&b), "batches/2000/01/12/947638923004_READY");
}

#[test]
fn store_put_get_and_overwrite() {
    let mut store = Storage::new();
    assert_eq!(store.object_count(), 0);
    store.put("a".to_string(), vec![1, 2]);
    store.put("b".to_string(), vec![3]);
    assert_eq!(store.object_count(), 2);
    assert!(store.contains(&"a".to_string()));
    assert!(!store.contains(&"c".to_string()));
    assert_eq!(store.get(&"a".to_string()), Some(&vec![1u8, 2u8]));
    store.put("a".to_string(), vec![9]);
    assert_eq!(store.object_count(), 2);
    assert_eq!(store.get(&"a".to_string()), Some(&vec![9u8]));
    assert_eq!(store.get(&"missing".to_string()), None);
}

#[test]
fn repeated_readiness_marker_changes_nothing() {
    let b = BatchInfo::from_millis(947638923004).unwrap();
    let mut store = Storage::new();
    store.put("unrelated".to_string(), vec![1]);
    mark_batch_ready(&mut store, &b);
    let marker = ready_marker_key(&b);
    assert!(store.contains(&marker));
    assert_eq!(store.object_count(), 2);
    assert_eq!(store.get(&marker), Some(&Vec::new()));
    // Writing the sentinel again for the already-ready batch is a no-op.
    mark_batch_ready(&mut store, &b);
    assert_eq!(store.object_count(), 2);
    assert_eq!(store.get(&marker), Some(&Vec::new()));
    assert_eq!(store.get(&"unrelated".to_string()), Some(&vec![1u8]));
}
