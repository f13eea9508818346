use lightning_nodes_api::models::NodeRecord;
use lightning_nodes_api::store::NodeStore;

fn record(key: &str, alias: &str, channels: i32, capacity: i64, first_seen: i64) -> NodeRecord {
    NodeRecord {
        public_key: key.to_string(),
        alias: alias.to_string(),
        channels,
        capacity,
        first_seen,
        updated_at: first_seen + 100,
        city: None,
        country: None,
    }
}

#[test]
fn upsert_batch_inserts_new_rows() {
    let mut store = NodeStore::new();
    let now = "2024-01-01T00:00:00+00:00".to_string();
    let batch = vec![record("a", "alpha", 3, 500, 1000), record("b", "beta", 5, 900, 2000)];
    let r = store.upsert_batch(&batch, &now, None);
    assert_eq!(r.ok(), Some(2));
    assert_eq!(store.row_count(), 2);
    let rows = store.all_rows();
    assert_eq!(rows[0].public_key, "a");
    assert_eq!(rows[0].id, 1);
    assert_eq!(rows[0].alias, "alpha");
    assert_eq!(rows[0].imported_at, now);
    assert_eq!(rows[1].public_key, "b");
    assert_eq!(rows[1].id, 2);
}

#[test]
fn reimport_same_batch_updates_in_place() {
    let mut store = NodeStore::new();
    let now1 = "2024-01-01T00:00:00+00:00".to_string();
    let now2 = "2024-01-02T00:00:00+00:00".to_string();
    let batch1 = vec![record("a", "alpha", 3, 500, 1000), record("b", "beta", 5, 900, 2000)];
    let batch2 = vec![record("a", "alpha-two", 4, 600, 1111), record("b", "beta-two", 6, 800, 2222)];
    store.upsert_batch(&batch1, &now1, None).unwrap();
    store.upsert_batch(&batch2, &now2, None).unwrap();
    assert_eq!(store.row_count(), 2);
    let rows = store.all_rows();
    // identifiers and row ids unchanged, all mutable fields from the second
    // batch, first-seen kept from the insert
    assert_eq!(rows[0].public_key, "a");
    assert_eq!(rows[0].id, 1);
    assert_eq!(rows[0].alias, "alpha-two");
    assert_eq!(rows[0].channels, 4);
    assert_eq!(rows[0].capacity, 600);
    assert_eq!(rows[0].first_seen, 1000);
    assert_eq!(rows[0].updated_at, 1211);
    assert_eq!(rows[0].imported_at, now2);
    assert_eq!(rows[1].public_key, "b");
    assert_eq!(rows[1].id, 2);
    assert_eq!(rows[1].alias, "beta-two");
}

#[test]
fn reimport_twice_is_idempotent() {
    let mut once = NodeStore::new();
    let mut twice = NodeStore::new();
    let now = "2024-03-01T00:00:00+00:00".to_string();
    let batch = vec![record("a", "alpha", 3, 500, 1000), record("b", "beta", 5, 900, 2000)];
    once.upsert_batch(&batch, &now, None).unwrap();
    twice.upsert_batch(&batch, &now, None).unwrap();
    twice.upsert_batch(&batch, &now, None).unwrap();
    assert_eq!(once.row_count(), twice.row_count());
    let a = once.all_rows();
    let b = twice.all_rows();
    for i in 0..a.len() {
        assert_eq!(a[i].id, b[i].id);
        assert_eq!(a[i].public_key, b[i].public_key);
        assert_eq!(a[i].alias, b[i].alias);
        assert_eq!(a[i].channels, b[i].channels);
        assert_eq!(a[i].capacity, b[i].capacity);
        assert_eq!(a[i].first_seen, b[i].first_seen);
        assert_eq!(a[i].updated_at, b[i].updated_at);
        assert_eq!(a[i].imported_at, b[i].imported_at);
    }
}

#[test]
fn interrupted_batch_commits_nothing() {
    let mut store = NodeStore::new();
    let now1 = "2024-01-01T00:00:00+00:00".to_string();
    let now2 = "2024-01-02T00:00:00+00:00".to_string();
    let batch1 = vec![record("a", "alpha", 3, 500, 1000)];
    store.upsert_batch(&batch1, &now1, None).unwrap();
    let batch2 = vec![
        record("a", "changed", 9, 999, 1000),
        record("b", "beta", 5, 900, 2000),
        record("c", "gamma", 7, 700, 3000),
    ];
    // the storage engine fails at the second write: the whole batch rolls back
    let r = store.upsert_batch(&batch2, &now2, Some(1));
    assert!(r.is_err());
    assert_eq!(store.row_count(), 1);
    let rows = store.all_rows();
    assert_eq!(rows[0].public_key, "a");
    assert_eq!(rows[0].alias, "alpha");
    assert_eq!(rows[0].capacity, 500);
    assert_eq!(rows[0].imported_at, now1);
}

#[test]
fn additive_import_grows_by_batch_size() {
    let mut store = NodeStore::new();
    let now = "2024-01-01T00:00:00+00:00".to_string();
    let batch1 = vec![record("a", "alpha", 3, 500, 1000), record("b", "beta", 5, 900, 2000)];
    store.upsert_batch(&batch1, &now, None).unwrap();
    assert_eq!(store.row_count(), 2);
    let batch2 = vec![record("c", "gamma", 7, 700, 3000), record("d", "delta", 2, 200, 4000)];
    store.upsert_batch(&batch2, &now, None).unwrap();
    assert_eq!(store.row_count(), 4);
}

#[test]
fn overlapping_imports_converge_to_last_writer() {
    let now1 = "2024-01-01T00:00:00+00:00".to_string();
    let now2 = "2024-01-02T00:00:00+00:00".to_string();
    let batch1 = vec![record("a", "from-one", 3, 500, 1000), record("b", "beta", 5, 900, 2000)];
    let batch2 = vec![record("a", "from-two", 4, 600, 1000), record("c", "gamma", 7, 700, 3000)];

    let mut first_then_second = NodeStore::new();
    first_then_second.upsert_batch(&batch1, &now1, None).unwrap();
    first_then_second.upsert_batch(&batch2, &now2, None).unwrap();

    let mut second_then_first = NodeStore::new();
    second_then_first.upsert_batch(&batch2, &now2, None).unwrap();
    second_then_first.upsert_batch(&batch1, &now1, None).unwrap();

    // both orders hold the same identifier set, one row each
    for store in [&first_then_second, &second_then_first] {
        let rows = store.all_rows();
        assert_eq!(rows.len(), 3);
        let mut keys: Vec<&str> = rows.iter().map(|r| r.public_key.as_str()).collect();
        keys.sort();
        assert_eq!(keys, vec!["a", "b", "c"]);
    }
    // the shared identifier carries the values of whichever batch came last
    let a1 = first_then_second.all_rows().iter().find(|r| r.public_key == "a").unwrap().alias.clone();
    assert_eq!(a1, "from-two");
    let a2 = second_then_first.all_rows().iter().find(|r| r.public_key == "a").unwrap().alias.clone();
    assert_eq!(a2, "from-one");
}

#[test]
fn query_orders_by_capacity_descending() {
    let mut store = NodeStore::new();
    let now = "2024-01-01T00:00:00+00:00".to_string();
    let batch = vec![
        record("low", "l", 1, 100, 1000),
        record("high", "h", 2, 9000, 2000),
        record("mid", "m", 3, 4500, 3000),
    ];
    store.upsert_batch(&batch, &now, None).unwrap();
    let rows = store.query_all_ordered_by_capacity_descending();
    assert_eq!(rows.len(), 3);
    assert_eq!(rows[0].public_key, "high");
    assert_eq!(rows[1].public_key, "mid");
    assert_eq!(rows[2].public_key, "low");
    assert_eq!(rows[0].alias.as_deref(), Some("h"));
}

#[test]
fn failure_beyond_the_batch_never_strikes() {
    let mut store = NodeStore::new();
    let now = "2024-01-01T00:00:00+00:00".to_string();
    let batch = vec![record("a", "alpha", 3, 500, 1000)];
    // a failure index past the batch's writes does not interrupt it
    let r = store.upsert_batch(&batch, &now, Some(5));
    assert_eq!(r.ok(), Some(1));
    assert_eq!(store.row_count(), 1);
}
