use lightning_nodes_api::import::{import_from_event, scheduler_next_phase, status_is_success,
    FetchEvent, SchedulerPhase};
use lightning_nodes_api::models::{ExternalNode, ImportError};
use lightning_nodes_api::store::NodeStore;

fn node(key: &str, alias: &str, channels: i32, capacity: i64, first_seen: i64) -> ExternalNode {
    ExternalNode {
        public_key: key.to_string(),
        alias: alias.to_string(),
        channels,
        capacity,
        first_seen,
        updated_at: first_seen + 100,
        city: None,
        country: None,
    }
}

fn now() -> String {
    "2024-01-01T00:00:00+00:00".to_string()
}

#[test]
fn status_success_range() {
    assert!(status_is_success(200));
    assert!(status_is_success(204));
    assert!(status_is_success(299));
    assert!(!status_is_success(199));
    assert!(!status_is_success(300));
    assert!(!status_is_success(503));
}

#[test]
fn transport_failure_leaves_store_untouched() {
    let mut store = NodeStore::new();
    let r = import_from_event(&mut store, FetchEvent::Transport, &now(), None);
    assert!(matches!(r, Err(ImportError::Transport)));
    assert_eq!(store.row_count(), 0);
}

#[test]
fn http_error_status_fails_and_preserves_rows() {
    let mut store = NodeStore::new();
    let seeded = FetchEvent::Response {
        status: 200,
        body: String::new(),
        records: Some(vec![node("a", "alpha", 1, 100, 1000)]),
    };
    import_from_event(&mut store, seeded, &now(), None).unwrap();
    assert_eq!(store.row_count(), 1);

    let ev = FetchEvent::Response {
        status: 503,
        body: "service unavailable".to_string(),
        records: None,
    };
    let r = import_from_event(&mut store, ev, &now(), None);
    match r {
        Err(ImportError::HttpStatus { status, body }) => {
            assert_eq!(status, 503);
            assert_eq!(body, "service unavailable");
        },
        _ => panic!("expected an http status error"),
    }
    // previously stored rows untouched
    assert_eq!(store.row_count(), 1);
    assert_eq!(store.all_rows()[0].public_key, "a");
    assert_eq!(store.all_rows()[0].alias, "alpha");
}

#[test]
fn undecodable_body_is_a_decode_error() {
    let mut store = NodeStore::new();
    let ev = FetchEvent::Response {
        status: 200,
        body: "not json".to_string(),
        records: None,
    };
    let r = import_from_event(&mut store, ev, &now(), None);
    assert!(matches!(r, Err(ImportError::Decode)));
    assert_eq!(store.row_count(), 0);
}

#[test]
fn ill_formed_record_is_a_decode_error() {
    let mut store = NodeStore::new();
    let ev = FetchEvent::Response {
        status: 200,
        body: String::new(),
        records: Some(vec![node("a", "alpha", 1, -5, 1000)]),
    };
    let r = import_from_event(&mut store, ev, &now(), None);
    assert!(matches!(r, Err(ImportError::Decode)));
    assert_eq!(store.row_count(), 0);
}

#[test]
fn storage_failure_rolls_back_the_import() {
    let mut store = NodeStore::new();
    let ev = FetchEvent::Response {
        status: 200,
        body: String::new(),
        records: Some(vec![node("a", "alpha", 1, 100, 1000), node("b", "beta", 2, 200, 2000)]),
    };
    let r = import_from_event(&mut store, ev, &now(), Some(0));
    assert!(matches!(r, Err(ImportError::Storage)));
    assert_eq!(store.row_count(), 0);
}

#[test]
fn successful_import_returns_fetch_count() {
    let mut store = NodeStore::new();
    let ev = FetchEvent::Response {
        status: 200,
        body: String::new(),
        records: Some(vec![
            node("a", "alpha", 1, 100, 1000),
            node("b", "beta", 2, 200, 2000),
            node("c", "gamma", 3, 300, 3000),
        ]),
    };
    let r = import_from_event(&mut store, ev, &now(), None);
    assert_eq!(r.ok(), Some(3));
    assert_eq!(store.row_count(), 3);
}

#[test]
fn importing_same_feed_twice_keeps_one_row_per_identifier() {
    let mut store = NodeStore::new();
    for _ in 0..2 {
        let ev = FetchEvent::Response {
            status: 200,
            body: String::new(),
            records: Some(vec![node("a", "alpha", 1, 100, 1000), node("b", "beta", 2, 200, 2000)]),
        };
        import_from_event(&mut store, ev, &now(), None).unwrap();
    }
    assert_eq!(store.row_count(), 2);
    assert_eq!(store.all_rows()[0].id, 1);
    assert_eq!(store.all_rows()[1].id, 2);
}

#[test]
fn scheduler_cycles_whatever_the_import_returned() {
    let ok: Result<usize, ImportError> = Ok(5);
    let failed: Result<usize, ImportError> = Err(ImportError::Transport);
    assert!(matches!(
        scheduler_next_phase(SchedulerPhase::Importing, &ok),
        SchedulerPhase::Waiting
    ));
    assert!(matches!(
        scheduler_next_phase(SchedulerPhase::Importing, &failed),
        SchedulerPhase::Waiting
    ));
    assert!(matches!(
        scheduler_next_phase(SchedulerPhase::Waiting, &failed),
        SchedulerPhase::Importing
    ));
}
