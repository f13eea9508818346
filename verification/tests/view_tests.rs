use lightning_nodes_api::models::{DbNodeForApiResponse, ExternalNode, NodeRecord};
use lightning_nodes_api::store::NodeStore;
use lightning_nodes_api::view::{format_capacity, health_response, node_to_response,
    render_first_seen, get_all_nodes_for_api};
use std::collections::HashMap;

#[test]
fn capacity_renders_with_eight_fraction_digits() {
    assert_eq!(format_capacity(123456789), "1.23456789");
    assert_eq!(format_capacity(0), "0.00000000");
    assert_eq!(format_capacity(1), "0.00000001");
    assert_eq!(format_capacity(100000000), "1.00000000");
    assert_eq!(format_capacity(2100000000000000), "21000000.00000000");
}

#[test]
fn first_seen_renders_as_rfc3339_utc() {
    assert_eq!(render_first_seen(1609459200), "2021-01-01T00:00:00+00:00");
    assert_eq!(render_first_seen(0), "1970-01-01T00:00:00+00:00");
    assert_eq!(render_first_seen(1431648000), "2015-05-15T00:00:00+00:00");
}

#[test]
fn out_of_range_first_seen_falls_back_to_now() {
    // far outside the representable range: the render substitutes the current
    // time instead of failing
    let rendered = render_first_seen(i64::MAX);
    assert!(rendered.starts_with("2"));
}

#[test]
fn response_defaults_missing_alias_to_empty() {
    let row = DbNodeForApiResponse {
        public_key: "k".to_string(),
        alias: None,
        capacity: 42,
        first_seen: 1609459200,
    };
    let resp = node_to_response(&row);
    assert_eq!(resp.public_key, "k");
    assert_eq!(resp.alias, "");
    assert_eq!(resp.capacity, "0.00000042");
    assert_eq!(resp.first_seen, "2021-01-01T00:00:00+00:00");
}

#[test]
fn list_view_renders_sorted_rows() {
    let mut store = NodeStore::new();
    let now = "2024-01-01T00:00:00+00:00".to_string();
    let batch = vec![
        NodeRecord {
            public_key: "small".to_string(),
            alias: "s".to_string(),
            channels: 1,
            capacity: 123456789,
            first_seen: 1609459200,
            updated_at: 1609459300,
            city: None,
            country: None,
        },
        NodeRecord {
            public_key: "big".to_string(),
            alias: "b".to_string(),
            channels: 2,
            capacity: 500000000,
            first_seen: 0,
            updated_at: 10,
            city: None,
            country: None,
        },
    ];
    store.upsert_batch(&batch, &now, None).unwrap();
    let view = get_all_nodes_for_api(&store);
    assert_eq!(view.len(), 2);
    assert_eq!(view[0].public_key, "big");
    assert_eq!(view[0].capacity, "5.00000000");
    assert_eq!(view[0].first_seen, "1970-01-01T00:00:00+00:00");
    assert_eq!(view[1].public_key, "small");
    assert_eq!(view[1].capacity, "1.23456789");
    assert_eq!(view[1].first_seen, "2021-01-01T00:00:00+00:00");
}

#[test]
fn locale_map_serializes_to_stored_text() {
    let mut city = HashMap::new();
    city.insert("en".to_string(), "Berlin".to_string());
    let node = ExternalNode {
        public_key: "k".to_string(),
        alias: "a".to_string(),
        channels: 1,
        capacity: 10,
        first_seen: 0,
        updated_at: 0,
        city: Some(city),
        country: None,
    };
    let rec = lightning_nodes_api::models::to_node_record(node);
    assert_eq!(rec.city.as_deref(), Some("{\"en\":\"Berlin\"}"));
    assert_eq!(rec.country, None);
}

#[test]
fn test_health_endpoint() {
    let (status, body) = health_response();
    assert_eq!(status, 200);
    assert_eq!(body, "OK");
}
