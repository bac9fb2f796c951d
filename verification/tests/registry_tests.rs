use sse_bridge::dispatcher::delivery_targets;
use sse_bridge::errors::BridgeError;
use sse_bridge::registry::{admit_client, Registry};
use sse_bridge::routing_key::{MyString, RoutingKey, MAX_KEY_LEN};

fn key(s: &str) -> RoutingKey {
    RoutingKey::encode(&MyString(String::from(s))).unwrap()
}

#[test]
fn register_assigns_fresh_ids() {
    let mut reg = Registry::new();
    let id1 = reg.register(key("orders"), 10, String::from("tag-1"), 0);
    let id2 = reg.register(key("orders"), 11, String::from("tag-2"), 0);
    assert_eq!(id1, 0);
    assert_eq!(id2, 1);
    assert_eq!(reg.len(), 2);
}

#[test]
fn snapshot_copies_all_entries() {
    let mut reg = Registry::new();
    reg.register(key("orders"), 10, String::from("tag-1"), 7);
    reg.register(key("invoices"), 11, String::from("tag-2"), 8);
    let snap = reg.snapshot();
    assert_eq!(snap.len(), 2);
    assert_eq!(snap[0].outbound, 10);
    assert_eq!(snap[0].subscription_token, String::from("tag-1"));
    assert_eq!(snap[0].created_at, 7);
    assert_eq!(snap[1].outbound, 11);
    assert!(snap[1].routing_key.key_eq(&key("invoices")));
}

#[test]
fn connections_for_filters_by_key() {
    let mut reg = Registry::new();
    reg.register(key("orders"), 10, String::from("tag-1"), 0);
    reg.register(key("invoices"), 11, String::from("tag-2"), 0);
    reg.register(key("orders"), 12, String::from("tag-3"), 0);
    let orders = reg.connections_for(&key("orders"));
    assert_eq!(orders.len(), 2);
    assert_eq!(orders[0].outbound, 10);
    assert_eq!(orders[1].outbound, 12);
    let none = reg.connections_for(&key("payments"));
    assert!(none.is_empty());
}

#[test]
fn replace_removes_only_named_ids() {
    let mut reg = Registry::new();
    let id0 = reg.register(key("orders"), 10, String::from("tag-1"), 0);
    let id1 = reg.register(key("orders"), 11, String::from("tag-2"), 0);
    let id2 = reg.register(key("orders"), 12, String::from("tag-3"), 0);
    reg.replace(&vec![id1]);
    let snap = reg.snapshot();
    assert_eq!(snap.len(), 2);
    assert_eq!(snap[0].id, id0);
    assert_eq!(snap[1].id, id2);
}

#[test]
fn admit_client_registers_on_subscription_success() {
    let mut reg = Registry::new();
    let r = admit_client(&mut reg, &key("orders"), 10, 0, Ok(String::from("tag-1")));
    assert_eq!(r, Ok(0));
    assert_eq!(reg.len(), 1);
    let snap = reg.snapshot();
    assert_eq!(snap[0].subscription_token, String::from("tag-1"));
}

#[test]
fn admit_client_leaves_registry_untouched_on_failure() {
    let mut reg = Registry::new();
    let r = admit_client(
        &mut reg,
        &key("orders"),
        10,
        0,
        Err(BridgeError::SubscriptionFailure),
    );
    assert_eq!(r, Err(BridgeError::SubscriptionFailure));
    assert_eq!(reg.len(), 0);
}

#[test]
fn broadcast_reaches_matching_connection_only() {
    // register C1 under "orders"; a broadcast to "orders" reaches C1,
    // a broadcast to "invoices" reaches nothing.
    let mut reg = Registry::new();
    reg.register(key("orders"), 10, String::from("tag-1"), 0);
    let to_orders = delivery_targets(&reg, &MyString(String::from("orders"))).unwrap();
    assert_eq!(to_orders.len(), 1);
    assert_eq!(to_orders[0].outbound, 10);
    let to_invoices = delivery_targets(&reg, &MyString(String::from("invoices"))).unwrap();
    assert!(to_invoices.is_empty());
}

#[test]
fn delivery_targets_rejects_over_length_key() {
    let reg = Registry::new();
    let raw: String = "k".repeat(MAX_KEY_LEN + 1);
    let r = delivery_targets(&reg, &MyString(raw));
    assert!(matches!(r, Err(BridgeError::KeyTooLong)));
}
