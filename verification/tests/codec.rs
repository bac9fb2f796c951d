use sse_bridge::errors::BridgeError;
use sse_bridge::routing_key::{MyString, RoutingKey, MAX_KEY_LEN};

fn encode(s: &str) -> RoutingKey {
    RoutingKey::encode(&MyString(String::from(s))).unwrap()
}

#[test]
fn round_trip_simple() {
    let key = encode("orders");
    assert_eq!(key.decode().0, String::from("orders"));
}

#[test]
fn round_trip_max_len() {
    let raw: String = "a".repeat(MAX_KEY_LEN);
    let key = RoutingKey::encode(&MyString(raw.clone())).unwrap();
    assert_eq!(key.decode().0, raw);
}

#[test]
fn over_length_rejected() {
    let raw: String = "a".repeat(MAX_KEY_LEN + 1);
    let r = RoutingKey::encode(&MyString(raw));
    assert!(matches!(r, Err(BridgeError::KeyTooLong)));
}

#[test]
fn much_too_long_rejected() {
    let raw: String = "x".repeat(1000);
    let r = RoutingKey::encode(&MyString(raw));
    assert!(matches!(r, Err(BridgeError::KeyTooLong)));
}

#[test]
fn empty_key_round_trips() {
    let key = encode("");
    assert_eq!(key.decode().0, String::new());
}

#[test]
fn trailing_padding_is_trimmed() {
    let key = encode("orders ");
    assert_eq!(key.decode().0, String::from("orders"));
    assert!(key.key_eq(&encode("orders")));
}

#[test]
fn key_eq_same_topic() {
    assert!(encode("orders").key_eq(&encode("orders")));
}

#[test]
fn key_eq_distinct_topics() {
    assert!(!encode("orders").key_eq(&encode("invoices")));
}

#[test]
fn inner_spaces_survive() {
    let key = encode("a b");
    assert_eq!(key.decode().0, String::from("a b"));
}
