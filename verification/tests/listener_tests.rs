use sse_bridge::listener::{Listener, CONSUMER_TAG_LEN, QUEUE_SUFFIX_LEN};
use sse_bridge::routing_key::{MyString, RoutingKey};

fn key(s: &str) -> RoutingKey {
    RoutingKey::encode(&MyString(String::from(s))).unwrap()
}

#[test]
fn queue_name_has_prefix_topic_and_random_suffix() {
    let listener = Listener::create();
    let name = listener.make_queue_name(&key("orders"));
    assert_eq!(name.chars().count(), "sse.orders.".len() + QUEUE_SUFFIX_LEN);
    assert!(name.starts_with("sse.orders."));
    let suffix: Vec<char> = name.chars().skip("sse.orders.".len()).collect();
    assert_eq!(suffix.len(), QUEUE_SUFFIX_LEN);
    assert!(suffix.iter().all(|c| c.is_ascii_alphanumeric()));
}

#[test]
fn queue_name_for_empty_topic() {
    let listener = Listener::create();
    let name = listener.make_queue_name(&key(""));
    assert_eq!(name.chars().count(), "sse..".len() + QUEUE_SUFFIX_LEN);
    assert!(name.starts_with("sse.."));
}

#[test]
fn consumer_tag_is_alphanumeric_and_sized() {
    let listener = Listener::create();
    let tag = listener.make_consumer_tag();
    assert_eq!(tag.chars().count(), CONSUMER_TAG_LEN);
    assert!(tag.chars().all(|c| c.is_ascii_alphanumeric()));
}
