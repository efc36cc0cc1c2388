use fastllm::text::{compare_text, decimal_string, TextOrder};
use fastllm::{KeyedMap, LlmGatewayError, ModelRoute};

#[test]
fn texts_order_by_code_point() {
    assert_eq!(compare_text("a", "b"), TextOrder::Less);
    assert_eq!(compare_text("ab", "a"), TextOrder::Greater);
    assert_eq!(compare_text("", ""), TextOrder::Equal);
    assert_eq!(compare_text("Z", "a"), TextOrder::Less);
    assert_eq!(compare_text("é", "z"), TextOrder::Greater);
}

#[test]
fn decimal_strings_match_to_string() {
    for n in [0u64, 7, 10, 99, 1234567890, u64::MAX] {
        assert_eq!(decimal_string(n), n.to_string());
    }
}

#[test]
fn keyed_maps_keep_keys_sorted() {
    let mut m = KeyedMap::new();
    m.insert("b".to_string(), 2);
    m.insert("a".to_string(), 1);
    m.insert("c".to_string(), 3);
    m.insert("b".to_string(), 20);
    assert_eq!(m.keys(), vec!["a".to_string(), "b".to_string(), "c".to_string()]);
    assert_eq!(m.get("b"), Some(&20));
    assert_eq!(m.remove("a"), Some(1));
    assert_eq!(m.remove("a"), None);
    assert_eq!(m.len(), 2);
    assert!(m.contains_key("c"));
}

#[test]
fn route_keys_join_provider_and_model() {
    assert_eq!(ModelRoute::new("openai", "gpt-4o").key(), "openai:gpt-4o");
}

#[test]
fn error_texts_follow_their_templates() {
    assert_eq!(
        LlmGatewayError::QueueFull { capacity: 8 }.to_text(),
        "scheduler queue is full at capacity 8"
    );
    assert_eq!(
        LlmGatewayError::InsufficientMemory { route: "local:a".to_string(), requested_bytes: 11, available_bytes: 10 }.to_text(),
        "insufficient memory for `local:a`: requested 11 bytes with 10 bytes available"
    );
    assert_eq!(
        LlmGatewayError::RouteBusy { route: "p:m".to_string(), limit: 2 }.to_text(),
        "route `p:m` is already at its concurrency limit of 2"
    );
    assert_eq!(LlmGatewayError::Config { message: "bad".to_string() }.to_text(), "gateway configuration failed: bad");
}
