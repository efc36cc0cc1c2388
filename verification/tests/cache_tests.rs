use fastllm::{CacheConfig, CacheKey, JsonValue, LlmMessage, LlmRequest, LlmResponse, ModelRoute, PromptCache};

fn response(text: &str) -> LlmResponse {
    LlmResponse { text: text.to_string(), reasoning: None, tool_calls: Vec::new(), usage: None }
}

#[test]
fn cache_ignores_provider_only_parameters() {
    let mut cache = PromptCache::new(CacheConfig::default());
    let mut first = LlmRequest::new(ModelRoute::new("openai", "gpt"), vec![LlmMessage::user("hello")]);
    let mut second = first.clone();
    first.provider_parameters.insert("trace".to_string(), JsonValue::from_text("\"a\""));
    second.provider_parameters.insert("trace".to_string(), JsonValue::from_text("\"b\""));

    cache.insert(&first, response("cached"));

    assert_eq!(cache.get(&second).expect("hit").text, "cached");
}

#[test]
fn cache_respects_disabled_requests() {
    let mut cache = PromptCache::new(CacheConfig::default());
    let mut request = LlmRequest::new(ModelRoute::new("p", "m"), Vec::new());
    request.cache = false;

    cache.insert(&request, response("nope"));

    assert!(cache.get(&request).is_none());
}

#[test]
fn cache_respects_zero_ttl_and_global_disable() {
    let request = LlmRequest::new(ModelRoute::new("p", "m"), vec![LlmMessage::user("hello")]);
    let value = response("value");

    let mut zero_ttl = PromptCache::new(CacheConfig { ttl_seconds: 0, ..CacheConfig::default() });
    zero_ttl.insert(&request, value.clone());
    assert!(zero_ttl.is_empty());

    let mut disabled = PromptCache::new(CacheConfig { enabled: false, ..CacheConfig::default() });
    disabled.insert(&request, value);
    assert!(disabled.get(&request).is_none());
}

#[test]
fn cache_evicts_oldest_entry_when_full() {
    let mut cache = PromptCache::new(CacheConfig { max_entries: 1, ..CacheConfig::default() });
    let first = LlmRequest::new(ModelRoute::new("p", "a"), Vec::new());
    let second = LlmRequest::new(ModelRoute::new("p", "b"), Vec::new());

    cache.insert(&first, response("first"));
    cache.insert(&second, response("second"));

    assert_eq!(cache.len(), 1);
    assert!(cache.get(&first).is_none());
    assert_eq!(cache.get(&second).expect("second remains").text, "second");
}

#[test]
fn cache_entries_expire_at_their_deadline() {
    let mut cache = PromptCache::new(CacheConfig { ttl_seconds: 2, ..CacheConfig::default() });
    let request = LlmRequest::new(ModelRoute::new("p", "m"), vec![LlmMessage::user("hi")]);
    cache.insert_at(&request, response("fresh"), 1_000);
    assert_eq!(cache.get_at(&request, 2_000_000_999).expect("still live").text, "fresh");
    assert!(cache.get_at(&request, 2_000_001_000).is_none());
    assert!(cache.is_empty());
}

#[test]
fn cache_keys_depend_on_parameters_and_messages() {
    let mut cache = PromptCache::new(CacheConfig::default());
    let base = LlmRequest::new(ModelRoute::new("p", "m"), vec![LlmMessage::user("hi")]);
    let mut tuned = base.clone();
    tuned.parameters.insert("temperature".to_string(), JsonValue::from_text("0.5"));
    let other_message = LlmRequest::new(ModelRoute::new("p", "m"), vec![LlmMessage::user("bye")]);
    cache.insert(&base, response("base"));
    assert!(cache.get(&tuned).is_none());
    assert!(cache.get(&other_message).is_none());
    assert!(CacheKey::new(&base).matches(&CacheKey::new(&base.clone().with_request_id("x").with_priority(3))));
    assert!(!CacheKey::new(&base).matches(&CacheKey::new(&tuned)));
    cache.insert(&base, response("replaced"));
    assert_eq!(cache.len(), 1);
    assert_eq!(cache.get(&base).expect("hit").text, "replaced");
}

#[test]
fn cache_evicts_the_oldest_of_several() {
    let mut cache = PromptCache::new(CacheConfig { max_entries: 2, ..CacheConfig::default() });
    let a = LlmRequest::new(ModelRoute::new("p", "a"), Vec::new());
    let b = LlmRequest::new(ModelRoute::new("p", "b"), Vec::new());
    let c = LlmRequest::new(ModelRoute::new("p", "c"), Vec::new());
    cache.insert(&a, response("a"));
    cache.insert(&b, response("b"));
    cache.insert(&c, response("c"));
    assert_eq!(cache.len(), 2);
    assert!(cache.get(&a).is_none());
    assert_eq!(cache.get(&b).expect("b").text, "b");
    assert_eq!(cache.get(&c).expect("c").text, "c");
}
