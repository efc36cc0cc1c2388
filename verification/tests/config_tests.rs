use fastllm::{
    CacheConfig, GatewayConfig, ModelConfig, ModelRoute, ProviderSettings, ProviderType, RetryConfig, RuntimeKind,
    SchedulerConfig,
};

#[test]
fn typed_config_builds_defaults_and_models() {
    let config = GatewayConfig {
        cache: CacheConfig { ttl_seconds: 60, ..CacheConfig::default() },
        ..GatewayConfig::default()
    }
    .with_model(ModelConfig {
        route: ModelRoute::new("local", "llama"),
        runtime: RuntimeKind::Local,
        memory_bytes: 1024,
        ..ModelConfig::default()
    });

    assert_eq!(config.cache.ttl_seconds, 60);
    assert_eq!(config.scheduler.max_queue_depth, 1024);
    assert_eq!(config.model(&ModelRoute::new("local", "llama")).expect("model").runtime, RuntimeKind::Local);
}

#[test]
fn provider_config_is_inserted_by_name() {
    let config = GatewayConfig::default()
        .with_provider("openai", ProviderSettings { timeout_seconds: 30, ..ProviderSettings::default() });

    assert_eq!(config.providers.get("openai").expect("provider").timeout_seconds, 30);
}

#[test]
fn model_lookup_falls_back_to_model_name() {
    let mut config = GatewayConfig::default();
    config.models.insert("llama".to_string(), ModelConfig { memory_bytes: 7, ..ModelConfig::default() });
    assert_eq!(config.model(&ModelRoute::new("anyone", "llama")).expect("by model").memory_bytes, 7);
    assert!(config.model(&ModelRoute::new("anyone", "other")).is_none());
}

#[test]
fn defaults_match_the_documented_values() {
    let scheduler = SchedulerConfig::default();
    assert_eq!(scheduler.max_concurrent_tasks, 64);
    assert_eq!(scheduler.per_route_concurrency, 8);
    assert_eq!(scheduler.default_deadline_ms, 120_000);
    let cache = CacheConfig::default();
    assert!(cache.enabled);
    assert_eq!(cache.max_entries, 4096);
    let retry = RetryConfig::default();
    assert_eq!(retry.max_attempts, 1);
    assert_eq!(retry.initial_backoff_ms, 25);
    assert_eq!(retry.max_backoff_ms, 1_000);
    assert!(retry.retry_provider_errors);
    let model = ModelConfig::default();
    assert_eq!(model.context_tokens, 4096);
    assert_eq!(model.max_parallel_sequences, 1);
    assert_eq!(model.ttl_seconds, 300);
    let provider = ProviderSettings::default();
    assert_eq!(provider.provider_type, ProviderType::Cloud);
    assert_eq!(provider.timeout_seconds, 60);
    assert_eq!(GatewayConfig::default().local_memory_budget_bytes, 0);
}
