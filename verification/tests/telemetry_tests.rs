use fastllm::{
    ExecutionScheduler, LlmMessage, LlmRequest, ModelConfig, ModelLoadReason, ModelRoute, RetryConfig, RetryPipeline,
    SchedulerConfig, Telemetry,
};
use fastllm::local::ModelRegistry;

#[test]
fn telemetry_counts_events() {
    let mut telemetry = Telemetry::new();
    let route = ModelRoute::new("local", "model");

    telemetry.record_cache_hit(&route);
    telemetry.record_retry_attempt(&route);
    telemetry.record_model_load(&route);

    let snapshot = telemetry.snapshot();
    assert_eq!(snapshot.cache_hits, 1);
    assert_eq!(snapshot.retry_attempts, 1);
    assert_eq!(snapshot.model_loads, 1);
}

#[test]
fn telemetry_counts_each_kind_apart() {
    let mut telemetry = Telemetry::new();
    let route = ModelRoute::new("p", "m");
    telemetry.record_cache_miss(&route);
    telemetry.record_cache_miss(&route);
    telemetry.record_scheduled_task(&route);
    telemetry.record_queue_rejection();
    telemetry.record_model_unload(&route);
    let snapshot = telemetry.metrics().snapshot();
    assert_eq!(snapshot.cache_hits, 0);
    assert_eq!(snapshot.cache_misses, 2);
    assert_eq!(snapshot.scheduled_tasks, 1);
    assert_eq!(snapshot.queue_rejections, 1);
    assert_eq!(snapshot.model_unloads, 1);
    assert_eq!(snapshot, telemetry.snapshot());
}

#[test]
fn one_recorder_adds_up_the_events_of_every_component() {
    let mut telemetry = Telemetry::new();
    let route = ModelRoute::new("local", "m");

    let mut scheduler = ExecutionScheduler::new(SchedulerConfig { max_queue_depth: 1, ..SchedulerConfig::default() });
    let request = LlmRequest::new(route.clone(), vec![LlmMessage::user("hi")]);
    scheduler.enqueue(&mut telemetry).expect("queued");
    scheduler.enqueue(&mut telemetry).expect_err("queue full");
    scheduler.dispatch(&request, &mut telemetry).expect("runs");

    let pipeline = RetryPipeline::new(RetryConfig { max_attempts: 2, initial_backoff_ms: 0, ..RetryConfig::default() });
    let mut run = pipeline.start(&request);
    run.next_call(&mut telemetry).expect("first call");
    run.fail(&pipeline, fastllm::LlmGatewayError::Provider { provider: "local".to_string(), message: "x".to_string() });
    run.next_call(&mut telemetry).expect("retry");

    let mut registry = ModelRegistry::new(100);
    registry.register(ModelConfig { route: route.clone(), memory_bytes: 10, ttl_seconds: 1, ..ModelConfig::default() });
    registry.load(&route, 0, ModelLoadReason::Explicit, &mut telemetry).expect("load");
    registry.unload_expired(1_000, &mut telemetry);

    let counts = telemetry.metrics().snapshot();
    assert_eq!(counts.queue_rejections, 1);
    assert_eq!(counts.scheduled_tasks, 1);
    assert_eq!(counts.retry_attempts, 1);
    assert_eq!(counts.model_loads, 1);
    assert_eq!(counts.model_unloads, 1);
    assert_eq!(counts, telemetry.snapshot());
}
