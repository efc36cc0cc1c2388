use fastllm::{KeyedMap, LlmGatewayError, LlmMessage, LlmRequest, ModelRoute, RetryConfig, RetryPipeline, Telemetry};

fn provider_error(provider: &str, message: &str) -> LlmGatewayError {
    LlmGatewayError::Provider { provider: provider.to_string(), message: message.to_string() }
}

#[test]
fn retry_pipeline_retries_provider_errors() {
    let mut telemetry = Telemetry::new();
    let pipeline = RetryPipeline::new(
        RetryConfig { max_attempts: 2, initial_backoff_ms: 0, ..RetryConfig::default() },
    );
    let request = LlmRequest::new(ModelRoute::new("p", "m"), vec![LlmMessage::user("hi")]);
    let mut run = pipeline.start(&request);
    let mut calls = 0;
    let mut text = None;
    while let Some(call) = run.next_call(&mut telemetry) {
        calls += 1;
        if calls == 1 {
            let sleep = run.fail(&pipeline, provider_error("p", "transient"));
            assert_eq!(sleep, None);
        } else {
            assert_eq!(call.route.key(), "p:m");
            text = Some("ok".to_string());
            break;
        }
    }

    assert_eq!(text.as_deref(), Some("ok"));
    assert_eq!(calls, 2);
    assert_eq!(telemetry.snapshot().retry_attempts, 1);
}

#[test]
fn retry_pipeline_uses_fallback_routes() {
    let mut fallback_routes = KeyedMap::new();
    fallback_routes.insert("primary:a".to_string(), vec![ModelRoute::new("fallback", "b")]);
    let mut telemetry = Telemetry::new();
    let pipeline = RetryPipeline::new(
        RetryConfig { fallback_routes, initial_backoff_ms: 0, ..RetryConfig::default() },
    );
    let request = LlmRequest::new(ModelRoute::new("primary", "a"), Vec::new());
    let mut run = pipeline.start(&request);
    let mut answer = None;
    while let Some(call) = run.next_call(&mut telemetry) {
        if call.route.provider == "primary" {
            run.fail(&pipeline, provider_error("primary", "down"));
        } else {
            answer = Some(call.route.key());
            break;
        }
    }

    assert_eq!(answer.expect("fallback success"), "fallback:b");
}

#[test]
fn retry_exhaustion_reports_the_last_error() {
    let mut telemetry = Telemetry::new();
    let pipeline = RetryPipeline::new(
        RetryConfig { max_attempts: 3, initial_backoff_ms: 10, max_backoff_ms: 25, ..RetryConfig::default() },
    );
    let request = LlmRequest::new(ModelRoute::new("p", "m"), Vec::new());
    let mut run = pipeline.start(&request);
    let mut sleeps = Vec::new();
    while let Some(_call) = run.next_call(&mut telemetry) {
        sleeps.push(run.fail(&pipeline, provider_error("p", "boom")));
    }
    assert!(run.is_exhausted());
    assert_eq!(sleeps, vec![Some(10), Some(20), None]);
    let err = run.exhausted_error();
    assert!(matches!(
        &err,
        LlmGatewayError::RetryExhausted { route, attempts: 3, message }
            if route == "p:m" && message == "provider `p` failed: boom"
    ));
    assert_eq!(err.to_text(), "retry exhausted for `p:m` after 3 attempts: provider `p` failed: boom");
}

#[test]
fn non_provider_errors_move_to_the_next_route() {
    let mut telemetry = Telemetry::new();
    let pipeline = RetryPipeline::new(RetryConfig { max_attempts: 5, ..RetryConfig::default() });
    let request = LlmRequest::new(ModelRoute::new("p", "m"), Vec::new());
    let mut run = pipeline.start(&request);
    let mut calls = 0;
    while let Some(_call) = run.next_call(&mut telemetry) {
        calls += 1;
        assert_eq!(run.fail(&pipeline, LlmGatewayError::ModelNotLoaded("p:m".to_string())), None);
    }
    assert_eq!(calls, 1);
    assert!(!pipeline.should_retry(&LlmGatewayError::ModelNotLoaded("x".to_string())));
    assert!(pipeline.should_retry(&provider_error("p", "x")));
}

#[test]
fn backoff_doubles_and_saturates() {
    let pipeline = RetryPipeline::new(
        RetryConfig { initial_backoff_ms: 25, max_backoff_ms: u64::MAX, ..RetryConfig::default() },
    );
    assert_eq!(pipeline.backoff_ms(0), Some(25));
    assert_eq!(pipeline.backoff_ms(3), Some(200));
    assert_eq!(pipeline.backoff_ms(63), Some(u64::MAX));
    assert_eq!(pipeline.backoff_ms(64), Some(u64::MAX));
    let capped = RetryPipeline::new(RetryConfig::default());
    assert_eq!(capped.backoff_ms(10), Some(1_000));
    let routes = capped.routes_for(&ModelRoute::new("p", "m"));
    assert_eq!(routes, vec![ModelRoute::new("p", "m")]);
}
