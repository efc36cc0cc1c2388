use fastllm::scheduler::{request_name_of, timed_result};
use fastllm::{ExecutionScheduler, LlmGatewayError, LlmMessage, LlmRequest, LlmResponse, ModelRoute, SchedulerConfig, Telemetry};

#[test]
fn scheduler_executes_operation() {
    let mut telemetry = Telemetry::new();
    let mut scheduler = ExecutionScheduler::new(SchedulerConfig::default());
    let request = LlmRequest::new(ModelRoute::new("p", "m"), vec![LlmMessage::user("hi")]);

    scheduler.enqueue(&mut telemetry).expect("queued");
    let route_key = scheduler.dispatch(&request, &mut telemetry).expect("dispatched");
    let result = timed_result(
        Some(Ok(LlmResponse { text: "done".to_string(), reasoning: None, tool_calls: Vec::new(), usage: None })),
        request_name_of(&request),
    );
    scheduler.finish(&route_key);
    let response = result.expect("scheduled");

    assert_eq!(response.text, "done");
    assert_eq!(scheduler.queued(), 0);
    assert_eq!(telemetry.snapshot().scheduled_tasks, 1);
}

#[test]
fn scheduler_enforces_deadline() {
    let scheduler = ExecutionScheduler::new(
        SchedulerConfig { default_deadline_ms: 1, ..SchedulerConfig::default() },
    );
    let request = LlmRequest::new(ModelRoute::new("p", "m"), Vec::new()).with_request_id("deadline");
    assert_eq!(scheduler.deadline_ms(&request), 1);

    let err = timed_result(None, request_name_of(&request)).expect_err("deadline");

    assert!(matches!(
        err,
        LlmGatewayError::DeadlineExceeded { request_id } if request_id == "deadline"
    ));
}

#[test]
fn scheduler_rejects_when_queue_full() {
    let mut telemetry = Telemetry::new();
    let mut scheduler = ExecutionScheduler::new(
        SchedulerConfig { max_queue_depth: 1, ..SchedulerConfig::default() },
    );
    scheduler.enqueue(&mut telemetry).expect("first fits");
    let err = scheduler.enqueue(&mut telemetry).expect_err("second waits beyond the depth");
    assert!(matches!(err, LlmGatewayError::QueueFull { capacity: 1 }));
    assert_eq!(scheduler.queued(), 1);
    assert_eq!(telemetry.snapshot().queue_rejections, 1);
}

#[test]
fn scheduler_limits_each_route() {
    let mut telemetry = Telemetry::new();
    let mut scheduler = ExecutionScheduler::new(
        SchedulerConfig { per_route_concurrency: 1, max_concurrent_tasks: 0, ..SchedulerConfig::default() },
    );
    assert_eq!(scheduler.permits(), 1);
    let a = LlmRequest::new(ModelRoute::new("local", "a"), Vec::new());
    let b = LlmRequest::new(ModelRoute::new("local", "b"), Vec::new());
    scheduler.enqueue(&mut telemetry).expect("a");
    let key_a = scheduler.dispatch(&a, &mut telemetry).expect("a runs");
    assert_eq!(key_a, "local:a");
    scheduler.enqueue(&mut telemetry).expect("a again");
    let err = scheduler.dispatch(&a, &mut telemetry).expect_err("a is busy");
    assert!(matches!(err, LlmGatewayError::RouteBusy { route, limit: 1 } if route == "local:a"));
    scheduler.enqueue(&mut telemetry).expect("b");
    scheduler.dispatch(&b, &mut telemetry).expect("b runs beside a");
    scheduler.finish(&key_a);
    scheduler.enqueue(&mut telemetry).expect("a once more");
    scheduler.dispatch(&a, &mut telemetry).expect("a runs after finishing");
}

#[test]
fn deadlines_default_and_never_zero() {
    let scheduler = ExecutionScheduler::new(SchedulerConfig::default());
    let plain = LlmRequest::new(ModelRoute::new("p", "m"), Vec::new());
    assert_eq!(scheduler.deadline_ms(&plain), 120_000);
    assert_eq!(scheduler.deadline_ms(&plain.clone().with_deadline_ms(0)), 1);
    assert_eq!(scheduler.deadline_ms(&plain.clone().with_deadline_ms(5_000)), 5_000);
    assert_eq!(request_name_of(&plain), "p:m");
}
