use fastllm::local::{InferenceSlots, KvCacheManager, MemoryManager, ModelRegistry, SlotState};
use fastllm::{LlmGatewayError, ModelConfig, ModelLoadReason, ModelRoute, RuntimeKind, Telemetry};

#[test]
fn memory_manager_rejects_oversized_models() {
    let mut memory = MemoryManager::new(10);
    let err = memory.reserve("local:large", 11).expect_err("oom");

    assert!(matches!(
        err,
        LlmGatewayError::InsufficientMemory {
            route,
            requested_bytes: 11,
            available_bytes: 10
        } if route == "local:large"
    ));
}

#[test]
fn slots_only_acquire_matching_idle_route() {
    let route = ModelRoute::new("local", "a");
    let mut slots = InferenceSlots::new(route.clone(), 1);

    assert_eq!(slots.acquire(&route), Some(0));
    assert_eq!(slots.acquire(&route), None);
    slots.set_state(0, SlotState::Idle);
    assert_eq!(slots.acquire(&route), Some(0));
}

#[test]
fn kv_cache_tracks_prefixes_by_route() {
    let mut kv = KvCacheManager::default();
    let route = ModelRoute::new("local", "a");

    kv.remember_prefix(&route, "abc");

    assert!(kv.has_prefix(&route, "abc"));
    assert!(!kv.has_prefix(&ModelRoute::new("local", "b"), "abc"));
}

#[test]
fn registry_loads_and_unloads_with_ttl() {
    let mut telemetry = Telemetry::new();
    let mut registry = ModelRegistry::new(2_000);
    registry.register(ModelConfig {
        route: ModelRoute::new("local", "tiny"),
        runtime: RuntimeKind::Local,
        memory_bytes: 1_000,
        ttl_seconds: 1,
        ..ModelConfig::default()
    });

    let info = registry
        .load(&ModelRoute::new("local", "tiny"), 10, ModelLoadReason::Explicit, &mut telemetry)
        .expect("load");
    assert!(info.loaded);
    assert_eq!(registry.used_memory_bytes(), 1_000);

    let unloaded = registry.unload_expired(1_010, &mut telemetry);
    assert_eq!(unloaded.len(), 1);
    assert_eq!(registry.used_memory_bytes(), 0);
}

#[test]
fn memory_reservation_replaces_and_releases() {
    let mut memory = MemoryManager::new(100);
    memory.reserve("a", 60).expect("first");
    memory.reserve("a", 70).expect("replacement fits the same budget");
    assert_eq!(memory.used(), 70);
    let err = memory.reserve("b", 31).expect_err("over budget");
    assert!(matches!(
        err,
        LlmGatewayError::InsufficientMemory { requested_bytes: 31, available_bytes: 30, .. }
    ));
    memory.reserve("b", 30).expect("exactly fits");
    assert_eq!(memory.used(), 100);
    memory.release("a");
    assert_eq!(memory.used(), 30);
    memory.release("missing");
    assert_eq!(memory.used(), 30);
}

#[test]
fn registry_rejects_second_model_over_budget() {
    const GIB: u64 = 1024 * 1024 * 1024;
    let small = ModelRoute::new("local", "small");
    let large = ModelRoute::new("local", "large");
    let mut telemetry = Telemetry::new();
    let mut registry = ModelRegistry::new(10 * GIB);
    registry.register(ModelConfig {
        route: small.clone(),
        runtime: RuntimeKind::Local,
        memory_bytes: 6 * GIB,
        kv_cache_bytes: 2 * GIB,
        ttl_seconds: 600,
        ..ModelConfig::default()
    });
    registry.register(ModelConfig {
        route: large.clone(),
        runtime: RuntimeKind::Local,
        memory_bytes: 8 * GIB,
        kv_cache_bytes: 4 * GIB,
        ttl_seconds: 600,
        ..ModelConfig::default()
    });

    let loaded = registry.load(&small, 0, ModelLoadReason::Explicit, &mut telemetry).expect("small fits");
    assert_eq!(loaded.memory_bytes / GIB, 6);
    assert_eq!(loaded.kv_cache_bytes / GIB, 2);
    assert_eq!(loaded.expires_at_ms, Some(600_000));
    let err = registry.load(&large, 0, ModelLoadReason::Explicit, &mut telemetry).expect_err("large exceeds the rest");
    assert!(matches!(
        err,
        LlmGatewayError::InsufficientMemory { requested_bytes, available_bytes, .. }
            if requested_bytes == 12 * GIB && available_bytes == 2 * GIB
    ));
    assert_eq!(telemetry.snapshot().model_loads, 1);
}

#[test]
fn registry_reports_unknown_models() {
    let mut telemetry = Telemetry::new();
    let mut registry = ModelRegistry::new(10);
    let err = registry.load(&ModelRoute::new("local", "x"), 0, ModelLoadReason::OnDemand, &mut telemetry).expect_err("unknown");
    assert!(matches!(err, LlmGatewayError::ModelNotLoaded(key) if key == "local:x"));
    assert!(registry.info(&ModelRoute::new("local", "x")).is_none());
    assert!(registry.touch(&ModelRoute::new("local", "x"), 5).is_err());
}

#[test]
fn registry_touch_extends_lifetime_of_resident_models() {
    let route = ModelRoute::new("local", "m");
    let mut telemetry = Telemetry::new();
    let mut registry = ModelRegistry::new(100);
    registry.register(ModelConfig {
        route: route.clone(),
        memory_bytes: 10,
        ttl_seconds: 2,
        ..ModelConfig::default()
    });
    let idle = registry.touch(&route, 50).expect("known");
    assert!(!idle.loaded);
    assert_eq!(idle.expires_at_ms, None);
    registry.load(&route, 100, ModelLoadReason::OnDemand, &mut telemetry).expect("load");
    let touched = registry.touch(&route, 1_000).expect("known");
    assert_eq!(touched.expires_at_ms, Some(3_000));
    assert!(registry.unload_expired(2_999, &mut telemetry).is_empty());
    let unloaded = registry.unload_expired(3_000, &mut telemetry);
    assert_eq!(unloaded.len(), 1);
    assert!(!unloaded[0].loaded);
    assert_eq!(registry.info(&route).expect("known").state, fastllm::ModelState::Unloaded);
    assert_eq!(telemetry.snapshot().model_unloads, 1);
}

#[test]
fn slots_track_state_by_id() {
    let route = ModelRoute::new("local", "a");
    let mut slots = InferenceSlots::new(route.clone(), 0);
    assert_eq!(slots.acquire(&ModelRoute::new("local", "b")), None);
    assert_eq!(slots.acquire(&route), Some(0));
    slots.set_state(7, SlotState::Idle);
    assert_eq!(slots.acquire(&route), None);
    slots.set_state(0, SlotState::Done);
    assert_eq!(slots.acquire(&route), None);
    let mut two = InferenceSlots::new(route.clone(), 2);
    assert_eq!(two.acquire(&route), Some(0));
    assert_eq!(two.acquire(&route), Some(1));
    assert_eq!(two.acquire(&route), None);
}

#[test]
fn kv_cache_keeps_every_prefix() {
    let mut kv = KvCacheManager::default();
    let route = ModelRoute::new("local", "a");
    kv.remember_prefix(&route, "p1");
    kv.remember_prefix(&route, "p2");
    assert!(kv.has_prefix(&route, "p1"));
    assert!(kv.has_prefix(&route, "p2"));
    assert!(!kv.has_prefix(&route, "p3"));
}
