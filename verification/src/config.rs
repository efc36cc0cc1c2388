//! Typed configuration of the gateway.

use vstd::prelude::*;
use vstd::string::*;
use crate::keyed::KeyedMap;
use crate::types::{JsonValue, ModelRoute, RouteView};

verus! {

/// Where a provider runs.
#[derive(Debug, Clone, Copy, PartialEq, Eq, Structural)]
pub enum ProviderType {
    Cloud,
    Local,
}

impl Default for ProviderType {
    fn default() -> (t: Self)
        ensures
            t == ProviderType::Cloud,
    {
        ProviderType::Cloud
    }
}

/// Where a model runs.
#[derive(Debug, Clone, Copy, PartialEq, Eq, Structural)]
pub enum RuntimeKind {
    Cloud,
    Local,
}

impl Default for RuntimeKind {
    fn default() -> (k: Self)
        ensures
            k == RuntimeKind::Cloud,
    {
        RuntimeKind::Cloud
    }
}

/// How to reach one provider.
#[derive(Debug, Clone)]
pub struct ProviderSettings {
    pub provider_type: ProviderType,
    pub base_url: Option<String>,
    pub api_key_env: Option<String>,
    pub timeout_seconds: u64,
    pub defaults: KeyedMap<JsonValue>,
}

impl Default for ProviderSettings {
    fn default() -> (s: Self)
        ensures
            s.provider_type == ProviderType::Cloud,
            s.base_url is None,
            s.api_key_env is None,
            s.timeout_seconds == 60,
            s.defaults@ == Map::<Seq<char>, Seq<char>>::empty(),
    {
        let defaults = KeyedMap::new();
        proof {
            assert(defaults@ =~= Map::<Seq<char>, Seq<char>>::empty());
        }
        ProviderSettings {
            provider_type: ProviderType::Cloud,
            base_url: None,
            api_key_env: None,
            timeout_seconds: 60,
            defaults,
        }
    }
}

/// One model the gateway knows of, with its resource needs.
#[derive(Debug, Clone)]
pub struct ModelConfig {
    pub route: ModelRoute,
    pub runtime: RuntimeKind,
    pub device: Option<String>,
    pub model_path: Option<String>,
    pub memory_bytes: u64,
    pub kv_cache_bytes: u64,
    pub context_tokens: u32,
    pub max_parallel_sequences: usize,
    pub ttl_seconds: u64,
    pub parameters: KeyedMap<JsonValue>,
}

impl Default for ModelConfig {
    fn default() -> (c: Self)
        ensures
            c.route@ == (RouteView { provider: Seq::empty(), model: Seq::empty() }),
            c.runtime == RuntimeKind::Cloud,
            c.device is None,
            c.model_path is None,
            c.memory_bytes == 0,
            c.kv_cache_bytes == 0,
            c.context_tokens == 4096,
            c.max_parallel_sequences == 1,
            c.ttl_seconds == 300,
            c.parameters@ == Map::<Seq<char>, Seq<char>>::empty(),
    {
        let parameters = KeyedMap::new();
        proof {
            assert(parameters@ =~= Map::<Seq<char>, Seq<char>>::empty());
        }
        let route = ModelRoute::default();
        proof {
            assert(route@ =~= (RouteView { provider: Seq::empty(), model: Seq::empty() }));
        }
        ModelConfig {
            route,
            runtime: RuntimeKind::Cloud,
            device: None,
            model_path: None,
            memory_bytes: 0,
            kv_cache_bytes: 0,
            context_tokens: 4096,
            max_parallel_sequences: 1,
            ttl_seconds: 300,
            parameters,
        }
    }
}

/// Limits of the execution scheduler.
#[derive(Debug, Clone, Copy, PartialEq, Eq, Structural)]
pub struct SchedulerConfig {
    pub max_queue_depth: usize,
    pub max_concurrent_tasks: usize,
    pub per_route_concurrency: usize,
    pub default_deadline_ms: u64,
}

impl Default for SchedulerConfig {
    fn default() -> (c: Self)
        ensures
            c == (SchedulerConfig {
                max_queue_depth: 1024,
                max_concurrent_tasks: 64,
                per_route_concurrency: 8,
                default_deadline_ms: 120_000,
            }),
    {
        SchedulerConfig {
            max_queue_depth: 1024,
            max_concurrent_tasks: 64,
            per_route_concurrency: 8,
            default_deadline_ms: 120_000,
        }
    }
}

/// Settings of the prompt cache.
#[derive(Debug, Clone, Copy, PartialEq, Eq, Structural)]
pub struct CacheConfig {
    pub enabled: bool,
    pub ttl_seconds: u64,
    pub max_entries: usize,
}

impl Default for CacheConfig {
    fn default() -> (c: Self)
        ensures
            c == (CacheConfig { enabled: true, ttl_seconds: 300, max_entries: 4096 }),
    {
        CacheConfig { enabled: true, ttl_seconds: 300, max_entries: 4096 }
    }
}

/// Retry and fallback policy.
#[derive(Debug, Clone)]
pub struct RetryConfig {
    pub max_attempts: usize,
    pub initial_backoff_ms: u64,
    pub max_backoff_ms: u64,
    pub retry_provider_errors: bool,
    /// Routes to try, in order, after the route whose key names the entry.
    pub fallback_routes: KeyedMap<Vec<ModelRoute>>,
}

impl Default for RetryConfig {
    fn default() -> (c: Self)
        ensures
            c.max_attempts == 1,
            c.initial_backoff_ms == 25,
            c.max_backoff_ms == 1_000,
            c.retry_provider_errors,
            c.fallback_routes.map() == Map::<Seq<char>, Vec<ModelRoute>>::empty(),
    {
        RetryConfig {
            max_attempts: 1,
            initial_backoff_ms: 25,
            max_backoff_ms: 1_000,
            retry_provider_errors: true,
            fallback_routes: KeyedMap::new(),
        }
    }
}

/// The whole gateway configuration.
#[derive(Debug, Clone)]
pub struct GatewayConfig {
    pub providers: KeyedMap<ProviderSettings>,
    /// Models, by the key of their route.
    pub models: KeyedMap<ModelConfig>,
    pub scheduler: SchedulerConfig,
    pub cache: CacheConfig,
    pub retry: RetryConfig,
    pub local_memory_budget_bytes: u64,
}

impl Default for GatewayConfig {
    fn default() -> (c: Self)
        ensures
            c.providers.map() == Map::<Seq<char>, ProviderSettings>::empty(),
            c.models.map() == Map::<Seq<char>, ModelConfig>::empty(),
            c.scheduler == (SchedulerConfig {
                max_queue_depth: 1024,
                max_concurrent_tasks: 64,
                per_route_concurrency: 8,
                default_deadline_ms: 120_000,
            }),
            c.cache == (CacheConfig { enabled: true, ttl_seconds: 300, max_entries: 4096 }),
            c.retry.max_attempts == 1,
            c.retry.initial_backoff_ms == 25,
            c.retry.max_backoff_ms == 1_000,
            c.retry.retry_provider_errors,
            c.retry.fallback_routes.map() == Map::<Seq<char>, Vec<ModelRoute>>::empty(),
            c.local_memory_budget_bytes == 0,
    {
        GatewayConfig {
            providers: KeyedMap::new(),
            models: KeyedMap::new(),
            scheduler: SchedulerConfig::default(),
            cache: CacheConfig::default(),
            retry: RetryConfig::default(),
            local_memory_budget_bytes: 0,
        }
    }
}

/// The model a route resolves to: by its full key, else by its model name alone.
pub open spec fn model_lookup(models: Map<Seq<char>, ModelConfig>, route: RouteView) -> Option<ModelConfig> {
    if models.contains_key(route.key()) {
        Some(models[route.key()])
    } else if models.contains_key(route.model) {
        Some(models[route.model])
    } else {
        None
    }
}

impl GatewayConfig {
    /// The configured model of `route`.
    pub fn model(&self, route: &ModelRoute) -> (r: Option<&ModelConfig>)
        ensures
            match r {
                Some(c) => model_lookup(self.models.map(), route@) == Some(*c),
                None => (model_lookup(self.models.map(), route@) is None),
            },
    {
        let key = route.key();
        match self.models.get(key.as_str()) {
            Some(c) => Some(c),
            None => self.models.get(route.model.as_str()),
        }
    }

    /// The same configuration, with `model` registered under its route's key.
    pub fn with_model(self, model: ModelConfig) -> (c: Self)
        ensures
            c.models.map() == self.models.map().insert(model.route@.key(), model),
            c.providers == self.providers,
            c.scheduler == self.scheduler,
            c.cache == self.cache,
            c.retry == self.retry,
            c.local_memory_budget_bytes == self.local_memory_budget_bytes,
    {
        let mut c = self;
        let key = model.route.key();
        c.models.insert(key, model);
        c
    }

    /// The same configuration, with `provider` registered under `name`.
    pub fn with_provider(self, name: &str, provider: ProviderSettings) -> (c: Self)
        ensures
            c.providers.map() == self.providers.map().insert(name@, provider),
            c.models == self.models,
            c.scheduler == self.scheduler,
            c.cache == self.cache,
            c.retry == self.retry,
            c.local_memory_budget_bytes == self.local_memory_budget_bytes,
    {
        let mut c = self;
        c.providers.insert(String::from_str(name), provider);
        c
    }
}

/// A model registered under its route's key is what that route resolves to.
pub proof fn law_registered_model_is_found(models: Map<Seq<char>, ModelConfig>, model: ModelConfig)
    ensures
        model_lookup(models.insert(model.route@.key(), model), model.route@) == Some(model),
{
}

} // verus!
