//! A gateway for routing LLM requests: routing contracts, provider
//! registration, admission scheduling, prompt caching, retries and local
//! model bookkeeping, with the decisions of each verified.

pub mod text;
pub mod keyed;
pub mod error;
pub mod types;
pub mod telemetry;
pub mod config;
pub mod local;
pub mod cache;
pub mod scheduler;
pub mod retry;
pub mod gateway;
pub mod providers;

pub use cache::{CacheKey, PromptCache};
pub use config::{
    CacheConfig, GatewayConfig, ModelConfig, ProviderSettings, ProviderType, RetryConfig, RuntimeKind,
    SchedulerConfig,
};
pub use error::LlmGatewayError;
pub use gateway::LlmGateway;
pub use keyed::KeyedMap;
pub use providers::ProviderRuntime;
pub use retry::{RetryPipeline, RetryRun};
pub use scheduler::ExecutionScheduler;
pub use telemetry::{GatewayMetrics, GatewayMetricsSnapshot, Telemetry};
pub use types::{
    JsonValue, LlmMessage, LlmRequest, LlmResponse, LlmStreamEvent, LlmTool, LlmToolCall, ModelInfo,
    ModelLoadReason, ModelLoadRequest, ModelRoute, ModelState, TokenUsage,
};
