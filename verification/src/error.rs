//! The gateway's error type and the text of each error.

use vstd::prelude::*;
use vstd::string::*;
use crate::text::{decimal_string, decimal_text};

verus! {

/// Every way a gateway operation can fail.
#[derive(Debug)]
pub enum LlmGatewayError {
    UnknownProvider(String),
    Provider { provider: String, message: String },
    RouteDenied(String),
    Config { message: String },
    QueueFull { capacity: usize },
    RouteBusy { route: String, limit: usize },
    DeadlineExceeded { request_id: String },
    ModelNotLoaded(String),
    InsufficientMemory { route: String, requested_bytes: u64, available_bytes: u64 },
    CacheBackend { message: String },
    RetryExhausted { route: String, attempts: usize, message: String },
    Runtime { runtime: String, message: String },
}

/// The human-readable text of an error.
pub open spec fn error_text(e: LlmGatewayError) -> Seq<char> {
    match e {
        LlmGatewayError::UnknownProvider(name) =>
            "no LLM provider registered for `"@ + name@ + "`"@,
        LlmGatewayError::Provider { provider, message } =>
            "provider `"@ + provider@ + "` failed: "@ + message@,
        LlmGatewayError::RouteDenied(route) =>
            "model route `"@ + route@ + "` is not allowed by the effective capability grant"@,
        LlmGatewayError::Config { message } =>
            "gateway configuration failed: "@ + message@,
        LlmGatewayError::QueueFull { capacity } =>
            "scheduler queue is full at capacity "@ + decimal_text(capacity as nat),
        LlmGatewayError::RouteBusy { route, limit } =>
            "route `"@ + route@ + "` is already at its concurrency limit of "@ + decimal_text(limit as nat),
        LlmGatewayError::DeadlineExceeded { request_id } =>
            "request `"@ + request_id@ + "` exceeded its deadline"@,
        LlmGatewayError::ModelNotLoaded(model) =>
            "model `"@ + model@ + "` is not loaded"@,
        LlmGatewayError::InsufficientMemory { route, requested_bytes, available_bytes } =>
            "insufficient memory for `"@ + route@ + "`: requested "@ + decimal_text(requested_bytes as nat)
                + " bytes with "@ + decimal_text(available_bytes as nat) + " bytes available"@,
        LlmGatewayError::CacheBackend { message } =>
            "cache backend failed: "@ + message@,
        LlmGatewayError::RetryExhausted { route, attempts, message } =>
            "retry exhausted for `"@ + route@ + "` after "@ + decimal_text(attempts as nat)
                + " attempts: "@ + message@,
        LlmGatewayError::Runtime { runtime, message } =>
            "runtime `"@ + runtime@ + "` failed: "@ + message@,
    }
}

/// `head + middle + tail` as one string.
fn framed(head: &str, middle: &str, tail: &str) -> (s: String)
    ensures
        s@ == head@ + middle@ + tail@,
{
    let mut s = String::from_str(head);
    s.append(middle);
    s.append(tail);
    s
}

impl LlmGatewayError {
    /// Whether this is a failure reported by a provider.
    pub open spec fn is_provider(&self) -> bool {
        self is Provider
    }

    /// The error's text, as its `Display` writes it.
    pub fn to_text(&self) -> (s: String)
        ensures
            s@ == error_text(*self),
    {
        match self {
            LlmGatewayError::UnknownProvider(name) =>
                framed("no LLM provider registered for `", name.as_str(), "`"),
            LlmGatewayError::Provider { provider, message } =>
                framed("provider `", provider.as_str(), "` failed: ").concat(message.as_str()),
            LlmGatewayError::RouteDenied(route) =>
                framed("model route `", route.as_str(), "` is not allowed by the effective capability grant"),
            LlmGatewayError::Config { message } =>
                String::from_str("gateway configuration failed: ").concat(message.as_str()),
            LlmGatewayError::QueueFull { capacity } => {
                let n = decimal_string(*capacity as u64);
                String::from_str("scheduler queue is full at capacity ").concat(n.as_str())
            },
            LlmGatewayError::RouteBusy { route, limit } => {
                let n = decimal_string(*limit as u64);
                framed("route `", route.as_str(), "` is already at its concurrency limit of ").concat(n.as_str())
            },
            LlmGatewayError::DeadlineExceeded { request_id } =>
                framed("request `", request_id.as_str(), "` exceeded its deadline"),
            LlmGatewayError::ModelNotLoaded(model) =>
                framed("model `", model.as_str(), "` is not loaded"),
            LlmGatewayError::InsufficientMemory { route, requested_bytes, available_bytes } => {
                let r = decimal_string(*requested_bytes);
                let a = decimal_string(*available_bytes);
                let s = framed("insufficient memory for `", route.as_str(), "`: requested ");
                let s = s.concat(r.as_str()).concat(" bytes with ");
                s.concat(a.as_str()).concat(" bytes available")
            },
            LlmGatewayError::CacheBackend { message } =>
                String::from_str("cache backend failed: ").concat(message.as_str()),
            LlmGatewayError::RetryExhausted { route, attempts, message } => {
                let n = decimal_string(*attempts as u64);
                let s = framed("retry exhausted for `", route.as_str(), "` after ");
                s.concat(n.as_str()).concat(" attempts: ").concat(message.as_str())
            },
            LlmGatewayError::Runtime { runtime, message } =>
                framed("runtime `", runtime.as_str(), "` failed: ").concat(message.as_str()),
        }
    }
}

} // verus!
