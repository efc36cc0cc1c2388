//! Counters of what the gateway did.

use vstd::prelude::*;
use crate::types::ModelRoute;

verus! {

/// The counters. Each one counts modulo 2^64, as an atomic counter does.
#[derive(Debug, Clone, Copy, PartialEq, Eq, Structural)]
pub struct GatewayMetrics {
    pub cache_hits: u64,
    pub cache_misses: u64,
    pub scheduled_tasks: u64,
    pub queue_rejections: u64,
    pub retry_attempts: u64,
    pub model_loads: u64,
    pub model_unloads: u64,
}

/// The counters read at one moment.
#[derive(Debug, Clone, Copy, PartialEq, Eq, Structural)]
pub struct GatewayMetricsSnapshot {
    pub cache_hits: u64,
    pub cache_misses: u64,
    pub scheduled_tasks: u64,
    pub queue_rejections: u64,
    pub retry_attempts: u64,
    pub model_loads: u64,
    pub model_unloads: u64,
}

/// One more, wrapping to zero past the largest value.
pub open spec fn bumped(n: u64) -> u64 {
    if n == u64::MAX { 0 } else { (n + 1) as u64 }
}

fn bump(n: u64) -> (r: u64)
    ensures
        r == bumped(n),
{
    if n == u64::MAX { 0 } else { n + 1 }
}

/// All counters at zero.
pub open spec fn zero_metrics() -> GatewayMetrics {
    GatewayMetrics {
        cache_hits: 0,
        cache_misses: 0,
        scheduled_tasks: 0,
        queue_rejections: 0,
        retry_attempts: 0,
        model_loads: 0,
        model_unloads: 0,
    }
}

/// The snapshot that reads the counters `m`.
pub open spec fn snapshot_of(m: GatewayMetrics) -> GatewayMetricsSnapshot {
    GatewayMetricsSnapshot {
        cache_hits: m.cache_hits,
        cache_misses: m.cache_misses,
        scheduled_tasks: m.scheduled_tasks,
        queue_rejections: m.queue_rejections,
        retry_attempts: m.retry_attempts,
        model_loads: m.model_loads,
        model_unloads: m.model_unloads,
    }
}

impl GatewayMetrics {
    pub fn snapshot(&self) -> (s: GatewayMetricsSnapshot)
        ensures
            s == snapshot_of(*self),
    {
        GatewayMetricsSnapshot {
            cache_hits: self.cache_hits,
            cache_misses: self.cache_misses,
            scheduled_tasks: self.scheduled_tasks,
            queue_rejections: self.queue_rejections,
            retry_attempts: self.retry_attempts,
            model_loads: self.model_loads,
            model_unloads: self.model_unloads,
        }
    }
}

impl Default for GatewayMetrics {
    fn default() -> (m: Self)
        ensures
            m == zero_metrics(),
    {
        GatewayMetrics {
            cache_hits: 0,
            cache_misses: 0,
            scheduled_tasks: 0,
            queue_rejections: 0,
            retry_attempts: 0,
            model_loads: 0,
            model_unloads: 0,
        }
    }
}

/// The recorder of a gateway's events. A gateway has one, and its
/// components keep none of their own: each call that records is lent the one
/// recorder (`&mut Telemetry`), so the events of every component add up in
/// the same counters, which `metrics` and `snapshot` read.
#[derive(Debug)]
pub struct Telemetry {
    metrics: GatewayMetrics,
}

impl View for Telemetry {
    type V = GatewayMetrics;

    closed spec fn view(&self) -> GatewayMetrics {
        self.metrics
    }
}

impl Default for Telemetry {
    fn default() -> (t: Self)
        ensures
            t@ == zero_metrics(),
    {
        Telemetry { metrics: GatewayMetrics::default() }
    }
}

impl Telemetry {
    pub fn new() -> (t: Self)
        ensures
            t@ == zero_metrics(),
    {
        Telemetry::default()
    }

    /// The counters.
    pub fn metrics(&self) -> (m: &GatewayMetrics)
        ensures
            *m == self@,
    {
        &self.metrics
    }

    pub fn snapshot(&self) -> (s: GatewayMetricsSnapshot)
        ensures
            s == snapshot_of(self@),
    {
        self.metrics.snapshot()
    }

    pub fn record_cache_hit(&mut self, _route: &ModelRoute)
        ensures
            final(self)@ == (GatewayMetrics { cache_hits: bumped(old(self)@.cache_hits), ..old(self)@ }),
    {
        self.metrics.cache_hits = bump(self.metrics.cache_hits);
    }

    pub fn record_cache_miss(&mut self, _route: &ModelRoute)
        ensures
            final(self)@ == (GatewayMetrics { cache_misses: bumped(old(self)@.cache_misses), ..old(self)@ }),
    {
        self.metrics.cache_misses = bump(self.metrics.cache_misses);
    }

    pub fn record_scheduled_task(&mut self, _route: &ModelRoute)
        ensures
            final(self)@ == (GatewayMetrics { scheduled_tasks: bumped(old(self)@.scheduled_tasks), ..old(self)@ }),
    {
        self.metrics.scheduled_tasks = bump(self.metrics.scheduled_tasks);
    }

    pub fn record_queue_rejection(&mut self)
        ensures
            final(self)@ == (GatewayMetrics { queue_rejections: bumped(old(self)@.queue_rejections), ..old(self)@ }),
    {
        self.metrics.queue_rejections = bump(self.metrics.queue_rejections);
    }

    pub fn record_retry_attempt(&mut self, _route: &ModelRoute)
        ensures
            final(self)@ == (GatewayMetrics { retry_attempts: bumped(old(self)@.retry_attempts), ..old(self)@ }),
    {
        self.metrics.retry_attempts = bump(self.metrics.retry_attempts);
    }

    pub fn record_model_load(&mut self, _route: &ModelRoute)
        ensures
            final(self)@ == (GatewayMetrics { model_loads: bumped(old(self)@.model_loads), ..old(self)@ }),
    {
        self.metrics.model_loads = bump(self.metrics.model_loads);
    }

    pub fn record_model_unload(&mut self, _route: &ModelRoute)
        ensures
            final(self)@ == (GatewayMetrics { model_unloads: bumped(old(self)@.model_unloads), ..old(self)@ }),
    {
        self.metrics.model_unloads = bump(self.metrics.model_unloads);
    }
}

} // verus!
