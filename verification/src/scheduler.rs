//! Admission decisions of the execution scheduler: a bounded queue, a
//! concurrency limit per route, and the deadline of each request. Waiting for
//! a permit and timing the operation out are the caller's work; the
//! scheduler decides and keeps the counts.

use vstd::prelude::*;
use vstd::string::*;
use crate::config::SchedulerConfig;
use crate::error::LlmGatewayError;
use crate::keyed::KeyedMap;
use crate::telemetry::{bumped, GatewayMetrics, Telemetry};
use crate::types::{opt_text, LlmRequest, LlmResponse, RequestView};

verus! {

/// The counts of a scheduler: requests waiting for a permit, and requests
/// running per route key.
pub struct SchedulerView {
    pub config: SchedulerConfig,
    pub queued: usize,
    pub route_counts: Map<Seq<char>, usize>,
}

/// How many requests of one route may run at once.
pub open spec fn route_limit(config: SchedulerConfig) -> usize {
    if config.per_route_concurrency == 0 { 1 } else { config.per_route_concurrency }
}

/// How many requests may run at once.
pub open spec fn permit_count(config: SchedulerConfig) -> usize {
    if config.max_concurrent_tasks == 0 { 1 } else { config.max_concurrent_tasks }
}

/// Running requests of a route key.
pub open spec fn running(counts: Map<Seq<char>, usize>, key: Seq<char>) -> nat {
    if counts.contains_key(key) { counts[key] as nat } else { 0 }
}

/// The counts once a request of `key` starts.
pub open spec fn entered(counts: Map<Seq<char>, usize>, key: Seq<char>) -> Map<Seq<char>, usize> {
    counts.insert(key, (running(counts, key) + 1) as usize)
}

/// The counts once a request of `key` ends: the count drops, and a route
/// with none running is forgotten.
pub open spec fn exited(counts: Map<Seq<char>, usize>, key: Seq<char>) -> Map<Seq<char>, usize> {
    if !counts.contains_key(key) {
        counts
    } else if counts[key] <= 1 {
        counts.remove(key)
    } else {
        counts.insert(key, (counts[key] - 1) as usize)
    }
}

/// Every route count lies between one and the route limit.
pub open spec fn counts_valid(counts: Map<Seq<char>, usize>, limit: usize) -> bool {
    forall|k: Seq<char>| #[trigger] counts.contains_key(k) ==> 0 < counts[k] <= limit
}

/// The deadline of a request: its own, else the default, and at least one millisecond.
pub open spec fn deadline_of(config: SchedulerConfig, r: RequestView) -> u64 {
    let d = match r.deadline_ms {
        Some(d) => d,
        None => config.default_deadline_ms,
    };
    if d == 0 { 1 } else { d }
}

/// The name a request is reported under: its id, else its route key.
pub open spec fn request_name(r: RequestView) -> Seq<char> {
    match r.request_id {
        Some(id) => id,
        None => r.route.key(),
    }
}

/// Counts and limits of requests in flight.
#[derive(Debug)]
pub struct ExecutionScheduler {
    config: SchedulerConfig,
    queued: usize,
    route_counts: KeyedMap<usize>,
}

impl View for ExecutionScheduler {
    type V = SchedulerView;

    closed spec fn view(&self) -> SchedulerView {
        SchedulerView {
            config: self.config,
            queued: self.queued,
            route_counts: self.route_counts.map(),
        }
    }
}

impl ExecutionScheduler {
    /// The queue never holds more than its depth, and no route runs more than
    /// its limit.
    #[verifier::type_invariant]
    closed spec fn within_limits(&self) -> bool {
        &&& self.queued <= self.config.max_queue_depth
        &&& counts_valid(self.route_counts.map(), route_limit(self.config))
    }

    /// What every scheduler keeps: the queue within its depth, and each route
    /// count between one and the route limit.
    pub fn limits_facts(&self)
        ensures
            self@.queued <= self@.config.max_queue_depth,
            counts_valid(self@.route_counts, route_limit(self@.config)),
    {
        proof {
            use_type_invariant(self);
        }
    }

    pub fn new(config: SchedulerConfig) -> (s: Self)
        ensures
            s@.config == config,
            s@.queued == 0,
            s@.route_counts == Map::<Seq<char>, usize>::empty(),
    {
        ExecutionScheduler { config, queued: 0, route_counts: KeyedMap::new() }
    }

    /// Requests waiting for a permit.
    pub fn queued(&self) -> (n: usize)
        ensures
            n == self@.queued,
    {
        self.queued
    }

    /// The number of permits: how many requests may run at once.
    pub fn permits(&self) -> (n: usize)
        ensures
            n == permit_count(self@.config),
    {
        if self.config.max_concurrent_tasks == 0 { 1 } else { self.config.max_concurrent_tasks }
    }

    /// Takes a request into the queue, unless the queue is full; a refusal
    /// is recorded on `telemetry`.
    pub fn enqueue(&mut self, telemetry: &mut Telemetry) -> (r: Result<(), LlmGatewayError>)
        ensures
            r is Ok <==> old(self)@.queued < old(self)@.config.max_queue_depth,
            r is Ok ==> final(self)@ == (SchedulerView { queued: (old(self)@.queued + 1) as usize, ..old(self)@ })
                && final(telemetry)@ == old(telemetry)@,
            r is Err ==> final(self)@ == old(self)@
                && final(telemetry)@ == (GatewayMetrics { queue_rejections: bumped(old(telemetry)@.queue_rejections), ..old(telemetry)@ }),
            r matches Err(e) ==> e == (LlmGatewayError::QueueFull { capacity: old(self)@.config.max_queue_depth }),
    {
        proof {
            use_type_invariant(&*self);
        }
        if self.queued >= self.config.max_queue_depth {
            telemetry.record_queue_rejection();
            return Err(LlmGatewayError::QueueFull { capacity: self.config.max_queue_depth });
        }
        self.queued = self.queued + 1;
        Ok(())
    }

    /// Starts a queued request that holds a permit: it leaves the queue and,
    /// unless its route is at its limit, counts as running. On success the
    /// route key is handed back, to end the request with, and the start is
    /// recorded on `telemetry`.
    pub fn dispatch(&mut self, request: &LlmRequest, telemetry: &mut Telemetry) -> (r: Result<String, LlmGatewayError>)
        requires
            old(self)@.queued > 0,
        ensures
            final(self)@.queued == old(self)@.queued - 1,
            final(self)@.config == old(self)@.config,
            r is Ok <==> running(old(self)@.route_counts, request@.route.key()) < route_limit(old(self)@.config),
            r matches Ok(key) ==> key@ == request@.route.key()
                && final(self)@.route_counts == entered(old(self)@.route_counts, request@.route.key())
                && final(telemetry)@ == (GatewayMetrics {
                    scheduled_tasks: bumped(old(telemetry)@.scheduled_tasks),
                    ..old(telemetry)@
                }),
            r is Err ==> final(self)@.route_counts == old(self)@.route_counts
                && final(telemetry)@ == old(telemetry)@,
            r matches Err(e) ==> e matches LlmGatewayError::RouteBusy { route, limit }
                && route@ == request@.route.key()
                && limit == route_limit(old(self)@.config),
    {
        proof {
            use_type_invariant(&*self);
        }
        self.queued = self.queued - 1;
        let key = request.route.key();
        let limit: usize = if self.config.per_route_concurrency == 0 { 1 } else { self.config.per_route_concurrency };
        let count: usize = match self.route_counts.get(key.as_str()) {
            Some(c) => *c,
            None => 0,
        };
        if count >= limit {
            return Err(LlmGatewayError::RouteBusy { route: key, limit });
        }
        let mut counts = KeyedMap::new();
        std::mem::swap(&mut counts, &mut self.route_counts);
        counts.insert(key.clone(), count + 1);
        self.route_counts = counts;
        telemetry.record_scheduled_task(&request.route);
        Ok(key)
    }

    /// Ends a running request of the route with key `route_key`.
    pub fn finish(&mut self, route_key: &str)
        ensures
            final(self)@ == (SchedulerView { route_counts: exited(old(self)@.route_counts, route_key@), ..old(self)@ }),
    {
        proof {
            use_type_invariant(&*self);
        }
        let count: usize = match self.route_counts.get(route_key) {
            Some(c) => *c,
            None => {
                return;
            },
        };
        let mut counts = KeyedMap::new();
        std::mem::swap(&mut counts, &mut self.route_counts);
        if count <= 1 {
            let _ = counts.remove(route_key);
        } else {
            counts.insert(String::from_str(route_key), count - 1);
        }
        self.route_counts = counts;
    }

    /// The deadline of `request`, in milliseconds.
    pub fn deadline_ms(&self, request: &LlmRequest) -> (d: u64)
        ensures
            d == deadline_of(self@.config, request@),
            d >= 1,
    {
        let d = match request.deadline_ms {
            Some(d) => d,
            None => self.config.default_deadline_ms,
        };
        if d == 0 { 1 } else { d }
    }
}

/// The name `request` is reported under.
pub fn request_name_of(request: &LlmRequest) -> (s: String)
    ensures
        s@ == request_name(request@),
{
    match &request.request_id {
        Some(id) => id.clone(),
        None => request.route.key(),
    }
}

/// The result of a scheduled request: what the operation returned, or, if it
/// did not finish by its deadline, `DeadlineExceeded` under the request's name.
pub fn timed_result(finished: Option<Result<LlmResponse, LlmGatewayError>>, request_name: String) -> (r: Result<LlmResponse, LlmGatewayError>)
    ensures
        finished matches Some(x) ==> r == x,
        finished is None ==> r == Err::<LlmResponse, LlmGatewayError>(LlmGatewayError::DeadlineExceeded { request_id: request_name }),
{
    match finished {
        Some(result) => result,
        None => Err(LlmGatewayError::DeadlineExceeded { request_id: request_name }),
    }
}

/// Starting and then ending a request of a route leaves the counts as they were.
pub proof fn law_enter_exit_round_trip(counts: Map<Seq<char>, usize>, key: Seq<char>, limit: usize)
    requires
        counts_valid(counts, limit),
        running(counts, key) < limit,
    ensures
        exited(entered(counts, key), key) == counts,
        counts_valid(entered(counts, key), limit),
{
    if counts.contains_key(key) {
        assert(entered(counts, key)[key] == counts[key] + 1);
        assert(exited(entered(counts, key), key) =~= counts);
    } else {
        assert(exited(entered(counts, key), key) =~= counts);
    }
}

/// Ending a request keeps every count between one and the limit.
pub proof fn law_exit_keeps_counts_valid(counts: Map<Seq<char>, usize>, key: Seq<char>, limit: usize)
    requires
        counts_valid(counts, limit),
    ensures
        counts_valid(exited(counts, key), limit),
{
}


/// A request's own deadline is used as it is given, when it is positive,
/// whatever the default; a request without one gets the default; and no
/// deadline is ever zero.
pub proof fn law_request_deadline_wins(config: SchedulerConfig, r: RequestView)
    ensures
        r.deadline_ms is Some && r.deadline_ms->0 > 0 ==> deadline_of(config, r) == r.deadline_ms->0,
        r.deadline_ms is None && config.default_deadline_ms > 0 ==> deadline_of(config, r) == config.default_deadline_ms,
        deadline_of(config, r) >= 1,
{
}

} // verus!
