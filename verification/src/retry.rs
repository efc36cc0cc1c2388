//! Retry and fallback decisions. A run walks the route and then its
//! fallbacks, giving each a number of attempts; the caller makes each call and
//! sleeps the backoff the run asks for.

use vstd::prelude::*;
use vstd::string::*;
use crate::config::RetryConfig;
use crate::error::{error_text, LlmGatewayError};
use crate::telemetry::{bumped, GatewayMetrics, Telemetry};
use crate::types::{LlmRequest, ModelRoute, RequestView, RouteView};

verus! {

/// Two to the power `n`.
pub open spec fn two_to(n: nat) -> nat
    decreases n,
{
    if n == 0 { 1 } else { 2 * two_to((n - 1) as nat) }
}

proof fn lemma_two_to_monotone(a: nat, b: nat)
    requires
        a <= b,
    ensures
        two_to(a) <= two_to(b),
    decreases b,
{
    if a < b {
        lemma_two_to_monotone(a, (b - 1) as nat);
    }
}

proof fn lemma_two_to_bound(n: nat)
    requires
        n <= 62,
    ensures
        2 * two_to(n) <= u64::MAX,
{
    lemma_two_to_monotone(n, 62);
    reveal_with_fuel(two_to, 64);
    assert(two_to(62) == 0x4000_0000_0000_0000);
}

/// The factor of the backoff after attempt `attempt` (counted from zero):
/// two to that power, or the largest value once the shift leaves 64 bits.
/// The attempt is taken modulo 2^32, as a cast to `u32` does.
pub open spec fn backoff_factor(attempt: usize) -> u64 {
    let n = attempt as u32;
    if n < 64 { two_to(n as nat) as u64 } else { u64::MAX }
}

/// How long to wait after attempt `attempt` failed: the initial backoff
/// times the factor, saturating, and at most the largest backoff; no wait
/// when the initial backoff is zero.
pub open spec fn backoff_delay(config: RetryConfig, attempt: usize) -> Option<u64> {
    if config.initial_backoff_ms == 0 {
        None
    } else {
        let product = config.initial_backoff_ms * backoff_factor(attempt);
        let d: u64 = if product > u64::MAX { u64::MAX } else { product as u64 };
        Some(if d < config.max_backoff_ms { d } else { config.max_backoff_ms })
    }
}

/// Whether an error is worth another attempt on the same route.
pub open spec fn retryable(config: RetryConfig, e: LlmGatewayError) -> bool {
    e.is_provider() && config.retry_provider_errors
}

/// The routes to try for `route`: itself, then its fallbacks in order.
pub open spec fn route_plan(config: RetryConfig, route: RouteView) -> Seq<RouteView> {
    let fallbacks = if config.fallback_routes.map().contains_key(route.key()) {
        config.fallback_routes.map()[route.key()]@.map_values(|r: ModelRoute| r@)
    } else {
        Seq::empty()
    };
    seq![route] + fallbacks
}

/// Attempts on each route.
pub open spec fn attempts_per_route(config: RetryConfig) -> usize {
    if config.max_attempts == 0 { 1 } else { config.max_attempts }
}

fn factor_for(attempt: usize) -> (f: u64)
    ensures
        f == backoff_factor(attempt),
{
    #[verifier::truncate]
    let n: u32 = attempt as u32;
    if n >= 64 {
        return u64::MAX;
    }
    let mut f: u64 = 1;
    let mut i: u32 = 0;
    while i < n
        invariant
            n < 64,
            i <= n,
            f == two_to(i as nat),
        decreases n - i,
    {
        proof {
            lemma_two_to_bound(i as nat);
        }
        f = f * 2;
        i = i + 1;
    }
    f
}

/// Retry and fallback around calls to providers.
#[derive(Debug, Clone)]
pub struct RetryPipeline {
    config: RetryConfig,
}

impl RetryPipeline {
    pub closed spec fn spec_config(&self) -> RetryConfig {
        self.config
    }

    pub fn new(config: RetryConfig) -> (p: Self)
        ensures
            p.spec_config() == config,
    {
        RetryPipeline { config }
    }

    /// The routes to try for `route`.
    pub fn routes_for(&self, route: &ModelRoute) -> (r: Vec<ModelRoute>)
        ensures
            r@.map_values(|x: ModelRoute| x@) == route_plan(self.spec_config(), route@),
    {
        let mut routes: Vec<ModelRoute> = Vec::new();
        routes.push(route.clone());
        let key = route.key();
        let ghost fallback_views = if self.config.fallback_routes.map().contains_key(route@.key()) {
            self.config.fallback_routes.map()[route@.key()]@.map_values(|r: ModelRoute| r@)
        } else {
            Seq::empty()
        };
        match self.config.fallback_routes.get(key.as_str()) {
            Some(fallbacks) => {
                let n = fallbacks.len();
                let mut i: usize = 0;
                while i < n
                    invariant
                        n == fallbacks@.len(),
                        i <= n,
                        fallback_views == fallbacks@.map_values(|r: ModelRoute| r@),
                        routes@.len() == i + 1,
                        routes@[0]@ == route@,
                        forall|j: int| 0 <= j < i ==> (#[trigger] routes@[j + 1])@ == fallbacks@[j]@,
                    decreases n - i,
                {
                    routes.push(fallbacks[i].clone());
                    i = i + 1;
                }
                proof {
                    let lhs = routes@.map_values(|x: ModelRoute| x@);
                    let rhs = seq![route@] + fallback_views;
                    assert(lhs.len() == rhs.len());
                    assert forall|j: int| 0 <= j < lhs.len() implies lhs[j] == rhs[j] by {
                        if j > 0 {
                            assert(routes@[(j - 1) + 1]@ == fallbacks@[j - 1]@);
                        }
                    }
                    assert(lhs =~= rhs);
                }
            },
            None => {
                proof {
                    assert(routes@.map_values(|x: ModelRoute| x@) =~= seq![route@] + fallback_views);
                }
            },
        }
        routes
    }

    /// Whether `error` is worth another attempt on the same route.
    pub fn should_retry(&self, error: &LlmGatewayError) -> (b: bool)
        ensures
            b == retryable(self.spec_config(), *error),
    {
        let provider = match error {
            LlmGatewayError::Provider { .. } => true,
            _ => false,
        };
        provider && self.config.retry_provider_errors
    }

    /// How long to wait after attempt `attempt` failed, if at all.
    pub fn backoff_ms(&self, attempt: usize) -> (d: Option<u64>)
        ensures
            d == backoff_delay(self.spec_config(), attempt),
    {
        let base = self.config.initial_backoff_ms;
        if base == 0 {
            return None;
        }
        let factor = factor_for(attempt);
        let product = match base.checked_mul(factor) {
            Some(p) => p,
            None => u64::MAX,
        };
        Some(if product < self.config.max_backoff_ms { product } else { self.config.max_backoff_ms })
    }

    /// Starts a run of attempts for `request`.
    pub fn start(&self, request: &LlmRequest) -> (run: RetryRun)
        ensures
            run@ == (RunView {
                request: request@,
                routes: route_plan(self.spec_config(), request@.route),
                per_route: attempts_per_route(self.spec_config()),
                route_index: 0,
                attempt: 0,
                total: 0,
                awaiting: false,
                last_error: None,
            }),
    {
        let routes = self.routes_for(&request.route);
        let per_route: usize = if self.config.max_attempts == 0 { 1 } else { self.config.max_attempts };
        RetryRun {
            request: request.clone(),
            routes,
            per_route,
            pos: RunPosition { route_index: 0, attempt: 0, total: 0, awaiting: false },
            last_error: None,
        }
    }
}

/// Where a run of attempts stands: the request, the routes to try, the
/// attempts each route gets, the route and attempt at hand, the calls made,
/// whether a call's outcome is awaited, and the text of the last error.
pub struct RunView {
    pub request: RequestView,
    pub routes: Seq<RouteView>,
    pub per_route: usize,
    pub route_index: usize,
    pub attempt: usize,
    pub total: usize,
    pub awaiting: bool,
    pub last_error: Option<Seq<char>>,
}

/// The route and attempt at hand, the calls made, and whether an outcome is awaited.
#[derive(Debug, Clone, Copy)]
struct RunPosition {
    route_index: usize,
    attempt: usize,
    total: usize,
    awaiting: bool,
}

/// The attempts made for one request, and what is left to try.
#[derive(Debug)]
pub struct RetryRun {
    request: LlmRequest,
    routes: Vec<ModelRoute>,
    per_route: usize,
    pos: RunPosition,
    last_error: Option<String>,
}

impl View for RetryRun {
    type V = RunView;

    closed spec fn view(&self) -> RunView {
        RunView {
            request: self.request@,
            routes: self.routes@.map_values(|r: ModelRoute| r@),
            per_route: self.per_route,
            route_index: self.pos.route_index,
            attempt: self.pos.attempt,
            total: self.pos.total,
            awaiting: self.pos.awaiting,
            last_error: crate::types::opt_text(self.last_error),
        }
    }
}

/// The run's bookkeeping: each route gets at least one attempt, the attempt
/// at hand is one of them, and the calls made are no more than the attempts
/// passed so far.
pub open spec fn run_consistent(v: RunView) -> bool {
    &&& v.per_route >= 1
    &&& v.attempt < v.per_route
    &&& v.route_index <= v.routes.len()
    &&& v.route_index == v.routes.len() ==> v.attempt == 0 && !v.awaiting
    &&& v.total <= v.route_index * v.per_route + v.attempt + (if v.awaiting { 1int } else { 0int })
}

/// The text an exhausted run reports: the last error's, if there was one.
pub open spec fn exhausted_message(v: RunView) -> Seq<char> {
    match v.last_error {
        Some(t) => t,
        None => "no route attempted"@,
    }
}

impl RetryRun {
    #[verifier::type_invariant]
    closed spec fn consistent(&self) -> bool {
        run_consistent(self@)
    }

    /// A run never makes more calls than its routes have attempts.
    pub fn bound_facts(&self)
        ensures
            run_consistent(self@),
            self@.total <= self@.routes.len() * self@.per_route,
    {
        proof {
            use_type_invariant(self);
            let v = self@;
            if v.route_index < v.routes.len() {
                assert(v.route_index * v.per_route + v.per_route == (v.route_index + 1) * v.per_route) by (nonlinear_arith);
                assert((v.route_index + 1) * v.per_route <= v.routes.len() * v.per_route) by (nonlinear_arith)
                    requires v.route_index + 1 <= v.routes.len(), v.per_route >= 1;
            }
        }
    }

    /// The calls made so far.
    pub fn calls_made(&self) -> (n: usize)
        ensures
            n == self@.total,
    {
        self.pos.total
    }

    /// Whether every route has had its attempts.
    pub fn is_exhausted(&self) -> (b: bool)
        ensures
            b == (self@.route_index == self@.routes.len()),
    {
        proof {
            use_type_invariant(self);
        }
        self.pos.route_index >= self.routes.len()
    }

    /// The next call to make, on the route at hand, or none once every route
    /// has had its attempts. A call after the first is recorded on `telemetry` as a retry.
    pub fn next_call(&mut self, telemetry: &mut Telemetry) -> (r: Option<LlmRequest>)
        requires
            !old(self)@.awaiting,
            old(self)@.total < usize::MAX,
        ensures
            old(self)@.route_index < old(self)@.routes.len() ==> ({
                &&& r matches Some(call)
                &&& call@ == (RequestView { route: old(self)@.routes[old(self)@.route_index as int], ..old(self)@.request })
                &&& final(self)@ == (RunView { total: (old(self)@.total + 1) as usize, awaiting: true, ..old(self)@ })
                &&& final(telemetry)@ == if old(self)@.total + 1 > 1 {
                    GatewayMetrics { retry_attempts: bumped(old(telemetry)@.retry_attempts), ..old(telemetry)@ }
                } else {
                    old(telemetry)@
                }
            }),
            old(self)@.route_index >= old(self)@.routes.len() ==> r is None && final(self)@ == old(self)@
                && final(telemetry)@ == old(telemetry)@,
    {
        proof {
            use_type_invariant(&*self);
        }
        if self.pos.route_index >= self.routes.len() {
            return None;
        }
        let route = self.routes[self.pos.route_index].clone();
        self.pos = RunPosition { total: self.pos.total + 1, awaiting: true, ..self.pos };
        if self.pos.total > 1 {
            telemetry.record_retry_attempt(&route);
        }
        let mut call = self.request.clone();
        call.route = route;
        Some(call)
    }

    /// Takes the failure of the awaited call. The same route is tried again
    /// if the error is retryable and attempts remain, after the backoff this
    /// returns; otherwise the run moves to the next route at once.
    pub fn fail(&mut self, pipeline: &RetryPipeline, error: LlmGatewayError) -> (r: Option<u64>)
        requires
            old(self)@.awaiting,
        ensures
            retryable(pipeline.spec_config(), error) && old(self)@.attempt + 1 < old(self)@.per_route ==> {
                &&& r == backoff_delay(pipeline.spec_config(), old(self)@.attempt)
                &&& final(self)@ == (RunView {
                    attempt: (old(self)@.attempt + 1) as usize,
                    awaiting: false,
                    last_error: Some(error_text(error)),
                    ..old(self)@
                })
            },
            !(retryable(pipeline.spec_config(), error) && old(self)@.attempt + 1 < old(self)@.per_route) ==> {
                &&& r is None
                &&& final(self)@ == (RunView {
                    route_index: (old(self)@.route_index + 1) as usize,
                    attempt: 0,
                    awaiting: false,
                    last_error: Some(error_text(error)),
                    ..old(self)@
                })
            },
    {
        proof {
            use_type_invariant(&*self);
        }
        let text = error.to_text();
        let retry = pipeline.should_retry(&error) && self.pos.attempt + 1 < self.per_route;
        let route_count = self.routes.len();
        let ghost v = self@;
        if retry {
            let delay = pipeline.backoff_ms(self.pos.attempt);
            self.last_error = Some(text);
            self.pos = RunPosition { attempt: self.pos.attempt + 1, awaiting: false, ..self.pos };
            delay
        } else {
            proof {
                assert(v.route_index * v.per_route + v.per_route == (v.route_index + 1) * v.per_route) by (nonlinear_arith);
                assert(v.routes.len() == self.routes@.len());
                assert(self.pos.route_index < route_count);
            }
            self.last_error = Some(text);
            self.pos = RunPosition { route_index: self.pos.route_index + 1, attempt: 0, awaiting: false, ..self.pos };
            None
        }
    }

    /// The error of a run that has tried every route.
    pub fn exhausted_error(&self) -> (e: LlmGatewayError)
        ensures
            e matches LlmGatewayError::RetryExhausted { route, attempts, message }
                && route@ == self@.request.route.key()
                && attempts == self@.total
                && message@ == exhausted_message(self@),
    {
        let message = match &self.last_error {
            Some(t) => t.clone(),
            None => String::from_str("no route attempted"),
        };
        LlmGatewayError::RetryExhausted { route: self.request.route.key(), attempts: self.pos.total, message }
    }
}


/// Only provider failures are retried, and only when the configuration asks
/// for it: with `retry_provider_errors` off no error is retried, so a
/// failed call always moves the run to the next route, without a backoff.
pub proof fn law_retries_only_when_configured(config: RetryConfig, e: LlmGatewayError)
    ensures
        !config.retry_provider_errors ==> !retryable(config, e),
        !(e is Provider) ==> !retryable(config, e),
        config.retry_provider_errors && e is Provider ==> retryable(config, e),
{
}

} // verus!
