//! The prompt cache: responses kept under a canonical key of the request,
//! with a time-to-live and a bound on the number of entries.

use vstd::prelude::*;
use std::time::{Duration, Instant};
use crate::config::CacheConfig;
use crate::keyed::KeyedMap;
use crate::text::same_text;
use crate::types::{
    clone_json_map, clone_messages, clone_opt_json, clone_tools, JsonValue, LlmMessage, LlmRequest,
    LlmResponse, LlmTool, MessageView, ModelRoute, RequestView, ResponseView, RouteView, ToolView,
};

verus! {

#[verifier::external_type_specification]
#[verifier::external_body]
pub struct ExInstant(Instant);

/// Reads the monotonic clock (`Instant::now`). Nothing is promised of the
/// instant it returns.
#[verifier::external_body]
fn clock_now() -> Instant {
    Instant::now()
}

/// The time passed since `origin` (`Instant::elapsed`), read from the
/// monotonic clock. Nothing is promised of it.
#[verifier::external_body]
fn clock_elapsed(origin: &Instant) -> Duration {
    origin.elapsed()
}

/// The whole nanoseconds of `d` (`Duration::as_nanos`). The duration is
/// opaque here, so nothing is promised of the count.
#[verifier::external_body]
fn duration_nanos(d: &Duration) -> u128 {
    d.as_nanos()
}

/// The parts of a request that decide which cached response answers it:
/// route, messages, tools, output schema and parameters, and nothing meant
/// for the provider alone.
#[derive(Debug)]
pub struct CacheKey {
    route: ModelRoute,
    messages: Vec<LlmMessage>,
    tools: Vec<LlmTool>,
    output_schema: Option<JsonValue>,
    parameters: KeyedMap<JsonValue>,
}

pub struct CacheKeyView {
    pub route: RouteView,
    pub messages: Seq<MessageView>,
    pub tools: Seq<ToolView>,
    pub output_schema: Option<Seq<char>>,
    pub parameters: Map<Seq<char>, Seq<char>>,
}

/// The key a request is cached under.
pub open spec fn cache_key_of(r: RequestView) -> CacheKeyView {
    CacheKeyView {
        route: r.route,
        messages: r.messages,
        tools: r.tools,
        output_schema: r.output_schema,
        parameters: r.parameters,
    }
}

impl View for CacheKey {
    type V = CacheKeyView;

    closed spec fn view(&self) -> CacheKeyView {
        CacheKeyView {
            route: self.route@,
            messages: self.messages@.map_values(|m: LlmMessage| m@),
            tools: self.tools@.map_values(|t: LlmTool| t@),
            output_schema: match self.output_schema {
                Some(v) => Some(v@),
                None => None,
            },
            parameters: self.parameters@,
        }
    }
}

fn messages_equal(a: &Vec<LlmMessage>, b: &Vec<LlmMessage>) -> (r: bool)
    ensures
        r == (a@.map_values(|m: LlmMessage| m@) == b@.map_values(|m: LlmMessage| m@)),
{
    if a.len() != b.len() {
        proof {
            assert(a@.map_values(|m: LlmMessage| m@).len() != b@.map_values(|m: LlmMessage| m@).len());
        }
        return false;
    }
    let n = a.len();
    let mut i: usize = 0;
    while i < n
        invariant
            n == a@.len(),
            n == b@.len(),
            i <= n,
            forall|j: int| 0 <= j < i ==> (#[trigger] a@[j])@ == b@[j]@,
        decreases n - i,
    {
        if a[i] != b[i] {
            proof {
                assert(a@.map_values(|m: LlmMessage| m@)[i as int] != b@.map_values(|m: LlmMessage| m@)[i as int]);
            }
            return false;
        }
        i = i + 1;
    }
    assert(a@.map_values(|m: LlmMessage| m@) =~= b@.map_values(|m: LlmMessage| m@));
    true
}

fn tools_equal(a: &Vec<LlmTool>, b: &Vec<LlmTool>) -> (r: bool)
    ensures
        r == (a@.map_values(|t: LlmTool| t@) == b@.map_values(|t: LlmTool| t@)),
{
    if a.len() != b.len() {
        proof {
            assert(a@.map_values(|t: LlmTool| t@).len() != b@.map_values(|t: LlmTool| t@).len());
        }
        return false;
    }
    let n = a.len();
    let mut i: usize = 0;
    while i < n
        invariant
            n == a@.len(),
            n == b@.len(),
            i <= n,
            forall|j: int| 0 <= j < i ==> (#[trigger] a@[j])@ == b@[j]@,
        decreases n - i,
    {
        let same = a[i].name == b[i].name && a[i].description == b[i].description
            && a[i].input_schema.same(&b[i].input_schema);
        if !same {
            proof {
                assert(a@.map_values(|t: LlmTool| t@)[i as int] != b@.map_values(|t: LlmTool| t@)[i as int]);
            }
            return false;
        }
        i = i + 1;
    }
    assert(a@.map_values(|t: LlmTool| t@) =~= b@.map_values(|t: LlmTool| t@));
    true
}

fn opt_json_equal(a: &Option<JsonValue>, b: &Option<JsonValue>) -> (r: bool)
    ensures
        r == (crate::types::opt_json(*a) == crate::types::opt_json(*b)),
{
    match (a, b) {
        (Some(x), Some(y)) => x.same(y),
        (None, None) => true,
        _ => false,
    }
}

/// Whether two JSON maps hold the same members.
pub fn json_maps_equal(a: &KeyedMap<JsonValue>, b: &KeyedMap<JsonValue>) -> (r: bool)
    ensures
        r == (a@ == b@),
{
    proof {
        use_type_invariant(a);
        use_type_invariant(b);
        a.lemma_wf_facts();
        b.lemma_wf_facts();
    }
    let n = a.len();
    if n != b.len() {
        proof {
            if a@ == b@ {
                assert(a.map().dom() =~= b.map().dom()) by {
                    assert forall|k: Seq<char>| a.map().dom().contains(k) <==> b.map().dom().contains(k) by {
                        assert(a@.dom().contains(k) == a.map().dom().contains(k));
                        assert(b@.dom().contains(k) == b.map().dom().contains(k));
                    }
                }
                a.lemma_same_domain_same_keys(b);
            }
        }
        return false;
    }
    let mut i: usize = 0;
    while i < n
        invariant
            n == a.spec_len(),
            n == b.spec_len(),
            a.sorted_keys(),
            b.sorted_keys(),
            a.value_seq().len() == n,
            b.value_seq().len() == n,
            i <= n,
            forall|j: int| 0 <= j < i ==> #[trigger] a.key_seq()[j] == b.key_seq()[j],
            forall|j: int| 0 <= j < i ==> (#[trigger] a.value_seq()[j])@ == b.value_seq()[j]@,
        decreases n - i,
    {
        let same = same_text(a.key_at(i).as_str(), b.key_at(i).as_str()) && a.value_at(i).same(b.value_at(i));
        if !same {
            proof {
                if a@ == b@ {
                    assert(a.map().dom() =~= b.map().dom()) by {
                        assert forall|k: Seq<char>| a.map().dom().contains(k) <==> b.map().dom().contains(k) by {
                            assert(a@.dom().contains(k) == a.map().dom().contains(k));
                            assert(b@.dom().contains(k) == b.map().dom().contains(k));
                        }
                    }
                    a.lemma_same_domain_same_keys(b);
                    a.lemma_index_of(i as int);
                    b.lemma_index_of(i as int);
                    assert(a@[a.key_seq()[i as int]] == a.value_seq()[i as int]@);
                }
            }
            return false;
        }
        i = i + 1;
    }
    proof {
        assert(a.key_seq() =~= b.key_seq());
        crate::keyed::lemma_same_view(a, b);
    }
    true
}

impl CacheKey {
    /// The key of `request`.
    pub fn new(request: &LlmRequest) -> (k: Self)
        ensures
            k@ == cache_key_of(request@),
    {
        CacheKey {
            route: request.route.clone(),
            messages: clone_messages(&request.messages),
            tools: clone_tools(&request.tools),
            output_schema: clone_opt_json(&request.output_schema),
            parameters: clone_json_map(&request.parameters),
        }
    }

    /// Whether two keys name the same cache entry.
    pub fn matches(&self, other: &CacheKey) -> (b: bool)
        ensures
            b == (self@ == other@),
    {
        let same_schema = opt_json_equal(&self.output_schema, &other.output_schema);
        proof {
            assert(same_schema == (self@.output_schema == other@.output_schema));
        }
        self.route == other.route && messages_equal(&self.messages, &other.messages)
            && tools_equal(&self.tools, &other.tools) && same_schema
            && json_maps_equal(&self.parameters, &other.parameters)
    }
}

impl Clone for CacheKey {
    fn clone(&self) -> (k: Self)
        ensures
            k@ == self@,
    {
        let output_schema = clone_opt_json(&self.output_schema);
        let k = CacheKey {
            route: self.route.clone(),
            messages: clone_messages(&self.messages),
            tools: clone_tools(&self.tools),
            output_schema,
            parameters: clone_json_map(&self.parameters),
        };
        proof {
            assert(crate::types::opt_json(output_schema) == crate::types::opt_json(self.output_schema));
        }
        k
    }
}

/// One cached response.
#[derive(Debug)]
struct CacheEntry {
    key: CacheKey,
    response: LlmResponse,
    expires_at: u128,
    sequence: u64,
}

/// A cached response, when it expires (in nanoseconds on the cache's clock)
/// and the insertion number that orders entries by age.
pub struct EntryView {
    pub key: CacheKeyView,
    pub response: ResponseView,
    pub expires_at: u128,
    pub sequence: u64,
}

spec fn entry_view(e: CacheEntry) -> EntryView {
    EntryView { key: e.key@, response: e.response@, expires_at: e.expires_at, sequence: e.sequence }
}

/// The cache's settings, its entries, and the insertion number it hands out next.
pub struct CacheView {
    pub config: CacheConfig,
    pub entries: Seq<EntryView>,
    pub next_sequence: u64,
}

/// No key occurs twice.
pub open spec fn keys_distinct(entries: Seq<EntryView>) -> bool {
    forall|i: int, j: int| 0 <= i < j < entries.len() ==> (#[trigger] entries[i]).key != (#[trigger] entries[j]).key
}

/// The entries hold `key` at position `i`.
pub open spec fn holds_at(entries: Seq<EntryView>, key: CacheKeyView, i: int) -> bool {
    0 <= i < entries.len() && entries[i].key == key
}

/// Whether a request takes part in caching.
pub open spec fn caches(config: CacheConfig, r: RequestView) -> bool {
    config.enabled && r.cache
}

/// The optional view of a response.
pub open spec fn opt_response(r: Option<LlmResponse>) -> Option<ResponseView> {
    match r {
        Some(v) => Some(v@),
        None => None,
    }
}

/// What a lookup of `r` at time `now` does: `new` is the cache after, `res` the answer.
pub open spec fn get_outcome(old: CacheView, r: RequestView, now: u128, new: CacheView, res: Option<ResponseView>) -> bool {
    let k = cache_key_of(r);
    if !caches(old.config, r) || (forall|i: int| !holds_at(old.entries, k, i)) {
        res is None && new == old
    } else {
        exists|i: int| {
            &&& #[trigger] holds_at(old.entries, k, i)
            &&& if now >= old.entries[i].expires_at {
                res is None && new == CacheView { entries: old.entries.remove(i), ..old }
            } else {
                res == Some(old.entries[i].response) && new == old
            }
        }
    }
}

/// `a + b`, stopping at the largest value.
pub open spec fn saturating_add_u128(a: u128, b: u128) -> u128 {
    if a + b > u128::MAX { u128::MAX } else { (a + b) as u128 }
}

/// The entries after the response to key `k` is stored as entry `e`.
pub open spec fn staged_entries(entries: Seq<EntryView>, k: CacheKeyView, e: EntryView) -> Seq<EntryView> {
    if exists|i: int| holds_at(entries, k, i) {
        entries.update(choose|i: int| holds_at(entries, k, i), e)
    } else {
        entries.push(e)
    }
}

/// Whether entry `m` is among the oldest of `entries`.
pub open spec fn is_oldest(entries: Seq<EntryView>, m: int) -> bool {
    0 <= m < entries.len() && forall|j: int| 0 <= j < entries.len() ==> entries[m].sequence <= (#[trigger] entries[j]).sequence
}

/// What storing `response` for `r` at time `now` does.
pub open spec fn insert_outcome(old: CacheView, r: RequestView, response: ResponseView, now: u128, new: CacheView) -> bool {
    if !caches(old.config, r) || old.config.ttl_seconds == 0 {
        new == old
    } else {
        let e = EntryView {
            key: cache_key_of(r),
            response: response,
            expires_at: saturating_add_u128(now, (old.config.ttl_seconds * 1_000_000_000) as u128),
            sequence: old.next_sequence,
        };
        let staged = staged_entries(old.entries, cache_key_of(r), e);
        &&& new.config == old.config
        &&& new.next_sequence == crate::telemetry::bumped(old.next_sequence)
        &&& if staged.len() > old.config.max_entries {
            exists|m: int| #[trigger] is_oldest(staged, m) && new.entries == staged.remove(m)
        } else {
            new.entries == staged
        }
    }
}

/// The position of an oldest entry.
fn oldest_index(entries: &Vec<CacheEntry>) -> (m: usize)
    requires
        entries@.len() > 0,
    ensures
        is_oldest(entries@.map_values(|e: CacheEntry| entry_view(e)), m as int),
{
    let ghost v = entries@.map_values(|e: CacheEntry| entry_view(e));
    let n = entries.len();
    let mut best: usize = 0;
    let mut i: usize = 1;
    while i < n
        invariant
            n == entries@.len(),
            v == entries@.map_values(|e: CacheEntry| entry_view(e)),
            1 <= i <= n,
            best < i,
            forall|j: int| 0 <= j < i ==> v[best as int].sequence <= (#[trigger] v[j]).sequence,
        decreases n - i,
    {
        if entries[i].sequence < entries[best].sequence {
            best = i;
        }
        i = i + 1;
    }
    best
}

/// Responses cached by request key.
#[derive(Debug)]
pub struct PromptCache {
    config: CacheConfig,
    entries: Vec<CacheEntry>,
    sequence: u64,
    origin: Instant,
}

impl View for PromptCache {
    type V = CacheView;

    closed spec fn view(&self) -> CacheView {
        CacheView {
            config: self.config,
            entries: self.entries@.map_values(|e: CacheEntry| entry_view(e)),
            next_sequence: self.sequence,
        }
    }
}

impl PromptCache {
    /// At most `max_entries` entries, under distinct keys.
    #[verifier::type_invariant]
    closed spec fn bounded_and_distinct(&self) -> bool {
        &&& self.entries@.len() <= self.config.max_entries
        &&& keys_distinct(self.entries@.map_values(|e: CacheEntry| entry_view(e)))
    }

    /// What every cache keeps: a bound on its entries, which have distinct keys.
    pub fn invariant_facts(&self)
        ensures
            self@.entries.len() <= self@.config.max_entries,
            keys_distinct(self@.entries),
    {
        proof {
            use_type_invariant(self);
        }
    }

    pub fn new(config: CacheConfig) -> (c: Self)
        ensures
            c@.config == config,
            c@.entries.len() == 0,
            c@.next_sequence == 0,
    {
        let c = PromptCache { config, entries: Vec::new(), sequence: 0, origin: clock_now() };
        assert(c@.entries.len() == 0);
        c
    }

    /// Nanoseconds since the cache was made, read from the clock.
    fn now_nanos(&self) -> u128 {
        let elapsed = clock_elapsed(&self.origin);
        duration_nanos(&elapsed)
    }

    /// The position of `key`, if it is held.
    fn position(&self, key: &CacheKey) -> (r: Option<usize>)
        ensures
            r matches Some(i) ==> holds_at(self@.entries, key@, i as int),
            r is None ==> forall|i: int| !holds_at(self@.entries, key@, i),
    {
        let n = self.entries.len();
        let mut i: usize = 0;
        while i < n
            invariant
                n == self.entries@.len(),
                i <= n,
                forall|j: int| 0 <= j < i ==> !holds_at(self@.entries, key@, j),
            decreases n - i,
        {
            if self.entries[i].key.matches(key) {
                return Some(i);
            }
            i = i + 1;
        }
        None
    }

    /// The cached response to `request` at time `now` (nanoseconds on the
    /// cache's clock); an expired entry is dropped.
    pub fn get_at(&mut self, request: &LlmRequest, now: u128) -> (r: Option<LlmResponse>)
        ensures
            get_outcome(old(self)@, request@, now, final(self)@, opt_response(r)),
    {
        proof {
            use_type_invariant(&*self);
        }
        if !self.config.enabled || !request.cache {
            return None;
        }
        let key = CacheKey::new(request);
        match self.position(&key) {
            None => None,
            Some(i) => {
                if now >= self.entries[i].expires_at {
                    let ghost before = self@;
                    let mut entries: Vec<CacheEntry> = Vec::new();
                    std::mem::swap(&mut entries, &mut self.entries);
                    let _ = entries.remove(i);
                    proof {
                        let v = entries@.map_values(|e: CacheEntry| entry_view(e));
                        assert(v =~= before.entries.remove(i as int));
                        assert forall|a: int, b: int| 0 <= a < b < v.len() implies (#[trigger] v[a]).key != (#[trigger] v[b]).key by {
                            if a < i && b < i {
                            } else if a < i {
                                assert(before.entries[a].key != before.entries[b + 1].key);
                            } else {
                                assert(before.entries[a + 1].key != before.entries[b + 1].key);
                            }
                        }
                    }
                    self.entries = entries;
                    proof {
                        assert(holds_at(before.entries, key@, i as int));
                    }
                    None
                } else {
                    let response = self.entries[i].response.clone();
                    proof {
                        assert(holds_at(self@.entries, key@, i as int));
                    }
                    Some(response)
                }
            },
        }
    }

    /// The cached response to `request`, read at the clock's current time.
    pub fn get(&mut self, request: &LlmRequest) -> (r: Option<LlmResponse>)
        ensures
            exists|now: u128| get_outcome(old(self)@, request@, now, final(self)@, opt_response(r)),
    {
        let now = self.now_nanos();
        self.get_at(request, now)
    }

    /// Stores `response` for `request` at time `now` (nanoseconds on the
    /// cache's clock), then drops the oldest entry while there are more than
    /// `max_entries`.
    pub fn insert_at(&mut self, request: &LlmRequest, response: LlmResponse, now: u128)
        ensures
            insert_outcome(old(self)@, request@, response@, now, final(self)@),
    {
        proof {
            use_type_invariant(&*self);
        }
        if !self.config.enabled || !request.cache || self.config.ttl_seconds == 0 {
            return;
        }
        let ghost old_v = self@;
        let key = CacheKey::new(request);
        let sequence = self.sequence;
        self.sequence = if self.sequence == u64::MAX { 0 } else { self.sequence + 1 };
        let ttl_nanos: u128 = (self.config.ttl_seconds as u128) * 1_000_000_000;
        let expires_at = now.saturating_add(ttl_nanos);
        let pos = self.position(&key);
        let entry = CacheEntry { key, response, expires_at, sequence };
        let ghost e = entry_view(entry);
        let mut entries: Vec<CacheEntry> = Vec::new();
        std::mem::swap(&mut entries, &mut self.entries);
        match pos {
            Some(i) => {
                let _ = entries.remove(i);
                entries.insert(i, entry);
                proof {
                    let v = entries@.map_values(|x: CacheEntry| entry_view(x));
                    assert(v =~= old_v.entries.update(i as int, e));
                    let c = choose|j: int| holds_at(old_v.entries, cache_key_of(request@), j);
                    assert(holds_at(old_v.entries, cache_key_of(request@), c));
                    if c != i {
                        if c < i {
                            assert(old_v.entries[c].key != old_v.entries[i as int].key);
                        } else {
                            assert(old_v.entries[i as int].key != old_v.entries[c].key);
                        }
                    }
                    assert(v == staged_entries(old_v.entries, cache_key_of(request@), e));
                    assert forall|a: int, b: int| 0 <= a < b < v.len() implies (#[trigger] v[a]).key != (#[trigger] v[b]).key by {
                        if a != i && b != i {
                            assert(old_v.entries[a].key != old_v.entries[b].key);
                        } else if a == i {
                            assert(old_v.entries[i as int].key != old_v.entries[b].key);
                        } else {
                            assert(old_v.entries[a].key != old_v.entries[i as int].key);
                        }
                    }
                }
            },
            None => {
                entries.push(entry);
                proof {
                    let v = entries@.map_values(|x: CacheEntry| entry_view(x));
                    assert(v =~= old_v.entries.push(e));
                    assert(!exists|j: int| holds_at(old_v.entries, cache_key_of(request@), j));
                    assert(v == staged_entries(old_v.entries, cache_key_of(request@), e));
                    assert forall|a: int, b: int| 0 <= a < b < v.len() implies (#[trigger] v[a]).key != (#[trigger] v[b]).key by {
                        if b == v.len() - 1 {
                            assert(!holds_at(old_v.entries, cache_key_of(request@), a));
                        } else {
                            assert(old_v.entries[a].key != old_v.entries[b].key);
                        }
                    }
                }
            },
        }
        let ghost staged = entries@.map_values(|x: CacheEntry| entry_view(x));
        if entries.len() > self.config.max_entries {
            let m = oldest_index(&entries);
            let _ = entries.remove(m);
            proof {
                let v = entries@.map_values(|x: CacheEntry| entry_view(x));
                assert(v =~= staged.remove(m as int));
                assert(is_oldest(staged, m as int));
                assert forall|a: int, b: int| 0 <= a < b < v.len() implies (#[trigger] v[a]).key != (#[trigger] v[b]).key by {
                    if a < m && b < m {
                        assert(staged[a].key != staged[b].key);
                    } else if a < m {
                        assert(staged[a].key != staged[b + 1].key);
                    } else {
                        assert(staged[a + 1].key != staged[b + 1].key);
                    }
                }
            }
        }
        self.entries = entries;
    }

    /// Stores `response` for `request`, timed by the clock's current reading.
    pub fn insert(&mut self, request: &LlmRequest, response: LlmResponse)
        ensures
            exists|now: u128| insert_outcome(old(self)@, request@, response@, now, final(self)@),
    {
        let now = self.now_nanos();
        self.insert_at(request, response, now);
    }

    /// The number of cached responses.
    pub fn len(&self) -> (n: usize)
        ensures
            n == self@.entries.len(),
    {
        self.entries.len()
    }

    pub fn is_empty(&self) -> (b: bool)
        ensures
            b == (self@.entries.len() == 0),
    {
        self.entries.len() == 0
    }
}

impl Default for PromptCache {
    fn default() -> (c: Self)
        ensures
            c@.config == (CacheConfig { enabled: true, ttl_seconds: 300, max_entries: 4096 }),
            c@.entries.len() == 0,
            c@.next_sequence == 0,
    {
        PromptCache::new(CacheConfig::default())
    }
}

/// What every cache view satisfies: at most `max_entries` entries, under
/// distinct keys.
pub open spec fn cache_valid(v: CacheView) -> bool {
    v.entries.len() <= v.config.max_entries && keys_distinct(v.entries)
}

/// Every entry is older than the next insertion number, which has not wrapped.
pub open spec fn sequences_fresh(v: CacheView) -> bool {
    &&& v.next_sequence < u64::MAX
    &&& forall|i: int| 0 <= i < v.entries.len() ==> (#[trigger] v.entries[i]).sequence < v.next_sequence
}

/// A read gives back what a write stored: after `response` is stored for a
/// request at time `t`, a lookup with the same key before the entry expires
/// returns `response`, while the cache is enabled, the time-to-live is
/// positive, at least one entry fits, and insertion numbers have not wrapped.
pub proof fn law_read_after_write(
    c: CacheView,
    r: RequestView,
    response: ResponseView,
    t: u128,
    c1: CacheView,
    r2: RequestView,
    t2: u128,
    c2: CacheView,
    res: Option<ResponseView>,
)
    requires
        cache_valid(c),
        cache_valid(c1),
        sequences_fresh(c),
        caches(c.config, r),
        caches(c.config, r2),
        c.config.ttl_seconds > 0,
        c.config.max_entries >= 1,
        cache_key_of(r2) == cache_key_of(r),
        t2 < saturating_add_u128(t, (c.config.ttl_seconds * 1_000_000_000) as u128),
        insert_outcome(c, r, response, t, c1),
        get_outcome(c1, r2, t2, c2, res),
    ensures
        res == Some(response),
        c2 == c1,
{
    let k = cache_key_of(r);
    let e = EntryView {
        key: k,
        response: response,
        expires_at: saturating_add_u128(t, (c.config.ttl_seconds * 1_000_000_000) as u128),
        sequence: c.next_sequence,
    };
    let staged = staged_entries(c.entries, k, e);
    // The new entry's position in the staged entries.
    let p: int = if exists|i: int| holds_at(c.entries, k, i) {
        choose|i: int| holds_at(c.entries, k, i)
    } else {
        c.entries.len() as int
    };
    assert(staged[p] == e);
    assert forall|j: int| 0 <= j < staged.len() && j != p implies (#[trigger] staged[j]).sequence < e.sequence by {
        assert(staged[j] == c.entries[j]);
    }
    let q: int = if staged.len() > c.config.max_entries {
        let m = choose|m: int| #[trigger] is_oldest(staged, m) && c1.entries == staged.remove(m);
        assert(is_oldest(staged, m));
        if m == p {
            let other: int = if p == 0 { 1 } else { 0 };
            assert(staged[m].sequence <= staged[other].sequence);
        }
        if m < p { p - 1 } else { p }
    } else {
        p
    };
    assert(c1.config == c.config);
    assert(holds_at(c1.entries, k, q));
    assert(c1.entries[q] == e);
    assert forall|i: int| #[trigger] holds_at(c1.entries, k, i) implies i == q by {
        if i != q {
            if i < q {
                assert(c1.entries[i].key != c1.entries[q].key);
            } else {
                assert(c1.entries[q].key != c1.entries[i].key);
            }
        }
    }
}

/// A cache that is switched off stores nothing and answers nothing.
pub proof fn law_disabled_cache_is_inert(
    c: CacheView,
    r: RequestView,
    response: ResponseView,
    t: u128,
    c1: CacheView,
    t2: u128,
    c2: CacheView,
    res: Option<ResponseView>,
)
    requires
        !c.config.enabled,
        insert_outcome(c, r, response, t, c1),
        get_outcome(c, r, t2, c2, res),
    ensures
        c1 == c,
        c2 == c,
        res is None,
{
}

/// A request that opts out of caching, or a zero time-to-live, leaves the
/// cache as it was.
pub proof fn law_uncached_writes_are_dropped(c: CacheView, r: RequestView, response: ResponseView, t: u128, c1: CacheView)
    requires
        !r.cache || c.config.ttl_seconds == 0,
        insert_outcome(c, r, response, t, c1),
    ensures
        c1 == c,
{
}

/// Only a live entry is ever served: a hit comes from an entry of the same
/// key whose expiry lies after the time of the lookup.
pub proof fn law_hits_are_live(c: CacheView, r: RequestView, now: u128, c1: CacheView, x: ResponseView)
    requires
        get_outcome(c, r, now, c1, Some(x)),
    ensures
        exists|i: int| #[trigger] holds_at(c.entries, cache_key_of(r), i) && now < c.entries[i].expires_at
            && c.entries[i].response == x,
{
}

/// Requests that differ only in what is meant for the provider (provider
/// parameters, request id, deadline, priority) share a cache key, so they
/// are answered alike.
pub proof fn law_provider_only_fields_ignored(
    c: CacheView,
    r1: RequestView,
    r2: RequestView,
    now: u128,
    c1: CacheView,
    res: Option<ResponseView>,
)
    requires
        r1.route == r2.route,
        r1.messages == r2.messages,
        r1.tools == r2.tools,
        r1.output_schema == r2.output_schema,
        r1.parameters == r2.parameters,
        r1.cache == r2.cache,
    ensures
        cache_key_of(r1) == cache_key_of(r2),
        get_outcome(c, r1, now, c1, res) == get_outcome(c, r2, now, c1, res),
{
}

/// Storing never takes the cache past its bound on entries.
pub proof fn law_insert_keeps_bound(c: CacheView, r: RequestView, response: ResponseView, t: u128, c1: CacheView)
    requires
        cache_valid(c),
        insert_outcome(c, r, response, t, c1),
    ensures
        c1.entries.len() <= c.config.max_entries,
{
    if caches(c.config, r) && c.config.ttl_seconds != 0 {
        let k = cache_key_of(r);
        let e = EntryView {
            key: k,
            response: response,
            expires_at: saturating_add_u128(t, (c.config.ttl_seconds * 1_000_000_000) as u128),
            sequence: c.next_sequence,
        };
        let staged = staged_entries(c.entries, k, e);
        if staged.len() > c.config.max_entries {
            let m = choose|m: int| #[trigger] is_oldest(staged, m) && c1.entries == staged.remove(m);
            assert(is_oldest(staged, m));
        }
    }
}


/// The number of entries after a stored response: one more when its key was
/// not held, as many when it was, but never more than `max_entries`, the
/// oldest entry making room.
pub proof fn law_insert_length(c: CacheView, r: RequestView, response: ResponseView, t: u128, c1: CacheView)
    requires
        cache_valid(c),
        caches(c.config, r),
        c.config.ttl_seconds > 0,
        insert_outcome(c, r, response, t, c1),
    ensures
        ({
            let grown = c.entries.len() + if exists|i: int| holds_at(c.entries, cache_key_of(r), i) { 0int } else { 1int };
            c1.entries.len() == if grown > c.config.max_entries { c.config.max_entries as int } else { grown }
        }),
{
    let k = cache_key_of(r);
    let e = EntryView {
        key: k,
        response: response,
        expires_at: saturating_add_u128(t, (c.config.ttl_seconds * 1_000_000_000) as u128),
        sequence: c.next_sequence,
    };
    let staged = staged_entries(c.entries, k, e);
    if exists|i: int| holds_at(c.entries, k, i) {
        assert(staged.len() == c.entries.len());
    } else {
        assert(staged.len() == c.entries.len() + 1);
    }
    if staged.len() > c.config.max_entries {
        let m = choose|m: int| #[trigger] is_oldest(staged, m) && c1.entries == staged.remove(m);
        assert(is_oldest(staged, m));
    }
}


/// The cache key is the request's identity apart from what is meant for the
/// provider alone: requests share a key only when they agree on route,
/// messages, tools, output schema and parameters. So a hit is always an
/// entry stored for a request with the very same tools, messages and route.
pub proof fn law_key_determines_request(
    r1: RequestView,
    r2: RequestView,
    c: CacheView,
    now: u128,
    c1: CacheView,
    x: ResponseView,
)
    ensures
        cache_key_of(r1) == cache_key_of(r2) ==> {
            &&& r1.route == r2.route
            &&& r1.messages == r2.messages
            &&& r1.tools == r2.tools
            &&& r1.output_schema == r2.output_schema
            &&& r1.parameters == r2.parameters
        },
        r1.tools != r2.tools ==> cache_key_of(r1) != cache_key_of(r2),
        get_outcome(c, r2, now, c1, Some(x)) ==> exists|i: int| {
            &&& 0 <= i < c.entries.len()
            &&& #[trigger] c.entries[i].response == x
            &&& c.entries[i].key.tools == r2.tools
            &&& c.entries[i].key.messages == r2.messages
            &&& c.entries[i].key.route == r2.route
        },
{
    if get_outcome(c, r2, now, c1, Some(x)) {
        let i = choose|i: int| #[trigger] holds_at(c.entries, cache_key_of(r2), i)
            && now < c.entries[i].expires_at && c.entries[i].response == x;
        law_hits_are_live(c, r2, now, c1, x);
        assert(holds_at(c.entries, cache_key_of(r2), i));
    }
}

} // verus!
