//! Bookkeeping of local models: memory admission, inference slots, KV-cache
//! prefixes and the registry of models with their residency.

use vstd::prelude::*;
use vstd::string::*;
use crate::error::LlmGatewayError;
use crate::keyed::{keys_sorted, lemma_sorted_same_keys, KeyedMap};
use crate::text::same_text;
use crate::config::ModelConfig;
use crate::telemetry::{bumped, GatewayMetrics, Telemetry};
use crate::types::{
    clone_opt_string, opt_text, unloaded_view, ModelInfo, ModelInfoView, ModelLoadReason, ModelRoute,
    ModelState, RouteView,
};
use std::collections::VecDeque;

verus! {

/// The sum of a sequence of byte counts.
pub open spec fn total(s: Seq<u64>) -> nat
    decreases s.len(),
{
    if s.len() == 0 {
        0
    } else {
        total(s.drop_last()) + s.last() as nat
    }
}

proof fn lemma_total_append(a: Seq<u64>, b: Seq<u64>)
    ensures
        total(a + b) == total(a) + total(b),
    decreases b.len(),
{
    if b.len() == 0 {
        assert(a + b =~= a);
    } else {
        lemma_total_append(a, b.drop_last());
        assert((a + b).drop_last() =~= a + b.drop_last());
    }
}

proof fn lemma_total_split(s: Seq<u64>, i: int)
    requires
        0 <= i < s.len(),
    ensures
        total(s) == total(s.take(i)) + s[i] as nat + total(s.skip(i + 1)),
{
    assert(s =~= s.take(i) + seq![s[i]] + s.skip(i + 1));
    lemma_total_append(s.take(i) + seq![s[i]], s.skip(i + 1));
    lemma_total_append(s.take(i), seq![s[i]]);
    lemma_total_single(s[i]);
}

proof fn lemma_total_single(v: u64)
    ensures
        total(seq![v]) == v,
{
    assert(total(Seq::<u64>::empty()) == 0);
    assert(seq![v].drop_last() =~= Seq::<u64>::empty());
    assert(seq![v].last() == v);
}

/// Replacing, inserting or removing one count changes the sum by that count.
proof fn lemma_total_edits(s: Seq<u64>, i: int, v: u64)
    ensures
        0 <= i < s.len() ==> total(s.update(i, v)) == total(s) - s[i] + v,
        0 <= i < s.len() ==> total(s.remove(i)) == total(s) - s[i],
        0 <= i < s.len() ==> s[i] <= total(s),
        0 <= i <= s.len() ==> total(s.insert(i, v)) == total(s) + v,
        0 <= i <= s.len() ==> total(s.take(i)) <= total(s),
{
    if 0 <= i < s.len() {
        lemma_total_split(s, i);
        lemma_total_split(s.update(i, v), i);
        assert(s.update(i, v).take(i) =~= s.take(i));
        assert(s.update(i, v).skip(i + 1) =~= s.skip(i + 1));
        assert(s.remove(i) =~= s.take(i) + s.skip(i + 1));
        lemma_total_append(s.take(i), s.skip(i + 1));
    }
    if 0 <= i <= s.len() {
        assert(s.insert(i, v) =~= s.take(i) + seq![v] + s.skip(i));
        lemma_total_append(s.take(i) + seq![v], s.skip(i));
        lemma_total_append(s.take(i), seq![v]);
        lemma_total_single(v);
        assert(s =~= s.take(i) + s.skip(i));
        lemma_total_append(s.take(i), s.skip(i));
    }
}

/// The routes of a reservation map, in key order.
pub open spec fn routes_in_order(m: Map<Seq<char>, u64>) -> Seq<Seq<char>> {
    choose|s: Seq<Seq<char>>| keys_sorted(s) && forall|k: Seq<char>| #[trigger] s.contains(k) <==> m.contains_key(k)
}

/// The bytes a reservation map holds in all: the sum of its reservations.
pub open spec fn reserved_total(m: Map<Seq<char>, u64>) -> nat {
    total(routes_in_order(m).map_values(|k: Seq<char>| m[k]))
}

/// The values of a sorted map, in key order, add up to the sum of its reservations.
proof fn lemma_reserved_total(a: KeyedMap<u64>)
    requires
        a.sorted_keys(),
    ensures
        total(a.value_seq()) == reserved_total(a.map()),
{
    a.lemma_sorted();
    a.lemma_wf_facts();
    let ks = a.key_seq();
    assert(keys_sorted(ks) && forall|k: Seq<char>| #[trigger] ks.contains(k) <==> a.map().contains_key(k));
    let s = routes_in_order(a.map());
    lemma_sorted_same_keys(s, ks);
    assert(ks.map_values(|k: Seq<char>| a.map()[k]) =~= a.value_seq()) by {
        assert forall|i: int| 0 <= i < ks.len() implies a.map()[ks[i]] == a.value_seq()[i] by {
            a.lemma_index_of(i);
        }
    }
}

/// Admission of model memory against a fixed budget.
#[derive(Debug)]
pub struct MemoryManager {
    budget_bytes: u64,
    allocations: KeyedMap<u64>,
}

/// What a memory manager holds: its budget, the bytes reserved per route
/// key, and their sum.
pub struct MemoryView {
    pub budget: u64,
    pub allocations: Map<Seq<char>, u64>,
    pub used: nat,
}

impl MemoryView {
    /// Bytes already reserved under `route`.
    pub open spec fn existing(self, route: Seq<char>) -> nat {
        if self.allocations.contains_key(route) { self.allocations[route] as nat } else { 0 }
    }

    /// Bytes that `route` may hold: the budget less what other routes hold.
    pub open spec fn available_for(self, route: Seq<char>) -> int {
        self.budget - (self.used - self.existing(route))
    }
}

impl View for MemoryManager {
    type V = MemoryView;

    closed spec fn view(&self) -> MemoryView {
        MemoryView {
            budget: self.budget_bytes,
            allocations: self.allocations.map(),
            used: total(self.allocations.value_seq()),
        }
    }
}

impl MemoryManager {
    /// Reservations never exceed the budget.
    #[verifier::type_invariant]
    closed spec fn within_budget(&self) -> bool {
        total(self.allocations.value_seq()) <= self.budget_bytes
    }

    /// The reservations of a manager never add up to more than its budget.
    pub fn within_budget_facts(&self)
        ensures
            self@.used <= self@.budget,
            self@.used == reserved_total(self@.allocations),
            forall|k: Seq<char>| #[trigger] self@.allocations.contains_key(k) ==> self@.allocations[k] <= self@.used,
    {
        proof {
            use_type_invariant(self);
            use_type_invariant(&self.allocations);
            lemma_reserved_total(self.allocations);
            self.allocations.lemma_wf_facts();
            assert forall|k: Seq<char>| #[trigger] self@.allocations.contains_key(k) implies self@.allocations[k] <= self@.used by {
                let i = self.allocations.key_seq().index_of(k);
                self.allocations.lemma_index_of(i);
                lemma_total_edits(self.allocations.value_seq(), i, 0);
            }
        }
    }

    pub fn new(budget_bytes: u64) -> (m: Self)
        ensures
            m@.budget == budget_bytes,
            m@.allocations == Map::<Seq<char>, u64>::empty(),
            m@.used == 0,
            m@.used == reserved_total(m@.allocations),
    {
        let allocations = KeyedMap::new();
        proof {
            allocations.lemma_wf_facts();
            assert(allocations.value_seq() =~= Seq::<u64>::empty());
            use_type_invariant(&allocations);
            lemma_reserved_total(allocations);
        }
        MemoryManager { budget_bytes, allocations }
    }

    /// The bytes reserved in all.
    pub fn used(&self) -> (n: u64)
        ensures
            n == self@.used,
    {
        proof {
            use_type_invariant(self);
            self.allocations.lemma_wf_facts();
        }
        let count = self.allocations.len();
        let mut sum: u64 = 0;
        let mut i: usize = 0;
        while i < count
            invariant
                count == self.allocations.spec_len(),
                self.allocations.value_seq().len() == count,
                total(self.allocations.value_seq()) <= self.budget_bytes,
                i <= count,
                sum == total(self.allocations.value_seq().take(i as int)),
            decreases count - i,
        {
            let v = *self.allocations.value_at(i);
            proof {
                let s = self.allocations.value_seq();
                assert(s.take(i + 1).drop_last() =~= s.take(i as int));
                lemma_total_edits(s, i + 1, 0);
            }
            sum = sum + v;
            i = i + 1;
        }
        proof {
            assert(self.allocations.value_seq().take(count as int) =~= self.allocations.value_seq());
        }
        sum
    }

    /// Reserves `bytes` for `route`, replacing what `route` held, unless that
    /// would exceed the budget.
    pub fn reserve(&mut self, route: &str, bytes: u64) -> (r: Result<(), LlmGatewayError>)
        ensures
            r is Ok <==> bytes <= old(self)@.available_for(route@),
            r is Ok ==> final(self)@.allocations == old(self)@.allocations.insert(route@, bytes)
                && final(self)@.budget == old(self)@.budget
                && final(self)@.used == old(self)@.used - old(self)@.existing(route@) + bytes,
            final(self)@.used == reserved_total(final(self)@.allocations),
            r is Err ==> final(self)@ == old(self)@,
            r matches Err(e) ==> e matches LlmGatewayError::InsufficientMemory { route: name, requested_bytes, available_bytes }
                && name@ == route@
                && requested_bytes == bytes
                && available_bytes == old(self)@.available_for(route@),
    {
        proof {
            use_type_invariant(&*self);
            use_type_invariant(&self.allocations);
        }
        self.within_budget_facts();
        let used = self.used();
        let existing: u64 = match self.allocations.get(route) {
            Some(b) => {
                assert(self@.allocations.contains_key(route@));
                *b
            },
            None => 0,
        };
        let available = self.budget_bytes - (used - existing);
        if bytes > available {
            proof {
                lemma_reserved_total(self.allocations);
            }
            return Err(LlmGatewayError::InsufficientMemory {
                route: String::from_str(route),
                requested_bytes: bytes,
                available_bytes: available,
            });
        }
        let ghost old_values = self.allocations.value_seq();
        let ghost had = self.allocations.map().contains_key(route@);
        let ghost old_allocs = self.allocations;
        let mut allocations = KeyedMap::new();
        proof {
            allocations.lemma_wf_facts();
            old_allocs.lemma_wf_facts();
        }
        std::mem::swap(&mut allocations, &mut self.allocations);
        allocations.insert(String::from_str(route), bytes);
        proof {
            let s = old_values;
            allocations.lemma_wf_facts();
            if had {
                let idx = old_allocs.key_seq().index_of(route@);
                assert(old_allocs.key_seq().contains(route@));
                assert(0 <= idx < s.len());
                lemma_total_edits(s, idx, bytes);
                assert(total(allocations.value_seq()) == total(s) - s[idx] + bytes);
            } else {
                let idx = allocations.key_seq().index_of(route@);
                lemma_total_edits(s, idx, bytes);
                assert(total(allocations.value_seq()) == total(s) + bytes);
            }
            use_type_invariant(&allocations);
            lemma_reserved_total(allocations);
        }
        self.allocations = allocations;
        Ok(())
    }

    /// Drops the reservation of `route`.
    pub fn release(&mut self, route: &str)
        ensures
            final(self)@.allocations == old(self)@.allocations.remove(route@),
            final(self)@.budget == old(self)@.budget,
            final(self)@.used == old(self)@.used - old(self)@.existing(route@),
            final(self)@.used == reserved_total(final(self)@.allocations),
    {
        proof {
            use_type_invariant(&*self);
        }
        let ghost old_values = self.allocations.value_seq();
        let ghost had = self.allocations.map().contains_key(route@);
        let ghost at = self.allocations.key_seq().index_of(route@);
        let ghost old_allocs = self.allocations;
        let mut allocations = KeyedMap::new();
        proof {
            allocations.lemma_wf_facts();
            old_allocs.lemma_wf_facts();
        }
        std::mem::swap(&mut allocations, &mut self.allocations);
        let _ = allocations.remove(route);
        proof {
            if had {
                assert(old_allocs.key_seq().contains(route@));
                lemma_total_edits(old_values, at, 0);
                assert(total(allocations.value_seq()) == total(old_values) - old_values[at]);
            }
            use_type_invariant(&allocations);
            lemma_reserved_total(allocations);
        }
        self.allocations = allocations;
    }
}

/// What an inference slot is doing.
#[derive(Debug, Clone, Copy, PartialEq, Eq, Structural)]
pub enum SlotState {
    Idle,
    Prefill,
    Decode,
    Done,
}

/// One sequence slot of a local model.
#[derive(Debug)]
pub struct InferenceSlot {
    pub id: usize,
    pub route: ModelRoute,
    pub state: SlotState,
}

pub struct SlotView {
    pub id: usize,
    pub route: RouteView,
    pub state: SlotState,
}

impl View for InferenceSlot {
    type V = SlotView;

    open spec fn view(&self) -> SlotView {
        SlotView { id: self.id, route: self.route@, state: self.state }
    }
}

impl Clone for InferenceSlot {
    fn clone(&self) -> (r: Self)
        ensures
            r@ == self@,
    {
        InferenceSlot { id: self.id, route: self.route.clone(), state: self.state }
    }
}

impl PartialEq for InferenceSlot {
    fn eq(&self, other: &Self) -> (r: bool) {
        self.id == other.id && self.route == other.route && self.state == other.state
    }
}

impl vstd::std_specs::cmp::PartialEqSpecImpl for InferenceSlot {
    open spec fn obeys_eq_spec() -> bool {
        true
    }

    open spec fn eq_spec(&self, other: &Self) -> bool {
        self@ == other@
    }
}

impl Eq for InferenceSlot {}

/// A slot that `route` may take.
pub open spec fn slot_is_free_for(slot: SlotView, route: RouteView) -> bool {
    slot.route == route && slot.state == SlotState::Idle
}

/// The parallel sequence slots of a local model.
#[derive(Debug)]
pub struct InferenceSlots {
    slots: Vec<InferenceSlot>,
}

impl View for InferenceSlots {
    type V = Seq<SlotView>;

    closed spec fn view(&self) -> Seq<SlotView> {
        self.slots@.map_values(|s: InferenceSlot| s@)
    }
}

impl InferenceSlots {
    /// The slot at position `i` has id `i`.
    #[verifier::type_invariant]
    closed spec fn ids_are_positions(&self) -> bool {
        forall|i: int| 0 <= i < self.slots@.len() ==> (#[trigger] self.slots@[i]).id == i
    }

    /// Slot ids are positions; a published fact of every value.
    pub fn slot_ids_facts(&self)
        ensures
            forall|i: int| 0 <= i < self@.len() ==> (#[trigger] self@[i]).id == i,
    {
        proof {
            use_type_invariant(self);
        }
    }

    /// `count` slots for `route` (at least one), all idle.
    pub fn new(route: ModelRoute, count: usize) -> (s: Self)
        ensures
            s@.len() == if count == 0 { 1 } else { count },
            forall|i: int| 0 <= i < s@.len() ==> (#[trigger] s@[i]) == (SlotView { id: i as usize, route: route@, state: SlotState::Idle }),
    {
        let n: usize = if count == 0 { 1 } else { count };
        let mut slots: Vec<InferenceSlot> = Vec::new();
        let mut id: usize = 0;
        while id < n
            invariant
                id <= n,
                slots@.len() == id,
                forall|i: int| 0 <= i < id ==> (#[trigger] slots@[i])@ == (SlotView { id: i as usize, route: route@, state: SlotState::Idle }),
            decreases n - id,
        {
            slots.push(InferenceSlot { id, route: route.clone(), state: SlotState::Idle });
            id = id + 1;
        }
        InferenceSlots { slots }
    }

    /// Takes the first idle slot of `route`, moving it to prefill.
    pub fn acquire(&mut self, route: &ModelRoute) -> (r: Option<usize>)
        ensures
            r matches Some(id) ==> {
                &&& 0 <= id < old(self)@.len()
                &&& slot_is_free_for(old(self)@[id as int], route@)
                &&& forall|j: int| 0 <= j < id ==> !slot_is_free_for(#[trigger] old(self)@[j], route@)
                &&& final(self)@ == old(self)@.update(id as int, SlotView { state: SlotState::Prefill, ..old(self)@[id as int] })
            },
            r is None ==> final(self)@ == old(self)@
                && forall|j: int| 0 <= j < old(self)@.len() ==> !slot_is_free_for(#[trigger] old(self)@[j], route@),
    {
        proof {
            use_type_invariant(&*self);
        }
        let n = self.slots.len();
        let mut i: usize = 0;
        while i < n
            invariant
                n == self.slots@.len(),
                i <= n,
                self@ == old(self)@,
                self@.len() == n,
                forall|j: int| 0 <= j < n ==> (#[trigger] self.slots@[j]).id == j,
                forall|j: int| 0 <= j < i ==> !slot_is_free_for(#[trigger] self@[j], route@),
            decreases n - i,
        {
            if self.slots[i].route == *route && self.slots[i].state == SlotState::Idle {
                let ghost before = self@;
                let mut slots: Vec<InferenceSlot> = Vec::new();
                std::mem::swap(&mut slots, &mut self.slots);
                let old_slot = slots.remove(i);
                slots.insert(i, InferenceSlot { id: old_slot.id, route: old_slot.route, state: SlotState::Prefill });
                proof {
                    assert(slots@.map_values(|s: InferenceSlot| s@) =~= before.update(i as int, SlotView { state: SlotState::Prefill, ..before[i as int] }));
                    assert forall|j: int| 0 <= j < slots@.len() implies (#[trigger] slots@[j]).id == j by {
                        assert(slots@[j]@ == slots@.map_values(|s: InferenceSlot| s@)[j]);
                        assert(before[j] == old(self).slots@[j]@);
                    }
                }
                self.slots = slots;
                return Some(i);
            }
            i = i + 1;
        }
        None
    }

    /// Sets the state of the slot with id `id`, if there is one.
    pub fn set_state(&mut self, id: usize, state: SlotState)
        ensures
            id < old(self)@.len() ==> final(self)@ == old(self)@.update(id as int, SlotView { state: state, ..old(self)@[id as int] }),
            id >= old(self)@.len() ==> final(self)@ == old(self)@,
    {
        proof {
            use_type_invariant(&*self);
        }
        let n = self.slots.len();
        let mut i: usize = 0;
        while i < n
            invariant
                n == self.slots@.len(),
                i <= n,
                self@ == old(self)@,
                self@.len() == n,
                i <= id,
                forall|j: int| 0 <= j < n ==> (#[trigger] self.slots@[j]).id == j,
            decreases n - i,
        {
            if self.slots[i].id == id {
                let ghost before = self@;
                let mut slots: Vec<InferenceSlot> = Vec::new();
                std::mem::swap(&mut slots, &mut self.slots);
                let old_slot = slots.remove(i);
                slots.insert(i, InferenceSlot { id: old_slot.id, route: old_slot.route, state });
                proof {
                    assert(slots@.map_values(|s: InferenceSlot| s@) =~= before.update(i as int, SlotView { state: state, ..before[i as int] }));
                    assert forall|j: int| 0 <= j < slots@.len() implies (#[trigger] slots@[j]).id == j by {
                        assert(slots@[j]@ == slots@.map_values(|s: InferenceSlot| s@)[j]);
                        assert(before[j] == old(self).slots@[j]@);
                    }
                }
                self.slots = slots;
                return;
            }
            i = i + 1;
        }
    }
}

/// Hashes of the KV-cache prefixes each route has seen.
#[derive(Debug)]
pub struct KvCacheManager {
    prefixes: KeyedMap<VecDeque<String>>,
}

/// The texts of a queue of strings.
pub open spec fn texts_of(d: VecDeque<String>) -> Seq<Seq<char>> {
    d@.map_values(|s: String| s@)
}

impl View for KvCacheManager {
    type V = Map<Seq<char>, Seq<Seq<char>>>;

    closed spec fn view(&self) -> Map<Seq<char>, Seq<Seq<char>>> {
        self.prefixes.map().map_values(|d: VecDeque<String>| texts_of(d))
    }
}

/// The prefixes remembered under a route key.
pub open spec fn remembered(m: Map<Seq<char>, Seq<Seq<char>>>, key: Seq<char>) -> Seq<Seq<char>> {
    if m.contains_key(key) { m[key] } else { Seq::empty() }
}

impl Default for KvCacheManager {
    fn default() -> (k: Self)
        ensures
            k@ == Map::<Seq<char>, Seq<Seq<char>>>::empty(),
    {
        let k = KvCacheManager { prefixes: KeyedMap::new() };
        assert(k@ =~= Map::<Seq<char>, Seq<Seq<char>>>::empty());
        k
    }
}

impl KvCacheManager {
    /// Remembers that `route` has seen the prefix `prefix_hash`.
    pub fn remember_prefix(&mut self, route: &ModelRoute, prefix_hash: &str)
        ensures
            final(self)@ == old(self)@.insert(route@.key(), remembered(old(self)@, route@.key()).push(prefix_hash@)),
    {
        let key = route.key();
        let mut list = match self.prefixes.remove(key.as_str()) {
            Some(d) => d,
            None => VecDeque::new(),
        };
        let ghost before = texts_of(list);
        list.push_back(String::from_str(prefix_hash));
        proof {
            assert(texts_of(list) =~= before.push(prefix_hash@));
            assert(before == remembered(old(self)@, route@.key())) by {
                if !old(self)@.contains_key(route@.key()) {
                    assert(before =~= Seq::<Seq<char>>::empty());
                }
            }
        }
        self.prefixes.insert(key, list);
        proof {
            assert(self@ =~= old(self)@.insert(route@.key(), remembered(old(self)@, route@.key()).push(prefix_hash@)));
        }
    }

    /// Whether `route` has seen the prefix `prefix_hash`.
    pub fn has_prefix(&self, route: &ModelRoute, prefix_hash: &str) -> (b: bool)
        ensures
            b == remembered(self@, route@.key()).contains(prefix_hash@),
    {
        let key = route.key();
        match self.prefixes.get(key.as_str()) {
            None => {
                proof {
                    assert(remembered(self@, route@.key()) =~= Seq::<Seq<char>>::empty());
                }
                false
            },
            Some(list) => {
                assert(self@.contains_key(route@.key()));
                let n = list.len();
                let mut i: usize = 0;
                while i < n
                    invariant
                        n == list@.len(),
                        i <= n,
                        remembered(self@, route@.key()) == texts_of(*list),
                        forall|j: int| 0 <= j < i ==> (#[trigger] list@[j])@ != prefix_hash@,
                    decreases n - i,
                {
                    if same_text(list[i].as_str(), prefix_hash) {
                        proof {
                            assert(texts_of(*list)[i as int] == prefix_hash@);
                        }
                        return true;
                    }
                    i = i + 1;
                }
                proof {
                    assert forall|j: int| 0 <= j < texts_of(*list).len() implies texts_of(*list)[j] != prefix_hash@ by {
                        assert(texts_of(*list)[j] == list@[j]@);
                    }
                }
                false
            },
        }
    }
}

/// A model known to the registry.
#[derive(Debug)]
struct ModelRecord {
    config: ModelConfig,
    info: ModelInfo,
    last_used_ms: u64,
}

/// A model's configuration, what is known of its residency, and when it
/// was last used.
pub struct RecordView {
    pub config: ModelConfig,
    pub info: ModelInfoView,
    pub last_used_ms: u64,
}

spec fn record_view(r: ModelRecord) -> RecordView {
    RecordView { config: r.config, info: r.info@, last_used_ms: r.last_used_ms }
}

/// The registry's content: model keys in order, the record of each, and the
/// memory manager.
pub struct RegistryView {
    pub keys: Seq<Seq<char>>,
    pub models: Map<Seq<char>, RecordView>,
    pub memory: MemoryView,
}

/// Every resident model holds a reservation of its configured footprint.
pub open spec fn resident_models_reserved(v: RegistryView) -> bool {
    forall|k: Seq<char>| #[trigger] v.models.contains_key(k) && v.models[k].info.loaded ==> {
        &&& v.memory.allocations.contains_key(k)
        &&& v.models[k].info.memory_bytes == v.models[k].config.memory_bytes
        &&& v.models[k].info.kv_cache_bytes == v.models[k].config.kv_cache_bytes
        &&& v.memory.allocations[k] == v.models[k].config.memory_bytes + v.models[k].config.kv_cache_bytes
    }
}

/// The key list names every registered model once, in key order.
pub open spec fn keys_match(keys: Seq<Seq<char>>, models: Map<Seq<char>, RecordView>) -> bool {
    &&& keys_sorted(keys)
    &&& forall|k: Seq<char>| #[trigger] models.contains_key(k) <==> keys.contains(k)
    &&& keys.len() == models.dom().len()
    &&& models.dom().finite()
}

/// What every registry keeps: resident models hold their reservations, the
/// key list matches the models, and the memory in use is the sum of the
/// reservations and within the budget.
pub open spec fn registry_consistent(v: RegistryView) -> bool {
    &&& resident_models_reserved(v)
    &&& keys_match(v.keys, v.models)
    &&& v.memory.used == reserved_total(v.memory.allocations)
    &&& v.memory.used <= v.memory.budget
}

/// A time-to-live whose milliseconds fit in 64 bits.
pub open spec fn ttl_fits(c: ModelConfig) -> bool {
    c.ttl_seconds * 1000 <= u64::MAX
}

/// A configuration whose footprint and time-to-live in milliseconds fit in 64 bits.
pub open spec fn config_fits(c: ModelConfig) -> bool {
    c.memory_bytes + c.kv_cache_bytes <= u64::MAX && c.ttl_seconds * 1000 <= u64::MAX
}

/// `now + ttl`, stopping at the largest value.
pub open spec fn saturating_sum(a: u64, b: u64) -> u64 {
    if a + b > u64::MAX { u64::MAX } else { (a + b) as u64 }
}

/// When a model used at `now` with time-to-live `ttl_seconds` expires.
pub open spec fn expiry(now_ms: u64, ttl_seconds: u64) -> u64 {
    saturating_sum(now_ms, (ttl_seconds * 1000) as u64)
}

/// The record of a model that was just loaded.
pub open spec fn loaded_info(route: RouteView, config: ModelConfig, now_ms: u64, reason: ModelLoadReason) -> ModelInfoView {
    ModelInfoView {
        route: route,
        loaded: true,
        state: ModelState::Loaded,
        memory_bytes: config.memory_bytes,
        kv_cache_bytes: config.kv_cache_bytes,
        device: opt_text(config.device),
        expires_at_ms: Some(expiry(now_ms, config.ttl_seconds)),
        load_reason: reason,
    }
}

/// A resident model whose time is up.
pub open spec fn is_expired(info: ModelInfoView, now_ms: u64) -> bool {
    info.loaded && (info.expires_at_ms matches Some(t) && t <= now_ms)
}

/// A record once its model is unloaded.
pub open spec fn unloaded_record(r: RecordView) -> RecordView {
    RecordView {
        info: ModelInfoView { loaded: false, state: ModelState::Unloaded, expires_at_ms: None, ..r.info },
        ..r
    }
}

/// A record after expired models are unloaded at `now_ms`.
pub open spec fn after_expiry(r: RecordView, now_ms: u64) -> RecordView {
    if is_expired(r.info, now_ms) { unloaded_record(r) } else { r }
}

/// The records of the models unloaded at `now_ms`, in key order.
pub open spec fn expired_infos(keys: Seq<Seq<char>>, models: Map<Seq<char>, RecordView>, now_ms: u64) -> Seq<ModelInfoView>
    decreases keys.len(),
{
    if keys.len() == 0 {
        Seq::empty()
    } else {
        let prev = expired_infos(keys.drop_last(), models, now_ms);
        let r = models[keys.last()];
        if is_expired(r.info, now_ms) { prev.push(unloaded_record(r).info) } else { prev }
    }
}

/// The bytes reserved by the models that expire at `now_ms`, over `keys`.
pub open spec fn expired_bytes(keys: Seq<Seq<char>>, v: RegistryView, now_ms: u64) -> nat
    decreases keys.len(),
{
    if keys.len() == 0 {
        0
    } else {
        let k = keys.last();
        expired_bytes(keys.drop_last(), v, now_ms) + if is_expired(v.models[k].info, now_ms) {
            v.memory.existing(k)
        } else {
            0
        }
    }
}

/// A counter bumped `n` times.
pub open spec fn bumped_times(c: u64, n: nat) -> u64
    decreases n,
{
    if n == 0 { c } else { bumped(bumped_times(c, (n - 1) as nat)) }
}

/// The models the gateway knows of, their residency, and the memory they hold.
#[derive(Debug)]
pub struct ModelRegistry {
    models: KeyedMap<ModelRecord>,
    memory: MemoryManager,
}

impl View for ModelRegistry {
    type V = RegistryView;

    closed spec fn view(&self) -> RegistryView {
        RegistryView {
            keys: self.models.key_seq(),
            models: self.models.map().map_values(|r: ModelRecord| record_view(r)),
            memory: self.memory@,
        }
    }
}

/// A record of the default configuration, not resident and never used, that
/// holds a place in the map while the real record is worked on.
fn placeholder_record() -> (r: ModelRecord)
    ensures
        r.info@ == unloaded_view(RouteView { provider: Seq::empty(), model: Seq::empty() }),
        r.last_used_ms == 0,
        r.config.route@ == (RouteView { provider: Seq::empty(), model: Seq::empty() }),
        r.config.runtime == crate::config::RuntimeKind::Cloud,
        r.config.device is None,
        r.config.model_path is None,
        r.config.memory_bytes == 0,
        r.config.kv_cache_bytes == 0,
        r.config.context_tokens == 4096,
        r.config.max_parallel_sequences == 1,
        r.config.ttl_seconds == 300,
        r.config.parameters@ == Map::<Seq<char>, Seq<char>>::empty(),
{
    ModelRecord { config: ModelConfig::default(), info: ModelInfo::unloaded(ModelRoute::default()), last_used_ms: 0 }
}

/// The key list of a sorted map of records matches its records.
proof fn lemma_keys_match(models: KeyedMap<ModelRecord>)
    requires
        models.sorted_keys(),
    ensures
        keys_match(models.key_seq(), models.map().map_values(|r: ModelRecord| record_view(r))),
{
    models.lemma_sorted();
    models.lemma_wf_facts();
    models.lemma_dom_len();
    assert(models.map().map_values(|r: ModelRecord| record_view(r)).dom() =~= models.map().dom());
}

/// The view a registry would have with the given map of records and memory manager.
spec fn view_of(models: KeyedMap<ModelRecord>, memory: MemoryManager) -> RegistryView {
    RegistryView {
        keys: models.key_seq(),
        models: models.map().map_values(|r: ModelRecord| record_view(r)),
        memory: memory@,
    }
}

impl ModelRegistry {
    /// Every resident model holds a reservation of its footprint.
    #[verifier::type_invariant]
    closed spec fn resident_reserved(&self) -> bool {
        resident_models_reserved(self@)
    }

    /// What every registry keeps: resident models hold their reservations,
    /// the key list names every model once in key order, and the memory in
    /// use is the sum of the reservations, within the budget.
    pub fn consistency_facts(&self)
        ensures
            registry_consistent(self@),
    {
        proof {
            use_type_invariant(self);
            use_type_invariant(&self.models);
            lemma_keys_match(self.models);
        }
        self.memory.within_budget_facts();
    }

    /// Takes the records and the memory manager out, leaving no records, so
    /// that they can be worked on.
    fn take_parts(&mut self) -> (parts: (KeyedMap<ModelRecord>, MemoryManager))
        ensures
            parts.0 == old(self).models,
            parts.1 == old(self).memory,
            final(self).models.map() == Map::<Seq<char>, ModelRecord>::empty(),
    {
        let mut models = KeyedMap::new();
        std::mem::swap(&mut models, &mut self.models);
        let mut memory = MemoryManager::new(0);
        std::mem::swap(&mut memory, &mut self.memory);
        (models, memory)
    }

    pub fn new(memory_budget_bytes: u64) -> (r: Self)
        ensures
            registry_consistent(r@),
            r@.models == Map::<Seq<char>, RecordView>::empty(),
            r@.keys.len() == 0,
            r@.memory.budget == memory_budget_bytes,
            r@.memory.allocations == Map::<Seq<char>, u64>::empty(),
            r@.memory.used == 0,
    {
        let r = ModelRegistry { models: KeyedMap::new(), memory: MemoryManager::new(memory_budget_bytes) };
        assert(r@.models =~= Map::<Seq<char>, RecordView>::empty());
        r.consistency_facts();
        r
    }

    /// Registers `config` under its route's key, as not resident.
    pub fn register(&mut self, config: ModelConfig)
        ensures
            registry_consistent(final(self)@),
            final(self)@.models == old(self)@.models.insert(config.route@.key(), RecordView {
                config: config,
                info: unloaded_view(config.route@),
                last_used_ms: 0,
            }),
            final(self)@.memory == old(self)@.memory,
    {
        proof {
            use_type_invariant(&*self);
        }
        let ghost old_v = self@;
        let key = config.route.key();
        let info = ModelInfo::unloaded(config.route.clone());
        let ghost config_v = config;
        let record = ModelRecord { config, info, last_used_ms: 0 };
        let (mut models, mut memory) = self.take_parts();
        models.insert(key, record);
        proof {
            assert(view_of(models, memory).models =~= old_v.models.insert(config_v.route@.key(), RecordView {
                config: config_v,
                info: unloaded_view(config_v.route@),
                last_used_ms: 0,
            }));
            assert(resident_models_reserved(view_of(models, memory))) by {
                assert forall|k: Seq<char>| #[trigger] view_of(models, memory).models.contains_key(k)
                    && view_of(models, memory).models[k].info.loaded implies old_v.models.contains_key(k)
                    && old_v.models[k] == view_of(models, memory).models[k] by {
                }
            }
        }
        self.memory = memory;
        self.models = models;
        self.consistency_facts();
    }

    /// Loads the model of `route` at `now_ms`, reserving its memory if it was
    /// not resident; a load that reserves is recorded on `telemetry`.
    pub fn load(&mut self, route: &ModelRoute, now_ms: u64, reason: ModelLoadReason, telemetry: &mut Telemetry) -> (r: Result<ModelInfo, LlmGatewayError>)
        requires
            old(self)@.models.contains_key(route@.key()) ==> config_fits(old(self)@.models[route@.key()].config),
        ensures
            registry_consistent(final(self)@),
            final(self)@.keys == old(self)@.keys,
            !old(self)@.models.contains_key(route@.key()) ==> ({
                &&& final(self)@ == old(self)@
                &&& final(telemetry)@ == old(telemetry)@
                &&& r matches Err(e)
                &&& e matches LlmGatewayError::ModelNotLoaded(k)
                &&& k@ == route@.key()
            }),
            old(self)@.models.contains_key(route@.key()) ==> ({
                let key = route@.key();
                let rec = old(self)@.models[key];
                let requested = rec.config.memory_bytes + rec.config.kv_cache_bytes;
                if !rec.info.loaded && requested > old(self)@.memory.available_for(key) {
                    &&& final(self)@ == old(self)@
                    &&& final(telemetry)@ == old(telemetry)@
                    &&& r matches Err(e)
                    &&& e matches LlmGatewayError::InsufficientMemory { route: name, requested_bytes, available_bytes }
                    &&& name@ == key
                    &&& requested_bytes == requested
                    &&& available_bytes == old(self)@.memory.available_for(key)
                } else {
                    &&& r matches Ok(info)
                    &&& info@ == loaded_info(route@, rec.config, now_ms, reason)
                    &&& final(self)@.models == old(self)@.models.insert(key, RecordView { config: rec.config, info: info@, last_used_ms: now_ms })
                    &&& rec.info.loaded ==> final(self)@.memory == old(self)@.memory && final(telemetry)@ == old(telemetry)@
                    &&& !rec.info.loaded ==> {
                        &&& final(self)@.memory.allocations == old(self)@.memory.allocations.insert(key, requested as u64)
                        &&& final(self)@.memory.budget == old(self)@.memory.budget
                        &&& final(self)@.memory.used == old(self)@.memory.used - old(self)@.memory.existing(key) + requested
                        &&& final(telemetry)@ == (GatewayMetrics { model_loads: bumped(old(telemetry)@.model_loads), ..old(telemetry)@ })
                    }
                }
            }),
    {
        proof {
            use_type_invariant(&*self);
        }
        let key = route.key();
        let pos = match self.models.find(key.as_str()) {
            Some(i) => i,
            None => {
                proof {
                    assert(!old(self)@.models.contains_key(route@.key()));
                }
                self.consistency_facts();
                return Err(LlmGatewayError::ModelNotLoaded(key));
            },
        };
        let ghost old_v = self@;
        proof {
            assert(old_v.models.contains_key(key@));
            assert(old_v.models[key@] == record_view(self.models.value_seq()[pos as int]));
        }
        let ghost old_vals = self.models.value_seq();
        let ghost old_models = self.models;
        proof {
            old_models.lemma_wf_facts();
        }
        let (mut models, mut memory) = self.take_parts();
        let mut record = models.replace_at(pos, placeholder_record());
        if !record.info.loaded {
            let requested = record.config.memory_bytes + record.config.kv_cache_bytes;
            match memory.reserve(key.as_str(), requested) {
                Ok(()) => {},
                Err(e) => {
                    let _ = models.replace_at(pos, record);
                    proof {
                        assert(models.value_seq() =~= old_vals);
                        assert(models.map() =~= old_models.map());
                        assert(view_of(models, memory).models =~= old_v.models);
                    }
                    self.memory = memory;
                    self.models = models;
                    self.consistency_facts();
                    return Err(e);
                },
            }
            telemetry.record_model_load(route);
        }
        record.last_used_ms = now_ms;
        let ttl_ms = record.config.ttl_seconds * 1000;
        record.info = ModelInfo {
            route: route.clone(),
            loaded: true,
            state: ModelState::Loaded,
            memory_bytes: record.config.memory_bytes,
            kv_cache_bytes: record.config.kv_cache_bytes,
            device: clone_opt_string(&record.config.device),
            expires_at_ms: Some(now_ms.saturating_add(ttl_ms)),
            load_reason: reason,
        };
        let info = record.info.clone();
        let ghost new_rec = record_view(record);
        let _ = models.replace_at(pos, record);
        proof {
            let v = view_of(models, memory);
            assert(v.models =~= old_v.models.insert(key@, new_rec));
            assert forall|k: Seq<char>| #[trigger] v.models.contains_key(k) && v.models[k].info.loaded implies {
                &&& v.memory.allocations.contains_key(k)
                &&& v.models[k].info.memory_bytes == v.models[k].config.memory_bytes
                &&& v.models[k].info.kv_cache_bytes == v.models[k].config.kv_cache_bytes
                &&& v.memory.allocations[k] == v.models[k].config.memory_bytes + v.models[k].config.kv_cache_bytes
            } by {
                if k != key@ {
                    assert(old_v.models.contains_key(k));
                }
            }
            assert(resident_models_reserved(v));
        }
        self.memory = memory;
        self.models = models;
        self.consistency_facts();
        Ok(info)
    }

    /// Marks the model of `route` as used at `now_ms`, extending its lifetime
    /// if it is resident.
    pub fn touch(&mut self, route: &ModelRoute, now_ms: u64) -> (r: Result<ModelInfo, LlmGatewayError>)
        requires
            old(self)@.models.contains_key(route@.key()) ==> ttl_fits(old(self)@.models[route@.key()].config),
        ensures
            registry_consistent(final(self)@),
            final(self)@.keys == old(self)@.keys,
            final(self)@.memory == old(self)@.memory,
            !old(self)@.models.contains_key(route@.key()) ==> ({
                &&& final(self)@ == old(self)@
                &&& r matches Err(e)
                &&& e matches LlmGatewayError::ModelNotLoaded(k)
                &&& k@ == route@.key()
            }),
            old(self)@.models.contains_key(route@.key()) ==> ({
                let key = route@.key();
                let rec = old(self)@.models[key];
                let info = if rec.info.loaded {
                    ModelInfoView { expires_at_ms: Some(expiry(now_ms, rec.config.ttl_seconds)), ..rec.info }
                } else {
                    rec.info
                };
                &&& r matches Ok(i)
                &&& i@ == info
                &&& final(self)@.models == old(self)@.models.insert(key, RecordView { info: info, last_used_ms: now_ms, ..rec })
            }),
    {
        proof {
            use_type_invariant(&*self);
        }
        let key = route.key();
        let pos = match self.models.find(key.as_str()) {
            Some(i) => i,
            None => {
                self.consistency_facts();
                return Err(LlmGatewayError::ModelNotLoaded(key));
            },
        };
        let ghost old_v = self@;
        let ghost old_models = self.models;
        proof {
            old_models.lemma_wf_facts();
            assert(old_v.models[key@] == record_view(self.models.value_seq()[pos as int]));
        }
        let (mut models, mut memory) = self.take_parts();
        let mut record = models.replace_at(pos, placeholder_record());
        record.last_used_ms = now_ms;
        if record.info.loaded {
            let ttl_ms = record.config.ttl_seconds * 1000;
            record.info.expires_at_ms = Some(now_ms.saturating_add(ttl_ms));
        }
        let info = record.info.clone();
        let ghost new_rec = record_view(record);
        let _ = models.replace_at(pos, record);
        proof {
            let v = view_of(models, memory);
            assert(v.models =~= old_v.models.insert(key@, new_rec));
            assert forall|k: Seq<char>| #[trigger] v.models.contains_key(k) && v.models[k].info.loaded implies {
                &&& v.memory.allocations.contains_key(k)
                &&& v.models[k].info.memory_bytes == v.models[k].config.memory_bytes
                &&& v.models[k].info.kv_cache_bytes == v.models[k].config.kv_cache_bytes
                &&& v.memory.allocations[k] == v.models[k].config.memory_bytes + v.models[k].config.kv_cache_bytes
            } by {
                assert(old_v.models.contains_key(k));
            }
            assert(resident_models_reserved(v));
        }
        self.memory = memory;
        self.models = models;
        self.consistency_facts();
        Ok(info)
    }

    /// What is known of the model of `route`.
    pub fn info(&self, route: &ModelRoute) -> (r: Option<ModelInfo>)
        ensures
            r is Some <==> self@.models.contains_key(route@.key()),
            r matches Some(i) ==> i@ == self@.models[route@.key()].info,
    {
        let key = route.key();
        match self.models.get(key.as_str()) {
            Some(record) => Some(record.info.clone()),
            None => None,
        }
    }

    /// The bytes reserved by resident models.
    pub fn used_memory_bytes(&self) -> (n: u64)
        ensures
            n == self@.memory.used,
    {
        self.memory.used()
    }

    /// Unloads every resident model whose lifetime ended by `now_ms`,
    /// releasing its memory, records each unload on `telemetry`, and hands
    /// back their records in key order.
    pub fn unload_expired(&mut self, now_ms: u64, telemetry: &mut Telemetry) -> (r: Vec<ModelInfo>)
        ensures
            registry_consistent(final(self)@),
            final(self)@.keys == old(self)@.keys,
            r@.map_values(|i: ModelInfo| i@) == expired_infos(old(self)@.keys, old(self)@.models, now_ms),
            final(self)@.models == old(self)@.models.map_values(|rec: RecordView| after_expiry(rec, now_ms)),
            final(self)@.memory.budget == old(self)@.memory.budget,
            forall|k: Seq<char>| #[trigger] final(self)@.memory.allocations.contains_key(k) <==>
                old(self)@.memory.allocations.contains_key(k)
                && !(old(self)@.models.contains_key(k) && is_expired(old(self)@.models[k].info, now_ms)),
            forall|k: Seq<char>| #[trigger] final(self)@.memory.allocations.contains_key(k) ==>
                final(self)@.memory.allocations[k] == old(self)@.memory.allocations[k],
            final(self)@.memory.used + expired_bytes(old(self)@.keys, old(self)@, now_ms) == old(self)@.memory.used,
            final(telemetry)@ == (GatewayMetrics {
                model_unloads: bumped_times(old(telemetry)@.model_unloads, r@.len()),
                ..old(telemetry)@
            }),
    {
        proof {
            use_type_invariant(&*self);
        }
        let ghost old_v = self@;
        let ghost old_t = telemetry@;
        let ghost old_models = self.models;
        let ghost keys = old_v.keys;
        proof {
            old_models.lemma_wf_facts();
            use_type_invariant(&self.models);
            assert forall|j: int| 0 <= j < old_models.spec_len() implies
                old_v.models[#[trigger] keys[j]] == record_view(old_models.value_seq()[j])
                && keys.index_of(keys[j]) == j by {
                old_models.lemma_index_of(j);
            }
        }
        let (mut models, mut memory) = self.take_parts();
        let mut unloaded: Vec<ModelInfo> = Vec::new();
        let n = models.len();
        let mut i: usize = 0;
        while i < n
            invariant
                n == old_models.spec_len(),
                old_models.value_seq().len() == n,
                keys == old_models.key_seq(),
                i <= n,
                models.key_seq() == keys,
                models.value_seq().len() == n,
                self.models.map() == Map::<Seq<char>, ModelRecord>::empty(),
                forall|j: int| 0 <= j < n ==> old_v.models[#[trigger] keys[j]] == record_view(old_models.value_seq()[j]),
                forall|j: int| 0 <= j < n ==> keys.index_of(#[trigger] keys[j]) == j,
                forall|j: int| 0 <= j < i ==> record_view(#[trigger] models.value_seq()[j])
                    == after_expiry(record_view(old_models.value_seq()[j]), now_ms),
                forall|j: int| i <= j < n ==> #[trigger] models.value_seq()[j] == old_models.value_seq()[j],
                unloaded@.map_values(|x: ModelInfo| x@) == expired_infos(keys.take(i as int), old_v.models, now_ms),
                memory@.budget == old_v.memory.budget,
                forall|k: Seq<char>| #[trigger] memory@.allocations.contains_key(k) <==>
                    old_v.memory.allocations.contains_key(k)
                    && !(keys.contains(k) && keys.index_of(k) < i && is_expired(old_v.models[k].info, now_ms)),
                forall|k: Seq<char>| #[trigger] memory@.allocations.contains_key(k) ==>
                    memory@.allocations[k] == old_v.memory.allocations[k],
                memory@.used + expired_bytes(keys.take(i as int), old_v, now_ms) == old_v.memory.used,
                telemetry@ == (GatewayMetrics {
                    model_unloads: bumped_times(old_t.model_unloads, unloaded@.len()),
                    ..old_t
                }),
                resident_models_reserved(old_v),
            decreases n - i,
        {
            let mut record = models.replace_at(i, placeholder_record());
            let expired = record.info.loaded && match record.info.expires_at_ms {
                Some(t) => t <= now_ms,
                None => false,
            };
            let ghost before_unloaded = unloaded@.map_values(|x: ModelInfo| x@);
            let ghost before_memory = memory@;
            proof {
                let ks = keys.take(i + 1);
                assert(ks.drop_last() =~= keys.take(i as int));
                assert(ks.last() == keys[i as int]);
                assert(old_v.models[keys[i as int]] == record_view(old_models.value_seq()[i as int]));
                assert(keys.contains(keys[i as int]));
            }
            if expired {
                let key = models.key_at(i);
                memory.release(key.as_str());
                proof {
                    let k = keys[i as int];
                    assert(key@ == k);
                    if before_memory.allocations.contains_key(k) {
                        assert(before_memory.allocations[k] == old_v.memory.allocations[k]);
                        assert(old_v.memory.allocations.contains_key(k));
                    } else {
                        assert(!old_v.memory.allocations.contains_key(k));
                    }
                    assert(before_memory.existing(k) == old_v.memory.existing(k));
                }
                telemetry.record_model_unload(&record.info.route);
                record.info.loaded = false;
                record.info.state = ModelState::Unloaded;
                record.info.expires_at_ms = None;
                unloaded.push(record.info.clone());
            }
            let _ = models.replace_at(i, record);
            proof {
                let ks = keys.take(i + 1);
                assert(unloaded@.map_values(|x: ModelInfo| x@) =~= expired_infos(ks, old_v.models, now_ms));
            }
            i = i + 1;
        }
        proof {
            assert(keys.take(n as int) =~= keys);
            let v = view_of(models, memory);
            assert(v.models =~= old_v.models.map_values(|rec: RecordView| after_expiry(rec, now_ms))) by {
                assert forall|k: Seq<char>| #[trigger] v.models.contains_key(k) implies
                    v.models[k] == after_expiry(old_v.models[k], now_ms) by {
                    let j = keys.index_of(k);
                    assert(keys.contains(k));
                    models.lemma_wf_facts();
                }
            }
            assert forall|k: Seq<char>| #[trigger] v.models.contains_key(k) && v.models[k].info.loaded implies {
                &&& v.memory.allocations.contains_key(k)
                &&& v.models[k].info.memory_bytes == v.models[k].config.memory_bytes
                &&& v.models[k].info.kv_cache_bytes == v.models[k].config.kv_cache_bytes
                &&& v.memory.allocations[k] == v.models[k].config.memory_bytes + v.models[k].config.kv_cache_bytes
            } by {
                assert(old_v.models.contains_key(k));
                assert(keys.contains(k));
            }
            assert(resident_models_reserved(v));
        }
        self.memory = memory;
        self.models = models;
        self.consistency_facts();
        unloaded
    }
}

/// Releasing a route after reserving for it leaves no reservation of that
/// route and the others as they were.
pub proof fn law_reserve_then_release(allocations: Map<Seq<char>, u64>, route: Seq<char>, bytes: u64)
    ensures
        allocations.insert(route, bytes).remove(route) == allocations.remove(route),
{
    assert(allocations.insert(route, bytes).remove(route) =~= allocations.remove(route));
}

/// A granted reservation keeps the memory in use within the budget: it
/// replaces the route's previous one, so the bytes in use grow by the
/// difference only.
pub proof fn law_granted_reservation_within_budget(m: MemoryView, route: Seq<char>, bytes: u64, used_after: nat)
    requires
        m.used <= m.budget,
        m.existing(route) <= m.used,
        bytes <= m.available_for(route),
        used_after == m.used - m.existing(route) + bytes,
    ensures
        used_after <= m.budget,
{
}

/// A prefix remembered for a route is then found for that route, and the
/// prefixes of every other route are as they were.
pub proof fn law_prefix_read_after_write(m: Map<Seq<char>, Seq<Seq<char>>>, key: Seq<char>, prefix: Seq<char>, other: Seq<char>)
    requires
        other != key,
    ensures
        remembered(m.insert(key, remembered(m, key).push(prefix)), key).contains(prefix),
        remembered(m.insert(key, remembered(m, key).push(prefix)), other) == remembered(m, other),
{
    let l = remembered(m, key).push(prefix);
    assert(l[l.len() - 1] == prefix);
}

/// Loading keeps every resident model's footprint reserved, and what is
/// reserved never exceeds the budget: a model is only resident within the
/// memory budget.
pub proof fn law_resident_models_fit_budget(v: RegistryView, k: Seq<char>)
    requires
        resident_models_reserved(v),
        v.memory.used <= v.memory.budget,
        forall|j: Seq<char>| #[trigger] v.memory.allocations.contains_key(j) ==> v.memory.allocations[j] <= v.memory.used,
        v.models.contains_key(k),
        v.models[k].info.loaded,
    ensures
        v.models[k].config.memory_bytes + v.models[k].config.kv_cache_bytes <= v.memory.budget,
{
    assert(v.memory.allocations.contains_key(k));
}


/// A model that is loaded reports what it was loaded for and with: the
/// reason it was asked with, its route, the footprint of its configuration,
/// its device, and that it is resident until its time-to-live has passed.
pub proof fn law_load_reports_its_request(route: RouteView, config: ModelConfig, now_ms: u64, reason: ModelLoadReason)
    requires
        config_fits(config),
    ensures
        loaded_info(route, config, now_ms, reason).load_reason == reason,
        loaded_info(route, config, now_ms, reason).route == route,
        loaded_info(route, config, now_ms, reason).loaded,
        loaded_info(route, config, now_ms, reason).state == ModelState::Loaded,
        loaded_info(route, config, now_ms, reason).memory_bytes == config.memory_bytes,
        loaded_info(route, config, now_ms, reason).kv_cache_bytes == config.kv_cache_bytes,
        loaded_info(route, config, now_ms, reason).device == opt_text(config.device),
        now_ms + config.ttl_seconds * 1000 <= u64::MAX ==>
            loaded_info(route, config, now_ms, reason).expires_at_ms == Some((now_ms + config.ttl_seconds * 1000) as u64),
        now_ms + config.ttl_seconds * 1000 > u64::MAX ==>
            loaded_info(route, config, now_ms, reason).expires_at_ms == Some(u64::MAX),
{
}

} // verus!
