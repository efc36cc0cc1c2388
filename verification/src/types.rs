//! The gateway's request, response and model records.

use vstd::prelude::*;
use vstd::string::*;
use crate::keyed::{KeyedMap, lemma_same_view};

verus! {

/// A JSON document, held as its text. Two documents are the same when their
/// texts are: texts that serde_json wrote (no spaces, object members in key
/// order) compare as their values do, while texts written otherwise compare
/// as text. Documents the library makes from a provider's answer are first
/// written back by serde_json (see `gateway::tool_call_from`).
#[derive(Debug)]
pub struct JsonValue {
    text: String,
}

impl View for JsonValue {
    type V = Seq<char>;

    closed spec fn view(&self) -> Seq<char> {
        self.text@
    }
}

impl JsonValue {
    /// The JSON document written as `text`, kept as it is written: callers
    /// that want documents to compare by value pass text serde_json wrote.
    pub fn from_text(text: &str) -> (v: Self)
        ensures
            v@ == text@,
    {
        JsonValue { text: String::from_str(text) }
    }

    /// The serialized text.
    pub fn as_text(&self) -> (t: &str)
        ensures
            t@ == self@,
    {
        self.text.as_str()
    }

    /// Whether two documents have the same text.
    pub fn same(&self, other: &JsonValue) -> (b: bool)
        ensures
            b == (self@ == other@),
    {
        self.text == other.text
    }
}

impl Clone for JsonValue {
    fn clone(&self) -> (r: Self)
        ensures
            r@ == self@,
    {
        JsonValue { text: self.text.clone() }
    }
}

/// The view of an optional string.
pub open spec fn opt_text(o: Option<String>) -> Option<Seq<char>> {
    match o {
        Some(s) => Some(s@),
        None => None,
    }
}

/// Clones an optional string, keeping its text.
pub fn clone_opt_string(o: &Option<String>) -> (r: Option<String>)
    ensures
        opt_text(r) == opt_text(*o),
{
    match o {
        Some(s) => Some(s.clone()),
        None => None,
    }
}

/// Clones a JSON map, keeping its view.
pub fn clone_json_map(m: &KeyedMap<JsonValue>) -> (r: KeyedMap<JsonValue>)
    ensures
        r@ == m@,
        r.key_seq() == m.key_seq(),
{
    let r = m.clone();
    proof {
        m.lemma_wf_facts();
        r.lemma_wf_facts();
        lemma_same_view(&r, m);
    }
    r
}

/// A provider and a model of that provider.
#[derive(Debug, Eq, PartialOrd, Ord)]
pub struct ModelRoute {
    pub provider: String,
    pub model: String,
}

/// The view of a route: its provider and model names.
pub struct RouteView {
    pub provider: Seq<char>,
    pub model: Seq<char>,
}

impl RouteView {
    /// The route's key, `provider:model`.
    pub open spec fn key(self) -> Seq<char> {
        self.provider + ":"@ + self.model
    }
}

impl View for ModelRoute {
    type V = RouteView;

    open spec fn view(&self) -> RouteView {
        RouteView { provider: self.provider@, model: self.model@ }
    }
}

impl ModelRoute {
    pub fn new(provider: &str, model: &str) -> (r: Self)
        ensures
            r@ == (RouteView { provider: provider@, model: model@ }),
    {
        ModelRoute { provider: String::from_str(provider), model: String::from_str(model) }
    }

    /// The route's key, `provider:model`, which names it in maps.
    pub fn key(&self) -> (k: String)
        ensures
            k@ == self@.key(),
    {
        let mut k = self.provider.clone();
        k.append(":");
        k.append(self.model.as_str());
        k
    }
}

impl Clone for ModelRoute {
    fn clone(&self) -> (r: Self)
        ensures
            r@ == self@,
    {
        ModelRoute { provider: self.provider.clone(), model: self.model.clone() }
    }
}

impl PartialEq for ModelRoute {
    fn eq(&self, other: &Self) -> (r: bool) {
        self.provider == other.provider && self.model == other.model
    }
}

impl vstd::std_specs::cmp::PartialEqSpecImpl for ModelRoute {
    open spec fn obeys_eq_spec() -> bool {
        true
    }

    open spec fn eq_spec(&self, other: &Self) -> bool {
        self@ == other@
    }
}

impl Default for ModelRoute {
    fn default() -> (r: Self)
        ensures
            r@.provider == Seq::<char>::empty(),
            r@.model == Seq::<char>::empty(),
    {
        ModelRoute { provider: String::new(), model: String::new() }
    }
}

/// One message of a conversation.
#[derive(Debug, Eq)]
pub struct LlmMessage {
    pub role: String,
    pub content: String,
}

pub struct MessageView {
    pub role: Seq<char>,
    pub content: Seq<char>,
}

impl View for LlmMessage {
    type V = MessageView;

    open spec fn view(&self) -> MessageView {
        MessageView { role: self.role@, content: self.content@ }
    }
}

impl LlmMessage {
    /// A message from the user.
    pub fn user(content: &str) -> (m: Self)
        ensures
            m@.role == "user"@,
            m@.content == content@,
    {
        LlmMessage { role: String::from_str("user"), content: String::from_str(content) }
    }
}

impl Clone for LlmMessage {
    fn clone(&self) -> (r: Self)
        ensures
            r@ == self@,
    {
        LlmMessage { role: self.role.clone(), content: self.content.clone() }
    }
}

impl PartialEq for LlmMessage {
    fn eq(&self, other: &Self) -> (r: bool) {
        self.role == other.role && self.content == other.content
    }
}

impl vstd::std_specs::cmp::PartialEqSpecImpl for LlmMessage {
    open spec fn obeys_eq_spec() -> bool {
        true
    }

    open spec fn eq_spec(&self, other: &Self) -> bool {
        self@ == other@
    }
}

/// A tool the model may call.
#[derive(Debug)]
pub struct LlmTool {
    pub name: String,
    pub description: String,
    pub input_schema: JsonValue,
}

pub struct ToolView {
    pub name: Seq<char>,
    pub description: Seq<char>,
    pub input_schema: Seq<char>,
}

impl View for LlmTool {
    type V = ToolView;

    open spec fn view(&self) -> ToolView {
        ToolView { name: self.name@, description: self.description@, input_schema: self.input_schema@ }
    }
}

impl Clone for LlmTool {
    fn clone(&self) -> (r: Self)
        ensures
            r@ == self@,
    {
        LlmTool {
            name: self.name.clone(),
            description: self.description.clone(),
            input_schema: self.input_schema.clone(),
        }
    }
}

/// A call of a tool, as the model asked for it.
#[derive(Debug)]
pub struct LlmToolCall {
    pub name: String,
    pub arguments: JsonValue,
}

pub struct ToolCallView {
    pub name: Seq<char>,
    pub arguments: Seq<char>,
}

impl View for LlmToolCall {
    type V = ToolCallView;

    open spec fn view(&self) -> ToolCallView {
        ToolCallView { name: self.name@, arguments: self.arguments@ }
    }
}

impl Clone for LlmToolCall {
    fn clone(&self) -> (r: Self)
        ensures
            r@ == self@,
    {
        LlmToolCall { name: self.name.clone(), arguments: self.arguments.clone() }
    }
}

/// Tokens spent on a call.
#[derive(Debug, Clone, Copy, PartialEq, Eq, Structural)]
pub struct TokenUsage {
    pub input_tokens: u64,
    pub output_tokens: u64,
}

/// What a model answered.
#[derive(Debug)]
pub struct LlmResponse {
    pub text: String,
    pub reasoning: Option<String>,
    pub tool_calls: Vec<LlmToolCall>,
    pub usage: Option<TokenUsage>,
}

pub struct ResponseView {
    pub text: Seq<char>,
    pub reasoning: Option<Seq<char>>,
    pub tool_calls: Seq<ToolCallView>,
    pub usage: Option<TokenUsage>,
}

impl View for LlmResponse {
    type V = ResponseView;

    open spec fn view(&self) -> ResponseView {
        ResponseView {
            text: self.text@,
            reasoning: opt_text(self.reasoning),
            tool_calls: self.tool_calls@.map_values(|c: LlmToolCall| c@),
            usage: self.usage,
        }
    }
}

/// Clones a list of tool calls, keeping each call's view.
pub fn clone_tool_calls(calls: &Vec<LlmToolCall>) -> (r: Vec<LlmToolCall>)
    ensures
        r@.map_values(|c: LlmToolCall| c@) == calls@.map_values(|c: LlmToolCall| c@),
{
    let r = calls.clone();
    assert(r@.map_values(|c: LlmToolCall| c@) =~= calls@.map_values(|c: LlmToolCall| c@));
    r
}

impl Clone for LlmResponse {
    fn clone(&self) -> (r: Self)
        ensures
            r@ == self@,
    {
        LlmResponse {
            text: self.text.clone(),
            reasoning: clone_opt_string(&self.reasoning),
            tool_calls: clone_tool_calls(&self.tool_calls),
            usage: self.usage,
        }
    }
}

/// One event of a streamed answer.
#[derive(Debug)]
pub enum LlmStreamEvent {
    TextDelta { text: String },
    ReasoningDelta { text: String },
    ToolCall { call: LlmToolCall },
    Done { response: LlmResponse },
}

pub enum StreamEventView {
    TextDelta { text: Seq<char> },
    ReasoningDelta { text: Seq<char> },
    ToolCall { call: ToolCallView },
    Done { response: ResponseView },
}

impl View for LlmStreamEvent {
    type V = StreamEventView;

    open spec fn view(&self) -> StreamEventView {
        match self {
            LlmStreamEvent::TextDelta { text } => StreamEventView::TextDelta { text: text@ },
            LlmStreamEvent::ReasoningDelta { text } => StreamEventView::ReasoningDelta { text: text@ },
            LlmStreamEvent::ToolCall { call } => StreamEventView::ToolCall { call: call@ },
            LlmStreamEvent::Done { response } => StreamEventView::Done { response: response@ },
        }
    }
}

/// A chat request addressed to a route.
#[derive(Debug)]
pub struct LlmRequest {
    pub route: ModelRoute,
    pub messages: Vec<LlmMessage>,
    pub request_id: Option<String>,
    pub deadline_ms: Option<u64>,
    pub priority: u8,
    pub cache: bool,
    pub tools: Vec<LlmTool>,
    pub output_schema: Option<JsonValue>,
    pub parameters: KeyedMap<JsonValue>,
    pub provider_parameters: KeyedMap<JsonValue>,
}

/// The view of an optional JSON document.
pub open spec fn opt_json(o: Option<JsonValue>) -> Option<Seq<char>> {
    match o {
        Some(v) => Some(v@),
        None => None,
    }
}

pub struct RequestView {
    pub route: RouteView,
    pub messages: Seq<MessageView>,
    pub request_id: Option<Seq<char>>,
    pub deadline_ms: Option<u64>,
    pub priority: u8,
    pub cache: bool,
    pub tools: Seq<ToolView>,
    pub output_schema: Option<Seq<char>>,
    pub parameters: Map<Seq<char>, Seq<char>>,
    pub provider_parameters: Map<Seq<char>, Seq<char>>,
}

impl View for LlmRequest {
    type V = RequestView;

    open spec fn view(&self) -> RequestView {
        RequestView {
            route: self.route@,
            messages: self.messages@.map_values(|m: LlmMessage| m@),
            request_id: opt_text(self.request_id),
            deadline_ms: self.deadline_ms,
            priority: self.priority,
            cache: self.cache,
            tools: self.tools@.map_values(|t: LlmTool| t@),
            output_schema: opt_json(self.output_schema),
            parameters: self.parameters@,
            provider_parameters: self.provider_parameters@,
        }
    }
}

/// Clones a list of messages, keeping each message's view.
pub fn clone_messages(messages: &Vec<LlmMessage>) -> (r: Vec<LlmMessage>)
    ensures
        r@.map_values(|m: LlmMessage| m@) == messages@.map_values(|m: LlmMessage| m@),
{
    let r = messages.clone();
    assert(r@.map_values(|m: LlmMessage| m@) =~= messages@.map_values(|m: LlmMessage| m@));
    r
}

/// Clones a list of tools, keeping each tool's view.
pub fn clone_tools(tools: &Vec<LlmTool>) -> (r: Vec<LlmTool>)
    ensures
        r@.map_values(|t: LlmTool| t@) == tools@.map_values(|t: LlmTool| t@),
{
    let r = tools.clone();
    assert(r@.map_values(|t: LlmTool| t@) =~= tools@.map_values(|t: LlmTool| t@));
    r
}

/// Clones an optional JSON document, keeping its view.
pub fn clone_opt_json(o: &Option<JsonValue>) -> (r: Option<JsonValue>)
    ensures
        opt_json(r) == opt_json(*o),
{
    match o {
        Some(v) => Some(v.clone()),
        None => None,
    }
}

/// Whether requests are cached unless they say otherwise.
pub fn default_cacheable() -> (b: bool)
    ensures
        b,
{
    true
}

impl LlmRequest {
    /// A request with the given route and messages, and every option at its default.
    pub fn new(route: ModelRoute, messages: Vec<LlmMessage>) -> (r: Self)
        ensures
            r@.route == route@,
            r@.messages == messages@.map_values(|m: LlmMessage| m@),
            r@.request_id is None,
            r@.deadline_ms is None,
            r@.priority == 0,
            r@.cache,
            r@.tools.len() == 0,
            r@.output_schema is None,
            r@.parameters == Map::<Seq<char>, Seq<char>>::empty(),
            r@.provider_parameters == Map::<Seq<char>, Seq<char>>::empty(),
    {
        let parameters = KeyedMap::new();
        let provider_parameters = KeyedMap::new();
        let r = LlmRequest {
            route,
            messages,
            request_id: None,
            deadline_ms: None,
            priority: 0,
            cache: default_cacheable(),
            tools: Vec::new(),
            output_schema: None,
            parameters,
            provider_parameters,
        };
        assert(r@.parameters =~= Map::<Seq<char>, Seq<char>>::empty());
        assert(r@.provider_parameters =~= Map::<Seq<char>, Seq<char>>::empty());
        r
    }

    pub fn with_request_id(self, request_id: &str) -> (r: Self)
        ensures
            r@ == (RequestView { request_id: Some(request_id@), ..self@ }),
    {
        let mut r = self;
        r.request_id = Some(String::from_str(request_id));
        r
    }

    pub fn with_deadline_ms(self, deadline_ms: u64) -> (r: Self)
        ensures
            r@ == (RequestView { deadline_ms: Some(deadline_ms), ..self@ }),
    {
        let mut r = self;
        r.deadline_ms = Some(deadline_ms);
        r
    }

    pub fn with_priority(self, priority: u8) -> (r: Self)
        ensures
            r@ == (RequestView { priority: priority, ..self@ }),
    {
        let mut r = self;
        r.priority = priority;
        r
    }
}

impl Clone for LlmRequest {
    fn clone(&self) -> (r: Self)
        ensures
            r@ == self@,
    {
        LlmRequest {
            route: self.route.clone(),
            messages: clone_messages(&self.messages),
            request_id: clone_opt_string(&self.request_id),
            deadline_ms: self.deadline_ms,
            priority: self.priority,
            cache: self.cache,
            tools: clone_tools(&self.tools),
            output_schema: clone_opt_json(&self.output_schema),
            parameters: clone_json_map(&self.parameters),
            provider_parameters: clone_json_map(&self.provider_parameters),
        }
    }
}

/// A request to load a model.
#[derive(Debug)]
pub struct ModelLoadRequest {
    pub route: ModelRoute,
    pub config: KeyedMap<JsonValue>,
}

/// Where a model is in its life.
#[derive(Debug, Clone, Copy, PartialEq, Eq, Structural)]
pub enum ModelState {
    Unloaded,
    Loading,
    Loaded,
    Evicting,
}

/// Why a model was loaded.
#[derive(Debug, Clone, Copy, PartialEq, Eq, Structural)]
pub enum ModelLoadReason {
    Explicit,
    OnDemand,
    Retry,
    MemoryPressure,
}

/// What is known of a model's residency.
#[derive(Debug)]
pub struct ModelInfo {
    pub route: ModelRoute,
    pub loaded: bool,
    pub state: ModelState,
    pub memory_bytes: u64,
    pub kv_cache_bytes: u64,
    pub device: Option<String>,
    pub expires_at_ms: Option<u64>,
    pub load_reason: ModelLoadReason,
}

pub struct ModelInfoView {
    pub route: RouteView,
    pub loaded: bool,
    pub state: ModelState,
    pub memory_bytes: u64,
    pub kv_cache_bytes: u64,
    pub device: Option<Seq<char>>,
    pub expires_at_ms: Option<u64>,
    pub load_reason: ModelLoadReason,
}

impl View for ModelInfo {
    type V = ModelInfoView;

    open spec fn view(&self) -> ModelInfoView {
        ModelInfoView {
            route: self.route@,
            loaded: self.loaded,
            state: self.state,
            memory_bytes: self.memory_bytes,
            kv_cache_bytes: self.kv_cache_bytes,
            device: opt_text(self.device),
            expires_at_ms: self.expires_at_ms,
            load_reason: self.load_reason,
        }
    }
}

/// The record of a model that is not resident.
pub open spec fn unloaded_view(route: RouteView) -> ModelInfoView {
    ModelInfoView {
        route: route,
        loaded: false,
        state: ModelState::Unloaded,
        memory_bytes: 0,
        kv_cache_bytes: 0,
        device: None,
        expires_at_ms: None,
        load_reason: ModelLoadReason::Explicit,
    }
}

impl ModelInfo {
    pub fn unloaded(route: ModelRoute) -> (i: Self)
        ensures
            i@ == unloaded_view(route@),
    {
        ModelInfo {
            route,
            loaded: false,
            state: ModelState::Unloaded,
            memory_bytes: 0,
            kv_cache_bytes: 0,
            device: None,
            expires_at_ms: None,
            load_reason: ModelLoadReason::Explicit,
        }
    }
}

impl Clone for ModelInfo {
    fn clone(&self) -> (r: Self)
        ensures
            r@ == self@,
    {
        ModelInfo {
            route: self.route.clone(),
            loaded: self.loaded,
            state: self.state,
            memory_bytes: self.memory_bytes,
            kv_cache_bytes: self.kv_cache_bytes,
            device: clone_opt_string(&self.device),
            expires_at_ms: self.expires_at_ms,
            load_reason: self.load_reason,
        }
    }
}

} // verus!
