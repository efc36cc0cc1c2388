//! The gateway's routing: providers registered by name, the decisions taken
//! around a chat call, and the events a streamed answer is made of.

use vstd::prelude::*;
use vstd::string::*;
use crate::error::LlmGatewayError;
use crate::keyed::{keys_sorted, KeyedMap};
use crate::text::{same_text, texts};
use crate::types::{
    clone_tools, opt_text, JsonValue, LlmRequest, LlmResponse, LlmTool, LlmStreamEvent, LlmToolCall, ModelInfo, ModelInfoView, ModelLoadReason,
    ModelLoadRequest, ModelState, ResponseView, RouteView, StreamEventView, TokenUsage, ToolCallView,
};

verus! {

/// Providers by name, each a handle of type `P` (a shared provider object,
/// say).
#[derive(Debug, Clone)]
pub struct LlmGateway<P> {
    providers: KeyedMap<P>,
}

impl<P> View for LlmGateway<P> {
    type V = Map<Seq<char>, P>;

    closed spec fn view(&self) -> Map<Seq<char>, P> {
        self.providers.map()
    }
}

/// The record of a model that a provider serves, as loading it reports.
pub open spec fn provider_model_info(route: RouteView) -> ModelInfoView {
    ModelInfoView {
        route: route,
        loaded: true,
        state: ModelState::Loaded,
        memory_bytes: 0,
        kv_cache_bytes: 0,
        device: None,
        expires_at_ms: None,
        load_reason: ModelLoadReason::Explicit,
    }
}

impl<P> Default for LlmGateway<P> {
    fn default() -> (g: Self)
        ensures
            g@ == Map::<Seq<char>, P>::empty(),
    {
        LlmGateway { providers: KeyedMap::new() }
    }
}

impl<P> LlmGateway<P> {
    pub fn new() -> (g: Self)
        ensures
            g@ == Map::<Seq<char>, P>::empty(),
    {
        LlmGateway { providers: KeyedMap::new() }
    }

    /// The same gateway, with `provider` registered under `name`.
    pub fn with_provider(self, name: &str, provider: P) -> (g: Self)
        ensures
            g@ == self@.insert(name@, provider),
    {
        let mut g = self;
        g.register_provider(name, provider);
        g
    }

    /// Registers `provider` under `name`, replacing any provider of that name.
    pub fn register_provider(&mut self, name: &str, provider: P)
        ensures
            final(self)@ == old(self)@.insert(name@, provider),
    {
        self.providers.insert(String::from_str(name), provider);
    }

    /// The names of the registered providers, in order.
    pub fn providers(&self) -> (names: Vec<String>)
        ensures
            keys_sorted(texts(names@)),
            forall|k: Seq<char>| self@.contains_key(k) <==> #[trigger] texts(names@).contains(k),
            names@.len() == self@.dom().len(),
    {
        proof {
            use_type_invariant(&self.providers);
            self.providers.lemma_wf_facts();
        }
        let names = self.providers.keys();
        proof {
            let v = texts(names@);
            assert(v =~= self.providers.key_seq());
            self.providers.lemma_dom_len();
            self.providers.lemma_sorted();
        }
        names
    }
}

impl<P: Clone> LlmGateway<P> {
    /// The provider registered under `name`.
    pub fn provider(&self, name: &str) -> (r: Result<P, LlmGatewayError>)
        ensures
            r is Ok <==> self@.contains_key(name@),
            r matches Ok(p) ==> cloned::<P>(self@[name@], p),
            r matches Err(e) ==> e matches LlmGatewayError::UnknownProvider(n) && n@ == name@,
    {
        match self.providers.get(name) {
            Some(p) => Ok(p.clone()),
            None => Err(LlmGatewayError::UnknownProvider(String::from_str(name))),
        }
    }

    /// The provider registered under `name`, for direct use.
    pub fn provider_handle(&self, name: &str) -> (r: Result<P, LlmGatewayError>)
        ensures
            r is Ok <==> self@.contains_key(name@),
            r matches Ok(p) ==> cloned::<P>(self@[name@], p),
            r matches Err(e) ==> e matches LlmGatewayError::UnknownProvider(n) && n@ == name@,
    {
        self.provider(name)
    }

    /// Loads the model of a request: its provider must be registered; a
    /// provider's model counts as loaded once it is reachable.
    pub fn load_model(&self, request: ModelLoadRequest) -> (r: Result<ModelInfo, LlmGatewayError>)
        ensures
            r is Ok <==> self@.contains_key(request.route.provider@),
            r matches Ok(info) ==> info@ == provider_model_info(request.route@),
            r matches Err(e) ==> e matches LlmGatewayError::UnknownProvider(n) && n@ == request.route.provider@,
    {
        let _provider = self.provider(request.route.provider.as_str())?;
        Ok(ModelInfo {
            route: request.route,
            loaded: true,
            state: ModelState::Loaded,
            memory_bytes: 0,
            kv_cache_bytes: 0,
            device: None,
            expires_at_ms: None,
            load_reason: ModelLoadReason::Explicit,
        })
    }
}

/// The role of a chat message, as providers know it.
#[derive(Debug, Clone, Copy, PartialEq, Eq, Structural)]
pub enum ChatRoleKind {
    System,
    User,
    Assistant,
    Tool,
}

/// The role a message's role name stands for; an unknown name is the user's.
pub open spec fn role_named(role: Seq<char>) -> ChatRoleKind {
    if role == "system"@ {
        ChatRoleKind::System
    } else if role == "assistant"@ {
        ChatRoleKind::Assistant
    } else if role == "tool"@ {
        ChatRoleKind::Tool
    } else {
        ChatRoleKind::User
    }
}

/// The role of a message named `role`.
pub fn chat_role(role: &str) -> (k: ChatRoleKind)
    ensures
        k == role_named(role@),
{
    if same_text(role, "system") {
        ChatRoleKind::System
    } else if same_text(role, "assistant") {
        ChatRoleKind::Assistant
    } else if same_text(role, "tool") {
        ChatRoleKind::Tool
    } else {
        ChatRoleKind::User
    }
}

/// The canonical JSON text of the document `text`, when `text` parses as
/// JSON (as `serde_json` reads and writes it).
pub uninterp spec fn canonical_json(text: Seq<char>) -> Option<Seq<char>>;

/// Parses `text` as JSON and writes it back (`serde_json::from_str` into a
/// `serde_json::Value`, then `serde_json::to_string`). The result is the
/// named function of the text; what that text is, is not stated.
#[verifier::external_body]
fn reserialize_json(text: &str) -> (r: Option<String>)
    ensures
        match r {
            Some(s) => canonical_json(text@) == Some(s@),
            None => canonical_json(text@) is None,
        },
{
    match serde_json::from_str::<serde_json::Value>(text) {
        Ok(value) => serde_json::to_string(&value).ok(),
        Err(_) => None,
    }
}

/// The JSON document a provider's argument text stands for: its canonical
/// form, or `null` when it does not parse.
pub open spec fn arguments_json(text: Seq<char>) -> Seq<char> {
    match canonical_json(text) {
        Some(t) => t,
        None => "null"@,
    }
}

/// The tool call a provider reported, with arguments in JSON text.
pub fn tool_call_from(name: String, arguments: &str) -> (c: LlmToolCall)
    ensures
        c@ == (ToolCallView { name: name@, arguments: arguments_json(arguments@) }),
{
    let text = match reserialize_json(arguments) {
        Some(t) => t,
        None => String::from_str("null"),
    };
    LlmToolCall { name, arguments: JsonValue::from_text(text.as_str()) }
}

/// A message as a provider takes it: the role it stands for and its text.
#[derive(Debug)]
pub struct ChatTurn {
    pub role: ChatRoleKind,
    pub content: String,
}

/// The structured output a request asks the provider for.
#[derive(Debug)]
pub struct OutputFormat {
    pub name: String,
    pub schema: JsonValue,
    pub strict: bool,
}

/// What goes to a provider for a request: its messages, its tools (none at
/// all when the request offers none), and the output its schema asks for.
#[derive(Debug)]
pub struct ChatCall {
    pub turns: Vec<ChatTurn>,
    pub tools: Option<Vec<LlmTool>>,
    pub output: Option<OutputFormat>,
}

/// The call that `request` makes of a provider: each message with the role
/// its name stands for; the tools, or none when the list is empty; and, when
/// the request has an output schema, a strict output format named
/// `odyssey_output` with that schema.
pub fn chat_call(request: &LlmRequest) -> (c: ChatCall)
    ensures
        c.turns@.len() == request@.messages.len(),
        forall|i: int| 0 <= i < c.turns@.len() ==> (#[trigger] c.turns@[i]).role == role_named(request@.messages[i].role)
            && c.turns@[i].content@ == request@.messages[i].content,
        request@.tools.len() == 0 ==> c.tools is None,
        request@.tools.len() > 0 ==> (c.tools matches Some(t) && t@.map_values(|x: LlmTool| x@) == request@.tools),
        request@.output_schema matches Some(schema) ==> (c.output matches Some(o)
            && o.name@ == "odyssey_output"@ && o.schema@ == schema && o.strict),
        request@.output_schema is None ==> c.output is None,
{
    let n = request.messages.len();
    let mut turns: Vec<ChatTurn> = Vec::new();
    let mut i: usize = 0;
    while i < n
        invariant
            n == request.messages@.len(),
            i <= n,
            turns@.len() == i,
            forall|j: int| 0 <= j < i ==> (#[trigger] turns@[j]).role == role_named(request.messages@[j].role@)
                && turns@[j].content@ == request.messages@[j].content@,
        decreases n - i,
    {
        let message = &request.messages[i];
        turns.push(ChatTurn { role: chat_role(message.role.as_str()), content: message.content.clone() });
        i = i + 1;
    }
    let tools = if request.tools.len() == 0 {
        None
    } else {
        Some(clone_tools(&request.tools))
    };
    let output = match &request.output_schema {
        Some(schema) => Some(OutputFormat { name: String::from_str("odyssey_output"), schema: schema.clone(), strict: true }),
        None => None,
    };
    ChatCall { turns, tools, output }
}

/// The error of a provider call that failed with `message`.
pub fn provider_failure(provider: String, message: String) -> (e: LlmGatewayError)
    ensures
        e == (LlmGatewayError::Provider { provider, message }),
{
    LlmGatewayError::Provider { provider, message }
}

/// Token counts as a provider reports them.
#[derive(Debug, Clone, Copy, PartialEq, Eq, Structural)]
pub struct ProviderUsage {
    pub prompt_tokens: u32,
    pub completion_tokens: u32,
}

/// The response a provider's answer makes: its text (empty if none), its
/// reasoning, its tool calls, and its token usage.
pub fn assemble_response(
    text: Option<String>,
    reasoning: Option<String>,
    tool_calls: Vec<LlmToolCall>,
    usage: Option<ProviderUsage>,
) -> (r: LlmResponse)
    ensures
        r@ == (ResponseView {
            text: match text {
                Some(t) => t@,
                None => Seq::empty(),
            },
            reasoning: opt_text(reasoning),
            tool_calls: tool_calls@.map_values(|c: LlmToolCall| c@),
            usage: match usage {
                Some(u) => Some(TokenUsage { input_tokens: u.prompt_tokens as u64, output_tokens: u.completion_tokens as u64 }),
                None => None,
            },
        }),
{
    let text = match text {
        Some(t) => t,
        None => String::new(),
    };
    let usage = match usage {
        Some(u) => Some(TokenUsage { input_tokens: u.prompt_tokens as u64, output_tokens: u.completion_tokens as u64 }),
        None => None,
    };
    LlmResponse { text, reasoning, tool_calls, usage }
}

/// The events a full response is streamed as: its text, its reasoning (each
/// only when not empty), each tool call, and last the whole response.
pub open spec fn stream_of(r: ResponseView) -> Seq<StreamEventView> {
    let text_part = if r.text.len() > 0 { seq![StreamEventView::TextDelta { text: r.text }] } else { Seq::empty() };
    let reasoning_part = match r.reasoning {
        Some(t) => if t.len() > 0 { seq![StreamEventView::ReasoningDelta { text: t }] } else { Seq::empty() },
        None => Seq::empty(),
    };
    let calls = r.tool_calls.map_values(|c: ToolCallView| StreamEventView::ToolCall { call: c });
    text_part + reasoning_part + calls + seq![StreamEventView::Done { response: r }]
}

/// Streams `response` as events.
pub fn stream_events(response: LlmResponse) -> (events: Vec<LlmStreamEvent>)
    ensures
        events@.map_values(|e: LlmStreamEvent| e@) == stream_of(response@),
{
    let ghost rv = response@;
    let mut events: Vec<LlmStreamEvent> = Vec::new();
    if response.text.unicode_len() > 0 {
        events.push(LlmStreamEvent::TextDelta { text: response.text.clone() });
    }
    let ghost after_text = events@.map_values(|e: LlmStreamEvent| e@);
    match &response.reasoning {
        Some(reasoning) => {
            if reasoning.unicode_len() > 0 {
                events.push(LlmStreamEvent::ReasoningDelta { text: reasoning.clone() });
            }
        },
        None => {},
    }
    let ghost before_calls = events@.map_values(|e: LlmStreamEvent| e@);
    let ghost head_len = events@.len();
    let n = response.tool_calls.len();
    let mut i: usize = 0;
    while i < n
        invariant
            n == response.tool_calls@.len(),
            i <= n,
            events@.len() == head_len + i,
            forall|j: int| 0 <= j < head_len ==> (#[trigger] events@[j])@ == before_calls[j],
            forall|j: int| 0 <= j < i ==> (#[trigger] events@[head_len + j])@ == (StreamEventView::ToolCall { call: response.tool_calls@[j]@ }),
        decreases n - i,
    {
        events.push(LlmStreamEvent::ToolCall { call: response.tool_calls[i].clone() });
        i = i + 1;
    }
    let ghost with_calls = events@;
    events.push(LlmStreamEvent::Done { response });
    proof {
        let text_part = if rv.text.len() > 0 { seq![StreamEventView::TextDelta { text: rv.text }] } else { Seq::<StreamEventView>::empty() };
        let reasoning_part = match rv.reasoning {
            Some(t) => if t.len() > 0 { seq![StreamEventView::ReasoningDelta { text: t }] } else { Seq::<StreamEventView>::empty() },
            None => Seq::<StreamEventView>::empty(),
        };
        let calls = rv.tool_calls.map_values(|c: ToolCallView| StreamEventView::ToolCall { call: c });
        assert(before_calls =~= text_part + reasoning_part);
        let lhs = events@.map_values(|e: LlmStreamEvent| e@);
        let rhs = stream_of(rv);
        assert(lhs.len() == rhs.len());
        assert forall|j: int| 0 <= j < lhs.len() implies lhs[j] == rhs[j] by {
            if j < head_len {
                assert(with_calls[j]@ == before_calls[j]);
            } else if j < head_len + n {
                assert(with_calls[head_len + (j - head_len)]@ == (StreamEventView::ToolCall { call: rv.tool_calls[j - head_len] }));
            }
        }
        assert(lhs =~= rhs);
    }
    events
}

/// A stream always ends with the whole response, and carries the text as
/// its first event exactly when the text is not empty.
pub proof fn law_stream_ends_with_response(r: ResponseView)
    ensures
        stream_of(r).len() >= 1,
        stream_of(r).last() == (StreamEventView::Done { response: r }),
        (r.text.len() > 0) <==> (stream_of(r)[0] == (StreamEventView::TextDelta { text: r.text })),
        stream_of(r).len() == 1 + r.tool_calls.len()
            + (if r.text.len() > 0 { 1int } else { 0int })
            + (if r.reasoning matches Some(t) && t.len() > 0 { 1int } else { 0int }),
{
}

/// A provider registered under a name is the one that name finds.
pub proof fn law_registered_provider_is_found<P>(providers: Map<Seq<char>, P>, name: Seq<char>, provider: P, other: Seq<char>)
    requires
        other != name,
    ensures
        providers.insert(name, provider).contains_key(name),
        providers.insert(name, provider)[name] == provider,
        providers.insert(name, provider).contains_key(other) == providers.contains_key(other),
{
}


/// A stream keeps the response's order: the text first (when there is
/// text), then the reasoning (when there is reasoning), then every tool call
/// in the order the model made it, each exactly once, then the response.
pub proof fn law_stream_keeps_order(r: ResponseView)
    ensures
        ({
            let t: int = if r.text.len() > 0 { 1 } else { 0 };
            let reasoned = r.reasoning matches Some(x) && x.len() > 0;
            let k: int = if reasoned { 1 } else { 0 };
            &&& r.text.len() > 0 ==> stream_of(r)[0] == (StreamEventView::TextDelta { text: r.text })
            &&& reasoned ==> stream_of(r)[t] == (StreamEventView::ReasoningDelta { text: r.reasoning->0 })
            &&& forall|i: int| 0 <= i < r.tool_calls.len() ==>
                #[trigger] stream_of(r)[t + k + i] == (StreamEventView::ToolCall { call: r.tool_calls[i] })
            &&& stream_of(r).len() == t + k + r.tool_calls.len() + 1
            &&& stream_of(r)[t + k + r.tool_calls.len()] == (StreamEventView::Done { response: r })
        }),
{
    let t: int = if r.text.len() > 0 { 1 } else { 0 };
    let reasoned = r.reasoning matches Some(x) && x.len() > 0;
    let k: int = if reasoned { 1 } else { 0 };
    let s = stream_of(r);
    assert forall|i: int| 0 <= i < r.tool_calls.len() implies
        #[trigger] s[t + k + i] == (StreamEventView::ToolCall { call: r.tool_calls[i] }) by {
    }
}

} // verus!
