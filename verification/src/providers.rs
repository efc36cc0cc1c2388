//! Choosing and configuring providers: which backend a provider name
//! selects, where its settings come from, and how a local model is found.

use vstd::prelude::*;
use vstd::string::*;
use crate::config::ModelConfig;
use crate::error::LlmGatewayError;
use crate::keyed::KeyedMap;
use crate::text::same_text;
use crate::types::{opt_json, opt_text, JsonValue, ModelInfo, ModelInfoView, ModelLoadReason, ModelLoadRequest, ModelState, RouteView};
use crate::gateway::provider_model_info;

verus! {

/// The hosted backends a provider name can select.
#[derive(Debug, Clone, Copy, PartialEq, Eq, Structural)]
pub enum ProviderBackend {
    OpenAI,
    Anthropic,
    Ollama,
    DeepSeek,
    XAI,
    Phind,
    Google,
    Groq,
    AzureOpenAI,
    OpenRouter,
    MiniMax,
}

/// The backend a provider name selects.
pub open spec fn backend_named(name: Seq<char>) -> Option<ProviderBackend> {
    if name == "openai"@ {
        Some(ProviderBackend::OpenAI)
    } else if name == "anthropic"@ {
        Some(ProviderBackend::Anthropic)
    } else if name == "ollama"@ {
        Some(ProviderBackend::Ollama)
    } else if name == "deepseek"@ {
        Some(ProviderBackend::DeepSeek)
    } else if name == "xai"@ {
        Some(ProviderBackend::XAI)
    } else if name == "phind"@ {
        Some(ProviderBackend::Phind)
    } else if name == "google"@ {
        Some(ProviderBackend::Google)
    } else if name == "groq"@ {
        Some(ProviderBackend::Groq)
    } else if name == "azure-openai"@ {
        Some(ProviderBackend::AzureOpenAI)
    } else if name == "openrouter"@ {
        Some(ProviderBackend::OpenRouter)
    } else if name == "minimax"@ {
        Some(ProviderBackend::MiniMax)
    } else {
        None
    }
}

/// The backend that provider `name` is built with.
pub fn provider_backend(name: &str) -> (r: Result<ProviderBackend, LlmGatewayError>)
    ensures
        backend_named(name@) matches Some(b) ==> r == Ok::<ProviderBackend, LlmGatewayError>(b),
        backend_named(name@) is None ==> (r matches Err(e) && e matches LlmGatewayError::UnknownProvider(n) && n@ == name@),
{
    if same_text(name, "openai") {
        Ok(ProviderBackend::OpenAI)
    } else if same_text(name, "anthropic") {
        Ok(ProviderBackend::Anthropic)
    } else if same_text(name, "ollama") {
        Ok(ProviderBackend::Ollama)
    } else if same_text(name, "deepseek") {
        Ok(ProviderBackend::DeepSeek)
    } else if same_text(name, "xai") {
        Ok(ProviderBackend::XAI)
    } else if same_text(name, "phind") {
        Ok(ProviderBackend::Phind)
    } else if same_text(name, "google") {
        Ok(ProviderBackend::Google)
    } else if same_text(name, "groq") {
        Ok(ProviderBackend::Groq)
    } else if same_text(name, "azure-openai") {
        Ok(ProviderBackend::AzureOpenAI)
    } else if same_text(name, "openrouter") {
        Ok(ProviderBackend::OpenRouter)
    } else if same_text(name, "minimax") {
        Ok(ProviderBackend::MiniMax)
    } else {
        Err(LlmGatewayError::UnknownProvider(String::from_str(name)))
    }
}

/// The character of an environment-variable prefix: ASCII letters in upper
/// case, `-` and `.` as `_`, anything else as it is.
pub open spec fn env_char(c: char) -> char {
    if 'a' <= c && c <= 'z' {
        ((c as u32) - 32) as char
    } else if c == '-' || c == '.' {
        '_'
    } else {
        c
    }
}

/// The prefix of a provider's environment variables.
pub open spec fn env_prefix_of(provider: Seq<char>) -> Seq<char> {
    provider.map_values(|c: char| env_char(c))
}

/// Appends a character (`String::push`).
#[verifier::external_body]
fn push_char(s: &mut String, c: char)
    ensures
        final(s)@ == old(s)@.push(c),
{
    s.push(c);
}

/// The prefix of the environment variables of `provider`: `openai` reads
/// `OPENAI_API_KEY`, `azure-openai` reads `AZURE_OPENAI_API_KEY`.
pub fn env_prefix(provider: &str) -> (p: String)
    ensures
        p@ == env_prefix_of(provider@),
{
    let n = provider.unicode_len();
    let mut p = String::new();
    let mut i: usize = 0;
    while i < n
        invariant
            n == provider@.len(),
            i <= n,
            p@ == env_prefix_of(provider@.take(i as int)),
        decreases n - i,
    {
        let c = provider.get_char(i);
        let mapped = if 'a' <= c && c <= 'z' {
            ((c as u8) - 32) as char
        } else if c == '-' || c == '.' {
            '_'
        } else {
            c
        };
        proof {
            if 'a' <= c && c <= 'z' {
                assert((c as u8) as u32 == c as u32);
                assert(mapped == env_char(c));
            }
            assert(provider@.take(i + 1) =~= provider@.take(i as int).push(c));
            assert(env_prefix_of(provider@.take(i + 1)) =~= env_prefix_of(provider@.take(i as int)).push(env_char(c)));
        }
        push_char(&mut p, mapped);
        i = i + 1;
    }
    assert(provider@.take(n as int) =~= provider@);
    p
}

/// How hard a model may reason.
#[derive(Debug, Clone, Copy, PartialEq, Eq, Structural)]
pub enum ReasoningLevel {
    Low,
    Medium,
    High,
}

/// The level a setting names; an unknown name names none.
pub open spec fn reasoning_level_named(s: Seq<char>) -> Option<ReasoningLevel> {
    if s == "low"@ {
        Some(ReasoningLevel::Low)
    } else if s == "medium"@ {
        Some(ReasoningLevel::Medium)
    } else if s == "high"@ {
        Some(ReasoningLevel::High)
    } else {
        None
    }
}

pub fn reasoning_level(s: &str) -> (r: Option<ReasoningLevel>)
    ensures
        r == reasoning_level_named(s@),
{
    if same_text(s, "low") {
        Some(ReasoningLevel::Low)
    } else if same_text(s, "medium") {
        Some(ReasoningLevel::Medium)
    } else if same_text(s, "high") {
        Some(ReasoningLevel::High)
    } else {
        None
    }
}

/// A runtime that forwards to a provider handle of type `P`.
#[derive(Debug, Clone)]
pub struct ProviderRuntime<P> {
    provider_name: String,
    provider: P,
}

impl<P> ProviderRuntime<P> {
    pub closed spec fn spec_name(&self) -> Seq<char> {
        self.provider_name@
    }

    pub fn new(provider_name: &str, provider: P) -> (r: Self)
        ensures
            r.spec_name() == provider_name@,
            r.spec_provider() == provider,
    {
        ProviderRuntime { provider_name: String::from_str(provider_name), provider }
    }

    pub closed spec fn spec_provider(&self) -> P {
        self.provider
    }

    /// The name calls are reported under.
    pub fn provider_name(&self) -> (n: &str)
        ensures
            n@ == self.spec_name(),
    {
        self.provider_name.as_str()
    }

    /// Loading a model of a provider: it is reachable, so it counts as loaded.
    pub fn load_model(&self, request: ModelLoadRequest) -> (info: ModelInfo)
        ensures
            info@ == provider_model_info(request.route@),
    {
        ModelInfo {
            route: request.route,
            loaded: true,
            state: ModelState::Loaded,
            memory_bytes: 0,
            kv_cache_bytes: 0,
            device: None,
            expires_at_ms: None,
            load_reason: ModelLoadReason::Explicit,
        }
    }
}

impl<P: Clone> ProviderRuntime<P> {
    /// The provider handle.
    pub fn provider(&self) -> (p: P)
        ensures
            cloned::<P>(self.spec_provider(), p),
    {
        self.provider.clone()
    }
}

/// The string a JSON document holds, when it is a JSON string.
pub uninterp spec fn json_string_of(text: Seq<char>) -> Option<Seq<char>>;

/// The unsigned integer a JSON document holds, when it is a number that
/// fits in 64 bits unsigned.
pub uninterp spec fn json_u64_of(text: Seq<char>) -> Option<u64>;

/// Parses `text` as JSON (`serde_json::from_str`) and reads the string it
/// holds, if it is a JSON string. The result is the named function of the
/// text.
#[verifier::external_body]
fn json_as_string(text: &str) -> (r: Option<String>)
    ensures
        opt_text(r) == json_string_of(text@),
{
    match serde_json::from_str::<serde_json::Value>(text) {
        Ok(serde_json::Value::String(s)) => Some(s),
        _ => None,
    }
}

/// Parses `text` as JSON (`serde_json::from_str`) and reads it as an
/// unsigned 64-bit integer (`Value::as_u64`). The result is the named
/// function of the text.
#[verifier::external_body]
fn json_as_u64(text: &str) -> (r: Option<u64>)
    ensures
        r == json_u64_of(text@),
{
    match serde_json::from_str::<serde_json::Value>(text) {
        Ok(value) => value.as_u64(),
        Err(_) => None,
    }
}

/// The canonical text of member `key` of the JSON object in `text`, when
/// `text` parses as a JSON object that has such a member.
pub uninterp spec fn json_field_of(text: Seq<char>, key: Seq<char>) -> Option<Seq<char>>;

/// The boolean a JSON document holds, when it is `true` or `false`.
pub uninterp spec fn json_bool_of(text: Seq<char>) -> Option<bool>;

/// Parses `text` as JSON (`serde_json::from_str`), takes member `key` of the
/// object (`Value::as_object`, `Map::get`) and writes it back
/// (`Value::to_string`). The result is the named function of its arguments;
/// what the text of the member is, is not stated.
#[verifier::external_body]
fn json_field(text: &str, key: &str) -> (r: Option<String>)
    ensures
        opt_text(r) == json_field_of(text@, key@),
{
    match serde_json::from_str::<serde_json::Value>(text) {
        Ok(value) => value.as_object().and_then(|members| members.get(key)).map(|member| member.to_string()),
        Err(_) => None,
    }
}

/// Parses `text` as JSON (`serde_json::from_str`) and reads it as a boolean
/// (`Value::as_bool`). The result is the named function of the text.
#[verifier::external_body]
fn json_as_bool(text: &str) -> (r: Option<bool>)
    ensures
        r == json_bool_of(text@),
{
    match serde_json::from_str::<serde_json::Value>(text) {
        Ok(value) => value.as_bool(),
        Err(_) => None,
    }
}

/// The string setting `key` of a parameter map.
pub open spec fn string_setting(params: Map<Seq<char>, Seq<char>>, key: Seq<char>) -> Option<Seq<char>> {
    if params.contains_key(key) { json_string_of(params[key]) } else { None }
}

/// The 32-bit setting `key` of a parameter map: an unsigned number that fits.
pub open spec fn u32_setting(params: Map<Seq<char>, Seq<char>>, key: Seq<char>) -> Option<u32> {
    if params.contains_key(key) { small_number(json_u64_of(params[key])) } else { None }
}

/// A number that fits in 32 bits unsigned.
pub open spec fn small_number(n: Option<u64>) -> Option<u32> {
    match n {
        Some(v) => if v <= u32::MAX { Some(v as u32) } else { None },
        None => None,
    }
}

/// A number read from a JSON document, kept when it fits in 32 bits
/// unsigned (the `u32::try_from` of a setting).
pub fn small_u32(n: Option<u64>) -> (r: Option<u32>)
    ensures
        r == small_number(n),
{
    match n {
        Some(v) => if v <= 4294967295 { Some(v as u32) } else { None },
        None => None,
    }
}

/// Reads a JSON number as 32 bits unsigned, if it fits.
fn json_as_u32(text: &str) -> (r: Option<u32>)
    ensures
        r == small_number(json_u64_of(text@)),
{
    small_u32(json_as_u64(text))
}

/// The string setting `key`.
pub fn parameter_str(params: &KeyedMap<JsonValue>, key: &str) -> (r: Option<String>)
    ensures
        opt_text(r) == string_setting(params@, key@),
{
    match params.get(key) {
        Some(v) => json_as_string(v.as_text()),
        None => None,
    }
}

/// The 32-bit setting `key`.
pub fn parameter_u32(params: &KeyedMap<JsonValue>, key: &str) -> (r: Option<u32>)
    ensures
        r == u32_setting(params@, key@),
{
    match params.get(key) {
        Some(v) => json_as_u32(v.as_text()),
        None => None,
    }
}

/// Where a local model comes from.
#[derive(Debug)]
pub enum ModelSourceChoice {
    Gguf { model_path: String },
    HuggingFace { repo_id: String, filename: Option<String>, mmproj_filename: Option<String> },
}

/// The first of two settings that is present.
pub open spec fn either_setting(params: Map<Seq<char>, Seq<char>>, a: Seq<char>, b: Seq<char>) -> Option<Seq<char>> {
    match string_setting(params, a) {
        Some(v) => Some(v),
        None => string_setting(params, b),
    }
}

fn either_parameter(params: &KeyedMap<JsonValue>, a: &str, b: &str) -> (r: Option<String>)
    ensures
        opt_text(r) == either_setting(params@, a@, b@),
{
    match parameter_str(params, a) {
        Some(v) => Some(v),
        None => parameter_str(params, b),
    }
}

/// Where the model of `config` comes from: its path if it has one, else a
/// Hugging Face repository named in its parameters.
pub fn model_source(config: &ModelConfig) -> (r: Result<ModelSourceChoice, LlmGatewayError>)
    ensures
        config.model_path matches Some(p) ==> (r matches Ok(ModelSourceChoice::Gguf { model_path }) && model_path@ == p@),
        config.model_path is None ==> match either_setting(config.parameters@, "huggingface_repo_id"@, "hf_repo_id"@) {
            Some(repo) => r matches Ok(ModelSourceChoice::HuggingFace { repo_id, filename, mmproj_filename })
                && repo_id@ == repo
                && opt_text(filename) == either_setting(config.parameters@, "huggingface_filename"@, "hf_filename"@)
                && opt_text(mmproj_filename) == either_setting(config.parameters@, "huggingface_mmproj_filename"@, "hf_mmproj_filename"@),
            None => r matches Err(e) && e matches LlmGatewayError::Runtime { runtime, message }
                && runtime@ == "llamacpp"@
                && message@ == "model `"@ + config.route@.key() + "` requires model_path or huggingface_repo_id"@,
        },
{
    match &config.model_path {
        Some(p) => {
            return Ok(ModelSourceChoice::Gguf { model_path: p.clone() });
        },
        None => {},
    }
    let repo_id = match either_parameter(&config.parameters, "huggingface_repo_id", "hf_repo_id") {
        Some(r) => r,
        None => {
            let key = config.route.key();
            let mut message = String::from_str("model `");
            message.append(key.as_str());
            message.append("` requires model_path or huggingface_repo_id");
            return Err(LlmGatewayError::Runtime { runtime: String::from_str("llamacpp"), message });
        },
    };
    let filename = either_parameter(&config.parameters, "huggingface_filename", "hf_filename");
    let mmproj_filename = either_parameter(&config.parameters, "huggingface_mmproj_filename", "hf_mmproj_filename");
    Ok(ModelSourceChoice::HuggingFace { repo_id, filename, mmproj_filename })
}

/// The integer settings of a local model runtime.
#[derive(Debug, Clone, Copy, PartialEq, Eq, Structural)]
pub struct LlamaSettings {
    pub n_ctx: u32,
    pub n_gpu_layers: Option<u32>,
    pub max_tokens: Option<u32>,
    pub top_k: Option<u32>,
}

/// The integer settings of the runtime of `config`: its context size and
/// the parameters that name GPU layers, the token limit and top-k.
pub fn llama_settings(config: &ModelConfig) -> (s: LlamaSettings)
    ensures
        s == (LlamaSettings {
            n_ctx: config.context_tokens,
            n_gpu_layers: u32_setting(config.parameters@, "n_gpu_layers"@),
            max_tokens: u32_setting(config.parameters@, "max_tokens"@),
            top_k: u32_setting(config.parameters@, "top_k"@),
        }),
{
    LlamaSettings {
        n_ctx: config.context_tokens,
        n_gpu_layers: parameter_u32(&config.parameters, "n_gpu_layers"),
        max_tokens: parameter_u32(&config.parameters, "max_tokens"),
        top_k: parameter_u32(&config.parameters, "top_k"),
    }
}


/// The options of a hosted provider other than its sampling settings: token
/// limits, timeout, reasoning, response shape, extra request body and the
/// deployment it is reached at.
#[derive(Debug, Default)]
pub struct ProviderOptions {
    pub max_tokens: Option<u32>,
    pub timeout_seconds: Option<u64>,
    pub reasoning: Option<bool>,
    pub reasoning_effort: Option<String>,
    pub reasoning_budget_tokens: Option<u32>,
    pub top_k: Option<u32>,
    pub normalize_response: Option<bool>,
    pub extra_body: Option<JsonValue>,
    pub api_version: Option<String>,
    pub deployment_id: Option<String>,
}

pub struct ProviderOptionsView {
    pub max_tokens: Option<u32>,
    pub timeout_seconds: Option<u64>,
    pub reasoning: Option<bool>,
    pub reasoning_effort: Option<Seq<char>>,
    pub reasoning_budget_tokens: Option<u32>,
    pub top_k: Option<u32>,
    pub normalize_response: Option<bool>,
    pub extra_body: Option<Seq<char>>,
    pub api_version: Option<Seq<char>>,
    pub deployment_id: Option<Seq<char>>,
}

impl View for ProviderOptions {
    type V = ProviderOptionsView;

    open spec fn view(&self) -> ProviderOptionsView {
        ProviderOptionsView {
            max_tokens: self.max_tokens,
            timeout_seconds: self.timeout_seconds,
            reasoning: self.reasoning,
            reasoning_effort: opt_text(self.reasoning_effort),
            reasoning_budget_tokens: self.reasoning_budget_tokens,
            top_k: self.top_k,
            normalize_response: self.normalize_response,
            extra_body: opt_json(self.extra_body),
            api_version: opt_text(self.api_version),
            deployment_id: opt_text(self.deployment_id),
        }
    }
}

/// The first of two options that is set.
pub open spec fn first_set<T>(a: Option<T>, b: Option<T>) -> Option<T> {
    match a {
        Some(x) => Some(x),
        None => b,
    }
}

/// The text of member `key` of a model configuration, if there is one.
pub open spec fn member(config: Option<Seq<char>>, key: Seq<char>) -> Option<Seq<char>> {
    match config {
        Some(t) => json_field_of(t, key),
        None => None,
    }
}

/// Member `key` as a number that fits in 32 bits unsigned.
pub open spec fn member_u32(config: Option<Seq<char>>, key: Seq<char>) -> Option<u32> {
    match member(config, key) {
        Some(m) => small_number(json_u64_of(m)),
        None => None,
    }
}

/// Member `key` as an unsigned 64-bit number.
pub open spec fn member_u64(config: Option<Seq<char>>, key: Seq<char>) -> Option<u64> {
    match member(config, key) {
        Some(m) => json_u64_of(m),
        None => None,
    }
}

/// Member `key` as a boolean.
pub open spec fn member_bool(config: Option<Seq<char>>, key: Seq<char>) -> Option<bool> {
    match member(config, key) {
        Some(m) => json_bool_of(m),
        None => None,
    }
}

/// Member `key` as a string.
pub open spec fn member_string(config: Option<Seq<char>>, key: Seq<char>) -> Option<Seq<char>> {
    match member(config, key) {
        Some(m) => json_string_of(m),
        None => None,
    }
}

/// The options once a model configuration is laid over them: each member
/// the configuration sets, with the right JSON type, wins; every other
/// option keeps its value.
pub open spec fn overlaid(o: ProviderOptionsView, config: Option<Seq<char>>) -> ProviderOptionsView {
    ProviderOptionsView {
        max_tokens: first_set(member_u32(config, "max_tokens"@), o.max_tokens),
        timeout_seconds: first_set(member_u64(config, "timeout_seconds"@), o.timeout_seconds),
        reasoning: first_set(member_bool(config, "reasoning"@), o.reasoning),
        reasoning_effort: first_set(member_string(config, "reasoning_effort"@), o.reasoning_effort),
        reasoning_budget_tokens: first_set(member_u32(config, "reasoning_budget_tokens"@), o.reasoning_budget_tokens),
        top_k: first_set(member_u32(config, "top_k"@), o.top_k),
        normalize_response: first_set(member_bool(config, "normalize_response"@), o.normalize_response),
        extra_body: first_set(member(config, "extra_body"@), o.extra_body),
        api_version: first_set(member_string(config, "api_version"@), o.api_version),
        deployment_id: first_set(member_string(config, "deployment_id"@), o.deployment_id),
    }
}

fn config_member(config: Option<&JsonValue>, key: &str) -> (r: Option<String>)
    ensures
        opt_text(r) == member(match config { Some(c) => Some(c@), None => None }, key@),
{
    match config {
        Some(c) => json_field(c.as_text(), key),
        None => None,
    }
}

fn member_as_u32(config: Option<&JsonValue>, key: &str) -> (r: Option<u32>)
    ensures
        r == member_u32(match config { Some(c) => Some(c@), None => None }, key@),
{
    match config_member(config, key) {
        Some(m) => json_as_u32(m.as_str()),
        None => None,
    }
}

fn member_as_u64(config: Option<&JsonValue>, key: &str) -> (r: Option<u64>)
    ensures
        r == member_u64(match config { Some(c) => Some(c@), None => None }, key@),
{
    match config_member(config, key) {
        Some(m) => json_as_u64(m.as_str()),
        None => None,
    }
}

fn member_as_bool(config: Option<&JsonValue>, key: &str) -> (r: Option<bool>)
    ensures
        r == member_bool(match config { Some(c) => Some(c@), None => None }, key@),
{
    match config_member(config, key) {
        Some(m) => json_as_bool(m.as_str()),
        None => None,
    }
}

fn member_as_string(config: Option<&JsonValue>, key: &str) -> (r: Option<String>)
    ensures
        opt_text(r) == member_string(match config { Some(c) => Some(c@), None => None }, key@),
{
    match config_member(config, key) {
        Some(m) => json_as_string(m.as_str()),
        None => None,
    }
}

fn either<T>(a: Option<T>, b: Option<T>) -> (r: Option<T>)
    ensures
        r == first_set(a, b),
{
    match a {
        Some(x) => Some(x),
        None => b,
    }
}

fn or_text(a: Option<String>, b: Option<String>) -> (r: Option<String>)
    ensures
        opt_text(r) == first_set(opt_text(a), opt_text(b)),
{
    match a {
        Some(x) => Some(x),
        None => b,
    }
}

impl ProviderOptions {
    /// Lays the JSON object `config` over these options: a member of the
    /// right type replaces the option of its name. A configuration that is
    /// absent, or not an object, changes nothing.
    pub fn with_model_config(self, config: Option<&JsonValue>) -> (o: Self)
        ensures
            o@ == overlaid(self@, match config { Some(c) => Some(c@), None => None }),
    {
        let extra_body = match config_member(config, "extra_body") {
            Some(m) => Some(JsonValue::from_text(m.as_str())),
            None => self.extra_body,
        };
        ProviderOptions {
            max_tokens: either(member_as_u32(config, "max_tokens"), self.max_tokens),
            timeout_seconds: either(member_as_u64(config, "timeout_seconds"), self.timeout_seconds),
            reasoning: either(member_as_bool(config, "reasoning"), self.reasoning),
            reasoning_effort: or_text(member_as_string(config, "reasoning_effort"), self.reasoning_effort),
            reasoning_budget_tokens: either(member_as_u32(config, "reasoning_budget_tokens"), self.reasoning_budget_tokens),
            top_k: either(member_as_u32(config, "top_k"), self.top_k),
            normalize_response: either(member_as_bool(config, "normalize_response"), self.normalize_response),
            extra_body,
            api_version: or_text(member_as_string(config, "api_version"), self.api_version),
            deployment_id: or_text(member_as_string(config, "deployment_id"), self.deployment_id),
        }
    }
}


/// With no model configuration, the options stay as they are.
pub proof fn law_absent_config_changes_nothing(o: ProviderOptionsView)
    ensures
        overlaid(o, None) == o,
{
}

} // verus!
