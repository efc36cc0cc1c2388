use fastllm::providers::{
    env_prefix, llama_settings, model_source, provider_backend, reasoning_level, ModelSourceChoice, ProviderBackend,
    small_u32, ProviderOptions, ReasoningLevel,
};
use fastllm::{JsonValue, LlmGatewayError, ModelConfig, ModelLoadRequest, ModelRoute, ProviderRuntime, KeyedMap};

#[test]
fn unsupported_provider_is_error() {
    let err = match provider_backend("missing") {
        Ok(_) => panic!("unknown provider should fail"),
        Err(err) => err,
    };

    assert!(matches!(err, LlmGatewayError::UnknownProvider(_)));
}

#[test]
fn known_provider_names_select_backends() {
    assert_eq!(provider_backend("openai").expect("openai"), ProviderBackend::OpenAI);
    assert_eq!(provider_backend("azure-openai").expect("azure"), ProviderBackend::AzureOpenAI);
    assert_eq!(provider_backend("minimax").expect("minimax"), ProviderBackend::MiniMax);
    assert!(provider_backend("OpenAI").is_err());
}

#[test]
fn env_prefixes_are_upper_snake_case() {
    assert_eq!(env_prefix("openai"), "OPENAI");
    assert_eq!(env_prefix("azure-openai"), "AZURE_OPENAI");
    assert_eq!(env_prefix("my.provider-2"), "MY_PROVIDER_2");
}

#[test]
fn reasoning_levels_are_named() {
    assert_eq!(reasoning_level("low"), Some(ReasoningLevel::Low));
    assert_eq!(reasoning_level("high"), Some(ReasoningLevel::High));
    assert_eq!(reasoning_level("extreme"), None);
}

#[test]
fn local_models_come_from_path_or_repository() {
    let with_path = ModelConfig { model_path: Some("/models/a.gguf".to_string()), ..ModelConfig::default() };
    assert!(matches!(model_source(&with_path), Ok(ModelSourceChoice::Gguf { model_path }) if model_path == "/models/a.gguf"));

    let mut parameters = KeyedMap::new();
    parameters.insert("hf_repo_id".to_string(), JsonValue::from_text("\"org/repo\""));
    parameters.insert("huggingface_filename".to_string(), JsonValue::from_text("\"model.gguf\""));
    parameters.insert("max_tokens".to_string(), JsonValue::from_text("256"));
    parameters.insert("top_k".to_string(), JsonValue::from_text("5000000000"));
    let from_repo = ModelConfig { parameters, ..ModelConfig::default() };
    assert!(matches!(
        model_source(&from_repo),
        Ok(ModelSourceChoice::HuggingFace { repo_id, filename: Some(f), mmproj_filename: None })
            if repo_id == "org/repo" && f == "model.gguf"
    ));
    let settings = llama_settings(&from_repo);
    assert_eq!(settings.n_ctx, 4096);
    assert_eq!(settings.max_tokens, Some(256));
    assert_eq!(settings.top_k, None);
    assert_eq!(settings.n_gpu_layers, None);

    let nothing = ModelConfig { route: ModelRoute::new("local", "x"), ..ModelConfig::default() };
    let err = model_source(&nothing).expect_err("no source");
    assert_eq!(err.to_text(), "runtime `llamacpp` failed: model `local:x` requires model_path or huggingface_repo_id");
}

#[test]
fn provider_runtime_hands_out_its_provider() {
    let runtime = ProviderRuntime::new("echo", 5u8);
    assert_eq!(runtime.provider(), 5);
    assert_eq!(runtime.provider_name(), "echo");
    let info = runtime.load_model(ModelLoadRequest { route: ModelRoute::new("echo", "test"), config: KeyedMap::new() });
    assert!(info.loaded);
}

#[test]
fn model_config_overrides_provider_options() {
    let base = ProviderOptions { max_tokens: Some(64), api_version: Some("v0".to_string()), ..ProviderOptions::default() };
    let config = JsonValue::from_text(
        r#"{"max_tokens":128,"reasoning":true,"reasoning_effort":"high","api_version":"2024-02-01","extra_body":{"a":1},"timeout_seconds":30}"#,
    );
    let options = base.with_model_config(Some(&config));
    assert_eq!(options.max_tokens, Some(128));
    assert_eq!(options.reasoning, Some(true));
    assert_eq!(options.reasoning_effort.as_deref(), Some("high"));
    assert_eq!(options.api_version.as_deref(), Some("2024-02-01"));
    assert_eq!(options.timeout_seconds, Some(30));
    assert_eq!(options.extra_body.as_ref().map(|b| b.as_text().to_string()), Some(r#"{"a":1}"#.to_string()));
    assert_eq!(options.top_k, None);
    assert_eq!(options.deployment_id, None);
}

#[test]
fn model_config_of_wrong_type_keeps_options() {
    let base = ProviderOptions { max_tokens: Some(64), top_k: Some(5), reasoning: Some(false), ..ProviderOptions::default() };
    let config = JsonValue::from_text(r#"{"max_tokens":5000000000,"top_k":"many","reasoning":"yes"}"#);
    let options = base.with_model_config(Some(&config));
    assert_eq!(options.max_tokens, Some(64));
    assert_eq!(options.top_k, Some(5));
    assert_eq!(options.reasoning, Some(false));

    let kept = ProviderOptions { deployment_id: Some("d".to_string()), ..ProviderOptions::default() }
        .with_model_config(Some(&JsonValue::from_text("[1,2]")));
    assert_eq!(kept.deployment_id.as_deref(), Some("d"));
    let absent = ProviderOptions { top_k: Some(3), ..ProviderOptions::default() }.with_model_config(None);
    assert_eq!(absent.top_k, Some(3));
}

#[test]
fn small_numbers_fit_in_32_bits() {
    assert_eq!(small_u32(Some(4_294_967_295)), Some(u32::MAX));
    assert_eq!(small_u32(Some(4_294_967_296)), None);
    assert_eq!(small_u32(Some(7)), Some(7));
    assert_eq!(small_u32(None), None);
}
