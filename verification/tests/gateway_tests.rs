use fastllm::gateway::{
    assemble_response, chat_call, chat_role, provider_failure, stream_events, tool_call_from, ChatRoleKind, ProviderUsage,
};
use fastllm::{JsonValue, LlmGateway, LlmGatewayError, LlmResponse, LlmStreamEvent, LlmToolCall, ModelLoadRequest, ModelRoute, KeyedMap};

#[test]
fn gateway_finds_registered_providers() {
    let gateway = LlmGateway::new().with_provider("echo", 7u32).with_provider("alpha", 1u32);
    assert_eq!(gateway.provider("echo").expect("echo"), 7);
    assert_eq!(gateway.provider_handle("alpha").expect("alpha"), 1);
    assert_eq!(gateway.providers(), vec!["alpha".to_string(), "echo".to_string()]);
}

#[test]
fn gateway_denies_unknown_provider() {
    let err = LlmGateway::<u32>::new().provider("missing").expect_err("unknown provider");
    assert!(err.to_text().contains("missing"));
    assert!(matches!(err, LlmGatewayError::UnknownProvider(name) if name == "missing"));
}

#[test]
fn gateway_streams_full_response_as_events() {
    let response = LlmResponse {
        text: "hello".to_string(),
        reasoning: Some(String::new()),
        tool_calls: vec![LlmToolCall { name: "f".to_string(), arguments: JsonValue::from_text("{}") }],
        usage: None,
    };
    let events = stream_events(response);

    assert!(matches!(&events[0], LlmStreamEvent::TextDelta { text } if text == "hello"));
    assert!(matches!(&events[1], LlmStreamEvent::ToolCall { call } if call.name == "f"));
    assert!(matches!(events.last(), Some(LlmStreamEvent::Done { .. })));
    assert_eq!(events.len(), 3);
}

#[test]
fn empty_text_streams_only_done() {
    let events = stream_events(LlmResponse { text: String::new(), reasoning: Some("why".to_string()), tool_calls: Vec::new(), usage: None });
    assert_eq!(events.len(), 2);
    assert!(matches!(&events[0], LlmStreamEvent::ReasoningDelta { text } if text == "why"));
}

#[test]
fn gateway_loads_models_of_known_providers() {
    let gateway = LlmGateway::new().with_provider("local", ());
    let info = gateway
        .load_model(ModelLoadRequest { route: ModelRoute::new("local", "m"), config: KeyedMap::new() })
        .expect("loaded");
    assert!(info.loaded);
    assert_eq!(info.route, ModelRoute::new("local", "m"));
    assert!(gateway
        .load_model(ModelLoadRequest { route: ModelRoute::new("other", "m"), config: KeyedMap::new() })
        .is_err());
}

#[test]
fn roles_map_to_provider_roles() {
    assert_eq!(chat_role("system"), ChatRoleKind::System);
    assert_eq!(chat_role("assistant"), ChatRoleKind::Assistant);
    assert_eq!(chat_role("tool"), ChatRoleKind::Tool);
    assert_eq!(chat_role("user"), ChatRoleKind::User);
    assert_eq!(chat_role("narrator"), ChatRoleKind::User);
}

#[test]
fn tool_call_arguments_are_canonical_json() {
    let call = tool_call_from("f".to_string(), "{ \"b\": 1, \"a\": [true] }");
    assert_eq!(call.arguments.as_text(), "{\"a\":[true],\"b\":1}");
    let broken = tool_call_from("g".to_string(), "not json");
    assert_eq!(broken.arguments.as_text(), "null");
}

#[test]
fn provider_answers_assemble_into_responses() {
    let r = assemble_response(None, Some("think".to_string()), Vec::new(), Some(ProviderUsage { prompt_tokens: 3, completion_tokens: 4 }));
    assert_eq!(r.text, "");
    assert_eq!(r.reasoning.as_deref(), Some("think"));
    assert_eq!(r.usage.map(|u| (u.input_tokens, u.output_tokens)), Some((3, 4)));
}

#[test]
fn chat_calls_carry_roles_tools_and_schema() {
    let mut request = fastllm::LlmRequest::new(
        fastllm::ModelRoute::new("echo", "test"),
        vec![
            fastllm::LlmMessage { role: "system".to_string(), content: "be brief".to_string() },
            fastllm::LlmMessage::user("hello"),
            fastllm::LlmMessage { role: "robot".to_string(), content: "?".to_string() },
        ],
    );
    let plain = chat_call(&request);
    assert_eq!(plain.turns.len(), 3);
    assert_eq!(plain.turns[0].role, ChatRoleKind::System);
    assert_eq!(plain.turns[1].content, "hello");
    assert_eq!(plain.turns[2].role, ChatRoleKind::User);
    assert!(plain.tools.is_none());
    assert!(plain.output.is_none());

    request.tools.push(fastllm::LlmTool {
        name: "lookup".to_string(),
        description: "finds".to_string(),
        input_schema: fastllm::JsonValue::from_text(r#"{"type":"object"}"#),
    });
    request.output_schema = Some(fastllm::JsonValue::from_text(r#"{"type":"string"}"#));
    let full = chat_call(&request);
    assert_eq!(full.tools.as_ref().map(|t| t.len()), Some(1));
    let output = full.output.expect("schema");
    assert_eq!(output.name, "odyssey_output");
    assert_eq!(output.schema.as_text(), r#"{"type":"string"}"#);
    assert!(output.strict);

    let err = provider_failure("echo".to_string(), "down".to_string());
    assert_eq!(err.to_text(), "provider `echo` failed: down");
}
