use aiproxy_core::model::ChatMessage;
use aiproxy_core::model::ChatRequest;
use aiproxy_core::model::EmbedRequest;
use aiproxy_core::model::Role;
use aiproxy_core::model::StopReason;
use aiproxy_core::error::AiProxyError;
use aiproxy_core::provider::NullProvider;
use aiproxy_core::provider_factory::SecretKey;
use aiproxy_core::providers::anthropic::Anthropic;
use aiproxy_core::providers::anthropic::AnthropicRespWire;
use aiproxy_core::providers::openai::OaChatRespWire;
use aiproxy_core::providers::openai::OaChoiceWire;
use aiproxy_core::providers::openai::OaEmbedRespWire;
use aiproxy_core::providers::openai::OaUsageWire;
use aiproxy_core::providers::openai::OpenAI;
use aiproxy_core::providers::openrouter::OpenRouter;
use aiproxy_core::providers::openrouter::OrChatRespWire;
use aiproxy_core::providers::openrouter::OrChoiceWire;
use aiproxy_core::providers::openrouter::OrUsageWire;
use aiproxy_core::telemetry::CompletionLog;
use aiproxy_core::telemetry::ProviderTrace;

fn chat_req(model: &str, msgs: Vec<(Role, &str)>) -> ChatRequest {
    ChatRequest {
        model: model.to_string(),
        messages: msgs
            .into_iter()
            .map(|(role, content)| ChatMessage { role, content: content.to_string() })
            .collect(),
        temperature_milli: None,
        top_p_e4: None,
        metadata: None,
        client_key: None,
        request_id: None,
        trace_id: None,
        idempotency_key: None,
        max_output_tokens: None,
        stop_sequences: None,
    }
}

#[test]
fn null_provider_chat() {
    let prov = NullProvider;
    let mut req = chat_req("gpt-4o", vec![(Role::User, "hi")]);
    req.temperature_milli = Some(1000);
    req.top_p_e4 = Some(10000);
    let resp = prov.chat(req).expect("chat ok");
    assert_eq!(resp.provider, "null");
    assert_eq!(resp.text, "[null provider response]");
    assert_eq!(resp.usage_prompt, 2); // "hi" length
}

#[test]
fn null_provider_embed() {
    let prov = NullProvider;
    let req = EmbedRequest {
        model: "text-embedding-3-small".into(),
        inputs: vec!["a".into(), "b".into()],
        client_key: None,
    };
    let resp = prov.embed(req).expect("embed ok");
    assert_eq!(resp.provider, "null");
    assert_eq!(resp.vectors.len(), 2);
    assert_eq!(resp.vectors[0].len(), 3);
    assert_eq!(resp.vectors[0], vec![0u32, 0, 0]);
}

fn openai_for_tests() -> OpenAI {
    OpenAI::new(
        SecretKey::new("test-key".to_string()),
        "http://localhost:1".to_string(),
        None,
        None,
    )
}

#[test]
fn openai_chat_200_maps_fields() {
    // The literal upstream body of the chat scenario, reduced to the
    // fields the adapter reads, with the request-id header present.
    let provider = openai_for_tests();
    let mut req = chat_req("gpt-4o", vec![(Role::User, "Hi")]);
    req.max_output_tokens = Some(128);
    let wire = OaChatRespWire {
        id: "cmpl_123".to_string(),
        choices: vec![OaChoiceWire {
            message: ChatMessage { role: Role::Assistant, content: "Hello!".to_string() },
            finish_reason: Some("stop".to_string()),
        }],
        usage: Some(OaUsageWire { prompt_tokens: 10, completion_tokens: 5 }),
    };
    let resp = provider.chat_response(&req, &wire, Some("abc123".to_string()), 7, 1_234);
    assert_eq!(resp.text, "Hello!");
    assert_eq!(resp.stop_reason, Some(StopReason::Stop));
    assert_eq!(resp.usage_prompt, 10);
    assert_eq!(resp.usage_completion, 5);
    assert_eq!(resp.provider, "openai");
    assert_eq!(resp.provider_request_id.as_deref(), Some("abc123"));
    assert!(resp.latency_ms > 0);
}

#[test]
fn openai_chat_empty_choices_yields_defaults() {
    let provider = openai_for_tests();
    let req = chat_req("gpt-4o", vec![(Role::User, "Hi")]);
    let wire = OaChatRespWire { id: "cmpl_empty".to_string(), choices: vec![], usage: None };
    let resp = provider.chat_response(&req, &wire, None, 1, 0);
    assert_eq!(resp.text, "");
    assert_eq!(resp.stop_reason, None);
    assert_eq!(resp.usage_prompt, 0);
    assert_eq!(resp.usage_completion, 0);
    assert_eq!(resp.provider_request_id.as_deref(), Some("cmpl_empty"));
}

#[test]
fn openai_chat_missing_usage_defaults_to_zero() {
    let provider = openai_for_tests();
    let req = chat_req("gpt-4o", vec![(Role::User, "Hi")]);
    let wire = OaChatRespWire {
        id: "cmpl_no_usage".to_string(),
        choices: vec![OaChoiceWire {
            message: ChatMessage { role: Role::Assistant, content: "ok".to_string() },
            finish_reason: Some("stop".to_string()),
        }],
        usage: None,
    };
    let resp = provider.chat_response(&req, &wire, None, 1, 0);
    assert_eq!(resp.usage_prompt, 0);
    assert_eq!(resp.usage_completion, 0);
}

#[test]
fn openai_turn_id_falls_back_to_literal() {
    let provider = openai_for_tests();
    let mut req = chat_req("gpt-4o", vec![(Role::User, "Hi")]);
    let wire = OaChatRespWire { id: "x".to_string(), choices: vec![], usage: None };
    let resp = provider.chat_response(&req, &wire, None, 1, 0);
    assert_eq!(resp.turn_id, "turn");
    req.request_id = Some("req-9".to_string());
    let resp2 = provider.chat_response(&req, &wire, None, 1, 0);
    assert_eq!(resp2.turn_id, "req-9");
}

#[test]
fn openai_headers_carry_bearer_and_identifiers() {
    let provider = OpenAI::new(
        SecretKey::new("test-key".to_string()),
        "http://localhost:1".to_string(),
        Some("org-1".to_string()),
        Some("proj-1".to_string()),
    );
    let h = provider.headers();
    assert_eq!(
        h,
        vec![
            ("Authorization".to_string(), "Bearer test-key".to_string()),
            ("OpenAI-Organization".to_string(), "org-1".to_string()),
            ("OpenAI-Project".to_string(), "proj-1".to_string()),
        ]
    );
}

#[test]
fn openai_chat_payload_carries_request_fields() {
    let provider = openai_for_tests();
    let mut req = chat_req("gpt-4o", vec![(Role::User, "Hi")]);
    req.temperature_milli = Some(700);
    req.max_output_tokens = Some(128);
    req.stop_sequences = Some(vec!["END".to_string()]);
    let p = provider.chat_payload(&req, Some(true));
    assert_eq!(p.model, "gpt-4o");
    assert_eq!(p.messages, req.messages);
    assert_eq!(p.temperature_milli, Some(700));
    assert_eq!(p.max_tokens, Some(128));
    assert_eq!(p.stop, Some(vec!["END".to_string()]));
    assert_eq!(p.stream, Some(true));
}

#[test]
fn openai_embed_maps_vectors_in_order() {
    let provider = openai_for_tests();
    let req = EmbedRequest {
        model: "text-embedding-3-small".into(),
        inputs: vec!["hello".into(), "world".into()],
        client_key: None,
    };
    let p = provider.embed_payload(&req);
    assert_eq!(p.model, "text-embedding-3-small");
    assert_eq!(p.input, vec!["hello".to_string(), "world".to_string()]);
    let wire = OaEmbedRespWire {
        data: vec![
            vec![0.1f32.to_bits(), 0.2f32.to_bits()],
            vec![0.3f32.to_bits()],
        ],
    };
    let resp = provider.embed_response(&req, wire);
    assert_eq!(resp.provider, "openai");
    assert_eq!(resp.vectors.len(), 2);
    assert_eq!(f32::from_bits(resp.vectors[0][0]), 0.1);
    assert_eq!(f32::from_bits(resp.vectors[1][0]), 0.3);
}

fn anthropic_for_tests() -> Anthropic {
    Anthropic::new(SecretKey::new("test-key".to_string()), "http://localhost:1".to_string())
}

#[test]
fn anthropic_chat_sends_joined_system_prompt() {
    // Two system messages and one user message: the outbound payload
    // carries the newline-joined system field.
    let provider = anthropic_for_tests();
    let req = chat_req(
        "haiku-3",
        vec![(Role::System, "A"), (Role::System, "B"), (Role::User, "Hi")],
    );
    let p = provider.chat_payload(&req);
    assert_eq!(p.system.as_deref(), Some("A\nB"));
    assert_eq!(p.messages.len(), 1);
    assert_eq!(p.messages[0].role, "user");
    assert_eq!(p.messages[0].text, "Hi");
    assert_eq!(p.max_tokens, 1024);
}

#[test]
fn anthropic_drops_tool_messages_and_floors_max_tokens() {
    let provider = anthropic_for_tests();
    let mut req = chat_req(
        "haiku-3",
        vec![(Role::Tool, "ignored"), (Role::Assistant, "prior")],
    );
    req.max_output_tokens = Some(0);
    let p = provider.chat_payload(&req);
    assert!(p.system.is_none());
    assert_eq!(p.messages.len(), 1);
    assert_eq!(p.messages[0].role, "assistant");
    assert_eq!(p.max_tokens, 1);
}

#[test]
fn anthropic_chat_200_maps_fields() {
    let provider = anthropic_for_tests();
    let mut req = chat_req("haiku-3", vec![(Role::User, "Hi")]);
    req.max_output_tokens = Some(128);
    let wire = AnthropicRespWire {
        id: "msg_123".to_string(),
        content: vec![Some("hello from upstream".to_string())],
        stop_reason: Some("end_turn".to_string()),
        input_tokens: Some(9),
        output_tokens: Some(3),
    };
    let resp = provider.chat_response(&req, &wire, Some("req-1".to_string()), 12, 1_000);
    assert_eq!(resp.text, "hello from upstream");
    assert_eq!(resp.stop_reason, Some(StopReason::EndTurn));
    assert_eq!(resp.usage_prompt, 9);
    assert_eq!(resp.usage_completion, 3);
    assert_eq!(resp.provider, "anthropic");
    let log: CompletionLog = provider.completion_log(&resp);
    assert_eq!(log.provider.as_deref(), Some("anthropic"));
    assert_eq!(log.stop_reason.as_deref(), Some("end_turn"));
    assert_eq!(log.tokens_total, Some(12));
    assert_eq!(log.text.as_deref(), Some("hello from upstream"));
}

#[test]
fn anthropic_stop_reason_matrix() {
    let cases = vec![
        (Some("end_turn"), Some(StopReason::EndTurn)),
        (Some("max_tokens"), Some(StopReason::Length)),
        (Some("tool_use"), Some(StopReason::ToolUse)),
        (Some("stop_sequence"), Some(StopReason::Stop)),
        (Some("anything_else"), None),
        (None, None),
    ];
    for (wire, want) in cases {
        assert_eq!(Anthropic::map_stop(wire), want);
    }
}

#[test]
fn anthropic_headers_present() {
    let provider = anthropic_for_tests();
    let h = provider.headers();
    assert_eq!(
        h,
        vec![
            ("x-api-key".to_string(), "test-key".to_string()),
            ("anthropic-version".to_string(), "2023-06-01".to_string()),
        ]
    );
}

#[test]
fn anthropic_embed_is_unsupported() {
    let provider = anthropic_for_tests();
    let req = EmbedRequest { model: "dummy".into(), inputs: vec!["x".into()], client_key: None };
    match provider.embed(&req) {
        Err(AiProxyError::Validation(..)) => {}
        other => panic!("unexpected: {:?}", other),
    }
}

#[test]
fn openrouter_chat_200_maps_fields() {
    let provider = OpenRouter::new(
        SecretKey::new("test-key".to_string()),
        "http://localhost:1".to_string(),
    );
    let req = chat_req("gpt-4o", vec![(Role::User, "Hi")]);
    let wire = OrChatRespWire {
        id: "req_123".to_string(),
        choices: vec![OrChoiceWire {
            message: ChatMessage { role: Role::Assistant, content: "Hello via OR!".to_string() },
            finish_reason: Some("stop".to_string()),
        }],
        usage: Some(OrUsageWire { prompt_tokens: 3, completion_tokens: 4 }),
    };
    let resp = provider.chat_response(&req, &wire, None, 2, 0);
    assert_eq!(resp.text, "Hello via OR!");
    assert_eq!(resp.stop_reason, Some(StopReason::Stop));
    assert_eq!(resp.provider, "openrouter");
    assert_eq!(resp.provider_request_id.as_deref(), Some("req_123"));
    assert_eq!(resp.usage_prompt, 3);
    assert_eq!(resp.usage_completion, 4);
}

#[test]
fn role_and_stop_reason_wire_names() {
    assert_eq!(Role::System.wire_name(), "system");
    assert_eq!(Role::User.wire_name(), "user");
    assert_eq!(Role::Assistant.wire_name(), "assistant");
    assert_eq!(Role::Tool.wire_name(), "tool");
    assert_eq!(StopReason::Stop.wire_name(), "stop");
    assert_eq!(StopReason::Length.wire_name(), "length");
    assert_eq!(StopReason::ToolUse.wire_name(), "tool_use");
    assert_eq!(StopReason::EndTurn.wire_name(), "end_turn");
    assert_eq!(StopReason::ContentFilter.wire_name(), "content_filter");
    assert_eq!(StopReason::Other.wire_name(), "other");
}

#[test]
fn provider_trace_builders_set_fields() {
    let trace = ProviderTrace::with_provider_model("openai", "gpt-4o")
        .set_turn_id("turn-123")
        .set_request_id("req-abc")
        .set_provider_request_id("prov-xyz")
        .set_latency_ms(42)
        .set_tokens(Some(10), Some(20), Some(30))
        .set_finish_reason("Stop");
    assert_eq!(trace.provider.as_deref(), Some("openai"));
    assert_eq!(trace.model.as_deref(), Some("gpt-4o"));
    assert_eq!(trace.turn_id.as_deref(), Some("turn-123"));
    assert_eq!(trace.latency_ms, Some(42));
    assert_eq!(trace.tokens_total, Some(30));
    assert_eq!(trace.finish_reason.as_deref(), Some("Stop"));
    assert_eq!(trace.request_id.as_deref(), Some("req-abc"));
    assert_eq!(trace.provider_request_id.as_deref(), Some("prov-xyz"));
}

#[test]
fn error_kind_labels_match_the_taxonomy() {
    assert_eq!(
        AiProxyError::ProviderUnavailable { provider: "p".into() }.kind_label(),
        "provider_unavailable"
    );
    assert_eq!(
        AiProxyError::RateLimited { provider: "p".into(), retry_after: None }.kind_label(),
        "rate_limited"
    );
    assert_eq!(AiProxyError::Validation("v".into()).kind_label(), "validation");
    assert_eq!(AiProxyError::Io("e".into()).kind_label(), "io");
    assert_eq!(AiProxyError::Other("e".into()).kind_label(), "other");
    assert_eq!(AiProxyError::BudgetExceeded { remaining: 1 }.kind_label(), "budget_exceeded");
    assert_eq!(
        AiProxyError::ProviderError {
            provider: "p".into(),
            code: "sse_buffer_overflow".into(),
            message: "m".into()
        }
        .kind_label(),
        "sse_buffer_overflow"
    );
}
