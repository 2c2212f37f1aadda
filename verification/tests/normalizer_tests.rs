use aiproxy_core::model::ChatMessage;
use aiproxy_core::model::ChatRequest;
use aiproxy_core::model::EmbedRequest;
use aiproxy_core::model::Role;
use aiproxy_core::normalizer::normalize_chat;
use aiproxy_core::normalizer::normalize_embed;

fn mk_chat_req(msgs: Vec<(&'static str, &'static str)>) -> ChatRequest {
    ChatRequest {
        model: "gpt-4o".to_string(),
        messages: msgs
            .into_iter()
            .map(|(role, content)| ChatMessage {
                role: match role {
                    "user" => Role::User,
                    "assistant" => Role::Assistant,
                    "system" => Role::System,
                    "tool" => Role::Tool,
                    _ => Role::User,
                },
                content: content.to_string(),
            })
            .collect(),
        temperature_milli: None,
        top_p_e4: None,
        metadata: None,
        client_key: None,
        request_id: None,
        trace_id: None,
        idempotency_key: None,
        max_output_tokens: None,
        stop_sequences: None,
    }
}

#[test]
fn trims_message_content_and_defaults_params() {
    let req = mk_chat_req(vec![("user", "  Hello world   ")]);
    let out = normalize_chat(req);
    assert_eq!(out.messages[0].content, "Hello world");
    assert_eq!(out.temperature_milli, Some(1000));
    assert_eq!(out.top_p_e4, Some(10000));
}

#[test]
fn dedups_and_cleans_stop_sequences() {
    let mut req = mk_chat_req(vec![("user", "go")]);
    req.stop_sequences = Some(vec!["END".into(), "END".into(), "STOP".into()]);
    let out = normalize_chat(req);
    assert_eq!(out.stop_sequences.as_ref().unwrap().len(), 2);
    assert!(out.stop_sequences.as_ref().unwrap().contains(&"END".into()));
    assert!(out.stop_sequences.as_ref().unwrap().contains(&"STOP".into()));
}

#[test]
fn empty_stop_sequences_become_none() {
    let mut req = mk_chat_req(vec![("user", "go")]);
    req.stop_sequences = Some(vec![]);
    let out = normalize_chat(req);
    assert!(out.stop_sequences.is_none());
}

#[test]
fn caps_max_output_tokens() {
    let mut req = mk_chat_req(vec![("user", "go")]);
    req.max_output_tokens = Some(200_000);
    let out = normalize_chat(req);
    assert_eq!(out.max_output_tokens, Some(100_000));
}

#[test]
fn normalize_embed_trims_and_drops_empty() {
    let req = EmbedRequest {
        model: "text-embedding-3-small".to_string(),
        inputs: vec!["  one  ".into(), "".into(), " two".into(), "three ".into()],
        client_key: None,
    };
    let out = normalize_embed(req);
    assert_eq!(out.inputs, vec!["one", "two", "three"]);
}

#[test]
fn unicode_nfc_and_crlf_normalization() {
    // "e" plus a combining acute accent normalizes to the single char.
    let req = mk_chat_req(vec![("user", "e\u{301}")]);
    let out = normalize_chat(req);
    assert_eq!(out.messages[0].content, "é");

    // CRLF becomes LF.
    let req2 = mk_chat_req(vec![("user", "line1\r\nline2")]);
    let out2 = normalize_chat(req2);
    assert_eq!(out2.messages[0].content, "line1\nline2");
}

#[test]
fn dedup_embedding_inputs_after_clean() {
    let req = EmbedRequest {
        model: "text-embedding-3-small".to_string(),
        inputs: vec![" a ".into(), "a".into(), "a".into(), "b".into(), " b".into()],
        client_key: None,
    };
    let out = normalize_embed(req);
    assert_eq!(out.inputs, vec!["a", "b"]);
}

#[test]
fn clamp_and_round_floats() {
    // Fixed-point parameters above their ranges clamp to the bounds.
    let mut req = mk_chat_req(vec![("user", "go")]);
    req.temperature_milli = Some(2_500);
    req.top_p_e4 = Some(10_001);
    let out = normalize_chat(req);
    assert_eq!(out.temperature_milli, Some(2000));
    assert_eq!(out.top_p_e4, Some(10000));
}

#[test]
fn normalize_chat_is_idempotent() {
    let mut req = mk_chat_req(vec![("user", "  Hello\r\nthere  "), ("system", "\u{FEFF}be kind")]);
    req.stop_sequences = Some(vec!["STOP".into(), "END".into(), "STOP".into()]);
    req.temperature_milli = Some(2_400);
    req.max_output_tokens = Some(1_000_000);
    let once = normalize_chat(req);
    let twice = normalize_chat(once.clone());
    assert_eq!(once, twice);
}

#[test]
fn normalize_embed_is_idempotent() {
    let req = EmbedRequest {
        model: "text-embedding-3-small".to_string(),
        inputs: vec![" a ".into(), "a".into(), "".into(), "b\r\nc".into()],
        client_key: None,
    };
    let once = normalize_embed(req);
    let twice = normalize_embed(once.clone());
    assert_eq!(once, twice);
}

#[test]
fn stop_sequences_come_out_sorted() {
    let mut req = mk_chat_req(vec![("user", "go")]);
    req.stop_sequences = Some(vec!["zeta".into(), "alpha".into(), "mid".into(), "alpha".into()]);
    let out = normalize_chat(req);
    assert_eq!(out.stop_sequences, Some(vec!["alpha".to_string(), "mid".to_string(), "zeta".to_string()]));
}
