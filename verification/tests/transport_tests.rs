use aiproxy_core::MAX_SSE_BUFFER;
use aiproxy_core::error::AiProxyError;
use aiproxy_core::provider_factory::mask_bearer;
use aiproxy_core::provider_factory::redact_tail;
use aiproxy_core::text::truncate;
use aiproxy_core::transport::AttemptOutcome;
use aiproxy_core::transport::RequestCtx;
use aiproxy_core::transport::SseFramer;
use aiproxy_core::transport::StreamTelemetryGuard;
use aiproxy_core::transport::ctx_headers;
use aiproxy_core::transport::extract_request_id;
use aiproxy_core::transport::map_http_error;
use aiproxy_core::transport::parse_retry_after;
use aiproxy_core::transport::retry_attempt_header;
use aiproxy_core::transport::retry_decision;

fn hdrs(pairs: &[(&str, &str)]) -> Vec<(String, String)> {
    pairs.iter().map(|(k, v)| (k.to_string(), v.to_string())).collect()
}

#[test]
fn post_json_429_maps_to_rate_limited() {
    let err = map_http_error("http", 429, None, "slow down");
    match err {
        AiProxyError::RateLimited { provider, retry_after } => {
            assert_eq!(provider, "http");
            assert_eq!(retry_after, None);
        }
        other => panic!("expected RateLimited, got: {:?}", other),
    }
}

#[test]
fn post_json_429_parses_retry_after_numeric() {
    let headers = hdrs(&[("retry-after", "3")]);
    let ra = parse_retry_after(&headers);
    assert_eq!(ra, Some(3));
    let err = map_http_error("http", 429, ra, "slow down");
    match err {
        AiProxyError::RateLimited { retry_after, .. } => assert_eq!(retry_after, Some(3)),
        other => panic!("expected RateLimited with retry_after, got: {:?}", other),
    }
}

#[test]
fn non_numeric_retry_after_is_absent() {
    let headers = hdrs(&[("retry-after", "Wed, 21 Oct 2015 07:28:00 GMT")]);
    assert_eq!(parse_retry_after(&headers), None);
    let headers2 = hdrs(&[("retry-after", " 12 ")]);
    assert_eq!(parse_retry_after(&headers2), Some(12));
}

#[test]
fn post_json_503_maps_to_unavailable() {
    let err = map_http_error("http", 503, None, "oops");
    assert!(matches!(err, AiProxyError::ProviderUnavailable { .. }));
}

#[test]
fn post_json_400_truncates_body() {
    let big = "x".repeat(1000);
    let err = map_http_error("http", 400, None, &big);
    match err {
        AiProxyError::ProviderError { code, message, .. } => {
            assert_eq!(code, "400");
            assert!(message.ends_with("..."));
            assert_eq!(message.len(), 303);
        }
        other => panic!("expected ProviderError, got: {:?}", other),
    }
}

#[test]
fn status_mapping_covers_the_taxonomy() {
    // Every non-2xx status maps to exactly one of the three kinds.
    assert!(matches!(map_http_error("p", 429, None, ""), AiProxyError::RateLimited { .. }));
    for s in [500u16, 502, 540, 599] {
        assert!(matches!(map_http_error("p", s, None, ""), AiProxyError::ProviderUnavailable { .. }));
    }
    for s in [400u16, 404, 418, 499, 600] {
        assert!(matches!(map_http_error("p", s, None, ""), AiProxyError::ProviderError { .. }));
    }
}

#[test]
fn request_id_candidates_are_extracted() {
    let ids = [
        ("x-request-id", "rid-A"),
        ("request-id", "rid-B"),
        ("x-amzn-requestid", "rid-C"),
        ("x-amz-request-id", "rid-D"),
        ("x-cdn-request-id", "rid-E"),
    ];
    for (hdr, val) in ids.iter() {
        let headers = hdrs(&[(hdr, val), ("content-type", "application/json")]);
        assert_eq!(extract_request_id(&headers).as_deref(), Some(*val));
    }
    // Earlier candidates win over later ones.
    let both = hdrs(&[("x-cdn-request-id", "rid-E"), ("x-request-id", "rid-A")]);
    assert_eq!(extract_request_id(&both).as_deref(), Some("rid-A"));
    assert_eq!(extract_request_id(&hdrs(&[("content-type", "json")])), None);
}

#[test]
fn ctx_headers_follow_presence() {
    let ctx = RequestCtx {
        request_id: Some("rid-1".into()),
        turn_id: Some("tid-1".into()),
        idempotency_key: None,
    };
    let h = ctx_headers(&ctx);
    assert_eq!(
        h,
        vec![
            ("X-Request-Id".to_string(), "rid-1".to_string()),
            ("X-Turn-Id".to_string(), "tid-1".to_string()),
        ]
    );
    assert!(ctx_headers(&RequestCtx::new()).is_empty());
}

#[test]
fn retry_with_idempotency_key_once_then_success() {
    // First attempt hits 429: retried with the base delay; the second
    // attempt succeeds and no further request is sent.
    let first = AttemptOutcome::Http { status: 429, retry_after: None };
    assert_eq!(retry_decision(0, true, &first, 200), Some(200));
    assert_eq!(retry_attempt_header(0), ("X-Retry-Attempt".to_string(), "0".to_string()));
    assert_eq!(retry_attempt_header(1), ("X-Retry-Attempt".to_string(), "1".to_string()));
    let second = AttemptOutcome::Success;
    assert_eq!(retry_decision(1, true, &second, 200), None);
}

#[test]
fn retry_without_idempotency_key_never_happens() {
    let out = AttemptOutcome::Http { status: 503, retry_after: None };
    assert_eq!(retry_decision(0, false, &out, 200), None);
}

#[test]
fn retry_backoff_doubles_and_caps() {
    let out = AttemptOutcome::Transport;
    assert_eq!(retry_decision(0, true, &out, 200), Some(200));
    assert_eq!(retry_decision(1, true, &out, 200), Some(400));
    assert_eq!(retry_decision(2, true, &out, 200), None);
    assert_eq!(retry_decision(1, true, &out, 2000), Some(3000));
    let ra = AttemptOutcome::Http { status: 429, retry_after: Some(2) };
    assert_eq!(retry_decision(0, true, &ra, 200), Some(2000));
    let not_retryable = AttemptOutcome::Http { status: 400, retry_after: None };
    assert_eq!(retry_decision(0, true, &not_retryable, 200), None);
}

#[test]
fn sse_buffer_overflow_is_reported_first() {
    // A single chunk larger than the buffer guard with no newline makes
    // the first emitted item the overflow error.
    let mut framer = SseFramer::new();
    let chunk: Vec<u8> = vec![b'x'; MAX_SSE_BUFFER + 1024];
    let (lines, err) = framer.push_chunk(&chunk);
    assert!(lines.is_empty());
    match err {
        Some(AiProxyError::ProviderError { code, .. }) => assert_eq!(code, "sse_buffer_overflow"),
        other => panic!("expected overflow ProviderError, got: {:?}", other),
    }
}

#[test]
fn sse_framer_splits_lines_and_trims_cr() {
    let mut framer = SseFramer::new();
    let (lines, err) = framer.push_chunk(&b"data: a\r\ndata: b\npartial".to_vec());
    assert!(err.is_none());
    assert_eq!(lines, vec![b"data: a".to_vec(), b"data: b".to_vec()]);
    let (lines2, err2) = framer.push_chunk(&b" tail\n".to_vec());
    assert!(err2.is_none());
    assert_eq!(lines2, vec![b"partial tail".to_vec()]);
    assert_eq!(framer.finish(), None);
}

#[test]
fn sse_framer_flushes_tail_once() {
    let mut framer = SseFramer::new();
    let (lines, err) = framer.push_chunk(&b"no newline yet".to_vec());
    assert!(err.is_none());
    assert!(lines.is_empty());
    assert_eq!(framer.finish(), Some(b"no newline yet".to_vec()));
    assert_eq!(framer.finish(), None);
}

#[test]
fn stream_guard_emits_exactly_once() {
    let mut guard = StreamTelemetryGuard::new(Some("sse-early".to_string()));
    let first = guard.take_trace(0).expect("first take yields the record");
    assert_eq!(first.provider.as_deref(), Some("http"));
    assert_eq!(first.provider_request_id.as_deref(), Some("sse-early"));
    assert!(first.latency_ms.unwrap_or(0) >= 1);
    assert!(guard.take_trace(5).is_none());
    assert!(guard.take_trace(9).is_none());
}

#[test]
fn truncate_keeps_short_text() {
    assert_eq!(truncate("short", 300), "short");
    let long = "y".repeat(301);
    let t = truncate(&long, 300);
    assert_eq!(t.len(), 303);
    assert!(t.ends_with("..."));
}

#[test]
fn redaction_shows_only_the_tail() {
    assert_eq!(redact_tail("badkey"), "***dkey");
    assert_eq!(redact_tail("abc"), "***abc");
    assert_eq!(redact_tail(""), "***");
}

#[test]
fn bearer_masking_never_shows_the_middle() {
    assert_eq!(mask_bearer("sk-abcdefghijklmnop"), "Bearer sk-abc****mnop");
    assert_eq!(mask_bearer("short"), "Bearer ****");
}
