use aiproxy_core::error::AiProxyError;
use aiproxy_core::model::StopReason;
use aiproxy_core::sse::SseBridge;
use aiproxy_core::sse::map_finish;
use aiproxy_core::sse::run_bridge;
use aiproxy_core::stream::StreamEvent;

#[test]
fn helpers_work() {
    let d = StreamEvent::DeltaText("hi".into());
    assert!(!d.is_terminal());
    assert_eq!(d.as_text_delta(), Some("hi"));

    let s = StreamEvent::Stop { reason: None };
    assert!(s.is_terminal());
    assert_eq!(s.as_text_delta(), None);
}

fn ok(s: &str) -> Result<String, AiProxyError> {
    Ok(s.to_string())
}

#[test]
fn openai_sse_happy_path() {
    // The upstream body split on newlines: two deltas, a finish reason,
    // and the terminator, with blank separator lines.
    let lines = vec![
        ok("data: {\"choices\":[{\"delta\":{\"content\":\"Hel\"}}]}"),
        ok(""),
        ok("data: {\"choices\":[{\"delta\":{\"content\":\"lo\"}}]}"),
        ok(""),
        ok("data: {\"choices\":[{\"finish_reason\":\"stop\"}]}"),
        ok(""),
        ok("data: [DONE]"),
        ok(""),
    ];
    let events = run_bridge(lines);
    assert_eq!(events.len(), 3);
    assert_eq!(events[0].as_text_delta(), Some("Hel"));
    assert_eq!(events[1].as_text_delta(), Some("lo"));
    assert!(matches!(events[2], StreamEvent::Stop { reason: Some(StopReason::Stop) }));
    assert!(events[2].is_terminal());
    assert!(!events[0].is_terminal() && !events[1].is_terminal());
}

#[test]
fn sse_ignores_odd_lines_and_single_stop() {
    let lines = vec![
        ok(":heartbeat"),
        ok("event: ping"),
        ok("data: {\"choices\":[{\"delta\":{\"content\":\"Hel\"}}]}"),
        ok("data:{\"choices\":[{\"delta\":{\"content\":\"lo\"}}]}"),
        ok("data: {\"choices\":[{\"finish_reason\":\"stop\"}]}"),
        ok("data: [DONE]"),
    ];
    let events = run_bridge(lines);
    let stops = events.iter().filter(|e| matches!(e, StreamEvent::Stop { .. })).count();
    assert_eq!(stops, 1);
    assert_eq!(events[0].as_text_delta(), Some("Hel"));
    assert_eq!(events[1].as_text_delta(), Some("lo"));
}

#[test]
fn sse_no_explicit_stop_yields_none() {
    let lines = vec![
        ok("data: {\"choices\":[{\"delta\":{\"content\":\"Hi\"}}]}"),
        ok("data: [DONE]"),
    ];
    let events = run_bridge(lines);
    assert_eq!(events.len(), 2);
    assert!(matches!(events[1], StreamEvent::Stop { reason: None }));
}

#[test]
fn sse_stream_close_without_done_synthesizes_stop() {
    let lines = vec![ok("data: {\"choices\":[{\"delta\":{\"content\":\"A\"}}]}")];
    let events = run_bridge(lines);
    assert_eq!(events.len(), 2);
    assert!(matches!(events[1], StreamEvent::Stop { reason: None }));
}

#[test]
fn sse_multiple_finish_reasons_only_one_stop() {
    let lines = vec![
        ok("data: {\"choices\":[{\"finish_reason\":\"stop\"}]}"),
        ok("data: {\"choices\":[{\"finish_reason\":\"length\"}]}"),
        ok("data: [DONE]"),
    ];
    let events = run_bridge(lines);
    let stops = events.iter().filter(|e| matches!(e, StreamEvent::Stop { .. })).count();
    assert_eq!(stops, 1);
    assert!(matches!(events[0], StreamEvent::Stop { reason: Some(StopReason::Stop) }));
}

#[test]
fn sse_stream_error_bubbles_and_no_stop() {
    let lines = vec![
        ok("data: {\"choices\":[{\"delta\":{\"content\":\"Hi\"}}]}"),
        Err(AiProxyError::ProviderUnavailable { provider: "http".into() }),
    ];
    let events = run_bridge(lines);
    assert_eq!(events.len(), 2);
    assert_eq!(events[0].as_text_delta(), Some("Hi"));
    assert!(matches!(events[1], StreamEvent::Error(AiProxyError::ProviderUnavailable { .. })));
    let stops = events.iter().filter(|e| matches!(e, StreamEvent::Stop { .. })).count();
    assert_eq!(stops, 0, "on_stop should not be called on error path");
}

#[test]
fn sse_exactly_one_terminal_event() {
    let runs: Vec<Vec<Result<String, AiProxyError>>> = vec![
        vec![],
        vec![ok("data: [DONE]")],
        vec![ok("junk"), ok("data: {\"choices\":[{\"delta\":{\"content\":\"x\"}}]}")],
        vec![Err(AiProxyError::Io("boom".into()))],
        vec![
            ok("data: {\"choices\":[{\"finish_reason\":\"length\"}]}"),
            ok("data: {\"choices\":[{\"delta\":{\"content\":\"late\"}}]}"),
        ],
    ];
    for lines in runs {
        let events = run_bridge(lines);
        assert!(!events.is_empty());
        let terminals = events.iter().filter(|e| e.is_terminal()).count();
        assert_eq!(terminals, 1);
        assert!(events.last().unwrap().is_terminal());
    }
}

#[test]
fn bridge_ignores_lines_after_terminal() {
    let mut bridge = SseBridge::new();
    let mut out: Vec<StreamEvent> = Vec::new();
    bridge.on_line("data: [DONE]", &mut out);
    bridge.on_line("data: {\"choices\":[{\"delta\":{\"content\":\"late\"}}]}", &mut out);
    bridge.on_end(&mut out);
    assert_eq!(out.len(), 1);
    assert!(matches!(out[0], StreamEvent::Stop { reason: None }));
}

#[test]
fn finish_reason_matrix() {
    assert_eq!(map_finish(Some("stop")), Some(StopReason::Stop));
    assert_eq!(map_finish(Some("length")), Some(StopReason::Length));
    assert_eq!(map_finish(Some("content_filter")), Some(StopReason::ContentFilter));
    assert_eq!(map_finish(Some("tool_calls")), Some(StopReason::ToolUse));
    assert_eq!(map_finish(Some("weird_reason")), Some(StopReason::Other));
    assert_eq!(map_finish(None), None);
}
