//! Canonical telemetry payloads and the pluggable sink they are handed to.
//!
//! A `ProviderTrace` is recorded once per HTTP call and once per stream
//! lifetime; a `CompletionLog` is recorded once per non-streaming
//! completion. The hub is write-once: the first installed sink wins.

use vstd::prelude::*;

verus! {

/// Canonical, provider-agnostic tracing payload: one record per HTTP call
/// or per stream lifetime.
#[derive(Debug, Clone, PartialEq)]
pub struct ProviderTrace {
    pub turn_id: Option<String>,
    pub provider: Option<String>,
    pub model: Option<String>,
    pub request_id: Option<String>,
    pub provider_request_id: Option<String>,
    pub latency_ms: Option<u128>,
    pub tokens_prompt: Option<u32>,
    pub tokens_completion: Option<u32>,
    pub tokens_total: Option<u32>,
    pub finish_reason: Option<String>,
    pub error_kind: Option<String>,
    pub error_message: Option<String>,
}

/// The mathematical value of a `ProviderTrace`: every text field as its
/// character sequence.
pub struct ProviderTraceV {
    pub turn_id: Option<Seq<char>>,
    pub provider: Option<Seq<char>>,
    pub model: Option<Seq<char>>,
    pub request_id: Option<Seq<char>>,
    pub provider_request_id: Option<Seq<char>>,
    pub latency_ms: Option<u128>,
    pub tokens_prompt: Option<u32>,
    pub tokens_completion: Option<u32>,
    pub tokens_total: Option<u32>,
    pub finish_reason: Option<Seq<char>>,
    pub error_kind: Option<Seq<char>>,
    pub error_message: Option<Seq<char>>,
}

impl View for ProviderTrace {
    type V = ProviderTraceV;

    open spec fn view(&self) -> ProviderTraceV {
        ProviderTraceV {
            turn_id: self.turn_id.deep_view(),
            provider: self.provider.deep_view(),
            model: self.model.deep_view(),
            request_id: self.request_id.deep_view(),
            provider_request_id: self.provider_request_id.deep_view(),
            latency_ms: self.latency_ms,
            tokens_prompt: self.tokens_prompt,
            tokens_completion: self.tokens_completion,
            tokens_total: self.tokens_total,
            finish_reason: self.finish_reason.deep_view(),
            error_kind: self.error_kind.deep_view(),
            error_message: self.error_message.deep_view(),
        }
    }
}

/// The all-absent trace value.
pub open spec fn empty_trace_v() -> ProviderTraceV {
    ProviderTraceV {
        turn_id: None,
        provider: None,
        model: None,
        request_id: None,
        provider_request_id: None,
        latency_ms: None,
        tokens_prompt: None,
        tokens_completion: None,
        tokens_total: None,
        finish_reason: None,
        error_kind: None,
        error_message: None,
    }
}

impl ProviderTrace {
    /// A trace with every field absent.
    pub fn new() -> (r: Self)
        ensures
            r@ == empty_trace_v(),
    {
        let r = ProviderTrace {
            turn_id: None,
            provider: None,
            model: None,
            request_id: None,
            provider_request_id: None,
            latency_ms: None,
            tokens_prompt: None,
            tokens_completion: None,
            tokens_total: None,
            finish_reason: None,
            error_kind: None,
            error_message: None,
        };
        proof {
            assert(r@ == empty_trace_v());
        }
        r
    }

    /// A trace with the provider and model set and all else absent.
    pub fn with_provider_model(provider: &str, model: &str) -> (r: Self)
        ensures
            r@ == (ProviderTraceV {
                provider: Some(provider@),
                model: Some(model@),
                ..empty_trace_v()
            }),
    {
        let mut r = ProviderTrace::new();
        r.provider = Some(provider.to_owned());
        r.model = Some(model.to_owned());
        r
    }

    pub fn set_turn_id(self, turn_id: &str) -> (r: Self)
        ensures
            r@ == (ProviderTraceV { turn_id: Some(turn_id@), ..self@ }),
    {
        let mut r = self;
        r.turn_id = Some(turn_id.to_owned());
        r
    }

    pub fn set_request_id(self, rid: &str) -> (r: Self)
        ensures
            r@ == (ProviderTraceV { request_id: Some(rid@), ..self@ }),
    {
        let mut r = self;
        r.request_id = Some(rid.to_owned());
        r
    }

    pub fn set_provider_request_id(self, prid: &str) -> (r: Self)
        ensures
            r@ == (ProviderTraceV { provider_request_id: Some(prid@), ..self@ }),
    {
        let mut r = self;
        r.provider_request_id = Some(prid.to_owned());
        r
    }

    pub fn set_tokens(self, prompt: Option<u32>, completion: Option<u32>, total: Option<u32>) -> (r:
        Self)
        ensures
            r@ == (ProviderTraceV {
                tokens_prompt: prompt,
                tokens_completion: completion,
                tokens_total: total,
                ..self@
            }),
    {
        let mut r = self;
        r.tokens_prompt = prompt;
        r.tokens_completion = completion;
        r.tokens_total = total;
        r
    }

    pub fn set_finish_reason(self, reason: &str) -> (r: Self)
        ensures
            r@ == (ProviderTraceV { finish_reason: Some(reason@), ..self@ }),
    {
        let mut r = self;
        r.finish_reason = Some(reason.to_owned());
        r
    }

    pub fn set_latency_ms(self, ms: u128) -> (r: Self)
        ensures
            r@ == (ProviderTraceV { latency_ms: Some(ms), ..self@ }),
    {
        let mut r = self;
        r.latency_ms = Some(ms);
        r
    }

    pub fn provider(self, provider: &str) -> (r: Self)
        ensures
            r@ == (ProviderTraceV { provider: Some(provider@), ..self@ }),
    {
        let mut r = self;
        r.provider = Some(provider.to_owned());
        r
    }

    pub fn model(self, model: &str) -> (r: Self)
        ensures
            r@ == (ProviderTraceV { model: Some(model@), ..self@ }),
    {
        let mut r = self;
        r.model = Some(model.to_owned());
        r
    }

    pub fn request_id_opt(self, rid: Option<&str>) -> (r: Self)
        ensures
            r@ == (ProviderTraceV { request_id: rid.deep_view(), ..self@ }),
    {
        let mut r = self;
        r.request_id = match rid {
            Some(s) => Some(s.to_owned()),
            None => None,
        };
        r
    }

    pub fn turn_id_opt(self, tid: Option<&str>) -> (r: Self)
        ensures
            r@ == (ProviderTraceV { turn_id: tid.deep_view(), ..self@ }),
    {
        let mut r = self;
        r.turn_id = match tid {
            Some(s) => Some(s.to_owned()),
            None => None,
        };
        r
    }

    pub fn provider_request_id_opt(self, prid: Option<&str>) -> (r: Self)
        ensures
            r@ == (ProviderTraceV { provider_request_id: prid.deep_view(), ..self@ }),
    {
        let mut r = self;
        r.provider_request_id = match prid {
            Some(s) => Some(s.to_owned()),
            None => None,
        };
        r
    }

    pub fn latency_ms(self, ms: u64) -> (r: Self)
        ensures
            r@ == (ProviderTraceV { latency_ms: Some(ms as u128), ..self@ }),
    {
        let mut r = self;
        r.latency_ms = Some(ms as u128);
        r
    }

    pub fn finish_reason_opt(self, reason: Option<&str>) -> (r: Self)
        ensures
            r@ == (ProviderTraceV { finish_reason: reason.deep_view(), ..self@ }),
    {
        let mut r = self;
        r.finish_reason = match reason {
            Some(s) => Some(s.to_owned()),
            None => None,
        };
        r
    }

    pub fn error_kind(self, kind: &str) -> (r: Self)
        ensures
            r@ == (ProviderTraceV { error_kind: Some(kind@), ..self@ }),
    {
        let mut r = self;
        r.error_kind = Some(kind.to_owned());
        r
    }

    pub fn error_message(self, msg: &str) -> (r: Self)
        ensures
            r@ == (ProviderTraceV { error_message: Some(msg@), ..self@ }),
    {
        let mut r = self;
        r.error_message = Some(msg.to_owned());
        r
    }
}

/// Structured completion event: a superset of the trace with the response
/// text and optional span identifiers.
#[derive(Debug, Clone, PartialEq)]
pub struct CompletionLog {
    pub provider: Option<String>,
    pub model: Option<String>,
    pub request_id: Option<String>,
    pub turn_id: Option<String>,
    pub provider_request_id: Option<String>,
    pub created_at_ms: Option<u64>,
    pub latency_ms: Option<u64>,
    pub stop_reason: Option<String>,
    pub error_kind: Option<String>,
    pub error_message: Option<String>,
    pub text: Option<String>,
    pub tokens_prompt: Option<u32>,
    pub tokens_completion: Option<u32>,
    pub tokens_total: Option<u32>,
    pub span_name: Option<String>,
    pub span_id: Option<String>,
    pub parent_span_id: Option<String>,
}

/// The mathematical value of a `CompletionLog`.
pub struct CompletionLogV {
    pub provider: Option<Seq<char>>,
    pub model: Option<Seq<char>>,
    pub request_id: Option<Seq<char>>,
    pub turn_id: Option<Seq<char>>,
    pub provider_request_id: Option<Seq<char>>,
    pub created_at_ms: Option<u64>,
    pub latency_ms: Option<u64>,
    pub stop_reason: Option<Seq<char>>,
    pub error_kind: Option<Seq<char>>,
    pub error_message: Option<Seq<char>>,
    pub text: Option<Seq<char>>,
    pub tokens_prompt: Option<u32>,
    pub tokens_completion: Option<u32>,
    pub tokens_total: Option<u32>,
    pub span_name: Option<Seq<char>>,
    pub span_id: Option<Seq<char>>,
    pub parent_span_id: Option<Seq<char>>,
}

impl View for CompletionLog {
    type V = CompletionLogV;

    open spec fn view(&self) -> CompletionLogV {
        CompletionLogV {
            provider: self.provider.deep_view(),
            model: self.model.deep_view(),
            request_id: self.request_id.deep_view(),
            turn_id: self.turn_id.deep_view(),
            provider_request_id: self.provider_request_id.deep_view(),
            created_at_ms: self.created_at_ms,
            latency_ms: self.latency_ms,
            stop_reason: self.stop_reason.deep_view(),
            error_kind: self.error_kind.deep_view(),
            error_message: self.error_message.deep_view(),
            text: self.text.deep_view(),
            tokens_prompt: self.tokens_prompt,
            tokens_completion: self.tokens_completion,
            tokens_total: self.tokens_total,
            span_name: self.span_name.deep_view(),
            span_id: self.span_id.deep_view(),
            parent_span_id: self.parent_span_id.deep_view(),
        }
    }
}

/// The all-absent completion log value.
pub open spec fn empty_log_v() -> CompletionLogV {
    CompletionLogV {
        provider: None,
        model: None,
        request_id: None,
        turn_id: None,
        provider_request_id: None,
        created_at_ms: None,
        latency_ms: None,
        stop_reason: None,
        error_kind: None,
        error_message: None,
        text: None,
        tokens_prompt: None,
        tokens_completion: None,
        tokens_total: None,
        span_name: None,
        span_id: None,
        parent_span_id: None,
    }
}

impl CompletionLog {
    /// A log with every field absent.
    pub fn new() -> (r: Self)
        ensures
            r@ == empty_log_v(),
    {
        let r = CompletionLog {
            provider: None,
            model: None,
            request_id: None,
            turn_id: None,
            provider_request_id: None,
            created_at_ms: None,
            latency_ms: None,
            stop_reason: None,
            error_kind: None,
            error_message: None,
            text: None,
            tokens_prompt: None,
            tokens_completion: None,
            tokens_total: None,
            span_name: None,
            span_id: None,
            parent_span_id: None,
        };
        proof {
            assert(r@ == empty_log_v());
        }
        r
    }

    pub fn provider(self, v: &str) -> (r: Self)
        ensures
            r@ == (CompletionLogV { provider: Some(v@), ..self@ }),
    {
        let mut r = self;
        r.provider = Some(v.to_owned());
        r
    }

    pub fn model(self, v: &str) -> (r: Self)
        ensures
            r@ == (CompletionLogV { model: Some(v@), ..self@ }),
    {
        let mut r = self;
        r.model = Some(v.to_owned());
        r
    }

    pub fn request_id_opt(self, v: Option<&str>) -> (r: Self)
        ensures
            r@ == (CompletionLogV { request_id: v.deep_view(), ..self@ }),
    {
        let mut r = self;
        r.request_id = match v {
            Some(s) => Some(s.to_owned()),
            None => None,
        };
        r
    }

    pub fn turn_id_opt(self, v: Option<&str>) -> (r: Self)
        ensures
            r@ == (CompletionLogV { turn_id: v.deep_view(), ..self@ }),
    {
        let mut r = self;
        r.turn_id = match v {
            Some(s) => Some(s.to_owned()),
            None => None,
        };
        r
    }

    pub fn provider_request_id_opt(self, v: Option<&str>) -> (r: Self)
        ensures
            r@ == (CompletionLogV { provider_request_id: v.deep_view(), ..self@ }),
    {
        let mut r = self;
        r.provider_request_id = match v {
            Some(s) => Some(s.to_owned()),
            None => None,
        };
        r
    }

    pub fn created_at_ms(self, v: u64) -> (r: Self)
        ensures
            r@ == (CompletionLogV { created_at_ms: Some(v), ..self@ }),
    {
        let mut r = self;
        r.created_at_ms = Some(v);
        r
    }

    pub fn latency_ms(self, v: u64) -> (r: Self)
        ensures
            r@ == (CompletionLogV { latency_ms: Some(v), ..self@ }),
    {
        let mut r = self;
        r.latency_ms = Some(v);
        r
    }

    pub fn stop_reason_opt(self, v: Option<&str>) -> (r: Self)
        ensures
            r@ == (CompletionLogV { stop_reason: v.deep_view(), ..self@ }),
    {
        let mut r = self;
        r.stop_reason = match v {
            Some(s) => Some(s.to_owned()),
            None => None,
        };
        r
    }

    pub fn error_kind_opt(self, v: Option<&str>) -> (r: Self)
        ensures
            r@ == (CompletionLogV { error_kind: v.deep_view(), ..self@ }),
    {
        let mut r = self;
        r.error_kind = match v {
            Some(s) => Some(s.to_owned()),
            None => None,
        };
        r
    }

    pub fn error_message(self, v: &str) -> (r: Self)
        ensures
            r@ == (CompletionLogV { error_message: Some(v@), ..self@ }),
    {
        let mut r = self;
        r.error_message = Some(v.to_owned());
        r
    }

    pub fn text_opt(self, v: Option<&str>) -> (r: Self)
        ensures
            r@ == (CompletionLogV { text: v.deep_view(), ..self@ }),
    {
        let mut r = self;
        r.text = match v {
            Some(s) => Some(s.to_owned()),
            None => None,
        };
        r
    }

    pub fn tokens(self, p: Option<u32>, c: Option<u32>, t: Option<u32>) -> (r: Self)
        ensures
            r@ == (CompletionLogV {
                tokens_prompt: p,
                tokens_completion: c,
                tokens_total: t,
                ..self@
            }),
    {
        let mut r = self;
        r.tokens_prompt = p;
        r.tokens_completion = c;
        r.tokens_total = t;
        r
    }

    pub fn span(self, name: Option<&str>, id: Option<&str>, parent: Option<&str>) -> (r: Self)
        ensures
            r@ == (CompletionLogV {
                span_name: name.deep_view(),
                span_id: id.deep_view(),
                parent_span_id: parent.deep_view(),
                ..self@
            }),
    {
        let mut r = self;
        r.span_name = match name {
            Some(s) => Some(s.to_owned()),
            None => None,
        };
        r.span_id = match id {
            Some(s) => Some(s.to_owned()),
            None => None,
        };
        r.parent_span_id = match parent {
            Some(s) => Some(s.to_owned()),
            None => None,
        };
        r
    }
}

/// Implement this to receive telemetry events. Implementations should be
/// cheap and must not panic: they may run on hot paths.
pub trait TelemetrySink {
    fn record(&self, trace: ProviderTrace);

    fn record_completion(&self, log: CompletionLog) {
    }
}

/// A write-once holder for the process's telemetry sink. When no sink is
/// installed, every record is silently dropped; the capture flag lets a
/// test thread gate emission.
pub struct TelemetryHub<S> {
    pub sink: Option<S>,
    pub capture_enabled: bool,
}

impl<S: TelemetrySink> TelemetryHub<S> {
    /// An empty hub: no sink installed, capture on.
    pub fn new() -> (r: Self)
        ensures
            r.sink is None,
            r.capture_enabled,
    {
        TelemetryHub { sink: None, capture_enabled: true }
    }

    /// Installs the sink. Returns false, changing nothing, when one is
    /// already installed: the hub is write-once.
    pub fn set_telemetry_sink(&mut self, sink: S) -> (r: bool)
        ensures
            r == (old(self).sink is None),
            r ==> final(self).sink is Some,
            !r ==> final(self).sink == old(self).sink,
            final(self).capture_enabled == old(self).capture_enabled,
    {
        match &self.sink {
            Some(..) => false,
            None => {
                self.sink = Some(sink);
                true
            },
        }
    }

    /// Enables or disables emission for tests that share a process.
    pub fn test_set_capture_enabled(&mut self, enabled: bool)
        ensures
            final(self).capture_enabled == enabled,
            final(self).sink == old(self).sink,
    {
        self.capture_enabled = enabled;
    }

    /// Hands the record to the sink, when one is installed and capture is
    /// enabled; drops it silently otherwise.
    pub fn emit(&self, trace: ProviderTrace) {
        if self.capture_enabled {
            match &self.sink {
                Some(s) => s.record(trace),
                None => (),
            }
        }
    }

    /// Hands the completion event to the sink, when one is installed and
    /// capture is enabled; drops it silently otherwise.
    pub fn emit_completion(&self, log: CompletionLog) {
        if self.capture_enabled {
            match &self.sink {
                Some(s) => s.record_completion(log),
                None => (),
            }
        }
    }
}

} // verus!
