//! The decision logic of the HTTP transport: contextual headers, provider
//! request-id extraction, `Retry-After` parsing, status-to-error mapping,
//! the retry policy, SSE line framing with its buffer guard, and the
//! exactly-once stream telemetry guard.
//!
//! The embedding application performs the actual network sends and feeds
//! statuses, headers and body bytes to these functions.

use vstd::prelude::*;

verus! {

use crate::error::AiProxyError;
use crate::telemetry::{ProviderTrace, ProviderTraceV, empty_trace_v};
use crate::text::{
    parse_u64_spec, parse_u64_chars, str_to_chars, trim_exec, trim_ws, truncate, truncate_spec,
    status_code_str, status_digits, digit_char,
};
use crate::MAX_SSE_BUFFER;

/// Carries the tracing identifiers and the idempotency key through every
/// HTTP call.
#[derive(Debug, Clone, PartialEq)]
pub struct RequestCtx {
    pub request_id: Option<String>,
    pub turn_id: Option<String>,
    pub idempotency_key: Option<String>,
}

impl RequestCtx {
    /// A context with no identifiers.
    pub fn new() -> (r: Self)
        ensures
            r.request_id is None,
            r.turn_id is None,
            r.idempotency_key is None,
    {
        RequestCtx { request_id: None, turn_id: None, idempotency_key: None }
    }
}

/// The context carried by a chat call: the caller's request id, the trace
/// id as the turn id, and the idempotency key.
pub fn chat_request_ctx(req: &crate::model::ChatRequest) -> (ctx: RequestCtx)
    ensures
        ctx.request_id.deep_view() == req.request_id.deep_view(),
        ctx.turn_id.deep_view() == req.trace_id.deep_view(),
        ctx.idempotency_key.deep_view() == req.idempotency_key.deep_view(),
{
    RequestCtx {
        request_id: crate::text::clone_opt_string(&req.request_id),
        turn_id: crate::text::clone_opt_string(&req.trace_id),
        idempotency_key: crate::text::clone_opt_string(&req.idempotency_key),
    }
}

/// The context carried by an embedding call: only the client key, as the
/// idempotency key.
pub fn embed_request_ctx(req: &crate::model::EmbedRequest) -> (ctx: RequestCtx)
    ensures
        ctx.request_id is None,
        ctx.turn_id is None,
        ctx.idempotency_key.deep_view() == req.client_key.deep_view(),
{
    RequestCtx {
        request_id: None,
        turn_id: None,
        idempotency_key: crate::text::clone_opt_string(&req.client_key),
    }
}

/// One Server-Sent-Events line, already split on the newline.
#[derive(Debug, Clone, PartialEq)]
pub struct SseLine {
    pub line: String,
}

/// The view of a header list: each name and value as character sequences.
pub open spec fn pairs_view(s: Seq<(String, String)>) -> Seq<(Seq<char>, Seq<char>)> {
    s.map_values(|p: (String, String)| (p.0@, p.1@))
}

/// The contextual headers sent with a request: `X-Request-Id`, `X-Turn-Id`
/// and `Idempotency-Key`, each present exactly when the context carries it.
pub open spec fn ctx_headers_spec(ctx: RequestCtx) -> Seq<(Seq<char>, Seq<char>)> {
    (match ctx.request_id {
        Some(r) => seq![("X-Request-Id"@, r@)],
        None => Seq::empty(),
    }) + (match ctx.turn_id {
        Some(t) => seq![("X-Turn-Id"@, t@)],
        None => Seq::empty(),
    }) + (match ctx.idempotency_key {
        Some(k) => seq![("Idempotency-Key"@, k@)],
        None => Seq::empty(),
    })
}

/// The contextual header pairs for a request, in a fixed order.
pub fn ctx_headers(ctx: &RequestCtx) -> (r: Vec<(String, String)>)
    ensures
        pairs_view(r@) == ctx_headers_spec(*ctx),
{
    let mut r: Vec<(String, String)> = Vec::new();
    match &ctx.request_id {
        Some(rid) => {
            r.push(("X-Request-Id".to_owned(), rid.clone()));
        },
        None => (),
    }
    match &ctx.turn_id {
        Some(tid) => {
            r.push(("X-Turn-Id".to_owned(), tid.clone()));
        },
        None => (),
    }
    match &ctx.idempotency_key {
        Some(ik) => {
            r.push(("Idempotency-Key".to_owned(), ik.clone()));
        },
        None => (),
    }
    proof {
        assert(pairs_view(r@) =~= ctx_headers_spec(*ctx));
    }
    r
}

/// The value of the first header with the given name, scanning in list
/// order.
pub open spec fn header_lookup(h: Seq<(Seq<char>, Seq<char>)>, name: Seq<char>) -> Option<
    Seq<char>,
>
    decreases h.len(),
{
    if h.len() == 0 {
        None
    } else if h[0].0 == name {
        Some(h[0].1)
    } else {
        header_lookup(h.skip(1), name)
    }
}

/// Finds the first header with the given (already lower-case) name.
pub fn header_get(headers: &Vec<(String, String)>, name: &str) -> (r: Option<String>)
    ensures
        r.deep_view() == header_lookup(pairs_view(headers@), name@),
{
    let owned = name.to_owned();
    let mut i: usize = 0;
    proof {
        assert(pairs_view(headers@).skip(0) =~= pairs_view(headers@));
    }
    while i < headers.len()
        invariant
            i <= headers@.len(),
            header_lookup(pairs_view(headers@), name@) == header_lookup(
                pairs_view(headers@).skip(i as int),
                name@,
            ),
            owned@ == name@,
        decreases headers@.len() - i,
    {
        proof {
            let hv = pairs_view(headers@);
            assert(hv.skip(i as int)[0] == hv[i as int]);
            assert(hv[i as int] == (headers@[i as int].0@, headers@[i as int].1@));
            assert(hv.skip(i as int).skip(1) =~= hv.skip(i + 1));
        }
        if headers[i].0.eq(&owned) {
            return Some(headers[i].1.clone());
        }
        i = i + 1;
    }
    proof {
        assert(pairs_view(headers@).skip(headers@.len() as int) =~= Seq::<(Seq<char>, Seq<char>)>::empty());
    }
    None
}

/// The provider request id taken from a response: the value of the first
/// present header among the five candidates, tried in this order.
pub open spec fn extract_request_id_spec(h: Seq<(Seq<char>, Seq<char>)>) -> Option<Seq<char>> {
    if header_lookup(h, "x-request-id"@) is Some {
        header_lookup(h, "x-request-id"@)
    } else if header_lookup(h, "request-id"@) is Some {
        header_lookup(h, "request-id"@)
    } else if header_lookup(h, "x-amzn-requestid"@) is Some {
        header_lookup(h, "x-amzn-requestid"@)
    } else if header_lookup(h, "x-amz-request-id"@) is Some {
        header_lookup(h, "x-amz-request-id"@)
    } else if header_lookup(h, "x-cdn-request-id"@) is Some {
        header_lookup(h, "x-cdn-request-id"@)
    } else {
        None
    }
}

/// Extracts the provider's request id from the (lower-case) response
/// headers, trying the five candidate names in order.
pub fn extract_request_id(headers: &Vec<(String, String)>) -> (r: Option<String>)
    ensures
        r.deep_view() == extract_request_id_spec(pairs_view(headers@)),
{
    let first = header_get(headers, "x-request-id");
    if first.is_some() {
        return first;
    }
    let second = header_get(headers, "request-id");
    if second.is_some() {
        return second;
    }
    let third = header_get(headers, "x-amzn-requestid");
    if third.is_some() {
        return third;
    }
    let fourth = header_get(headers, "x-amz-request-id");
    if fourth.is_some() {
        return fourth;
    }
    header_get(headers, "x-cdn-request-id")
}

/// The numeric `Retry-After` value in seconds: the header value trimmed
/// and read as a decimal, absent when the header is missing or not a plain
/// number (the HTTP-date form is not parsed).
pub open spec fn retry_after_spec(h: Seq<(Seq<char>, Seq<char>)>) -> Option<u64> {
    match header_lookup(h, "retry-after"@) {
        Some(v) => parse_u64_spec(trim_ws(v)),
        None => None,
    }
}

/// Parses a numeric `Retry-After` response header into seconds; a missing
/// header or a non-numeric (HTTP-date) value gives `None`.
pub fn parse_retry_after(headers: &Vec<(String, String)>) -> (r: Option<u64>)
    ensures
        r == retry_after_spec(pairs_view(headers@)),
{
    match header_get(headers, "retry-after") {
        Some(v) => {
            let chars = str_to_chars(v.as_str());
            let trimmed = trim_exec(&chars);
            parse_u64_chars(&trimmed)
        },
        None => None,
    }
}

/// How a non-success HTTP status is mapped: 429 is a rate limit, every
/// 5xx means the provider is unavailable, and anything else is a provider
/// error carrying the status code and the body truncated to 300
/// characters.
pub fn map_http_error(provider: &str, status: u16, retry_after: Option<u64>, body: &str) -> (r:
    AiProxyError)
    requires
        100 <= status <= 999,
    ensures
        status == 429 ==> (r matches AiProxyError::RateLimited { provider: p, retry_after: ra }
            && p@ == provider@ && ra == retry_after),
        500 <= status <= 599 ==> (r matches AiProxyError::ProviderUnavailable { provider: p }
            && p@ == provider@),
        (status != 429 && !(500 <= status <= 599)) ==> (r matches AiProxyError::ProviderError {
            provider: p,
            code,
            message,
        } && p@ == provider@ && code@ == status_digits(status as int) && message@ == truncate_spec(
            body@,
            300,
        )),
{
    if status == 429 {
        AiProxyError::RateLimited { provider: provider.to_owned(), retry_after }
    } else if 500 <= status && status <= 599 {
        AiProxyError::ProviderUnavailable { provider: provider.to_owned() }
    } else {
        AiProxyError::ProviderError {
            provider: provider.to_owned(),
            code: status_code_str(status),
            message: truncate(body, 300),
        }
    }
}

/// What one attempt came back with: success, an HTTP status with an
/// optional numeric `Retry-After`, or a transport failure before any
/// status was read.
#[derive(Debug, Clone, PartialEq)]
pub enum AttemptOutcome {
    Success,
    Http { status: u16, retry_after: Option<u64> },
    Transport,
}

/// The statuses worth retrying: rate limiting and gateway-style failures.
pub open spec fn retryable_status(s: int) -> bool {
    s == 429 || s == 502 || s == 503 || s == 504
}

/// Whether this outcome allows a retry at all: transport failures and the
/// retryable statuses do, success and other statuses do not.
pub open spec fn outcome_retryable(o: AttemptOutcome) -> bool {
    match o {
        AttemptOutcome::Success => false,
        AttemptOutcome::Http { status, .. } => retryable_status(status as int),
        AttemptOutcome::Transport => true,
    }
}

/// The backoff before retry attempt `n`: an honored numeric `Retry-After`
/// in milliseconds, otherwise the doubled base delay capped at three
/// seconds.
pub open spec fn retry_delay_spec(o: AttemptOutcome, attempt: u32, base_ms: u64) -> int {
    let ra: Option<u64> = match o {
        AttemptOutcome::Http { retry_after, .. } => retry_after,
        _ => None,
    };
    match ra {
        Some(secs) => if secs <= u64::MAX as int / 1000 {
            secs * 1000
        } else {
            u64::MAX as int
        },
        None => {
            let exp: int = if attempt == 0 {
                base_ms as int
            } else {
                base_ms as int * 2
            };
            if exp > 3000 {
                3000
            } else {
                exp
            }
        },
    }
}

/// Decides whether to retry after an attempt. `Some(delay_ms)` means sleep
/// that long and send the request again; `None` means surface the
/// outcome. Retries happen only when an idempotency key authorizes them,
/// at most twice after the first attempt, and only for transport failures
/// and the retryable statuses 429, 502, 503 and 504.
pub fn retry_decision(attempt: u32, has_idempotency_key: bool, outcome: &AttemptOutcome,
    base_ms: u64) -> (r: Option<u64>)
    ensures
        r is Some <==> (has_idempotency_key && attempt < 2 && outcome_retryable(*outcome)),
        r is Some ==> r->0 == retry_delay_spec(*outcome, attempt, base_ms),
{
    if !has_idempotency_key || attempt >= 2 {
        return None;
    }
    let retryable = match outcome {
        AttemptOutcome::Success => false,
        AttemptOutcome::Http { status, .. } => *status == 429 || *status == 502 || *status == 503
            || *status == 504,
        AttemptOutcome::Transport => true,
    };
    if !retryable {
        return None;
    }
    let ra: Option<u64> = match outcome {
        AttemptOutcome::Http { retry_after, .. } => *retry_after,
        _ => None,
    };
    match ra {
        Some(secs) => {
            if secs <= u64::MAX / 1000 {
                Some(secs * 1000)
            } else {
                Some(u64::MAX)
            }
        },
        None => {
            let exp: u64 = if attempt == 0 {
                base_ms
            } else if base_ms > 3000 {
                3000
            } else {
                base_ms * 2
            };
            if exp > 3000 {
                Some(3000)
            } else {
                Some(exp)
            }
        },
    }
}

/// The `X-Retry-Attempt` header sent with each try.
pub fn retry_attempt_header(attempt: u32) -> (r: (String, String))
    requires
        attempt <= 9,
    ensures
        r.0@ == "X-Retry-Attempt"@,
        r.1@ == seq![digit_char(attempt as int)],
{
    let mut v: String = String::new();
    crate::text::push_char(&mut v, crate::text::digit_to_char(attempt as u16));
    proof {
        assert(v@ =~= seq![digit_char(attempt as int)]);
    }
    ("X-Retry-Attempt".to_owned(), v)
}

/// The index of the first newline byte, or -1 when there is none.
pub open spec fn first_nl(b: Seq<u8>) -> int
    decreases b.len(),
{
    if b.len() == 0 {
        -1
    } else if b[0] == 10 {
        0
    } else {
        let r = first_nl(b.skip(1));
        if r < 0 {
            -1
        } else {
            r + 1
        }
    }
}

/// A complete line with a single trailing carriage return removed.
pub open spec fn strip_cr(l: Seq<u8>) -> Seq<u8> {
    if l.len() > 0 && l[l.len() - 1] == 13 {
        l.take(l.len() - 1)
    } else {
        l
    }
}

/// Frames a byte buffer into complete lines: each newline ends a line
/// (with one preceding carriage return trimmed), and the bytes after the
/// last newline remain buffered.
pub open spec fn split_lines(b: Seq<u8>) -> (Seq<Seq<u8>>, Seq<u8>)
    decreases b.len(),
        via split_lines_decreases
{
    let i = first_nl(b);
    if i < 0 {
        (Seq::empty(), b)
    } else {
        let rest = split_lines(b.skip(i + 1));
        (seq![strip_cr(b.take(i))] + rest.0, rest.1)
    }
}

#[via_fn]
proof fn split_lines_decreases(b: Seq<u8>) {
    lemma_first_nl_bounds(b);
}

proof fn lemma_first_nl_bounds(b: Seq<u8>)
    ensures
        -1 <= first_nl(b) < b.len(),
        first_nl(b) >= 0 ==> b[first_nl(b)] == 10,
        first_nl(b) >= 0 ==> forall|j: int| 0 <= j < first_nl(b) ==> b[j] != 10,
        first_nl(b) < 0 ==> forall|j: int| 0 <= j < b.len() ==> b[j] != 10,
    decreases b.len(),
{
    if b.len() > 0 && b[0] != 10 {
        lemma_first_nl_bounds(b.skip(1));
        let r = first_nl(b.skip(1));
        if r >= 0 {
            assert(b.skip(1)[r] == 10);
            assert forall|j: int| 0 <= j < r + 1 implies b[j] != 10 by {
                if j > 0 {
                    assert(b.skip(1)[j - 1] != 10);
                }
            }
        } else {
            assert forall|j: int| 0 <= j < b.len() implies b[j] != 10 by {
                if j > 0 {
                    assert(b.skip(1)[j - 1] != 10);
                }
            }
        }
    }
}

proof fn lemma_first_nl_at(b: Seq<u8>, k: int)
    requires
        0 <= k < b.len(),
        b[k] == 10,
        forall|j: int| 0 <= j < k ==> b[j] != 10,
    ensures
        first_nl(b) == k,
    decreases b.len(),
{
    if k > 0 {
        assert forall|j: int| 0 <= j < k - 1 implies b.skip(1)[j] != 10 by {
            assert(b.skip(1)[j] == b[j + 1]);
        }
        assert(b.skip(1)[k - 1] == b[k as int]);
        lemma_first_nl_at(b.skip(1), k - 1);
    }
}

proof fn lemma_first_nl_none(b: Seq<u8>)
    requires
        forall|j: int| 0 <= j < b.len() ==> b[j] != 10,
    ensures
        first_nl(b) == -1,
    decreases b.len(),
{
    if b.len() > 0 {
        assert forall|j: int| 0 <= j < b.skip(1).len() implies b.skip(1)[j] != 10 by {
            assert(b.skip(1)[j] == b[j + 1]);
        }
        lemma_first_nl_none(b.skip(1));
    }
}

/// Splits an incoming byte stream into Server-Sent-Events lines, guarding
/// the running buffer against unbounded growth.
pub struct SseFramer {
    pub buf: Vec<u8>,
    pub flushed_tail: bool,
    pub overflowed: bool,
}

impl SseFramer {
    /// A framer with an empty buffer.
    pub fn new() -> (r: Self)
        ensures
            r.buf@ == Seq::<u8>::empty(),
            !r.flushed_tail,
            !r.overflowed,
    {
        SseFramer { buf: Vec::new(), flushed_tail: false, overflowed: false }
    }

    /// Feeds one chunk of body bytes. Returns every line completed by this
    /// chunk, and a buffer-overflow error when more than `MAX_SSE_BUFFER`
    /// bytes accumulate without a newline; after that the stream is dead.
    pub fn push_chunk(&mut self, chunk: &Vec<u8>) -> (r: (Vec<Vec<u8>>, Option<AiProxyError>))
        requires
            !old(self).overflowed,
            !old(self).flushed_tail,
            old(self).buf@.len() + chunk@.len() < usize::MAX,
        ensures
            ({
                let nb = old(self).buf@ + chunk@;
                let (lines, rem) = split_lines(nb);
                &&& r.0.deep_view() == lines
                &&& (if rem.len() > MAX_SSE_BUFFER {
                    &&& r.1 matches Some(e)
                    &&& e matches AiProxyError::ProviderError { provider, code, message }
                        && provider@ == "http"@ && code@ == "sse_buffer_overflow"@
                    &&& final(self).overflowed
                } else {
                    &&& r.1 is None
                    &&& !final(self).overflowed
                    &&& final(self).buf@ == rem
                    &&& !final(self).flushed_tail
                })
            }),
    {
        let ghost nb = old(self).buf@ + chunk@;
        let mut i: usize = 0;
        while i < chunk.len()
            invariant
                i <= chunk@.len(),
                old(self).buf@.len() + chunk@.len() < usize::MAX,
                self.buf@ == old(self).buf@ + chunk@.take(i as int),
                self.flushed_tail == old(self).flushed_tail,
                self.overflowed == old(self).overflowed,
            decreases chunk@.len() - i,
        {
            self.buf.push(chunk[i]);
            i = i + 1;
            proof {
                assert(old(self).buf@ + chunk@.take(i as int) =~= (old(self).buf@ + chunk@.take(
                    i - 1,
                )).push(chunk@[i - 1]));
            }
        }
        proof {
            assert(chunk@.take(chunk@.len() as int) =~= chunk@);
            assert(self.buf@ == nb);
        }
        let mut lines: Vec<Vec<u8>> = Vec::new();
        proof {
            assert(lines.deep_view() + split_lines(self.buf@).0 =~= split_lines(nb).0);
        }
        loop
            invariant
                self.flushed_tail == old(self).flushed_tail,
                self.overflowed == old(self).overflowed,
                lines.deep_view() + split_lines(self.buf@).0 == split_lines(nb).0,
                split_lines(self.buf@).1 == split_lines(nb).1,
            ensures
                self.flushed_tail == old(self).flushed_tail,
                self.overflowed == old(self).overflowed,
                lines.deep_view() == split_lines(nb).0,
                self.buf@ == split_lines(nb).1,
            decreases self.buf@.len(),
        {
            // Find the first newline in the buffer.
            let mut k: usize = 0;
            let n = self.buf.len();
            while k < n && self.buf[k] != 10
                invariant
                    k <= n,
                    n == self.buf@.len(),
                    forall|j: int| 0 <= j < k ==> self.buf@[j] != 10,
                decreases n - k,
            {
                k = k + 1;
            }
            if k == n {
                proof {
                    lemma_first_nl_none(self.buf@);
                    assert(split_lines(self.buf@).0 =~= Seq::<Seq<u8>>::empty());
                    assert(lines.deep_view() + split_lines(self.buf@).0 =~= lines.deep_view());
                }
                break;
            }
            proof {
                lemma_first_nl_at(self.buf@, k as int);
            }
            let ghost pre = self.buf@;
            // Take the line bytes, trimming one trailing carriage return.
            let line_end: usize = if k > 0 && self.buf[k - 1] == 13 {
                k - 1
            } else {
                k
            };
            let mut line: Vec<u8> = Vec::new();
            let mut j: usize = 0;
            while j < line_end
                invariant
                    j <= line_end,
                    line_end <= k < n,
                    n == self.buf@.len(),
                    self.buf@ == pre,
                    line@ == pre.take(line_end as int).take(j as int),
                decreases line_end - j,
            {
                line.push(self.buf[j]);
                j = j + 1;
                proof {
                    assert(pre.take(line_end as int).take(j as int) =~= pre.take(
                        line_end as int,
                    ).take(j - 1).push(pre[j - 1]));
                }
            }
            proof {
                assert(pre.take(line_end as int).take(line_end as int) =~= pre.take(
                    line_end as int,
                ));
                if k > 0 && pre[k - 1] == 13 {
                    assert(pre.take(k as int)[k - 1] == pre[k - 1]);
                    assert(pre.take(k as int).take(k - 1) =~= pre.take(k - 1));
                    assert(strip_cr(pre.take(k as int)) =~= pre.take(k - 1));
                } else {
                    if pre.take(k as int).len() > 0 && pre.take(k as int)[k - 1] == 13 {
                        assert(pre[k - 1] == 13);
                    }
                    assert(strip_cr(pre.take(k as int)) =~= pre.take(k as int));
                }
                assert(line@ == strip_cr(pre.take(k as int)));
            }
            // Drop the line and its newline from the buffer.
            let mut rest: Vec<u8> = Vec::new();
            let mut m: usize = k + 1;
            while m < n
                invariant
                    k + 1 <= m <= n,
                    n == self.buf@.len(),
                    self.buf@ == pre,
                    rest@ == pre.subrange(k + 1, m as int),
                decreases n - m,
            {
                rest.push(self.buf[m]);
                m = m + 1;
                proof {
                    assert(pre.subrange(k + 1, m as int) =~= pre.subrange(k + 1, m - 1).push(
                        pre[m - 1],
                    ));
                }
            }
            proof {
                assert(pre.subrange(k + 1, n as int) =~= pre.skip(k + 1));
            }
            self.buf = rest;
            let ghost old_lines = lines.deep_view();
            let ghost line_v = line@;
            lines.push(line);
            proof {
                let lv = lines.deep_view();
                assert(lv.len() == old_lines.len() + 1);
                assert forall|t: int| 0 <= t < lv.len() implies #[trigger] lv[t] == (if t
                    < old_lines.len() {
                    old_lines[t]
                } else {
                    line_v
                }) by {
                    assert(lv[t] == lines@[t]@);
                    if t < old_lines.len() {
                        assert(old_lines[t] == lines@[t]@);
                    }
                }
                assert(lv =~= old_lines + seq![line_v]);
                assert(first_nl(pre) == k);
                assert(split_lines(pre).0 == seq![strip_cr(pre.take(k as int))] + split_lines(
                    pre.skip(k + 1),
                ).0);
                assert(split_lines(pre).1 == split_lines(pre.skip(k + 1)).1);
                assert(self.buf@ =~= pre.skip(k + 1));
                assert(lv + split_lines(self.buf@).0 =~= old_lines + split_lines(pre).0);
            }
        }
        if self.buf.len() > MAX_SSE_BUFFER {
            self.overflowed = true;
            proof {
                reveal_strlit("http");
                reveal_strlit("sse_buffer_overflow");
            }
            let err = AiProxyError::ProviderError {
                provider: "http".to_owned(),
                code: "sse_buffer_overflow".to_owned(),
                message: "SSE buffer exceeded 2MiB without a newline".to_owned(),
            };
            (lines, Some(err))
        } else {
            (lines, None)
        }
    }

    /// Ends the stream: a non-empty buffered tail is flushed once as a
    /// final line, exactly as received.
    pub fn finish(&mut self) -> (r: Option<Vec<u8>>)
        ensures
            (if !old(self).flushed_tail && old(self).buf@.len() > 0 {
                &&& r matches Some(t) && t@ == old(self).buf@
                &&& final(self).flushed_tail
            } else {
                r is None
            }),
    {
        if !self.flushed_tail && self.buf.len() > 0 {
            self.flushed_tail = true;
            let mut t: Vec<u8> = Vec::new();
            let n = self.buf.len();
            let mut j: usize = 0;
            while j < n
                invariant
                    j <= n,
                    n == self.buf@.len(),
                    t@ == self.buf@.take(j as int),
                decreases n - j,
            {
                t.push(self.buf[j]);
                j = j + 1;
                proof {
                    assert(self.buf@.take(j as int) =~= self.buf@.take(j - 1).push(
                        self.buf@[j - 1],
                    ));
                }
            }
            proof {
                assert(self.buf@.take(n as int) =~= self.buf@);
            }
            Some(t)
        } else {
            None
        }
    }
}

/// Guards the one telemetry record of a stream lifetime: however the
/// stream ends (normal completion, error, or the consumer abandoning it),
/// the record is produced exactly once.
pub struct StreamTelemetryGuard {
    pub emitted: bool,
    pub provider_request_id: Option<String>,
}

impl StreamTelemetryGuard {
    /// A fresh guard; nothing has been emitted.
    pub fn new(provider_request_id: Option<String>) -> (r: Self)
        ensures
            !r.emitted,
            r.provider_request_id == provider_request_id,
    {
        StreamTelemetryGuard { emitted: false, provider_request_id }
    }

    /// The trace for this stream, produced on the first call only; every
    /// later call returns nothing. The recorded latency is at least one
    /// millisecond.
    pub fn take_trace(&mut self, latency_ms: u64) -> (r: Option<ProviderTrace>)
        ensures
            final(self).emitted,
            final(self).provider_request_id == old(self).provider_request_id,
            old(self).emitted ==> r is None,
            !old(self).emitted ==> (r matches Some(t) && t@ == (ProviderTraceV {
                provider: Some("http"@),
                latency_ms: Some(if latency_ms == 0 {
                    1u128
                } else {
                    latency_ms as u128
                }),
                provider_request_id: old(self).provider_request_id.deep_view(),
                ..empty_trace_v()
            })),
    {
        if self.emitted {
            return None;
        }
        self.emitted = true;
        let ms: u64 = if latency_ms == 0 {
            1
        } else {
            latency_ms
        };
        let prid: Option<&str> = match &self.provider_request_id {
            Some(s) => Some(s.as_str()),
            None => None,
        };
        proof {
            reveal_strlit("http");
        }
        let t = ProviderTrace::new().provider("http").latency_ms(ms).provider_request_id_opt(prid);
        Some(t)
    }
}

/// Over a stream lifetime, the guard's record is produced exactly once:
/// the first `take_trace` call yields it and every later call yields
/// nothing. `states` are the guard's `emitted` flags before each call and
/// `got[i]` says whether call `i` returned a record.
pub proof fn lemma_stream_telemetry_once(states: Seq<bool>, got: Seq<bool>)
    requires
        states.len() == got.len() + 1,
        got.len() >= 1,
        !states[0],
        forall|i: int| 0 <= i < got.len() ==> #[trigger] states[i + 1],
        forall|i: int| 0 <= i < got.len() ==> #[trigger] got[i] == !states[i],
    ensures
        got[0],
        forall|i: int| 1 <= i < got.len() ==> !(#[trigger] got[i]),
{
    assert(got[0] == !states[0]);
    assert forall|i: int| 1 <= i < got.len() implies !(#[trigger] got[i]) by {
        assert(states[i - 1 + 1]);
        assert(got[i] == !states[i]);
    }
}

} // verus!
