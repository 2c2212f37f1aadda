//! The stream bridge: turns the raw Server-Sent-Events lines of an
//! OpenAI-style chat stream into canonical `StreamEvent`s, guaranteeing
//! exactly one terminal event per stream.

use vstd::prelude::*;

verus! {

use crate::error::{AiProxyError, ErrorV};
use crate::model::StopReason;
use crate::stream::{EventV, StreamEvent, is_terminal_v};
use crate::text::{chars_to_string, str_to_chars, trim_exec, trim_start, trim_start_exec, trim_ws};

/// What an SSE `data:` payload yields when read as an OpenAI chat chunk:
/// `choices[0].delta.content` and `choices[0].finish_reason`, each absent
/// when the payload is not JSON, has no first choice, or lacks the field.
pub uninterp spec fn sse_chunk_fields(s: Seq<char>) -> (Option<Seq<char>>, Option<Seq<char>>);

/// Relies on `serde_json`: parses the payload and reads the two fields of
/// `choices[0]` that the bridge consumes; the result depends on the
/// payload text alone.
#[verifier::external_body]
fn parse_chunk_fields(s: &str) -> (r: (Option<String>, Option<String>))
    ensures
        r.0.deep_view() == sse_chunk_fields(s@).0,
        r.1.deep_view() == sse_chunk_fields(s@).1,
{
    match serde_json::from_str::<serde_json::Value>(s) {
        Ok(v) => match v.get("choices").and_then(|c| c.get(0)) {
            Some(ch) => (
                ch.get("delta")
                    .and_then(|d| d.get("content"))
                    .and_then(|t| t.as_str())
                    .map(|t| t.to_string()),
                ch.get("finish_reason").and_then(|f| f.as_str()).map(|f| f.to_string()),
            ),
            None => (None, None),
        },
        Err(..) => (None, None),
    }
}

/// The finish-reason mapping of the OpenAI dialect: `stop`, `length`,
/// `content_filter` and `tool_calls` map to their canonical reasons, any
/// other present string maps to `Other`, and absence stays absent.
pub open spec fn map_finish_spec(s: Option<Seq<char>>) -> Option<StopReason> {
    match s {
        Some(t) => Some(
            if t == "stop"@ {
                StopReason::Stop
            } else if t == "length"@ {
                StopReason::Length
            } else if t == "content_filter"@ {
                StopReason::ContentFilter
            } else if t == "tool_calls"@ {
                StopReason::ToolUse
            } else {
                StopReason::Other
            },
        ),
        None => None,
    }
}

/// Maps an OpenAI-dialect finish reason to the canonical stop reason.
pub fn map_finish(s: Option<&str>) -> (r: Option<StopReason>)
    ensures
        r == map_finish_spec(s.deep_view()),
{
    match s {
        None => None,
        Some(t) => {
            let o = t.to_owned();
            let r = if o.eq(&"stop".to_owned()) {
                StopReason::Stop
            } else if o.eq(&"length".to_owned()) {
                StopReason::Length
            } else if o.eq(&"content_filter".to_owned()) {
                StopReason::ContentFilter
            } else if o.eq(&"tool_calls".to_owned()) {
                StopReason::ToolUse
            } else {
                StopReason::Other
            };
            Some(r)
        },
    }
}

/// The view of a list of stream events.
pub open spec fn events_view(s: Seq<StreamEvent>) -> Seq<EventV> {
    s.map_values(|e: StreamEvent| e@)
}

proof fn lemma_events_view_push(a: Seq<StreamEvent>, ev: StreamEvent)
    ensures
        events_view(a.push(ev)) == events_view(a).push(ev@),
{
    assert(events_view(a.push(ev)) =~= events_view(a).push(ev@));
}

/// Whether the trimmed line is the OpenAI stream terminator.
pub open spec fn done_sentinel(l: Seq<char>) -> bool {
    trim_ws(l) == "data: [DONE]"@
}

/// The JSON payload of a `data:` line (with or without a space after the
/// colon), absent for comments, `event:` lines, blanks and anything else.
pub open spec fn data_payload(l: Seq<char>) -> Option<Seq<char>> {
    let t = trim_ws(l);
    if t.len() >= 5 && t.take(5) == "data:"@ {
        Some(trim_start(t.skip(5)))
    } else {
        None
    }
}

/// The canonical events one upstream line produces: the terminator yields
/// the synthesized `Stop`; a data payload yields its text delta and, when
/// a finish reason is present, one `Stop`; every other line yields
/// nothing.
pub open spec fn line_events(l: Seq<char>) -> Seq<EventV> {
    if done_sentinel(l) {
        seq![EventV::Stop { reason: None }]
    } else {
        match data_payload(l) {
            None => Seq::empty(),
            Some(p) => if p.len() == 0 {
                Seq::empty()
            } else {
                let f = sse_chunk_fields(p);
                (match f.0 {
                    Some(d) => seq![EventV::DeltaText(d)],
                    None => Seq::empty(),
                }) + (match f.1 {
                    Some(fr) => seq![EventV::Stop { reason: map_finish_spec(Some(fr)) }],
                    None => Seq::empty(),
                })
            },
        }
    }
}

/// Whether the line ends the stream: the terminator, or a payload with a
/// finish reason.
pub open spec fn line_terminates(l: Seq<char>) -> bool {
    if done_sentinel(l) {
        true
    } else {
        match data_payload(l) {
            None => false,
            Some(p) => p.len() > 0 && sse_chunk_fields(p).1 is Some,
        }
    }
}

/// The full event stream of one stream lifetime: the lines are consumed
/// in order until one terminates the stream or fails; a stream that ends
/// without a finish reason is closed with a synthesized `Stop`.
pub open spec fn bridge_run(lines: Seq<Result<Seq<char>, ErrorV>>) -> Seq<EventV>
    decreases lines.len(),
{
    if lines.len() == 0 {
        seq![EventV::Stop { reason: None }]
    } else {
        match lines[0] {
            Err(e) => seq![EventV::Error(e)],
            Ok(l) => if line_terminates(l) {
                line_events(l)
            } else {
                line_events(l) + bridge_run(lines.skip(1))
            },
        }
    }
}

/// The view of a list of line results.
pub open spec fn lines_view(s: Seq<Result<String, AiProxyError>>) -> Seq<
    Result<Seq<char>, ErrorV>,
> {
    s.map_values(
        |r: Result<String, AiProxyError>|
            match r {
                Ok(l) => Ok(l@),
                Err(e) => Err(e@),
            },
    )
}

/// Every stream lifetime delivers exactly one terminal event, as its last
/// event: whatever lines arrive, the bridge emits zero or more
/// non-terminal events followed by one `Stop` or `Error` and nothing
/// after it.
pub proof fn lemma_bridge_exactly_one_terminal(lines: Seq<Result<Seq<char>, ErrorV>>)
    ensures
        bridge_run(lines).len() >= 1,
        is_terminal_v(bridge_run(lines)[bridge_run(lines).len() - 1]),
        forall|i: int|
            0 <= i < bridge_run(lines).len() - 1 ==> !is_terminal_v(#[trigger] bridge_run(lines)[i]),
    decreases lines.len(),
{
    let evs = bridge_run(lines);
    if lines.len() == 0 {
    } else {
        match lines[0] {
            Err(e) => {
            },
            Ok(l) => {
                let le = line_events(l);
                if done_sentinel(l) {
                } else {
                    match data_payload(l) {
                        None => {
                            assert(le =~= Seq::<EventV>::empty());
                        },
                        Some(p) => {
                            if p.len() == 0 {
                                assert(le =~= Seq::<EventV>::empty());
                            }
                        },
                    }
                }
                if line_terminates(l) {
                    // The line's own events end with the one Stop.
                    assert(!done_sentinel(l) ==> (data_payload(l) matches Some(p) && p.len() > 0
                        && sse_chunk_fields(p).1 is Some));
                } else {
                    lemma_bridge_exactly_one_terminal(lines.skip(1));
                    let rest = bridge_run(lines.skip(1));
                    assert(evs == le + rest);
                    assert(evs[evs.len() - 1] == rest[rest.len() - 1]);
                    assert forall|i: int| 0 <= i < evs.len() - 1 implies !is_terminal_v(
                        #[trigger] evs[i],
                    ) by {
                        if i < le.len() {
                            assert(evs[i] == le[i]);
                        } else {
                            assert(evs[i] == rest[i - le.len()]);
                        }
                    }
                }
            },
        }
    }
}

/// Consumes the raw SSE lines of one stream and emits the canonical
/// events, at most one of them terminal. The flag `done` is set once the
/// terminal event has been produced; later lines are ignored.
pub struct SseBridge {
    pub done: bool,
}

impl SseBridge {
    /// A fresh bridge: no terminal event produced yet.
    pub fn new() -> (r: Self)
        ensures
            !r.done,
    {
        SseBridge { done: false }
    }

    /// Feeds one upstream line, appending the canonical events it
    /// produces. After the terminal event, lines are ignored.
    pub fn on_line(&mut self, line: &str, out: &mut Vec<StreamEvent>)
        ensures
            old(self).done ==> final(self).done && final(out)@ == old(out)@,
            !old(self).done ==> events_view(final(out)@) == events_view(old(out)@) + line_events(
                line@,
            ) && final(self).done == line_terminates(line@),
    {
        if self.done {
            return;
        }
        let chars = str_to_chars(line);
        let t = trim_exec(&chars);
        let ts = chars_to_string(&t);
        if ts.eq(&"data: [DONE]".to_owned()) {
            let ghost before = out@;
            out.push(StreamEvent::Stop { reason: None });
            self.done = true;
            proof {
                lemma_events_view_push(before, StreamEvent::Stop { reason: None });
                assert(events_view(before).push(EventV::Stop { reason: None }) =~= events_view(
                    before,
                ) + line_events(line@));
            }
            return;
        }
        let is_data = t.len() >= 5 && t[0] == 'd' && t[1] == 'a' && t[2] == 't' && t[3] == 'a'
            && t[4] == ':';
        proof {
            reveal_strlit("data:");
            if is_data {
                assert(t@.take(5) =~= "data:"@);
            } else if t@.len() >= 5 {
                assert(t@.take(5)[0] == t@[0] && t@.take(5)[1] == t@[1] && t@.take(5)[2] == t@[2]
                    && t@.take(5)[3] == t@[3] && t@.take(5)[4] == t@[4]);
                assert(t@.take(5) != "data:"@);
            }
        }
        if !is_data {
            proof {
                assert(events_view(out@) + line_events(line@) =~= events_view(out@));
            }
            return;
        }
        let mut after: Vec<char> = Vec::new();
        let mut i: usize = 5;
        while i < t.len()
            invariant
                5 <= i <= t@.len(),
                after@ == t@.subrange(5, i as int),
            decreases t@.len() - i,
        {
            after.push(t[i]);
            i = i + 1;
            assert(t@.subrange(5, i as int) =~= t@.subrange(5, i - 1).push(t@[i - 1]));
        }
        proof {
            assert(t@.subrange(5, t@.len() as int) =~= t@.skip(5));
        }
        let payload = trim_start_exec(&after);
        if payload.len() == 0 {
            proof {
                assert(events_view(out@) + line_events(line@) =~= events_view(out@));
            }
            return;
        }
        let ps = chars_to_string(&payload);
        let fields = parse_chunk_fields(ps.as_str());
        let ghost before = out@;
        let ghost fv = sse_chunk_fields(ps@);
        match fields.0 {
            Some(d) => {
                let ghost ev = StreamEvent::DeltaText(d);
                out.push(StreamEvent::DeltaText(d));
                proof {
                    lemma_events_view_push(before, ev);
                }
            },
            None => (),
        }
        let ghost mid = out@;
        match fields.1 {
            Some(f) => {
                let reason = map_finish(Some(f.as_str()));
                let ghost ev = StreamEvent::Stop { reason };
                out.push(StreamEvent::Stop { reason });
                self.done = true;
                proof {
                    lemma_events_view_push(mid, ev);
                }
            },
            None => (),
        }
        proof {
            assert(events_view(out@) =~= events_view(before) + line_events(line@));
        }
    }

    /// Forwards a transport error as the stream's terminal event. After
    /// the terminal event, errors are ignored.
    pub fn on_error(&mut self, e: AiProxyError, out: &mut Vec<StreamEvent>)
        ensures
            old(self).done ==> final(self).done && final(out)@ == old(out)@,
            !old(self).done ==> events_view(final(out)@) == events_view(old(out)@).push(
                EventV::Error(e@),
            ) && final(self).done,
    {
        if self.done {
            return;
        }
        let ghost before = out@;
        let ghost ev_v = e@;
        let ev = StreamEvent::Error(e);
        out.push(ev);
        self.done = true;
        proof {
            assert(events_view(out@) =~= events_view(before).push(EventV::Error(ev_v)));
        }
    }

    /// Closes the stream: when no terminal event was produced, a `Stop`
    /// without a reason is synthesized.
    pub fn on_end(&mut self, out: &mut Vec<StreamEvent>)
        ensures
            old(self).done ==> final(self).done && final(out)@ == old(out)@,
            !old(self).done ==> events_view(final(out)@) == events_view(old(out)@).push(
                EventV::Stop { reason: None },
            ) && final(self).done,
    {
        if self.done {
            return;
        }
        let ghost before = out@;
        out.push(StreamEvent::Stop { reason: None });
        self.done = true;
        proof {
            assert(events_view(out@) =~= events_view(before).push(EventV::Stop { reason: None }));
        }
    }
}

/// Runs the bridge over a complete list of line results, as the stream
/// task does line by line: the returned events are exactly one stream
/// lifetime's worth, ending in its single terminal event.
pub fn run_bridge(lines: Vec<Result<String, AiProxyError>>) -> (out: Vec<StreamEvent>)
    ensures
        events_view(out@) == bridge_run(lines_view(lines@)),
{
    let ghost orig = lines_view(lines@);
    let mut rem = lines;
    let mut out: Vec<StreamEvent> = Vec::new();
    let mut b = SseBridge::new();
    proof {
        assert(events_view(out@) =~= Seq::<EventV>::empty());
    }
    while rem.len() > 0
        invariant
            !b.done,
            orig == lines_view(lines@),
            bridge_run(orig) == events_view(out@) + bridge_run(lines_view(rem@)),
        decreases rem@.len(),
    {
        let ghost lv = lines_view(rem@);
        let item = rem.remove(0);
        proof {
            assert(lv[0] == (match item {
                Ok(l) => Ok::<Seq<char>, ErrorV>(l@),
                Err(e) => Err::<Seq<char>, ErrorV>(e@),
            }));
            assert(lines_view(rem@) =~= lv.skip(1));
        }
        match item {
            Ok(l) => {
                let ghost before = out@;
                b.on_line(l.as_str(), &mut out);
                if b.done {
                    proof {
                        assert(bridge_run(lv) == line_events(l@));
                        assert(events_view(before) + bridge_run(lv) =~= events_view(out@));
                    }
                    return out;
                }
                proof {
                    assert(bridge_run(lv) == line_events(l@) + bridge_run(lv.skip(1)));
                    assert(events_view(before) + (line_events(l@) + bridge_run(lv.skip(1)))
                        =~= events_view(out@) + bridge_run(lines_view(rem@)));
                }
            },
            Err(e) => {
                let ghost before = out@;
                let ghost ev_v = e@;
                b.on_error(e, &mut out);
                proof {
                    assert(bridge_run(lv) == seq![EventV::Error(ev_v)]);
                    assert(events_view(before) + bridge_run(lv) =~= events_view(out@));
                }
                return out;
            },
        }
    }
    proof {
        assert(lines_view(rem@).len() == 0);
        assert(bridge_run(lines_view(rem@)) == seq![EventV::Stop { reason: None }]);
    }
    let ghost before = out@;
    b.on_end(&mut out);
    proof {
        assert(events_view(before) + seq![EventV::Stop { reason: None }] =~= events_view(out@));
    }
    out
}

} // verus!
