//! The canonical streaming event model.
//!
//! A stream delivers zero or more non-terminal events (`DeltaText`,
//! `Usage`) followed by exactly one terminal event (`Stop`, `Final` or
//! `Error`); nothing follows the terminal. The bridge in `sse` upholds
//! this.

use vstd::prelude::*;

verus! {

use crate::error::{AiProxyError, ErrorV};
use crate::model::{ChatResponse, ChatResponseV, StopReason};

/// What the consumer of a stream receives incrementally.
#[non_exhaustive]
#[derive(Debug)]
pub enum StreamEvent {
    /// Partial assistant text.
    DeltaText(String),
    /// Optional token usage updates mid-stream.
    Usage { prompt: Option<u32>, completion: Option<u32> },
    /// The provider decided to stop, with its reason when known.
    Stop { reason: Option<StopReason> },
    /// Final synthesized response.
    Final(ChatResponse),
    /// Transport or parse error surfaced mid-stream; the stream ends here.
    Error(AiProxyError),
}

/// The mathematical value of a stream event.
pub enum EventV {
    DeltaText(Seq<char>),
    Usage { prompt: Option<u32>, completion: Option<u32> },
    Stop { reason: Option<StopReason> },
    Final(ChatResponseV),
    Error(ErrorV),
}

impl View for StreamEvent {
    type V = EventV;

    open spec fn view(&self) -> EventV {
        match self {
            StreamEvent::DeltaText(s) => EventV::DeltaText(s@),
            StreamEvent::Usage { prompt, completion } => EventV::Usage {
                prompt: *prompt,
                completion: *completion,
            },
            StreamEvent::Stop { reason } => EventV::Stop { reason: *reason },
            StreamEvent::Final(r) => EventV::Final(r@),
            StreamEvent::Error(e) => EventV::Error(e@),
        }
    }
}

impl DeepView for StreamEvent {
    type V = EventV;

    open spec fn deep_view(&self) -> EventV {
        self.view()
    }
}

/// Whether an event ends the stream.
pub open spec fn is_terminal_v(e: EventV) -> bool {
    match e {
        EventV::Stop { .. } => true,
        EventV::Final(..) => true,
        EventV::Error(..) => true,
        _ => false,
    }
}

impl StreamEvent {
    /// True exactly for the events that end the stream: `Stop`, `Final`
    /// and `Error`.
    pub fn is_terminal(&self) -> (r: bool)
        ensures
            r == is_terminal_v(self@),
    {
        matches!(self, StreamEvent::Stop { .. } | StreamEvent::Final(..) | StreamEvent::Error(..))
    }

    /// The text of a `DeltaText` event, absent for every other event.
    pub fn as_text_delta(&self) -> (r: Option<&str>)
        ensures
            (match self@ {
                EventV::DeltaText(s) => r matches Some(t) && t@ == s,
                _ => r is None,
            }),
    {
        match self {
            StreamEvent::DeltaText(s) => Some(s.as_str()),
            _ => None,
        }
    }
}

} // verus!
