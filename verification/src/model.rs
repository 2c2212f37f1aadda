//! Canonical, provider-agnostic request, response and role types shared by
//! every component.
//!
//! Sampling parameters are carried in fixed point so that clamping and
//! rounding are exact: `temperature_milli` holds thousandths (three
//! decimals), `top_p_e4` holds ten-thousandths (four decimals). Embedding
//! vector components are carried as the bit patterns of 32-bit IEEE-754
//! floats; the embedding application converts at its edge.

use vstd::prelude::*;

verus! {

/// Who authored a chat message.
#[derive(Debug, Clone, Copy, PartialEq, Eq, Structural)]
pub enum Role {
    System,
    User,
    Assistant,
    Tool,
}

/// Why a completion stopped.
#[derive(Debug, Clone, Copy, PartialEq, Eq, Structural)]
pub enum StopReason {
    Stop,
    Length,
    ToolUse,
    EndTurn,
    ContentFilter,
    Other,
}

/// One turn of a conversation.
#[derive(Debug, Clone, PartialEq)]
pub struct ChatMessage {
    pub role: Role,
    pub content: String,
}

/// A normalized chat-completion request.
#[derive(Debug, Clone, PartialEq)]
pub struct ChatRequest {
    pub model: String,
    pub messages: Vec<ChatMessage>,
    /// Sampling temperature in thousandths; `Some(1000)` means 1.0.
    pub temperature_milli: Option<u32>,
    /// Nucleus sampling parameter in ten-thousandths; `Some(10000)` means 1.0.
    pub top_p_e4: Option<u32>,
    /// Free-form caller metadata, carried as raw JSON text.
    pub metadata: Option<String>,
    pub client_key: Option<String>,
    pub request_id: Option<String>,
    pub trace_id: Option<String>,
    pub idempotency_key: Option<String>,
    pub max_output_tokens: Option<u32>,
    pub stop_sequences: Option<Vec<String>>,
}

/// A normalized chat-completion response.
#[derive(Debug, Clone, PartialEq)]
pub struct ChatResponse {
    pub model: String,
    pub text: String,
    pub usage_prompt: u32,
    pub usage_completion: u32,
    pub cached: bool,
    pub provider: String,
    pub transcript_id: Option<String>,
    pub turn_id: String,
    pub stop_reason: Option<StopReason>,
    pub provider_request_id: Option<String>,
    pub created_at_ms: i64,
    pub latency_ms: u32,
}

/// A normalized embedding request.
#[derive(Debug, Clone, PartialEq)]
pub struct EmbedRequest {
    pub model: String,
    pub inputs: Vec<String>,
    pub client_key: Option<String>,
}

/// A normalized embedding response. Each vector component is the bit
/// pattern of a 32-bit IEEE-754 float, in input order, one vector per
/// input.
#[derive(Debug, Clone, PartialEq)]
pub struct EmbedResponse {
    pub model: String,
    pub vectors: Vec<Vec<u32>>,
    pub usage: u32,
    pub cached: bool,
    pub provider: String,
}

/// A copy of the messages, element for element.
pub fn clone_messages(v: &Vec<ChatMessage>) -> (r: Vec<ChatMessage>)
    ensures
        r@ == v@,
{
    let mut r: Vec<ChatMessage> = Vec::new();
    let mut i: usize = 0;
    while i < v.len()
        invariant
            i <= v@.len(),
            r@ == v@.take(i as int),
        decreases v@.len() - i,
    {
        r.push(ChatMessage { role: v[i].role, content: v[i].content.clone() });
        i = i + 1;
        assert(v@.take(i as int) =~= v@.take(i - 1).push(v@[i - 1]));
    }
    proof {
        assert(v@.take(v@.len() as int) =~= v@);
    }
    r
}

/// The mathematical value of a chat response: every text field as its
/// character sequence.
pub struct ChatResponseV {
    pub model: Seq<char>,
    pub text: Seq<char>,
    pub usage_prompt: u32,
    pub usage_completion: u32,
    pub cached: bool,
    pub provider: Seq<char>,
    pub transcript_id: Option<Seq<char>>,
    pub turn_id: Seq<char>,
    pub stop_reason: Option<StopReason>,
    pub provider_request_id: Option<Seq<char>>,
    pub created_at_ms: i64,
    pub latency_ms: u32,
}

impl View for ChatResponse {
    type V = ChatResponseV;

    open spec fn view(&self) -> ChatResponseV {
        ChatResponseV {
            model: self.model@,
            text: self.text@,
            usage_prompt: self.usage_prompt,
            usage_completion: self.usage_completion,
            cached: self.cached,
            provider: self.provider@,
            transcript_id: self.transcript_id.deep_view(),
            turn_id: self.turn_id@,
            stop_reason: self.stop_reason,
            provider_request_id: self.provider_request_id.deep_view(),
            created_at_ms: self.created_at_ms,
            latency_ms: self.latency_ms,
        }
    }
}

/// The lower-case wire spelling of each role.
pub open spec fn role_wire_spec(r: Role) -> Seq<char> {
    match r {
        Role::System => seq!['s', 'y', 's', 't', 'e', 'm'],
        Role::User => seq!['u', 's', 'e', 'r'],
        Role::Assistant => seq!['a', 's', 's', 'i', 's', 't', 'a', 'n', 't'],
        Role::Tool => seq!['t', 'o', 'o', 'l'],
    }
}

impl Role {
    /// The lower-case name this role takes on the wire.
    pub fn wire_name(&self) -> (r: String)
        ensures
            r@ == role_wire_spec(*self),
    {
        proof {
            reveal_strlit("system");
            reveal_strlit("user");
            reveal_strlit("assistant");
            reveal_strlit("tool");
        }
        match self {
            Role::System => {
                let s = "system".to_owned();
                proof {
                    assert(s@ =~= role_wire_spec(Role::System));
                }
                s
            },
            Role::User => {
                let s = "user".to_owned();
                proof {
                    assert(s@ =~= role_wire_spec(Role::User));
                }
                s
            },
            Role::Assistant => {
                let s = "assistant".to_owned();
                proof {
                    assert(s@ =~= role_wire_spec(Role::Assistant));
                }
                s
            },
            Role::Tool => {
                let s = "tool".to_owned();
                proof {
                    assert(s@ =~= role_wire_spec(Role::Tool));
                }
                s
            },
        }
    }
}

/// The snake-case wire spelling of each stop reason.
pub open spec fn stop_reason_wire_spec(r: StopReason) -> Seq<char> {
    match r {
        StopReason::Stop => seq!['s', 't', 'o', 'p'],
        StopReason::Length => seq!['l', 'e', 'n', 'g', 't', 'h'],
        StopReason::ToolUse => seq!['t', 'o', 'o', 'l', '_', 'u', 's', 'e'],
        StopReason::EndTurn => seq!['e', 'n', 'd', '_', 't', 'u', 'r', 'n'],
        StopReason::ContentFilter => seq![
            'c', 'o', 'n', 't', 'e', 'n', 't', '_', 'f', 'i', 'l', 't', 'e', 'r',
        ],
        StopReason::Other => seq!['o', 't', 'h', 'e', 'r'],
    }
}

impl StopReason {
    /// The snake-case name this stop reason takes on the wire.
    pub fn wire_name(&self) -> (r: String)
        ensures
            r@ == stop_reason_wire_spec(*self),
    {
        proof {
            reveal_strlit("stop");
            reveal_strlit("length");
            reveal_strlit("tool_use");
            reveal_strlit("end_turn");
            reveal_strlit("content_filter");
            reveal_strlit("other");
        }
        match self {
            StopReason::Stop => {
                let s = "stop".to_owned();
                proof {
                    assert(s@ =~= stop_reason_wire_spec(StopReason::Stop));
                }
                s
            },
            StopReason::Length => {
                let s = "length".to_owned();
                proof {
                    assert(s@ =~= stop_reason_wire_spec(StopReason::Length));
                }
                s
            },
            StopReason::ToolUse => {
                let s = "tool_use".to_owned();
                proof {
                    assert(s@ =~= stop_reason_wire_spec(StopReason::ToolUse));
                }
                s
            },
            StopReason::EndTurn => {
                let s = "end_turn".to_owned();
                proof {
                    assert(s@ =~= stop_reason_wire_spec(StopReason::EndTurn));
                }
                s
            },
            StopReason::ContentFilter => {
                let s = "content_filter".to_owned();
                proof {
                    assert(s@ =~= stop_reason_wire_spec(StopReason::ContentFilter));
                }
                s
            },
            StopReason::Other => {
                let s = "other".to_owned();
                proof {
                    assert(s@ =~= stop_reason_wire_spec(StopReason::Other));
                }
                s
            },
        }
    }
}

/// Distinct roles have distinct wire names, so the lower-case encoding
/// of `Role` round-trips.
pub proof fn lemma_role_wire_injective(a: Role, b: Role)
    requires
        role_wire_spec(a) == role_wire_spec(b),
    ensures
        a == b,
{
    if a != b {
        assert(role_wire_spec(a).len() != role_wire_spec(b).len()
            || role_wire_spec(a)[0] != role_wire_spec(b)[0]
            || role_wire_spec(a)[1] != role_wire_spec(b)[1]);
    }
}

/// Distinct stop reasons have distinct wire names, so the snake-case
/// encoding of `StopReason` round-trips.
pub proof fn lemma_stop_reason_wire_injective(a: StopReason, b: StopReason)
    requires
        stop_reason_wire_spec(a) == stop_reason_wire_spec(b),
    ensures
        a == b,
{
    if a != b {
        assert(stop_reason_wire_spec(a).len() != stop_reason_wire_spec(b).len()
            || stop_reason_wire_spec(a)[0] != stop_reason_wire_spec(b)[0]
            || stop_reason_wire_spec(a)[1] != stop_reason_wire_spec(b)[1]);
    }
}

} // verus!
