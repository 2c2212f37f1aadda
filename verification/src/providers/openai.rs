//! The OpenAI-compatible adapter: chat completions, embeddings and the
//! streaming variant, against `<base>/v1/chat/completions` and
//! `<base>/v1/embeddings` with bearer authentication.

use vstd::prelude::*;

verus! {

use crate::model::{
    ChatMessage, ChatRequest, ChatResponse, ChatResponseV, EmbedRequest, EmbedResponse,
    clone_messages,
};
use crate::provider::{Capability, ProviderCaps};
use crate::provider_factory::SecretKey;
use crate::sse::{map_finish_spec, map_finish};
use crate::text::{concat2, clone_opt_string, clone_string_vec};
use crate::transport::pairs_view;

/// The adapter for OpenAI's API, also used (re-based) for compatible
/// vendors.
pub struct OpenAI {
    pub base: String,
    pub org: Option<String>,
    pub project: Option<String>,
    pub name: String,
    pub api_key: SecretKey,
}

/// The headers an OpenAI call carries: bearer authentication, and the
/// organization and project identifiers when configured.
pub open spec fn openai_headers_spec(
    key: Seq<char>,
    org: Option<Seq<char>>,
    project: Option<Seq<char>>,
) -> Seq<(Seq<char>, Seq<char>)> {
    seq![("Authorization"@, "Bearer "@ + key)] + (match org {
        Some(o) => seq![("OpenAI-Organization"@, o)],
        None => Seq::empty(),
    }) + (match project {
        Some(p) => seq![("OpenAI-Project"@, p)],
        None => Seq::empty(),
    })
}

/// The outbound chat payload in OpenAI's dialect. Absent options are
/// omitted from the wire form.
pub struct OaChatPayload {
    pub model: String,
    pub messages: Vec<ChatMessage>,
    pub temperature_milli: Option<u32>,
    pub top_p_e4: Option<u32>,
    pub max_tokens: Option<u32>,
    pub stop: Option<Vec<String>>,
    pub stream: Option<bool>,
}

/// One inbound chat choice: the assistant message and the finish reason.
pub struct OaChoiceWire {
    pub message: ChatMessage,
    pub finish_reason: Option<String>,
}

/// Inbound token usage.
pub struct OaUsageWire {
    pub prompt_tokens: u32,
    pub completion_tokens: u32,
}

/// The inbound chat response body, reduced to the fields the adapter
/// reads.
pub struct OaChatRespWire {
    pub id: String,
    pub choices: Vec<OaChoiceWire>,
    pub usage: Option<OaUsageWire>,
}

/// The outbound embedding payload.
pub struct OaEmbedPayload {
    pub model: String,
    pub input: Vec<String>,
}

/// The inbound embedding response: one vector per input, components as
/// 32-bit float bit patterns.
pub struct OaEmbedRespWire {
    pub data: Vec<Vec<u32>>,
}

impl OpenAI {
    /// An adapter for the given key, base URL and optional identifiers.
    pub fn new(api_key: SecretKey, base: String, org: Option<String>, project: Option<String>) -> (
        r: Self)
        ensures
            r.api_key@ == api_key@,
            r.base@ == base@,
            r.org == org,
            r.project == project,
            r.name@ == "openai"@,
    {
        OpenAI { base, org, project, name: "openai".to_owned(), api_key }
    }

    /// The vendor name of this adapter.
    pub fn name(&self) -> (r: String)
        ensures
            r@ == self.name@,
    {
        self.name.clone()
    }

    /// The request headers: bearer authentication plus the configured
    /// organization and project.
    pub fn headers(&self) -> (h: Vec<(String, String)>)
        ensures
            pairs_view(h@) == openai_headers_spec(
                self.api_key@,
                self.org.deep_view(),
                self.project.deep_view(),
            ),
    {
        let mut h: Vec<(String, String)> = Vec::new();
        let auth = concat2("Bearer ", self.api_key.expose());
        h.push(("Authorization".to_owned(), auth));
        match &self.org {
            Some(o) => {
                h.push(("OpenAI-Organization".to_owned(), o.clone()));
            },
            None => (),
        }
        match &self.project {
            Some(p) => {
                h.push(("OpenAI-Project".to_owned(), p.clone()));
            },
            None => (),
        }
        proof {
            assert(pairs_view(h@) =~= openai_headers_spec(
                self.api_key@,
                self.org.deep_view(),
                self.project.deep_view(),
            ));
        }
        h
    }

    /// The outbound chat payload for a canonical request, with the
    /// streaming flag as given.
    pub fn chat_payload(&self, req: &ChatRequest, stream: Option<bool>) -> (p: OaChatPayload)
        ensures
            p.model@ == req.model@,
            p.messages@ == req.messages@,
            p.temperature_milli == req.temperature_milli,
            p.top_p_e4 == req.top_p_e4,
            p.max_tokens == req.max_output_tokens,
            p.stop.deep_view() == req.stop_sequences.deep_view(),
            p.stream == stream,
    {
        let stop: Option<Vec<String>> = match &req.stop_sequences {
            Some(v) => Some(clone_string_vec(v)),
            None => None,
        };
        proof {
            if req.stop_sequences is Some {
                assert(stop->0.deep_view() =~= req.stop_sequences->0.deep_view());
            }
        }
        OaChatPayload {
            model: req.model.clone(),
            messages: clone_messages(&req.messages),
            temperature_milli: req.temperature_milli,
            top_p_e4: req.top_p_e4,
            max_tokens: req.max_output_tokens,
            stop,
            stream,
        }
    }

    /// The canonical response assembled from the wire body, the
    /// header-extracted provider request id (with the body id as
    /// fallback), the measured latency, and the caller's clock reading.
    pub fn chat_response(&self, req: &ChatRequest, wire: &OaChatRespWire, provider_id: Option<
        String,
    >, latency_ms: u32, now_ms: i64) -> (r: ChatResponse)
        ensures
            r@ == (ChatResponseV {
                model: req.model@,
                text: (if wire.choices@.len() > 0 {
                    wire.choices@[0].message.content@
                } else {
                    Seq::empty()
                }),
                usage_prompt: (match wire.usage {
                    Some(u) => u.prompt_tokens,
                    None => 0,
                }),
                usage_completion: (match wire.usage {
                    Some(u) => u.completion_tokens,
                    None => 0,
                }),
                cached: false,
                provider: self.name@,
                transcript_id: None,
                turn_id: (match req.request_id {
                    Some(rid) => rid@,
                    None => "turn"@,
                }),
                stop_reason: (if wire.choices@.len() > 0 {
                    map_finish_spec(wire.choices@[0].finish_reason.deep_view())
                } else {
                    None
                }),
                provider_request_id: (match provider_id {
                    Some(p) => Some(p@),
                    None => Some(wire.id@),
                }),
                created_at_ms: now_ms,
                latency_ms: latency_ms,
            }),
    {
        let text: String = if wire.choices.len() > 0 {
            wire.choices[0].message.content.clone()
        } else {
            String::new()
        };
        let stop_reason = if wire.choices.len() > 0 {
            match &wire.choices[0].finish_reason {
                Some(f) => map_finish(Some(f.as_str())),
                None => map_finish(None),
            }
        } else {
            None
        };
        let (usage_prompt, usage_completion): (u32, u32) = match &wire.usage {
            Some(u) => (u.prompt_tokens, u.completion_tokens),
            None => (0, 0),
        };
        let turn_id: String = match &req.request_id {
            Some(rid) => rid.clone(),
            None => "turn".to_owned(),
        };
        let provider_request_id: Option<String> = match provider_id {
            Some(p) => Some(p),
            None => Some(wire.id.clone()),
        };
        ChatResponse {
            model: req.model.clone(),
            text,
            usage_prompt,
            usage_completion,
            cached: false,
            provider: self.name.clone(),
            transcript_id: None,
            turn_id,
            stop_reason,
            provider_request_id,
            created_at_ms: now_ms,
            latency_ms,
        }
    }

    /// The outbound embedding payload: the model and the inputs in order.
    pub fn embed_payload(&self, req: &EmbedRequest) -> (p: OaEmbedPayload)
        ensures
            p.model@ == req.model@,
            p.input@ == req.inputs@,
    {
        OaEmbedPayload { model: req.model.clone(), input: clone_string_vec(&req.inputs) }
    }

    /// The canonical embedding response: the returned vectors in order.
    pub fn embed_response(&self, req: &EmbedRequest, wire: OaEmbedRespWire) -> (r: EmbedResponse)
        ensures
            r.model@ == req.model@,
            r.vectors == wire.data,
            r.usage == 0,
            !r.cached,
            r.provider@ == self.name@,
    {
        EmbedResponse {
            model: req.model.clone(),
            vectors: wire.data,
            usage: 0,
            cached: false,
            provider: self.name.clone(),
        }
    }
}

impl ProviderCaps for OpenAI {
    /// OpenAI advertises chat, streaming chat and embeddings.
    fn capabilities(&self) -> Vec<Capability> {
        let mut v: Vec<Capability> = Vec::new();
        v.push(Capability::Chat);
        v.push(Capability::ChatStream);
        v.push(Capability::Embed);
        v
    }
}

} // verus!
