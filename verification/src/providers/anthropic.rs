//! The Anthropic Messages adapter: chat only, against
//! `<base>/v1/messages` with key-header authentication. System messages
//! are joined into the top-level system field; tool messages are dropped.

use vstd::prelude::*;

verus! {

use crate::error::{AiProxyError, CoreResult};
use crate::model::{
    ChatMessage, ChatRequest, ChatResponse, ChatResponseV, EmbedRequest, EmbedResponse, Role,
    StopReason,
};
use crate::provider::{Capability, ProviderCaps};
use crate::provider_factory::SecretKey;
use crate::telemetry::{CompletionLog, CompletionLogV, empty_log_v};
use crate::transport::pairs_view;

/// The adapter for Anthropic's Messages API.
pub struct Anthropic {
    pub api_key: SecretKey,
    pub base: String,
    pub name: String,
}

/// The stop-reason mapping of the Messages API: `end_turn`,
/// `max_tokens`, `tool_use` and `stop_sequence` map to their canonical
/// reasons; anything else is treated as absent.
pub open spec fn anthropic_stop_spec(s: Option<Seq<char>>) -> Option<StopReason> {
    match s {
        Some(t) => if t == "end_turn"@ {
            Some(StopReason::EndTurn)
        } else if t == "max_tokens"@ {
            Some(StopReason::Length)
        } else if t == "tool_use"@ {
            Some(StopReason::ToolUse)
        } else if t == "stop_sequence"@ {
            Some(StopReason::Stop)
        } else {
            None
        },
        None => None,
    }
}

/// The contents of the request's system messages, in order.
pub open spec fn system_parts(msgs: Seq<ChatMessage>) -> Seq<Seq<char>>
    decreases msgs.len(),
{
    if msgs.len() == 0 {
        Seq::empty()
    } else {
        (if msgs[0].role == Role::System {
            seq![msgs[0].content@]
        } else {
            Seq::empty()
        }) + system_parts(msgs.skip(1))
    }
}

/// The parts joined with a newline between them.
pub open spec fn join_nl(parts: Seq<Seq<char>>) -> Seq<char>
    decreases parts.len(),
{
    if parts.len() == 0 {
        Seq::empty()
    } else if parts.len() == 1 {
        parts[0]
    } else {
        parts[0] + seq!['\n'] + join_nl(parts.skip(1))
    }
}

/// The user and assistant messages, as (wire role, content) pairs in
/// order; system and tool messages are left out.
pub open spec fn user_assistant_msgs(msgs: Seq<ChatMessage>) -> Seq<(Seq<char>, Seq<char>)>
    decreases msgs.len(),
{
    if msgs.len() == 0 {
        Seq::empty()
    } else {
        (match msgs[0].role {
            Role::User => seq![("user"@, msgs[0].content@)],
            Role::Assistant => seq![("assistant"@, msgs[0].content@)],
            _ => Seq::empty(),
        }) + user_assistant_msgs(msgs.skip(1))
    }
}

/// One outbound message: the wire role and the text of its single
/// content block.
pub struct AWireMsg {
    pub role: String,
    pub text: String,
}

/// The view of the outbound messages as (role, text) pairs.
pub open spec fn awire_view(s: Seq<AWireMsg>) -> Seq<(Seq<char>, Seq<char>)> {
    s.map_values(|m: AWireMsg| (m.role@, m.text@))
}

/// The outbound Messages payload.
pub struct AnthropicPayload {
    pub model: String,
    pub system: Option<String>,
    pub messages: Vec<AWireMsg>,
    pub max_tokens: u32,
    pub temperature_milli: Option<u32>,
    pub top_p_e4: Option<u32>,
}

/// The inbound Messages response, reduced to the fields the adapter
/// reads: the content block texts in order, the stop reason, and usage.
pub struct AnthropicRespWire {
    pub id: String,
    pub content: Vec<Option<String>>,
    pub stop_reason: Option<String>,
    pub input_tokens: Option<u32>,
    pub output_tokens: Option<u32>,
}

/// The first present content-block text, or empty.
pub open spec fn first_text(c: Seq<Option<Seq<char>>>) -> Seq<char>
    decreases c.len(),
{
    if c.len() == 0 {
        Seq::empty()
    } else {
        match c[0] {
            Some(t) => t,
            None => first_text(c.skip(1)),
        }
    }
}

proof fn lemma_join_nl_push(parts: Seq<Seq<char>>, x: Seq<char>)
    ensures
        join_nl(parts.push(x)) == (if parts.len() == 0 {
            x
        } else {
            join_nl(parts) + seq!['\n'] + x
        }),
    decreases parts.len(),
{
    let p = parts.push(x);
    if parts.len() == 0 {
        assert(p.len() == 1);
        assert(p[0] == x);
    } else {
        lemma_join_nl_push(parts.skip(1), x);
        assert(p.skip(1) =~= parts.skip(1).push(x));
        assert(p[0] == parts[0]);
        if parts.len() == 1 {
            assert(parts.skip(1).len() == 0);
            assert(join_nl(p) == p[0] + seq!['\n'] + join_nl(p.skip(1)));
            assert(join_nl(parts) == parts[0]);
        } else {
            assert(join_nl(p) == p[0] + seq!['\n'] + join_nl(p.skip(1)));
            assert(join_nl(parts) == parts[0] + seq!['\n'] + join_nl(parts.skip(1)));
            assert(parts[0] + seq!['\n'] + (join_nl(parts.skip(1)) + seq!['\n'] + x) =~= (parts[0]
                + seq!['\n'] + join_nl(parts.skip(1))) + seq!['\n'] + x);
        }
    }
}

impl Anthropic {
    /// An adapter for the given key and base URL.
    pub fn new(api_key: SecretKey, base: String) -> (r: Self)
        ensures
            r.api_key@ == api_key@,
            r.base@ == base@,
            r.name@ == "anthropic"@,
    {
        Anthropic { api_key, base, name: "anthropic".to_owned() }
    }

    /// The vendor name of this adapter.
    pub fn name(&self) -> (r: String)
        ensures
            r@ == self.name@,
    {
        self.name.clone()
    }

    /// The request headers: the key header and the pinned API version.
    pub fn headers(&self) -> (h: Vec<(String, String)>)
        ensures
            pairs_view(h@) == seq![
                ("x-api-key"@, self.api_key@),
                ("anthropic-version"@, "2023-06-01"@),
            ],
    {
        let mut h: Vec<(String, String)> = Vec::new();
        h.push(("x-api-key".to_owned(), self.api_key.expose().to_owned()));
        h.push(("anthropic-version".to_owned(), "2023-06-01".to_owned()));
        proof {
            assert(pairs_view(h@) =~= seq![
                ("x-api-key"@, self.api_key@),
                ("anthropic-version"@, "2023-06-01"@),
            ]);
        }
        h
    }

    /// Maps a Messages stop reason to the canonical stop reason.
    pub fn map_stop(reason: Option<&str>) -> (r: Option<StopReason>)
        ensures
            r == anthropic_stop_spec(reason.deep_view()),
    {
        match reason {
            None => None,
            Some(t) => {
                let o = t.to_owned();
                if o.eq(&"end_turn".to_owned()) {
                    Some(StopReason::EndTurn)
                } else if o.eq(&"max_tokens".to_owned()) {
                    Some(StopReason::Length)
                } else if o.eq(&"tool_use".to_owned()) {
                    Some(StopReason::ToolUse)
                } else if o.eq(&"stop_sequence".to_owned()) {
                    Some(StopReason::Stop)
                } else {
                    None
                }
            },
        }
    }

    /// The outbound payload: system messages joined with newlines into
    /// the top-level system field (absent when there are none), user and
    /// assistant messages as single text blocks in order, tool messages
    /// dropped, and `max_tokens` defaulted to 1024 with a floor of one.
    pub fn chat_payload(&self, req: &ChatRequest) -> (p: AnthropicPayload)
        ensures
            p.model@ == req.model@,
            (if system_parts(req.messages@).len() == 0 {
                p.system is None
            } else {
                p.system matches Some(s) && s@ == join_nl(system_parts(req.messages@))
            }),
            awire_view(p.messages@) == user_assistant_msgs(req.messages@),
            p.max_tokens == (match req.max_output_tokens {
                Some(m) => if m >= 1 {
                    m
                } else {
                    1u32
                },
                None => 1024u32,
            }),
            p.temperature_milli == req.temperature_milli,
            p.top_p_e4 == req.top_p_e4,
    {
        let ghost all = req.messages@;
        let mut parts: Vec<String> = Vec::new();
        let mut wire: Vec<AWireMsg> = Vec::new();
        let mut i: usize = 0;
        proof {
            assert(all.skip(0) =~= all);
            assert(parts.deep_view() + system_parts(all) =~= system_parts(all));
            assert(awire_view(wire@) + user_assistant_msgs(all) =~= user_assistant_msgs(all));
        }
        while i < req.messages.len()
            invariant
                i <= all.len(),
                all == req.messages@,
                parts.deep_view() + system_parts(all.skip(i as int)) == system_parts(all),
                awire_view(wire@) + user_assistant_msgs(all.skip(i as int)) == user_assistant_msgs(
                    all,
                ),
            decreases all.len() - i,
        {
            let ghost rest = all.skip(i as int);
            proof {
                assert(rest[0] == all[i as int]);
                assert(rest.skip(1) =~= all.skip(i + 1));
            }
            match req.messages[i].role {
                Role::System => {
                    let ghost before = parts.deep_view();
                    parts.push(req.messages[i].content.clone());
                    proof {
                        assert(parts.deep_view() =~= before.push(all[i as int].content@)) by {
                            assert forall|k: int| 0 <= k < parts.deep_view().len() implies
                                #[trigger] parts.deep_view()[k] == parts@[k]@ by {}
                            assert(forall|k: int|
                                0 <= k < before.len() ==> #[trigger] before[k] == parts@[k]@);
                        }
                        assert(system_parts(rest) == seq![all[i as int].content@] + system_parts(
                            all.skip(i + 1),
                        ));
                        assert(before + (seq![all[i as int].content@] + system_parts(
                            all.skip(i + 1),
                        )) =~= parts.deep_view() + system_parts(all.skip(i + 1)));
                        assert(user_assistant_msgs(rest) == user_assistant_msgs(all.skip(i + 1)));
                    }
                },
                Role::User => {
                    let ghost before = awire_view(wire@);
                    wire.push(AWireMsg { role: "user".to_owned(), text: req.messages[i].content.clone() });
                    proof {
                        assert(awire_view(wire@) =~= before.push(("user"@, all[i as int].content@)));
                        assert(user_assistant_msgs(rest) == seq![("user"@, all[i as int].content@)]
                            + user_assistant_msgs(all.skip(i + 1)));
                        assert(before + (seq![("user"@, all[i as int].content@)]
                            + user_assistant_msgs(all.skip(i + 1))) =~= awire_view(wire@)
                            + user_assistant_msgs(all.skip(i + 1)));
                        assert(system_parts(rest) == system_parts(all.skip(i + 1)));
                    }
                },
                Role::Assistant => {
                    let ghost before = awire_view(wire@);
                    wire.push(
                        AWireMsg {
                            role: "assistant".to_owned(),
                            text: req.messages[i].content.clone(),
                        },
                    );
                    proof {
                        assert(awire_view(wire@) =~= before.push(
                            ("assistant"@, all[i as int].content@),
                        ));
                        assert(user_assistant_msgs(rest) == seq![
                            ("assistant"@, all[i as int].content@),
                        ] + user_assistant_msgs(all.skip(i + 1)));
                        assert(before + (seq![("assistant"@, all[i as int].content@)]
                            + user_assistant_msgs(all.skip(i + 1))) =~= awire_view(wire@)
                            + user_assistant_msgs(all.skip(i + 1)));
                        assert(system_parts(rest) == system_parts(all.skip(i + 1)));
                    }
                },
                Role::Tool => {
                    proof {
                        assert(system_parts(rest) == system_parts(all.skip(i + 1)));
                        assert(user_assistant_msgs(rest) == user_assistant_msgs(all.skip(i + 1)));
                    }
                },
            }
            i = i + 1;
        }
        proof {
            assert(all.skip(all.len() as int) =~= Seq::<ChatMessage>::empty());
            assert(parts.deep_view() + Seq::<Seq<char>>::empty() =~= parts.deep_view());
            assert(awire_view(wire@) + Seq::<(Seq<char>, Seq<char>)>::empty() =~= awire_view(
                wire@,
            ));
        }
        // Join the system parts with newlines.
        let system: Option<String> = if parts.len() == 0 {
            None
        } else {
            let mut joined: String = parts[0].clone();
            let mut k: usize = 1;
            proof {
                assert(parts.deep_view().take(1) =~= seq![parts.deep_view()[0]]);
                assert(join_nl(parts.deep_view().take(1)) == parts.deep_view()[0]);
            }
            while k < parts.len()
                invariant
                    1 <= k <= parts@.len(),
                    joined@ == join_nl(parts.deep_view().take(k as int)),
                decreases parts@.len() - k,
            {
                crate::text::push_char(&mut joined, '\n');
                joined.append(parts[k].as_str());
                proof {
                    let d = parts.deep_view();
                    assert(d.take(k + 1) =~= d.take(k as int).push(d[k as int]));
                    lemma_join_nl_push(d.take(k as int), d[k as int]);
                    assert(d[k as int] == parts@[k as int]@);
                }
                k = k + 1;
            }
            proof {
                assert(parts.deep_view().take(parts@.len() as int) =~= parts.deep_view());
            }
            Some(joined)
        };
        let max_tokens: u32 = match req.max_output_tokens {
            Some(m) => if m >= 1 {
                m
            } else {
                1
            },
            None => 1024,
        };
        AnthropicPayload {
            model: req.model.clone(),
            system,
            messages: wire,
            max_tokens,
            temperature_milli: req.temperature_milli,
            top_p_e4: req.top_p_e4,
        }
    }

    /// The canonical response assembled from the wire body: the first
    /// content-block text, the mapped stop reason, and usage defaulting
    /// to zero.
    pub fn chat_response(&self, req: &ChatRequest, wire: &AnthropicRespWire, provider_request_id:
        Option<String>, latency_ms: u32, started_ms: i64) -> (r: ChatResponse)
        ensures
            r@ == (ChatResponseV {
                model: req.model@,
                text: first_text(wire.content.deep_view()),
                usage_prompt: (match wire.input_tokens {
                    Some(t) => t,
                    None => 0,
                }),
                usage_completion: (match wire.output_tokens {
                    Some(t) => t,
                    None => 0,
                }),
                cached: false,
                provider: self.name@,
                transcript_id: None,
                turn_id: Seq::empty(),
                stop_reason: anthropic_stop_spec(wire.stop_reason.deep_view()),
                provider_request_id: provider_request_id.deep_view(),
                created_at_ms: started_ms,
                latency_ms: latency_ms,
            }),
    {
        let mut text: String = String::new();
        let mut i: usize = 0;
        let ghost cv = wire.content.deep_view();
        proof {
            assert(cv.skip(0) =~= cv);
        }
        let mut found: bool = false;
        while i < wire.content.len() && !found
            invariant
                i <= cv.len(),
                cv == wire.content.deep_view(),
                !found ==> text@ == Seq::<char>::empty() && first_text(cv) == first_text(
                    cv.skip(i as int),
                ),
                found ==> text@ == first_text(cv),
            decreases cv.len() - i,
        {
            proof {
                assert(cv.skip(i as int)[0] == cv[i as int]);
                assert(cv[i as int] == wire.content@[i as int].deep_view());
                assert(cv.skip(i as int).skip(1) =~= cv.skip(i + 1));
            }
            match &wire.content[i] {
                Some(t) => {
                    text = t.clone();
                    found = true;
                },
                None => (),
            }
            i = i + 1;
        }
        proof {
            if !found {
                assert(cv.skip(cv.len() as int) =~= Seq::<Option<Seq<char>>>::empty());
            }
        }
        let stop_reason = match &wire.stop_reason {
            Some(s) => Anthropic::map_stop(Some(s.as_str())),
            None => Anthropic::map_stop(None),
        };
        let (usage_prompt, usage_completion): (u32, u32) = (
            match wire.input_tokens {
                Some(t) => t,
                None => 0,
            },
            match wire.output_tokens {
                Some(t) => t,
                None => 0,
            },
        );
        ChatResponse {
            model: req.model.clone(),
            text,
            usage_prompt,
            usage_completion,
            cached: false,
            provider: self.name.clone(),
            transcript_id: None,
            turn_id: String::new(),
            stop_reason,
            provider_request_id,
            created_at_ms: started_ms,
            latency_ms,
        }
    }

    /// The structured completion event for a non-streaming response.
    pub fn completion_log(&self, resp: &ChatResponse) -> (l: CompletionLog)
        requires
            resp.created_at_ms >= 0,
        ensures
            l@ == (CompletionLogV {
                provider: Some(self.name@),
                model: Some(resp.model@),
                provider_request_id: resp.provider_request_id.deep_view(),
                created_at_ms: Some(resp.created_at_ms as u64),
                latency_ms: Some(resp.latency_ms as u64),
                stop_reason: (match resp.stop_reason {
                    Some(s) => Some(crate::model::stop_reason_wire_spec(s)),
                    None => None,
                }),
                text: Some(resp.text@),
                tokens_prompt: Some(resp.usage_prompt),
                tokens_completion: Some(resp.usage_completion),
                tokens_total: (if resp.usage_prompt + resp.usage_completion <= u32::MAX {
                    Some((resp.usage_prompt + resp.usage_completion) as u32)
                } else {
                    None
                }),
                ..empty_log_v()
            }),
    {
        let stop_name: Option<String> = match resp.stop_reason {
            Some(s) => Some(s.wire_name()),
            None => None,
        };
        let stop_ref: Option<&str> = match &stop_name {
            Some(s) => Some(s.as_str()),
            None => None,
        };
        let tokens_total: Option<u32> = if resp.usage_prompt <= u32::MAX - resp.usage_completion {
            Some(resp.usage_prompt + resp.usage_completion)
        } else {
            None
        };
        let prid: Option<&str> = match &resp.provider_request_id {
            Some(s) => Some(s.as_str()),
            None => None,
        };
        CompletionLog::new().provider(self.name.as_str()).model(resp.model.as_str()).request_id_opt(
            None,
        ).turn_id_opt(None).provider_request_id_opt(prid).created_at_ms(
            resp.created_at_ms as u64,
        ).latency_ms(resp.latency_ms as u64).stop_reason_opt(stop_ref).text_opt(
            Some(resp.text.as_str()),
        ).tokens(Some(resp.usage_prompt), Some(resp.usage_completion), tokens_total)
    }

    /// Embeddings are unsupported by this adapter.
    pub fn embed(&self, req: &EmbedRequest) -> (r: CoreResult<EmbedResponse>)
        ensures
            r matches Err(e) && e matches AiProxyError::Validation(m) && m@
                == "Anthropic embeddings are not supported in this MVP"@,
    {
        Err(
            AiProxyError::Validation("Anthropic embeddings are not supported in this MVP".to_owned()),
        )
    }
}

impl ProviderCaps for Anthropic {
    /// Anthropic advertises chat only.
    fn capabilities(&self) -> Vec<Capability> {
        let mut v: Vec<Capability> = Vec::new();
        v.push(Capability::Chat);
        v
    }
}

} // verus!
