//! The capability model and the built-in null provider, a safe fallback
//! and test double that never fails.

use vstd::prelude::*;

verus! {

use crate::error::CoreResult;
use crate::model::{ChatRequest, ChatResponse, EmbedRequest, EmbedResponse};

/// A verb a provider supports.
#[derive(Debug, Clone, Copy, PartialEq, Eq, Hash, Structural)]
pub enum Capability {
    Chat,
    ChatStream,
    Embed,
    Transcribe,
    Moderate,
    Rerank,
}

/// Providers advertise the verbs they support.
pub trait ProviderCaps {
    fn capabilities(&self) -> Vec<Capability>;
}

/// The sum of the message content lengths, in characters.
pub open spec fn content_len_sum(msgs: Seq<crate::model::ChatMessage>) -> int
    decreases msgs.len(),
{
    if msgs.len() == 0 {
        0
    } else {
        content_len_sum(msgs.drop_last()) + msgs.last().content@.len()
    }
}

/// A provider that always returns canned responses.
pub struct NullProvider;

impl NullProvider {
    /// The registry name of this provider.
    pub fn name(&self) -> (r: String)
        ensures
            r@ == "null"@,
    {
        "null".to_owned()
    }

    /// The canned chat response: fixed text, prompt usage equal to the
    /// total content length (saturated), and empty identifiers. Never
    /// fails.
    pub fn chat(&self, req: ChatRequest) -> (r: CoreResult<ChatResponse>)
        ensures
            r matches Ok(resp) && resp@ == (crate::model::ChatResponseV {
                model: req.model@,
                text: "[null provider response]"@,
                usage_prompt: (if content_len_sum(req.messages@) <= u32::MAX {
                    content_len_sum(req.messages@) as u32
                } else {
                    u32::MAX
                }),
                usage_completion: 0,
                cached: false,
                provider: "null"@,
                transcript_id: None,
                turn_id: "null-turn"@,
                stop_reason: None,
                provider_request_id: None,
                created_at_ms: 0,
                latency_ms: 0,
            }),
    {
        let mut acc: u32 = 0;
        let mut i: usize = 0;
        proof {
            assert(req.messages@.take(0) =~= Seq::<crate::model::ChatMessage>::empty());
        }
        while i < req.messages.len()
            invariant
                i <= req.messages@.len(),
                acc == (if content_len_sum(req.messages@.take(i as int)) <= u32::MAX {
                    content_len_sum(req.messages@.take(i as int))
                } else {
                    u32::MAX as int
                }),
            decreases req.messages@.len() - i,
        {
            let li: usize = vstd::string::StrSliceExecFns::unicode_len(
                req.messages[i].content.as_str(),
            );
            let ghost pre = req.messages@.take(i as int);
            let ghost post = req.messages@.take(i + 1);
            proof {
                assert(post.drop_last() =~= pre);
                assert(post.last() == req.messages@[i as int]);
                assert(content_len_sum(post) == content_len_sum(pre) + li);
            }
            if li >= ((u32::MAX - acc) as usize) {
                acc = u32::MAX;
            } else {
                acc = acc + (li as u32);
            }
            i = i + 1;
        }
        proof {
            assert(req.messages@.take(req.messages@.len() as int) =~= req.messages@);
        }
        let resp = ChatResponse {
            model: req.model,
            text: "[null provider response]".to_owned(),
            usage_prompt: acc,
            usage_completion: 0,
            cached: false,
            provider: "null".to_owned(),
            transcript_id: None,
            turn_id: "null-turn".to_owned(),
            stop_reason: None,
            provider_request_id: None,
            created_at_ms: 0,
            latency_ms: 0,
        };
        Ok(resp)
    }

    /// The canned embedding response: one three-component zero vector per
    /// input (components are float bit patterns, and the zero pattern is
    /// 0.0), usage equal to the input count. Never fails.
    pub fn embed(&self, req: EmbedRequest) -> (r: CoreResult<EmbedResponse>)
        ensures
            r matches Ok(resp) && {
                &&& resp.model@ == req.model@
                &&& resp.vectors.deep_view().len() == req.inputs@.len()
                &&& forall|i: int|
                    0 <= i < req.inputs@.len() ==> #[trigger] resp.vectors.deep_view()[i]
                        =~= seq![0u32, 0u32, 0u32]
                &&& resp.usage == (if req.inputs@.len() <= u32::MAX {
                    req.inputs@.len() as u32
                } else {
                    u32::MAX
                })
                &&& !resp.cached
                &&& resp.provider@ == "null"@
            },
    {
        let n = req.inputs.len();
        let mut vectors: Vec<Vec<u32>> = Vec::new();
        let mut i: usize = 0;
        while i < n
            invariant
                i <= n,
                vectors.deep_view().len() == i,
                forall|k: int|
                    0 <= k < i ==> #[trigger] vectors.deep_view()[k] =~= seq![0u32, 0u32, 0u32],
            decreases n - i,
        {
            let mut v: Vec<u32> = Vec::new();
            v.push(0);
            v.push(0);
            v.push(0);
            proof {
                assert(v@ =~= seq![0u32, 0u32, 0u32]);
            }
            let ghost before = vectors.deep_view();
            vectors.push(v);
            proof {
                assert forall|k: int| 0 <= k < vectors.deep_view().len() implies
                    #[trigger] vectors.deep_view()[k] == (if k < before.len() {
                    before[k]
                } else {
                    seq![0u32, 0u32, 0u32]
                }) by {
                    assert(vectors.deep_view()[k] == vectors@[k]@);
                    if k < before.len() {
                        assert(before[k] == vectors@[k]@);
                    }
                }
            }
            i = i + 1;
        }
        let usage: u32 = if n >= (u32::MAX as usize) {
            u32::MAX
        } else {
            n as u32
        };
        Ok(EmbedResponse {
            model: req.model,
            vectors,
            usage,
            cached: false,
            provider: "null".to_owned(),
        })
    }
}

impl ProviderCaps for NullProvider {
    /// The null provider advertises chat and embeddings.
    fn capabilities(&self) -> Vec<Capability> {
        let mut v: Vec<Capability> = Vec::new();
        v.push(Capability::Chat);
        v.push(Capability::Embed);
        v
    }
}

} // verus!
