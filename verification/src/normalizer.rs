//! Input cleansing for chat and embedding requests: text cleansing of every
//! message content and embedding input, clamping of the fixed-point
//! sampling parameters with defaults, stop-sequence sort and
//! deduplication, an output-token cap, and first-occurrence deduplication
//! of embedding inputs.

use vstd::prelude::*;

verus! {

use crate::model::{ChatMessage, ChatRequest, EmbedRequest};
use crate::text::{
    clean_spec, clean_text, contains_str, lex_lt, lemma_lex_total, lemma_lex_asymmetric,
    lemma_lex_trans, string_lt, vec_contains_string,
};

/// `x` clamped into the closed interval `[lo, hi]`.
pub open spec fn clamp_spec(x: int, lo: int, hi: int) -> int {
    if x < lo {
        lo
    } else if x > hi {
        hi
    } else {
        x
    }
}

/// Whether adjacent entries are strictly increasing in the lexicographic
/// order; such a sequence is sorted and duplicate-free.
pub open spec fn strictly_sorted(s: Seq<Seq<char>>) -> bool {
    forall|i: int| 0 <= i < s.len() - 1 ==> #[trigger] lex_lt(s[i], s[i + 1])
}

/// What normalization does to a present stop-sequence list: the result is
/// the strictly sorted arrangement of the distinct members, or absent when
/// the list was empty.
pub open spec fn stops_normalized(input: Seq<Seq<char>>, out: Option<Seq<Seq<char>>>) -> bool {
    if input.len() == 0 {
        out is None
    } else {
        &&& out is Some
        &&& strictly_sorted(out->0)
        &&& forall|x: Seq<char>| contains_str(out->0, x) <==> contains_str(input, x)
    }
}

/// The full relation between a chat request and its normalized form.
pub open spec fn chat_normalized(req: ChatRequest, r: ChatRequest) -> bool {
    &&& r.model@ == req.model@
    &&& r.messages@.len() == req.messages@.len()
    &&& forall|i: int|
        0 <= i < req.messages@.len() ==> (#[trigger] r.messages@[i]).role == req.messages@[i].role
            && r.messages@[i].content@ == clean_spec(req.messages@[i].content@)
    &&& r.temperature_milli == (match req.temperature_milli {
        Some(t) => Some(clamp_spec(t as int, 0, 2000) as u32),
        None => Some(1000u32),
    })
    &&& r.top_p_e4 == (match req.top_p_e4 {
        Some(p) => Some(clamp_spec(p as int, 0, 10000) as u32),
        None => Some(10000u32),
    })
    &&& (match req.stop_sequences {
        Some(v) => stops_normalized(
            v.deep_view(),
            match r.stop_sequences {
                Some(w) => Some(w.deep_view()),
                None => None,
            },
        ),
        None => r.stop_sequences is None,
    })
    &&& r.max_output_tokens == (match req.max_output_tokens {
        Some(m) => Some(if m > 100000 { 100000u32 } else { m }),
        None => None::<u32>,
    })
    &&& r.metadata.deep_view() == req.metadata.deep_view()
    &&& r.client_key.deep_view() == req.client_key.deep_view()
    &&& r.request_id.deep_view() == req.request_id.deep_view()
    &&& r.trace_id.deep_view() == req.trace_id.deep_view()
    &&& r.idempotency_key.deep_view() == req.idempotency_key.deep_view()
}

/// Clamps a fixed-point parameter into `[lo, hi]`.
pub fn clamp_u32(x: u32, lo: u32, hi: u32) -> (r: u32)
    requires
        lo <= hi,
    ensures
        r == clamp_spec(x as int, lo as int, hi as int),
{
    if x < lo {
        lo
    } else if x > hi {
        hi
    } else {
        x
    }
}

/// Sorts the strings lexicographically and removes duplicates: the result
/// is strictly sorted and holds exactly the distinct members of the input.
pub fn sort_dedup(v: &Vec<String>) -> (r: Vec<String>)
    ensures
        strictly_sorted(r.deep_view()),
        forall|x: Seq<char>|
            #[trigger] contains_str(r.deep_view(), x) <==> contains_str(v.deep_view(), x),
        v@.len() == 0 ==> r@.len() == 0,
        v@.len() > 0 ==> r@.len() > 0,
{
    let mut out: Vec<String> = Vec::new();
    let mut i: usize = 0;
    while i < v.len()
        invariant
            i <= v@.len(),
            strictly_sorted(out.deep_view()),
            forall|x: Seq<char>|
                #[trigger] contains_str(out.deep_view(), x) <==> contains_str(
                    v.deep_view().take(i as int),
                    x,
                ),
            i > 0 && v@.len() > 0 ==> out@.len() > 0,
            i == 0 ==> out@.len() == 0,
        decreases v@.len() - i,
    {
        let s = v[i].clone();
        proof {
            assert(v.deep_view()[i as int] == v@[i as int]@);
            assert(s@ == v@[i as int]@);
        }
        let ghost old_out = out.deep_view();
        if !vec_contains_string(&out, &s) {
            let mut j: usize = 0;
            while j < out.len() && string_lt(&out[j], &s)
                invariant
                    j <= out@.len(),
                    out.deep_view() == old_out,
                    forall|k: int| 0 <= k < j ==> lex_lt(#[trigger] old_out[k], s@),
                decreases out@.len() - j,
            {
                proof {
                    assert(out.deep_view()[j as int] == out@[j as int]@);
                }
                j = j + 1;
            }
            proof {
                assert(forall|k: int| 0 <= k < old_out.len() ==> #[trigger] old_out[k] != s@);
                if j < old_out.len() {
                    assert(out.deep_view()[j as int] == out@[j as int]@);
                    assert(!lex_lt(old_out[j as int], s@));
                    lemma_lex_total(s@, old_out[j as int]);
                    assert(lex_lt(s@, old_out[j as int]));
                }
            }
            out.insert(j, s);
            proof {
                let nd = out.deep_view();
                // Bridge the deep view of the inserted vector.
                assert(nd.len() == old_out.len() + 1);
                assert forall|k: int| 0 <= k < nd.len() implies #[trigger] nd[k] == (if k < j {
                    old_out[k]
                } else if k == j {
                    v@[i as int]@
                } else {
                    old_out[k - 1]
                }) by {
                    assert(nd[k] == out@[k]@);
                }
                // Strict sortedness of the result.
                assert forall|k: int| 0 <= k < nd.len() - 1 implies #[trigger] lex_lt(
                    nd[k],
                    nd[k + 1],
                ) by {
                    if k + 1 < j {
                        assert(lex_lt(old_out[k], old_out[k + 1]));
                    } else if k + 1 == j {
                        assert(lex_lt(old_out[k], v@[i as int]@));
                    } else if k == j {
                        assert(lex_lt(v@[i as int]@, old_out[k]));
                    } else {
                        assert(strictly_sorted(old_out));
                        let kk: int = k - 1;
                        assert(0 <= kk < old_out.len() - 1);
                        assert(lex_lt(old_out[kk], old_out[kk + 1]));
                        assert(nd[k] == old_out[kk] && nd[k + 1] == old_out[kk + 1]);
                    }
                }
                // Element set of the result.
                assert forall|x: Seq<char>| #[trigger] contains_str(nd, x) implies contains_str(
                    v.deep_view().take(i + 1),
                    x,
                ) by {
                    let w = choose|w: int| 0 <= w < nd.len() && (#[trigger] nd[w]) == x;
                    if w == j {
                        assert(v.deep_view().take(i + 1)[i as int] == x);
                    } else {
                        let wo: int = if w < j {
                            w
                        } else {
                            w - 1
                        };
                        assert(old_out[wo] == x);
                        assert(contains_str(old_out, x));
                        let u = choose|u: int|
                            0 <= u < i && (#[trigger] v.deep_view().take(i as int)[u]) == x;
                        assert(v.deep_view().take(i + 1)[u] == x);
                    }
                }
                assert forall|x: Seq<char>| contains_str(v.deep_view().take(i + 1), x)
                    implies #[trigger] contains_str(nd, x) by {
                    let u = choose|u: int|
                        0 <= u < i + 1 && (#[trigger] v.deep_view().take(i + 1)[u]) == x;
                    if u == i {
                        assert(nd[j as int] == x);
                    } else {
                        assert(v.deep_view().take(i as int)[u] == x);
                        assert(contains_str(old_out, x));
                        let w = choose|w: int| 0 <= w < old_out.len() && (#[trigger] old_out[w]) == x;
                        if w < j {
                            assert(nd[w] == x);
                        } else {
                            assert(nd[w + 1] == x);
                        }
                    }
                }
            }
        } else {
            proof {
                let nd = out.deep_view();
                assert(contains_str(nd, v@[i as int]@));
                assert forall|x: Seq<char>| #[trigger] contains_str(nd, x) implies contains_str(
                    v.deep_view().take(i + 1),
                    x,
                ) by {
                    let u = choose|u: int|
                        0 <= u < i && (#[trigger] v.deep_view().take(i as int)[u]) == x;
                    assert(v.deep_view().take(i + 1)[u] == x);
                }
                assert forall|x: Seq<char>| contains_str(v.deep_view().take(i + 1), x)
                    implies #[trigger] contains_str(nd, x) by {
                    let u = choose|u: int|
                        0 <= u < i + 1 && (#[trigger] v.deep_view().take(i + 1)[u]) == x;
                    if u == i {
                        assert(v.deep_view().take(i + 1)[u] == v@[i as int]@);
                    } else {
                        assert(v.deep_view().take(i as int)[u] == x);
                    }
                }
            }
        }
        i = i + 1;
    }
    proof {
        assert(v.deep_view().take(v@.len() as int) =~= v.deep_view());
        if v@.len() > 0 {
            assert(contains_str(v.deep_view(), v.deep_view()[0]));
        }
    }
    out
}

/// Normalizes a chat request: cleanses every message content, defaults and
/// clamps the sampling parameters, sorts and deduplicates the stop
/// sequences (absent when empty), and caps `max_output_tokens`.
pub fn normalize_chat(req: ChatRequest) -> (r: ChatRequest)
    ensures
        chat_normalized(req, r),
{
    let mut messages: Vec<ChatMessage> = Vec::new();
    let mut i: usize = 0;
    while i < req.messages.len()
        invariant
            i <= req.messages@.len(),
            messages@.len() == i,
            forall|k: int|
                0 <= k < i ==> (#[trigger] messages@[k]).role == req.messages@[k].role
                    && messages@[k].content@ == clean_spec(req.messages@[k].content@),
        decreases req.messages@.len() - i,
    {
        let cleaned = clean_text(req.messages[i].content.as_str());
        messages.push(ChatMessage { role: req.messages[i].role, content: cleaned });
        i = i + 1;
    }
    let temperature_milli: Option<u32> = match req.temperature_milli {
        Some(t) => Some(clamp_u32(t, 0, 2000)),
        None => Some(1000),
    };
    let top_p_e4: Option<u32> = match req.top_p_e4 {
        Some(p) => Some(clamp_u32(p, 0, 10000)),
        None => Some(10000),
    };
    let stop_sequences: Option<Vec<String>> = match &req.stop_sequences {
        Some(v) => {
            let d = sort_dedup(v);
            if d.len() == 0 {
                None
            } else {
                Some(d)
            }
        },
        None => None,
    };
    let max_output_tokens: Option<u32> = match req.max_output_tokens {
        Some(m) => if m > 100000 {
            Some(100000)
        } else {
            Some(m)
        },
        None => None,
    };
    proof {
        if req.stop_sequences is Some {
            let v = req.stop_sequences->0;
            if v@.len() == 0 {
                assert(v.deep_view().len() == 0);
            } else {
                assert(v.deep_view().len() > 0);
            }
        }
    }
    ChatRequest {
        model: req.model.clone(),
        messages,
        temperature_milli,
        top_p_e4,
        metadata: req.metadata.clone(),
        client_key: req.client_key.clone(),
        request_id: req.request_id.clone(),
        trace_id: req.trace_id.clone(),
        idempotency_key: req.idempotency_key.clone(),
        max_output_tokens,
        stop_sequences,
    }
}

/// What normalization does to the embedding inputs: each is cleansed,
/// empty results are dropped, and later duplicates are removed, keeping
/// first-occurrence order. `seen` holds the values already kept.
pub open spec fn embed_inputs_spec(s: Seq<Seq<char>>, seen: Set<Seq<char>>) -> Seq<Seq<char>>
    decreases s.len(),
{
    if s.len() == 0 {
        Seq::empty()
    } else {
        let c = clean_spec(s[0]);
        if c.len() == 0 || seen.contains(c) {
            embed_inputs_spec(s.skip(1), seen)
        } else {
            seq![c] + embed_inputs_spec(s.skip(1), seen.insert(c))
        }
    }
}

/// Normalizes an embedding request: cleanses every input, drops the ones
/// that become empty, and removes duplicates, keeping the first
/// occurrence of each.
pub fn normalize_embed(req: EmbedRequest) -> (r: EmbedRequest)
    ensures
        r.model@ == req.model@,
        r.client_key.deep_view() == req.client_key.deep_view(),
        r.inputs.deep_view() == embed_inputs_spec(req.inputs.deep_view(), Set::empty()),
{
    let ghost all = req.inputs.deep_view();
    let mut out: Vec<String> = Vec::new();
    let ghost mut seen = Set::<Seq<char>>::empty();
    let mut i: usize = 0;
    proof {
        assert(all.skip(0) =~= all);
    }
    while i < req.inputs.len()
        invariant
            i <= req.inputs@.len(),
            all == req.inputs.deep_view(),
            forall|x: Seq<char>| #[trigger] seen.contains(x) <==> contains_str(out.deep_view(), x),
            embed_inputs_spec(all, Set::empty()) == out.deep_view() + embed_inputs_spec(
                all.skip(i as int),
                seen,
            ),
        decreases req.inputs@.len() - i,
    {
        let c = clean_text(req.inputs[i].as_str());
        proof {
            assert(all[i as int] == req.inputs@[i as int]@);
            assert(all.skip(i as int)[0] == all[i as int]);
            assert(all.skip(i as int).skip(1) =~= all.skip(i + 1));
        }
        let keep = if c.as_str().unicode_len() == 0 {
            false
        } else {
            !vec_contains_string(&out, &c)
        };
        if keep {
            let ghost old_deep = out.deep_view();
            out.push(c);
            proof {
                let nd = out.deep_view();
                assert forall|k: int| 0 <= k < nd.len() implies #[trigger] nd[k] == (if k
                    < old_deep.len() {
                    old_deep[k]
                } else {
                    clean_spec(all[i as int])
                }) by {
                    assert(nd[k] == out@[k]@);
                }
                assert(nd =~= old_deep + seq![clean_spec(all[i as int])]);
                assert forall|x: Seq<char>| #[trigger] seen.insert(clean_spec(all[i as int])).contains(x)
                    implies contains_str(nd, x) by {
                    if x == clean_spec(all[i as int]) {
                        assert(nd[nd.len() - 1] == x);
                    } else {
                        let w = choose|w: int| 0 <= w < old_deep.len() && (#[trigger] old_deep[w]) == x;
                        assert(nd[w] == x);
                    }
                }
                assert forall|x: Seq<char>| contains_str(nd, x)
                    implies #[trigger] seen.insert(clean_spec(all[i as int])).contains(x) by {
                    let w = choose|w: int| 0 <= w < nd.len() && (#[trigger] nd[w]) == x;
                    if w < old_deep.len() {
                        assert(old_deep[w] == x);
                    }
                }
                assert(old_deep + (seq![clean_spec(all[i as int])] + embed_inputs_spec(
                    all.skip(i + 1),
                    seen.insert(clean_spec(all[i as int])),
                )) =~= nd + embed_inputs_spec(
                    all.skip(i + 1),
                    seen.insert(clean_spec(all[i as int])),
                ));
            }
            proof {
                seen = seen.insert(clean_spec(all[i as int]));
            }
        } else {
            proof {
                if c@.len() != 0 {
                    assert(contains_str(out.deep_view(), clean_spec(all[i as int])));
                    assert(seen.contains(clean_spec(all[i as int])));
                }
            }
        }
        i = i + 1;
    }
    proof {
        assert(all.skip(all.len() as int) =~= Seq::<Seq<char>>::empty());
        assert(out.deep_view() + Seq::<Seq<char>>::empty() =~= out.deep_view());
    }
    EmbedRequest { model: req.model.clone(), inputs: out, client_key: req.client_key.clone() }
}

proof fn lemma_lex_irrefl(a: Seq<char>)
    ensures
        !lex_lt(a, a),
    decreases a.len(),
{
    if a.len() > 0 {
        lemma_lex_irrefl(a.skip(1));
    }
}

proof fn lemma_sorted_pairwise(s: Seq<Seq<char>>, i: int, j: int)
    requires
        strictly_sorted(s),
        0 <= i < j < s.len(),
    ensures
        lex_lt(s[i], s[j]),
    decreases j - i,
{
    if j == i + 1 {
        assert(lex_lt(s[i], s[i + 1]));
    } else {
        lemma_sorted_pairwise(s, i, j - 1);
        assert(lex_lt(s[j - 1], s[j - 1 + 1]));
        lemma_lex_trans(s[i], s[j - 1], s[j]);
    }
}

/// Two strictly sorted sequences holding the same elements are the same
/// sequence: the sorted, deduplicated form of a stop-sequence list is
/// unique.
pub proof fn lemma_strictly_sorted_unique(a: Seq<Seq<char>>, b: Seq<Seq<char>>)
    requires
        strictly_sorted(a),
        strictly_sorted(b),
        forall|x: Seq<char>| contains_str(a, x) <==> contains_str(b, x),
    ensures
        a == b,
    decreases a.len(),
{
    if a.len() == 0 {
        if b.len() > 0 {
            assert(contains_str(b, b[0]));
            assert(contains_str(a, b[0]));
        }
        assert(a =~= b);
    } else {
        assert(contains_str(a, a[0]));
        assert(contains_str(b, a[0]));
        let wb = choose|w: int| 0 <= w < b.len() && b[w] == a[0];
        assert(contains_str(b, b[0]));
        assert(contains_str(a, b[0]));
        let wa = choose|w: int| 0 <= w < a.len() && a[w] == b[0];
        if a[0] != b[0] {
            assert(wb > 0 && wa > 0);
            lemma_sorted_pairwise(b, 0, wb);
            lemma_sorted_pairwise(a, 0, wa);
            lemma_lex_asymmetric(a[0], b[0]);
            assert(false);
        }
        let at = a.skip(1);
        let bt = b.skip(1);
        assert forall|i: int| 0 <= i < at.len() - 1 implies #[trigger] lex_lt(at[i], at[i + 1]) by {
            assert(at[i] == a[i + 1] && at[i + 1] == a[i + 2]);
            assert(lex_lt(a[i + 1], a[i + 1 + 1]));
        }
        assert forall|i: int| 0 <= i < bt.len() - 1 implies #[trigger] lex_lt(bt[i], bt[i + 1]) by {
            assert(bt[i] == b[i + 1] && bt[i + 1] == b[i + 2]);
            assert(lex_lt(b[i + 1], b[i + 1 + 1]));
        }
        assert forall|x: Seq<char>| contains_str(at, x) implies #[trigger] contains_str(bt, x) by {
            let w = choose|w: int| 0 <= w < at.len() && (#[trigger] at[w]) == x;
            assert(a[w + 1] == x);
            assert(contains_str(a, x));
            lemma_sorted_pairwise(a, 0, w + 1);
            lemma_lex_irrefl(x);
            assert(x != a[0]);
            let u = choose|u: int| 0 <= u < b.len() && (#[trigger] b[u]) == x;
            assert(u > 0);
            assert(bt[u - 1] == x);
        }
        assert forall|x: Seq<char>| contains_str(bt, x) implies #[trigger] contains_str(at, x) by {
            let w = choose|w: int| 0 <= w < bt.len() && (#[trigger] bt[w]) == x;
            assert(b[w + 1] == x);
            assert(contains_str(b, x));
            lemma_sorted_pairwise(b, 0, w + 1);
            lemma_lex_irrefl(x);
            assert(x != b[0]);
            let u = choose|u: int| 0 <= u < a.len() && (#[trigger] a[u]) == x;
            assert(u > 0);
            assert(at[u - 1] == x);
        }
        lemma_strictly_sorted_unique(at, bt);
        assert forall|i: int| 0 <= i < a.len() implies a[i] == b[i] by {
            if i > 0 {
                assert(a[i] == at[i - 1] && b[i] == bt[i - 1]);
            }
        }
        assert(a =~= b);
    }
}

/// Normalization is idempotent on chat requests: a second pass changes
/// nothing, provided that the per-message text cleansing itself is stable
/// on the request's contents (which holds of NFC normalization by UAX 15).
pub proof fn lemma_normalize_chat_idempotent(x: ChatRequest, y: ChatRequest, z: ChatRequest)
    requires
        chat_normalized(x, y),
        chat_normalized(y, z),
        forall|i: int|
            0 <= i < x.messages@.len() ==> clean_spec(
                #[trigger] clean_spec(x.messages@[i].content@),
            ) == clean_spec(x.messages@[i].content@),
    ensures
        z.model@ == y.model@,
        z.messages@.len() == y.messages@.len(),
        forall|i: int|
            0 <= i < y.messages@.len() ==> (#[trigger] z.messages@[i]).role == y.messages@[i].role
                && z.messages@[i].content@ == y.messages@[i].content@,
        z.temperature_milli == y.temperature_milli,
        z.top_p_e4 == y.top_p_e4,
        (match (y.stop_sequences, z.stop_sequences) {
            (Some(a), Some(b)) => a.deep_view() == b.deep_view(),
            (None, None) => true,
            _ => false,
        }),
        z.max_output_tokens == y.max_output_tokens,
        z.metadata.deep_view() == y.metadata.deep_view(),
        z.client_key.deep_view() == y.client_key.deep_view(),
        z.request_id.deep_view() == y.request_id.deep_view(),
        z.trace_id.deep_view() == y.trace_id.deep_view(),
        z.idempotency_key.deep_view() == y.idempotency_key.deep_view(),
{
    match x.stop_sequences {
        None => {
        },
        Some(v) => {
            if v.deep_view().len() == 0 {
            } else {
                let w = y.stop_sequences->0;
                assert(contains_str(v.deep_view(), v.deep_view()[0]));
                assert(contains_str(w.deep_view(), v.deep_view()[0]));
                assert(w.deep_view().len() > 0);
                let u = z.stop_sequences->0;
                lemma_strictly_sorted_unique(u.deep_view(), w.deep_view());
            }
        },
    }
}

spec fn embed_output_good(t: Seq<Seq<char>>, s: Seq<Seq<char>>, seen: Set<Seq<char>>) -> bool {
    &&& forall|i: int| 0 <= i < t.len() ==> (#[trigger] t[i]).len() > 0
    &&& forall|i: int| 0 <= i < t.len() ==> !seen.contains(#[trigger] t[i])
    &&& forall|i: int, j: int| #![trigger t[i], t[j]] 0 <= i < j < t.len() ==> t[i] != t[j]
    &&& forall|i: int|
        0 <= i < t.len() ==> exists|j: int| 0 <= j < s.len() && #[trigger] t[i] == clean_spec(s[j])
}

proof fn lemma_embed_output_good(s: Seq<Seq<char>>, seen: Set<Seq<char>>)
    ensures
        embed_output_good(embed_inputs_spec(s, seen), s, seen),
    decreases s.len(),
{
    if s.len() > 0 {
        let c = clean_spec(s[0]);
        let t = embed_inputs_spec(s, seen);
        if c.len() == 0 || seen.contains(c) {
            lemma_embed_output_good(s.skip(1), seen);
            let tt = embed_inputs_spec(s.skip(1), seen);
            assert forall|i: int| 0 <= i < t.len() implies exists|j: int|
                0 <= j < s.len() && #[trigger] t[i] == clean_spec(s[j]) by {
                let j = choose|j: int|
                    0 <= j < s.skip(1).len() && (#[trigger] tt[i]) == clean_spec(s.skip(1)[j]);
                assert(s.skip(1)[j] == s[j + 1]);
                assert(t[i] == clean_spec(s[j + 1]));
            }
        } else {
            lemma_embed_output_good(s.skip(1), seen.insert(c));
            let tt = embed_inputs_spec(s.skip(1), seen.insert(c));
            assert(t == seq![c] + tt);
            assert(t[0] == c);
            assert forall|i: int| 0 <= i < t.len() implies (#[trigger] t[i]).len() > 0 by {
                if i > 0 {
                    assert(t[i] == tt[i - 1]);
                }
            }
            assert forall|i: int| 0 <= i < t.len() implies !seen.contains(#[trigger] t[i]) by {
                if i > 0 {
                    assert(t[i] == tt[i - 1]);
                    assert(!seen.insert(c).contains(tt[i - 1]));
                }
            }
            assert forall|i: int, j: int| #![trigger t[i], t[j]] 0 <= i < j < t.len() implies t[i] != t[j] by {
                assert(t[j] == tt[j - 1]);
                if i == 0 {
                    assert(!seen.insert(c).contains(tt[j - 1]));
                } else {
                    assert(t[i] == tt[i - 1]);
                }
            }
            assert forall|i: int| 0 <= i < t.len() implies exists|j: int|
                0 <= j < s.len() && #[trigger] t[i] == clean_spec(s[j]) by {
                if i == 0 {
                    assert(t[0] == clean_spec(s[0]));
                } else {
                    let j = choose|j: int|
                        0 <= j < s.skip(1).len() && (#[trigger] tt[i - 1]) == clean_spec(
                            s.skip(1)[j],
                        );
                    assert(s.skip(1)[j] == s[j + 1]);
                    assert(t[i] == clean_spec(s[j + 1]));
                }
            }
        }
    }
}

proof fn lemma_embed_pass_fixed(t: Seq<Seq<char>>, seen: Set<Seq<char>>)
    requires
        forall|i: int| 0 <= i < t.len() ==> clean_spec(#[trigger] t[i]) == t[i],
        forall|i: int| 0 <= i < t.len() ==> (#[trigger] t[i]).len() > 0,
        forall|i: int| 0 <= i < t.len() ==> !seen.contains(#[trigger] t[i]),
        forall|i: int, j: int| #![trigger t[i], t[j]] 0 <= i < j < t.len() ==> t[i] != t[j],
    ensures
        embed_inputs_spec(t, seen) == t,
    decreases t.len(),
{
    if t.len() == 0 {
        assert(embed_inputs_spec(t, seen) =~= t);
    } else {
        let c = clean_spec(t[0]);
        assert(c == t[0]);
        let rest = t.skip(1);
        assert forall|i: int| 0 <= i < rest.len() implies !seen.insert(c).contains(
            #[trigger] rest[i],
        ) by {
            assert(rest[i] == t[i + 1]);
            assert(t[0] != t[i + 1]);
        }
        assert forall|i: int| 0 <= i < rest.len() implies clean_spec(#[trigger] rest[i])
            == rest[i] && rest[i].len() > 0 by {
            assert(rest[i] == t[i + 1]);
        }
        assert forall|i: int, j: int| #![trigger rest[i], rest[j]] 0 <= i < j < rest.len() implies rest[i]
            != rest[j] by {
            assert(rest[i] == t[i + 1] && rest[j] == t[j + 1]);
        }
        lemma_embed_pass_fixed(rest, seen.insert(c));
        assert(embed_inputs_spec(t, seen) == seq![c] + rest);
        assert(seq![c] + rest =~= t);
    }
}

/// Normalization is idempotent on embedding inputs: running the cleansing,
/// empty-drop and deduplication a second time changes nothing, provided
/// the per-input text cleansing itself is stable on the inputs (which
/// holds of NFC normalization by UAX 15).
pub proof fn lemma_normalize_embed_idempotent(s: Seq<Seq<char>>)
    requires
        forall|j: int|
            0 <= j < s.len() ==> clean_spec(#[trigger] clean_spec(s[j])) == clean_spec(s[j]),
    ensures
        embed_inputs_spec(embed_inputs_spec(s, Set::empty()), Set::empty()) == embed_inputs_spec(
            s,
            Set::empty(),
        ),
{
    let t = embed_inputs_spec(s, Set::empty());
    lemma_embed_output_good(s, Set::empty());
    assert forall|i: int| 0 <= i < t.len() implies clean_spec(#[trigger] t[i]) == t[i] by {
        let j = choose|j: int| 0 <= j < s.len() && (#[trigger] t[i]) == clean_spec(s[j]);
        assert(clean_spec(clean_spec(s[j])) == clean_spec(s[j]));
    }
    lemma_embed_pass_fixed(t, Set::empty());
}

} // verus!
