//! The routing resolver: compiled ordered regular-expression rules with a
//! default provider; the first matching rule wins, and the chosen name is
//! looked up in the registry for the requested capability.

use vstd::prelude::*;

verus! {

use crate::config::{Config, RoutingRule};
use crate::error::{AiProxyError, CoreResult};
use crate::provider_factory::{ProviderRegistry, RegEntry};
use crate::text::{concat2, concat3};

/// Whether `regex::Regex::new` accepts this pattern.
pub uninterp spec fn regex_valid(p: Seq<char>) -> bool;

/// Whether the compiled pattern matches the text, as
/// `regex::Regex::is_match` decides; for a valid pattern it depends on
/// pattern and text alone.
pub uninterp spec fn regex_matches(p: Seq<char>, s: Seq<char>) -> bool;

/// Relies on `regex::Regex::new`: it returns `Ok` exactly for the valid
/// patterns, and its error renders to text.
#[verifier::external_body]
fn regex_compile_err(p: &str) -> (r: Option<String>)
    ensures
        r is None <==> regex_valid(p@),
{
    match regex::Regex::new(p) {
        Ok(..) => None,
        Err(e) => Some(e.to_string()),
    }
}

/// Relies on `regex::Regex::new` and `regex::Regex::is_match`: for a
/// valid pattern, whether it matches the text.
#[verifier::external_body]
fn regex_match(p: &str, text: &str) -> (r: Option<bool>)
    ensures
        r is Some <==> regex_valid(p@),
        r matches Some(b) ==> b == regex_matches(p@, text@),
{
    match regex::Regex::new(p) {
        Ok(re) => Some(re.is_match(text)),
        Err(..) => None,
    }
}

/// The index of the first rule whose pattern matches the model, if any.
pub open spec fn first_match(rules: Seq<RoutingRule>, model: Seq<char>) -> int
    decreases rules.len(),
{
    if rules.len() == 0 {
        -1
    } else if regex_matches(rules[0].model@, model) {
        0
    } else {
        let r = first_match(rules.skip(1), model);
        if r < 0 {
            -1
        } else {
            r + 1
        }
    }
}

proof fn lemma_first_match_bounds(rules: Seq<RoutingRule>, model: Seq<char>)
    ensures
        -1 <= first_match(rules, model) < rules.len(),
        first_match(rules, model) >= 0 ==> regex_matches(
            rules[first_match(rules, model)].model@,
            model,
        ),
        first_match(rules, model) >= 0 ==> forall|j: int|
            0 <= j < first_match(rules, model) ==> !regex_matches(
                (#[trigger] rules[j]).model@,
                model,
            ),
        first_match(rules, model) < 0 ==> forall|j: int|
            0 <= j < rules.len() ==> !regex_matches((#[trigger] rules[j]).model@, model),
    decreases rules.len(),
{
    if rules.len() > 0 && !regex_matches(rules[0].model@, model) {
        lemma_first_match_bounds(rules.skip(1), model);
        let r = first_match(rules.skip(1), model);
        if r >= 0 {
            assert(rules.skip(1)[r] == rules[r + 1]);
            assert forall|j: int| 0 <= j < r + 1 implies !regex_matches(
                (#[trigger] rules[j]).model@,
                model,
            ) by {
                if j > 0 {
                    assert(rules.skip(1)[j - 1] == rules[j]);
                }
            }
        } else {
            assert forall|j: int| 0 <= j < rules.len() implies !regex_matches(
                (#[trigger] rules[j]).model@,
                model,
            ) by {
                if j > 0 {
                    assert(rules.skip(1)[j - 1] == rules[j]);
                }
            }
        }
    }
}

/// Resolves a model string to a provider name: the ordered rules are
/// scanned and the first match wins, else the default applies.
pub struct RoutingResolver {
    pub rules: Vec<RoutingRule>,
    pub default_provider: String,
}

impl RoutingResolver {
    /// Every held pattern compiles; established at construction.
    pub open spec fn wf(&self) -> bool {
        forall|i: int|
            0 <= i < self.rules@.len() ==> regex_valid((#[trigger] self.rules@[i]).model@)
    }

    /// The provider name resolution picks for this model.
    pub open spec fn picked_provider(&self, model: Seq<char>) -> Seq<char> {
        let i = first_match(self.rules@, model);
        if i >= 0 {
            self.rules@[i].provider@
        } else {
            self.default_provider@
        }
    }

    /// Builds a resolver by compiling every rule pattern; an invalid
    /// pattern fails construction with a `Validation` error naming it.
    pub fn new(cfg: &Config) -> (r: CoreResult<RoutingResolver>)
        ensures
            ({
                let rules = cfg.routing.rules@;
                if forall|i: int|
                    0 <= i < rules.len() ==> regex_valid((#[trigger] rules[i]).model@) {
                    r matches Ok(res) && res.rules@ == rules && res.default_provider@
                        == cfg.routing.default@ && res.wf()
                } else {
                    r matches Err(e) && e matches AiProxyError::Validation(m) && exists|i: int|
                        0 <= i < rules.len() && !regex_valid((#[trigger] rules[i]).model@) && (
                        forall|j: int| 0 <= j < i ==> regex_valid(#[trigger] rules[j].model@))
                            && exists|suffix: Seq<char>|
                            m@ == "invalid routing regex '"@ + rules[i].model@ + "': "@ + suffix
                }
            }),
    {
        let mut rules: Vec<RoutingRule> = Vec::new();
        let mut i: usize = 0;
        while i < cfg.routing.rules.len()
            invariant
                i <= cfg.routing.rules@.len(),
                rules@.len() == i,
                forall|j: int| 0 <= j < i ==> rules@[j] == #[trigger] cfg.routing.rules@[j],
                forall|j: int|
                    0 <= j < i ==> regex_valid((#[trigger] cfg.routing.rules@[j]).model@),
            decreases cfg.routing.rules@.len() - i,
        {
            match regex_compile_err(cfg.routing.rules[i].model.as_str()) {
                Some(why) => {
                    let head = concat3(
                        "invalid routing regex '",
                        cfg.routing.rules[i].model.as_str(),
                        "': ",
                    );
                    let msg = concat2(head.as_str(), why.as_str());
                    proof {
                        let rs = cfg.routing.rules@;
                        assert(!regex_valid(rs[i as int].model@));
                        assert(msg@ == "invalid routing regex '"@ + rs[i as int].model@ + "': "@
                            + why@);
                    }
                    return Err(AiProxyError::Validation(msg));
                },
                None => {
                    rules.push(
                        RoutingRule {
                            model: cfg.routing.rules[i].model.clone(),
                            provider: cfg.routing.rules[i].provider.clone(),
                        },
                    );
                },
            }
            i = i + 1;
        }
        proof {
            assert(rules@ =~= cfg.routing.rules@);
        }
        Ok(RoutingResolver { rules, default_provider: cfg.routing.default.clone() })
    }

    /// The name of the provider chosen for this model: the provider of
    /// the first matching rule, else the default.
    pub fn pick_provider_name(&self, model: &str) -> (r: String)
        requires
            self.wf(),
        ensures
            r@ == self.picked_provider(model@),
    {
        let ghost rs = self.rules@;
        let mut i: usize = 0;
        proof {
            lemma_first_match_bounds(rs, model@);
        }
        while i < self.rules.len()
            invariant
                i <= rs.len(),
                rs == self.rules@,
                self.wf(),
                -1 <= first_match(rs, model@) < rs.len(),
                first_match(rs, model@) >= 0 ==> regex_matches(
                    rs[first_match(rs, model@)].model@,
                    model@,
                ),
                first_match(rs, model@) >= 0 ==> forall|j: int|
                    0 <= j < first_match(rs, model@) ==> !regex_matches(
                        (#[trigger] rs[j]).model@,
                        model@,
                    ),
                first_match(rs, model@) < 0 ==> forall|j: int|
                    0 <= j < rs.len() ==> !regex_matches((#[trigger] rs[j]).model@, model@),
                forall|j: int| 0 <= j < i ==> !regex_matches((#[trigger] rs[j]).model@, model@),
            decreases rs.len() - i,
        {
            let hit = match regex_match(self.rules[i].model.as_str(), model) {
                Some(b) => b,
                None => false,
            };
            if hit {
                proof {
                    assert(regex_matches(rs[i as int].model@, model@));
                    assert(first_match(rs, model@) == i);
                }
                return self.rules[i].provider.clone();
            }
            i = i + 1;
        }
        proof {
            assert(first_match(rs, model@) < 0);
        }
        self.default_provider.clone()
    }

    /// Selects the chat-capable provider for the model: the picked name
    /// is looked up in the registry, and a missing or chat-incapable
    /// provider yields a `Validation` error naming it.
    pub fn select_chat<'a>(&self, reg: &'a ProviderRegistry, model: &str) -> (r: CoreResult<
        &'a RegEntry,
    >)
        requires
            self.wf(),
        ensures
            ({
                let name = self.picked_provider(model@);
                &&& (r is Ok <==> exists|i: int|
                    0 <= i < reg.entries@.len() && (#[trigger] reg.entries@[i]).name@ == name
                        && reg.entries@[i].chat)
                &&& (r matches Ok(e) ==> exists|i: int|
                    0 <= i < reg.entries@.len() && *e == reg.entries@[i] && (
                    #[trigger] reg.entries@[i]).name@ == name && reg.entries@[i].chat)
                &&& (r matches Err(err) ==> err matches AiProxyError::Validation(m) && m@
                    == "provider '"@ + name + "' not found or lacks chat capability"@)
            }),
    {
        let name = self.pick_provider_name(model);
        match reg.chat(name.as_str()) {
            Some(e) => Ok(e),
            None => {
                let msg = concat3(
                    "provider '",
                    name.as_str(),
                    "' not found or lacks chat capability",
                );
                Err(AiProxyError::Validation(msg))
            },
        }
    }

    /// Selects the embed-capable provider for the model, as `select_chat`
    /// does for chat.
    pub fn select_embed<'a>(&self, reg: &'a ProviderRegistry, model: &str) -> (r: CoreResult<
        &'a RegEntry,
    >)
        requires
            self.wf(),
        ensures
            ({
                let name = self.picked_provider(model@);
                &&& (r is Ok <==> exists|i: int|
                    0 <= i < reg.entries@.len() && (#[trigger] reg.entries@[i]).name@ == name
                        && reg.entries@[i].embed)
                &&& (r matches Ok(e) ==> exists|i: int|
                    0 <= i < reg.entries@.len() && *e == reg.entries@[i] && (
                    #[trigger] reg.entries@[i]).name@ == name && reg.entries@[i].embed)
                &&& (r matches Err(err) ==> err matches AiProxyError::Validation(m) && m@
                    == "provider '"@ + name + "' not found or lacks embed capability"@)
            }),
    {
        let name = self.pick_provider_name(model);
        match reg.embed(name.as_str()) {
            Some(e) => Ok(e),
            None => {
                let msg = concat3(
                    "provider '",
                    name.as_str(),
                    "' not found or lacks embed capability",
                );
                Err(AiProxyError::Validation(msg))
            },
        }
    }
}

/// First-match-wins: when a rule matches the model and no earlier rule
/// does, that rule's provider is the resolution, whatever later rules
/// would match.
pub proof fn lemma_first_match_wins(res: RoutingResolver, model: Seq<char>, i: int)
    requires
        0 <= i < res.rules@.len(),
        regex_matches(res.rules@[i].model@, model),
        forall|j: int| 0 <= j < i ==> !regex_matches((#[trigger] res.rules@[j]).model@, model),
    ensures
        res.picked_provider(model) == res.rules@[i].provider@,
{
    lemma_first_match_bounds(res.rules@, model);
    let f = first_match(res.rules@, model);
    if f < 0 {
        assert(!regex_matches(res.rules@[i].model@, model));
    } else {
        if f < i {
            assert(!regex_matches(res.rules@[f].model@, model));
        }
        if f > i {
            assert(!regex_matches(res.rules@[i].model@, model));
        }
    }
}

} // verus!
