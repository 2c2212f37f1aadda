//! Key validation with redaction, and the provider registry: the
//! name-keyed table of enabled providers, always holding the null
//! provider, with OpenAI and OpenRouter enabled when their environment
//! keys are present and well-shaped.

use vstd::prelude::*;

verus! {

use crate::config::{Config, Providers};
use crate::error::{AiProxyError, CoreResult};
use crate::provider::Capability;
use crate::text::{concat2, str_to_chars, push_char};

/// A secret carrier: holds an API key whose value never appears in debug
/// or display output, only behind `expose`.
pub struct SecretKey {
    value: String,
}

impl View for SecretKey {
    type V = Seq<char>;

    closed spec fn view(&self) -> Seq<char> {
        self.value@
    }
}

impl SecretKey {
    /// Wraps the raw secret.
    pub fn new(value: String) -> (r: Self)
        ensures
            r@ == value@,
    {
        SecretKey { value }
    }

    /// The raw secret, for building an authorization header.
    pub fn expose(&self) -> (r: &str)
        ensures
            r@ == self@,
    {
        self.value.as_str()
    }
}

/// The redacted form of a secret: three asterisks and at most its last
/// four characters.
pub open spec fn redact_spec(s: Seq<char>) -> Seq<char> {
    "***"@ + s.skip(if s.len() >= 4 {
        s.len() - 4
    } else {
        0
    })
}

/// Redacts a secret to `***` plus its last four characters.
pub fn redact_tail(s: &str) -> (r: String)
    ensures
        r@ == redact_spec(s@),
{
    let chars = str_to_chars(s);
    let start: usize = if chars.len() >= 4 {
        chars.len() - 4
    } else {
        0
    };
    let mut r: String = "***".to_owned();
    let mut i: usize = start;
    while i < chars.len()
        invariant
            start <= i <= chars@.len(),
            r@ == "***"@ + chars@.subrange(start as int, i as int),
        decreases chars@.len() - i,
    {
        push_char(&mut r, chars[i]);
        i = i + 1;
        proof {
            assert("***"@ + chars@.subrange(start as int, i as int) =~= ("***"@
                + chars@.subrange(start as int, i - 1)).push(chars@[i - 1]));
        }
    }
    proof {
        assert(chars@.subrange(start as int, chars@.len() as int) =~= chars@.skip(start as int));
    }
    r
}

/// The masked form of a bearer token for debug output: the first six and
/// last four characters when the token is long enough, nothing otherwise.
pub open spec fn mask_bearer_spec(raw: Seq<char>) -> Seq<char> {
    if raw.len() > 10 {
        "Bearer "@ + raw.take(6) + "****"@ + raw.skip(raw.len() - 4)
    } else {
        "Bearer ****"@
    }
}

/// Masks a bearer token for debug output, never exposing more than its
/// first six and last four characters.
pub fn mask_bearer(raw: &str) -> (r: String)
    ensures
        r@ == mask_bearer_spec(raw@),
{
    let chars = str_to_chars(raw);
    if chars.len() > 10 {
        let mut r: String = "Bearer ".to_owned();
        let mut i: usize = 0;
        proof {
            assert("Bearer "@ + chars@.take(0) =~= "Bearer "@);
        }
        while i < 6
            invariant
                i <= 6,
                chars@.len() > 10,
                r@ == "Bearer "@ + chars@.take(i as int),
            decreases 6 - i,
        {
            push_char(&mut r, chars[i]);
            i = i + 1;
            proof {
                assert("Bearer "@ + chars@.take(i as int) =~= ("Bearer "@ + chars@.take(i - 1)).push(
                    chars@[i - 1],
                ));
            }
        }
        r.append("****");
        let mut j: usize = chars.len() - 4;
        let ghost start = chars@.len() - 4;
        proof {
            assert(chars@.subrange(start, start) =~= Seq::<char>::empty());
            assert("Bearer "@ + chars@.take(6) + "****"@ + chars@.subrange(start, start)
                =~= "Bearer "@ + chars@.take(6) + "****"@);
        }
        while j < chars.len()
            invariant
                start <= j <= chars@.len(),
                start == chars@.len() - 4,
                chars@.len() > 10,
                r@ == "Bearer "@ + chars@.take(6) + "****"@ + chars@.subrange(start, j as int),
            decreases chars@.len() - j,
        {
            push_char(&mut r, chars[j]);
            j = j + 1;
            proof {
                assert("Bearer "@ + chars@.take(6) + "****"@ + chars@.subrange(start, j as int)
                    =~= ("Bearer "@ + chars@.take(6) + "****"@ + chars@.subrange(start, j - 1)).push(
                    chars@[j - 1],
                ));
            }
        }
        proof {
            assert(chars@.subrange(start, chars@.len() as int) =~= chars@.skip(start));
        }
        r
    } else {
        "Bearer ****".to_owned()
    }
}

/// Whether the byte prefix of `v` is exactly `p`.
fn chars_have_prefix(v: &Vec<char>, p: &Vec<char>) -> (r: bool)
    ensures
        r == (v@.len() >= p@.len() && v@.take(p@.len() as int) == p@),
{
    if v.len() < p.len() {
        return false;
    }
    let mut i: usize = 0;
    while i < p.len()
        invariant
            i <= p@.len() <= v@.len(),
            forall|j: int| 0 <= j < i ==> v@[j] == p@[j],
        decreases p@.len() - i,
    {
        if v[i] != p[i] {
            proof {
                assert(v@.take(p@.len() as int)[i as int] == v@[i as int]);
            }
            return false;
        }
        i = i + 1;
    }
    proof {
        assert(v@.take(p@.len() as int) =~= p@);
    }
    true
}

/// The required shape of an OpenAI key: the `sk-` prefix and at least
/// forty characters.
pub open spec fn openai_key_shape(s: Seq<char>) -> bool {
    s.len() >= 40 && s.take(3) == "sk-"@
}

/// The required shape of an OpenRouter key: the `sk-or-` prefix and at
/// least twenty characters.
pub open spec fn openrouter_key_shape(s: Seq<char>) -> bool {
    s.len() >= 20 && s.take(6) == "sk-or-"@
}

/// Whether the key is project-scoped: the `sk-proj-` prefix.
pub open spec fn openai_project_key_shape(s: Seq<char>) -> bool {
    s.len() >= 8 && s.take(8) == "sk-proj-"@
}

/// Whether a key has the OpenAI shape.
pub fn looks_like_openai_key(s: &str) -> (r: bool)
    ensures
        r == openai_key_shape(s@),
{
    proof {
        reveal_strlit("sk-");
    }
    let chars = str_to_chars(s);
    let prefix = str_to_chars("sk-");
    chars.len() >= 40 && chars_have_prefix(&chars, &prefix)
}

/// Whether a key has the OpenRouter shape.
pub fn looks_like_openrouter_key(s: &str) -> (r: bool)
    ensures
        r == openrouter_key_shape(s@),
{
    proof {
        reveal_strlit("sk-or-");
    }
    let chars = str_to_chars(s);
    let prefix = str_to_chars("sk-or-");
    chars.len() >= 20 && chars_have_prefix(&chars, &prefix)
}

/// Whether a key is project-scoped.
pub fn is_openai_project_key(s: &str) -> (r: bool)
    ensures
        r == openai_project_key_shape(s@),
{
    proof {
        reveal_strlit("sk-proj-");
    }
    let chars = str_to_chars(s);
    let prefix = str_to_chars("sk-proj-");
    chars_have_prefix(&chars, &prefix)
}

/// Accepts an OpenAI key of the right shape; any other value is rejected
/// with a message that shows only the redacted tail of the secret.
pub fn validate_openai_key(s: &str) -> (r: CoreResult<SecretKey>)
    ensures
        openai_key_shape(s@) ==> (r matches Ok(k) && k@ == s@),
        !openai_key_shape(s@) ==> (r matches Err(e) && e matches AiProxyError::Validation(m)
            && m@ == "OPENAI_API_KEY looks invalid: "@ + redact_spec(s@)),
{
    if looks_like_openai_key(s) {
        Ok(SecretKey::new(s.to_owned()))
    } else {
        let red = redact_tail(s);
        Err(AiProxyError::Validation(concat2("OPENAI_API_KEY looks invalid: ", red.as_str())))
    }
}

/// Accepts an OpenRouter key of the right shape; any other value is
/// rejected with a message that shows only the redacted tail.
pub fn validate_openrouter_key(s: &str) -> (r: CoreResult<SecretKey>)
    ensures
        openrouter_key_shape(s@) ==> (r matches Ok(k) && k@ == s@),
        !openrouter_key_shape(s@) ==> (r matches Err(e) && e matches AiProxyError::Validation(m)
            && m@ == "OPENROUTER_API_KEY looks invalid: "@ + redact_spec(s@)),
{
    if looks_like_openrouter_key(s) {
        Ok(SecretKey::new(s.to_owned()))
    } else {
        let red = redact_tail(s);
        Err(AiProxyError::Validation(concat2("OPENROUTER_API_KEY looks invalid: ", red.as_str())))
    }
}

/// Whether the routing configuration names this provider, by default or
/// in any rule.
pub open spec fn provider_referenced(cfg: Config, name: Seq<char>) -> bool {
    cfg.routing.default@ == name || exists|i: int|
        0 <= i < cfg.routing.rules@.len() && (#[trigger] cfg.routing.rules@[i]).provider@ == name
}

/// Whether the routing references the provider, by default or by rule.
pub fn is_provider_referenced(cfg: &Config, name: &str) -> (r: bool)
    ensures
        r == provider_referenced(*cfg, name@),
{
    let owned = name.to_owned();
    if cfg.routing.default.eq(&owned) {
        return true;
    }
    let mut i: usize = 0;
    while i < cfg.routing.rules.len()
        invariant
            i <= cfg.routing.rules@.len(),
            owned@ == name@,
            forall|j: int| 0 <= j < i ==> (#[trigger] cfg.routing.rules@[j]).provider@ != name@,
        decreases cfg.routing.rules@.len() - i,
    {
        if cfg.routing.rules[i].provider.eq(&owned) {
            return true;
        }
        i = i + 1;
    }
    false
}

/// Whether any vendor block is configured.
pub fn has_any_provider(p: &Providers) -> (r: bool)
    ensures
        r == (p.openai is Some || p.anthropic is Some || p.openrouter is Some),
{
    p.openai.is_some() || p.anthropic.is_some() || p.openrouter.is_some()
}

/// The concrete adapter standing behind a registry entry.
#[derive(Debug, Clone, Copy, PartialEq, Eq, Structural)]
pub enum ProviderKind {
    OpenAI,
    Anthropic,
    OpenRouter,
    Null,
}

/// One registered provider: its name, adapter kind, granted verbs, and
/// the connection settings the adapter is built from.
pub struct RegEntry {
    pub name: String,
    pub kind: ProviderKind,
    pub chat: bool,
    pub embed: bool,
    pub caps: Vec<Capability>,
    pub base: String,
    pub org: Option<String>,
    pub project: Option<String>,
    pub api_key: Option<SecretKey>,
}

/// The environment values the registry construction reads, captured at
/// the edge by the embedding application.
#[derive(Debug, Clone, PartialEq)]
pub struct EnvSnapshot {
    pub openai_api_key: Option<String>,
    pub openai_base: Option<String>,
    pub openai_org: Option<String>,
    pub openai_project: Option<String>,
    pub openrouter_api_key: Option<String>,
    pub openrouter_base: Option<String>,
}

impl EnvSnapshot {
    /// A snapshot with nothing set.
    pub fn empty() -> (r: Self)
        ensures
            r.openai_api_key is None,
            r.openai_base is None,
            r.openai_org is None,
            r.openai_project is None,
            r.openrouter_api_key is None,
            r.openrouter_base is None,
    {
        EnvSnapshot {
            openai_api_key: None,
            openai_base: None,
            openai_org: None,
            openai_project: None,
            openrouter_api_key: None,
            openrouter_base: None,
        }
    }
}

/// The null entry: always first, chat and embed capable.
pub open spec fn null_entry_spec(e: RegEntry) -> bool {
    &&& e.name@ == "null"@
    &&& e.kind == ProviderKind::Null
    &&& e.chat
    &&& e.embed
    &&& e.caps@ == seq![Capability::Chat, Capability::Embed]
    &&& e.api_key is None
}

/// Whether the snapshot leaves OpenAI registration out: a project-scoped
/// key without a configured project identifier.
pub open spec fn openai_project_blocked(env: EnvSnapshot) -> bool {
    match env.openai_api_key {
        Some(k) => openai_project_key_shape(k@) && env.openai_project is None,
        None => false,
    }
}

/// Whether OpenAI ends up registered.
pub open spec fn openai_enabled(env: EnvSnapshot) -> bool {
    match env.openai_api_key {
        Some(k) => openai_key_shape(k@) && !openai_project_blocked(env),
        None => false,
    }
}

/// Whether OpenRouter ends up registered.
pub open spec fn openrouter_enabled(env: EnvSnapshot) -> bool {
    match env.openrouter_api_key {
        Some(k) => openrouter_key_shape(k@),
        None => false,
    }
}

/// The OpenAI entry built from the snapshot.
pub open spec fn openai_entry_spec(e: RegEntry, env: EnvSnapshot) -> bool {
    &&& e.name@ == "openai"@
    &&& e.kind == ProviderKind::OpenAI
    &&& e.chat
    &&& e.embed
    &&& e.caps@ == seq![Capability::Chat, Capability::ChatStream, Capability::Embed]
    &&& e.base@ == (match env.openai_base {
        Some(b) => b@,
        None => "https://api.openai.com"@,
    })
    &&& e.org.deep_view() == env.openai_org.deep_view()
    &&& e.project.deep_view() == env.openai_project.deep_view()
    &&& (e.api_key matches Some(k) && k@ == env.openai_api_key->0@)
}

/// The OpenRouter entry built from the snapshot.
pub open spec fn openrouter_entry_spec(e: RegEntry, env: EnvSnapshot) -> bool {
    &&& e.name@ == "openrouter"@
    &&& e.kind == ProviderKind::OpenRouter
    &&& e.chat
    &&& e.embed
    &&& e.caps@ == seq![Capability::Chat, Capability::Embed]
    &&& e.base@ == (match env.openrouter_base {
        Some(b) => b@,
        None => "https://openrouter.ai/api"@,
    })
    &&& e.org is None
    &&& e.project is None
    &&& (e.api_key matches Some(k) && k@ == env.openrouter_api_key->0@)
}

/// What a successfully built registry holds: the null entry, then the
/// enabled vendor entries, and nothing else.
pub open spec fn registry_spec(reg: ProviderRegistry, env: EnvSnapshot) -> bool {
    let oa: int = if openai_enabled(env) {
        1
    } else {
        0
    };
    let orr: int = if openrouter_enabled(env) {
        1
    } else {
        0
    };
    &&& reg.entries@.len() == 1 + oa + orr
    &&& null_entry_spec(reg.entries@[0])
    &&& (openai_enabled(env) ==> openai_entry_spec(reg.entries@[1], env))
    &&& (openrouter_enabled(env) ==> openrouter_entry_spec(reg.entries@[1 + oa], env))
}

/// Registry of the enabled providers by name.
pub struct ProviderRegistry {
    pub entries: Vec<RegEntry>,
}

impl ProviderRegistry {
    /// Builds the registry: the null provider is always present; OpenAI
    /// is enabled when `OPENAI_API_KEY` is present and well-shaped
    /// (honoring base, organization and project overrides), except that a
    /// project-scoped key without a project identifier fails construction
    /// when routing references OpenAI and is skipped otherwise; OpenRouter
    /// is enabled when its key is present and well-shaped. A present but
    /// ill-shaped key fails construction with a redacted message.
    pub fn from_config(cfg: &Config, env: &EnvSnapshot) -> (r: CoreResult<ProviderRegistry>)
        ensures
            ({
                let oa_bad = env.openai_api_key matches Some(k) && !openai_key_shape(k@);
                let oa_block_err = openai_project_blocked(*env) && (match env.openai_api_key {
                    Some(k) => openai_key_shape(k@),
                    None => false,
                }) && provider_referenced(*cfg, "openai"@);
                let or_bad = env.openrouter_api_key matches Some(k) && !openrouter_key_shape(k@);
                if oa_bad {
                    r matches Err(e) && e matches AiProxyError::Validation(m) && m@
                        == "OPENAI_API_KEY looks invalid: "@ + redact_spec(
                        env.openai_api_key->0@,
                    )
                } else if oa_block_err {
                    r matches Err(e) && e matches AiProxyError::Validation(m) && m@
                        == "Project-scoped OpenAI key detected (sk-proj-...). Please set OPENAI_PROJECT=<project_id>."@
                } else if or_bad {
                    r matches Err(e) && e matches AiProxyError::Validation(m) && m@
                        == "OPENROUTER_API_KEY looks invalid: "@ + redact_spec(
                        env.openrouter_api_key->0@,
                    )
                } else {
                    r matches Ok(reg) && registry_spec(reg, *env)
                }
            }),
    {
        let mut entries: Vec<RegEntry> = Vec::new();
        let mut null_caps: Vec<Capability> = Vec::new();
        null_caps.push(Capability::Chat);
        null_caps.push(Capability::Embed);
        proof {
            assert(null_caps@ =~= seq![Capability::Chat, Capability::Embed]);
        }
        entries.push(RegEntry {
            name: "null".to_owned(),
            kind: ProviderKind::Null,
            chat: true,
            embed: true,
            caps: null_caps,
            base: String::new(),
            org: None,
            project: None,
            api_key: None,
        });
        match &env.openai_api_key {
            Some(raw) => {
                let key = match validate_openai_key(raw.as_str()) {
                    Ok(k) => k,
                    Err(e) => {
                        return Err(e);
                    },
                };
                let project: Option<String> = match &env.openai_project {
                    Some(p) => Some(p.clone()),
                    None => None,
                };
                if is_openai_project_key(raw.as_str()) && project.is_none() {
                    if is_provider_referenced(cfg, "openai") {
                        return Err(AiProxyError::Validation(
                            "Project-scoped OpenAI key detected (sk-proj-...). Please set OPENAI_PROJECT=<project_id>.".to_owned(),
                        ));
                    }
                    // Skipped: project key without a project, and routing
                    // does not reference this provider.
                } else {
                    let base: String = match &env.openai_base {
                        Some(b) => b.clone(),
                        None => "https://api.openai.com".to_owned(),
                    };
                    let org: Option<String> = match &env.openai_org {
                        Some(o) => Some(o.clone()),
                        None => None,
                    };
                    let mut oa_caps: Vec<Capability> = Vec::new();
                    oa_caps.push(Capability::Chat);
                    oa_caps.push(Capability::ChatStream);
                    oa_caps.push(Capability::Embed);
                    proof {
                        assert(oa_caps@ =~= seq![
                            Capability::Chat,
                            Capability::ChatStream,
                            Capability::Embed,
                        ]);
                    }
                    entries.push(RegEntry {
                        name: "openai".to_owned(),
                        kind: ProviderKind::OpenAI,
                        chat: true,
                        embed: true,
                        caps: oa_caps,
                        base,
                        org,
                        project,
                        api_key: Some(key),
                    });
                }
            },
            None => (),
        }
        match &env.openrouter_api_key {
            Some(raw) => {
                let key = match validate_openrouter_key(raw.as_str()) {
                    Ok(k) => k,
                    Err(e) => {
                        return Err(e);
                    },
                };
                let base: String = match &env.openrouter_base {
                    Some(b) => b.clone(),
                    None => "https://openrouter.ai/api".to_owned(),
                };
                let mut or_caps: Vec<Capability> = Vec::new();
                or_caps.push(Capability::Chat);
                or_caps.push(Capability::Embed);
                proof {
                    assert(or_caps@ =~= seq![Capability::Chat, Capability::Embed]);
                }
                entries.push(RegEntry {
                    name: "openrouter".to_owned(),
                    kind: ProviderKind::OpenRouter,
                    chat: true,
                    embed: true,
                    caps: or_caps,
                    base,
                    org: None,
                    project: None,
                    api_key: Some(key),
                });
            },
            None => (),
        }
        Ok(ProviderRegistry { entries })
    }

    /// The chat-capable entry of that name, when one is registered.
    pub fn chat(&self, name: &str) -> (r: Option<&RegEntry>)
        ensures
            (r is Some <==> exists|i: int|
                0 <= i < self.entries@.len() && (#[trigger] self.entries@[i]).name@ == name@
                    && self.entries@[i].chat),
            (r matches Some(e) ==> exists|i: int|
                0 <= i < self.entries@.len() && *e == self.entries@[i] && (
                #[trigger] self.entries@[i]).name@ == name@ && self.entries@[i].chat),
    {
        let owned = name.to_owned();
        let mut i: usize = 0;
        while i < self.entries.len()
            invariant
                i <= self.entries@.len(),
                owned@ == name@,
                forall|j: int|
                    0 <= j < i ==> !((#[trigger] self.entries@[j]).name@ == name@
                        && self.entries@[j].chat),
            decreases self.entries@.len() - i,
        {
            if self.entries[i].name.eq(&owned) && self.entries[i].chat {
                return Some(&self.entries[i]);
            }
            i = i + 1;
        }
        None
    }

    /// The embed-capable entry of that name, when one is registered.
    pub fn embed(&self, name: &str) -> (r: Option<&RegEntry>)
        ensures
            (r is Some <==> exists|i: int|
                0 <= i < self.entries@.len() && (#[trigger] self.entries@[i]).name@ == name@
                    && self.entries@[i].embed),
            (r matches Some(e) ==> exists|i: int|
                0 <= i < self.entries@.len() && *e == self.entries@[i] && (
                #[trigger] self.entries@[i]).name@ == name@ && self.entries@[i].embed),
    {
        let owned = name.to_owned();
        let mut i: usize = 0;
        while i < self.entries.len()
            invariant
                i <= self.entries@.len(),
                owned@ == name@,
                forall|j: int|
                    0 <= j < i ==> !((#[trigger] self.entries@[j]).name@ == name@
                        && self.entries@[j].embed),
            decreases self.entries@.len() - i,
        {
            if self.entries[i].name.eq(&owned) && self.entries[i].embed {
                return Some(&self.entries[i]);
            }
            i = i + 1;
        }
        None
    }

    /// The advertised capabilities of that provider name, when registered.
    pub fn caps(&self, name: &str) -> (r: Option<&Vec<Capability>>)
        ensures
            (r is Some <==> exists|i: int|
                0 <= i < self.entries@.len() && (#[trigger] self.entries@[i]).name@ == name@),
            (r matches Some(c) ==> exists|i: int|
                0 <= i < self.entries@.len() && (#[trigger] self.entries@[i]).name@ == name@ && c@
                    == self.entries@[i].caps@),
    {
        let owned = name.to_owned();
        let mut i: usize = 0;
        while i < self.entries.len()
            invariant
                i <= self.entries@.len(),
                owned@ == name@,
                forall|j: int| 0 <= j < i ==> (#[trigger] self.entries@[j]).name@ != name@,
            decreases self.entries@.len() - i,
        {
            if self.entries[i].name.eq(&owned) {
                return Some(&self.entries[i].caps);
            }
            i = i + 1;
        }
        None
    }
}

} // verus!
