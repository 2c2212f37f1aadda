//! The pre-validated configuration value the library consumes: provider
//! blocks, routing rules, HTTP client settings, and the fields owned by
//! external collaborators (cache, transcript).

use vstd::prelude::*;

verus! {

/// Optional per-vendor provider blocks.
#[derive(Debug, Clone, PartialEq)]
pub struct Providers {
    pub openai: Option<ProviderCfg>,
    pub anthropic: Option<ProviderCfg>,
    pub openrouter: Option<ProviderCfg>,
}

/// One vendor block: the name of the environment variable holding its
/// secret key.
#[derive(Debug, Clone, PartialEq)]
pub struct ProviderCfg {
    pub api_key_env: String,
}

/// Settings consumed by the external cache collaborator.
#[derive(Debug, Clone, PartialEq)]
pub struct CacheCfg {
    pub path: String,
    pub ttl_seconds: u64,
}

/// When the external transcript writer syncs to disk.
#[derive(Debug, Clone, Copy, PartialEq, Eq, Structural)]
pub enum FsyncPolicy {
    Off,
    Commit,
    Always,
}

/// Settings consumed by the external transcript writer.
#[derive(Debug, Clone, PartialEq)]
pub struct TranscriptCfg {
    pub dir: String,
    pub segment_mb: u32,
    pub fsync: FsyncPolicy,
    pub redact_builtin: bool,
}

/// HTTP client settings: timeouts in milliseconds and an optional per-host
/// idle connection cap.
#[derive(Debug, Clone, PartialEq)]
pub struct HttpCfg {
    pub connect_timeout_ms: u64,
    pub request_timeout_ms: u64,
    pub pool_max_idle_per_host: Option<usize>,
}

/// The default transcript segment size in mebibytes.
pub fn default_segment_mb() -> (r: u32)
    ensures
        r == 64,
{
    64
}

/// The default transcript sync policy.
pub fn default_fsync() -> (r: FsyncPolicy)
    ensures
        r == FsyncPolicy::Commit,
{
    FsyncPolicy::Commit
}

/// The default TCP connect timeout in milliseconds.
pub fn default_connect_timeout_ms() -> (r: u64)
    ensures
        r == 5000,
{
    5000
}

/// The default total request timeout in milliseconds.
pub fn default_request_timeout_ms() -> (r: u64)
    ensures
        r == 60000,
{
    60000
}

impl Default for HttpCfg {
    /// The default HTTP settings: five-second connect timeout, one-minute
    /// request timeout, no idle-pool cap.
    fn default() -> (r: Self)
        ensures
            r.connect_timeout_ms == 5000,
            r.request_timeout_ms == 60000,
            r.pool_max_idle_per_host is None,
    {
        HttpCfg {
            connect_timeout_ms: default_connect_timeout_ms(),
            request_timeout_ms: default_request_timeout_ms(),
            pool_max_idle_per_host: None,
        }
    }
}

/// One routing rule: a regular expression over the model name and the
/// provider it selects.
#[derive(Debug, Clone, PartialEq)]
pub struct RoutingRule {
    pub model: String,
    pub provider: String,
}

/// The ordered routing rules and the default provider.
#[derive(Debug, Clone, PartialEq)]
pub struct RoutingCfg {
    pub default: String,
    pub rules: Vec<RoutingRule>,
}

/// The complete configuration value.
#[derive(Debug, Clone, PartialEq)]
pub struct Config {
    pub providers: Providers,
    pub cache: CacheCfg,
    pub transcript: TranscriptCfg,
    pub routing: RoutingCfg,
    pub http: HttpCfg,
}

} // verus!
