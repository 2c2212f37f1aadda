//! The closed error taxonomy used across the stack.

use vstd::prelude::*;

verus! {

/// Every failure the library can surface. Carried I/O and wrapped errors
/// are held as their rendered text.
#[derive(Debug, Clone, PartialEq)]
pub enum AiProxyError {
    /// An input was rejected before any upstream call.
    Validation(String),
    /// The upstream returned 429; `retry_after` holds a numeric
    /// `Retry-After` hint in seconds when one was sent.
    RateLimited { provider: String, retry_after: Option<u64> },
    /// Reserved for future budget enforcement; never emitted by the core.
    BudgetExceeded { remaining: u32 },
    /// The upstream returned a 5xx status or could not be reached.
    ProviderUnavailable { provider: String },
    /// Any other upstream failure, with the status or vendor code and a
    /// bounded message.
    ProviderError { provider: String, code: String, message: String },
    /// A local I/O failure, rendered.
    Io(String),
    /// Anything else, rendered.
    Other(String),
}

/// Result type used at the library's public boundaries.
pub type CoreResult<T> = Result<T, AiProxyError>;

/// The mathematical value of an error: every text field as its character
/// sequence.
pub enum ErrorV {
    Validation(Seq<char>),
    RateLimited { provider: Seq<char>, retry_after: Option<u64> },
    BudgetExceeded { remaining: u32 },
    ProviderUnavailable { provider: Seq<char> },
    ProviderError { provider: Seq<char>, code: Seq<char>, message: Seq<char> },
    Io(Seq<char>),
    Other(Seq<char>),
}

impl View for AiProxyError {
    type V = ErrorV;

    open spec fn view(&self) -> ErrorV {
        match self {
            AiProxyError::Validation(m) => ErrorV::Validation(m@),
            AiProxyError::RateLimited { provider, retry_after } => ErrorV::RateLimited {
                provider: provider@,
                retry_after: *retry_after,
            },
            AiProxyError::BudgetExceeded { remaining } => ErrorV::BudgetExceeded {
                remaining: *remaining,
            },
            AiProxyError::ProviderUnavailable { provider } => ErrorV::ProviderUnavailable {
                provider: provider@,
            },
            AiProxyError::ProviderError { provider, code, message } => ErrorV::ProviderError {
                provider: provider@,
                code: code@,
                message: message@,
            },
            AiProxyError::Io(m) => ErrorV::Io(m@),
            AiProxyError::Other(m) => ErrorV::Other(m@),
        }
    }
}

/// The telemetry label of each error kind: the vendor code for a provider
/// error, a fixed snake-case name otherwise.
pub open spec fn kind_label_spec(e: AiProxyError) -> Seq<char> {
    match e {
        AiProxyError::ProviderError { code, .. } => code@,
        AiProxyError::ProviderUnavailable { .. } => seq![
            'p', 'r', 'o', 'v', 'i', 'd', 'e', 'r', '_', 'u', 'n', 'a', 'v', 'a', 'i', 'l', 'a',
            'b', 'l', 'e',
        ],
        AiProxyError::RateLimited { .. } => seq![
            'r', 'a', 't', 'e', '_', 'l', 'i', 'm', 'i', 't', 'e', 'd',
        ],
        AiProxyError::Validation(..) => seq![
            'v', 'a', 'l', 'i', 'd', 'a', 't', 'i', 'o', 'n',
        ],
        AiProxyError::Io(..) => seq!['i', 'o'],
        AiProxyError::Other(..) => seq!['o', 't', 'h', 'e', 'r'],
        AiProxyError::BudgetExceeded { .. } => seq![
            'b', 'u', 'd', 'g', 'e', 't', '_', 'e', 'x', 'c', 'e', 'e', 'd', 'e', 'd',
        ],
    }
}

impl AiProxyError {
    /// The label recorded as `error_kind` in telemetry for this error.
    pub fn kind_label(&self) -> (r: String)
        ensures
            r@ == kind_label_spec(*self),
    {
        proof {
            reveal_strlit("provider_unavailable");
            reveal_strlit("rate_limited");
            reveal_strlit("validation");
            reveal_strlit("io");
            reveal_strlit("other");
            reveal_strlit("budget_exceeded");
        }
        match self {
            AiProxyError::ProviderError { code, .. } => code.clone(),
            AiProxyError::ProviderUnavailable { .. } => {
                let s = "provider_unavailable".to_owned();
                proof {
                    assert(s@ =~= kind_label_spec(*self));
                }
                s
            },
            AiProxyError::RateLimited { .. } => {
                let s = "rate_limited".to_owned();
                proof {
                    assert(s@ =~= kind_label_spec(*self));
                }
                s
            },
            AiProxyError::Validation(..) => {
                let s = "validation".to_owned();
                proof {
                    assert(s@ =~= kind_label_spec(*self));
                }
                s
            },
            AiProxyError::Io(..) => {
                let s = "io".to_owned();
                proof {
                    assert(s@ =~= kind_label_spec(*self));
                }
                s
            },
            AiProxyError::Other(..) => {
                let s = "other".to_owned();
                proof {
                    assert(s@ =~= kind_label_spec(*self));
                }
                s
            },
            AiProxyError::BudgetExceeded { .. } => {
                let s = "budget_exceeded".to_owned();
                proof {
                    assert(s@ =~= kind_label_spec(*self));
                }
                s
            },
        }
    }
}

} // verus!
