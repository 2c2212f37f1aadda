//! Provider-agnostic proxy library for large-language-model backends.
//!
//! Callers issue normalized chat-completion and embedding requests; the
//! library selects an upstream provider by routing rules, translates the
//! canonical request to the vendor dialect, maps upstream failures into a
//! closed error taxonomy, frames server-sent-event streams, and accounts
//! for telemetry. All decision logic is verified; the surrounding I/O is
//! left to the embedding application.

use vstd::prelude::*;

pub mod config;
pub mod error;
pub mod model;
pub mod normalizer;
pub mod provider;
pub mod provider_factory;
pub mod providers;
pub mod router;
pub mod sse;
pub mod stream;
pub mod telemetry;
pub mod text;
pub mod transport;

verus! {

/// Largest number of bytes the SSE line buffer may hold before the stream
/// is terminated with a buffer-overflow error.
pub const MAX_SSE_BUFFER: usize = 2097152;

} // verus!
