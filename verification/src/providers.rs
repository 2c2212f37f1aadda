//! The provider adapters: each translates canonical requests and
//! responses to one vendor's dialect. The embedding application performs
//! the HTTP sends with the payloads and headers these adapters compute.

pub mod anthropic;
pub mod openai;
pub mod openrouter;
