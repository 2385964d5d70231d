//! Local-model dispatch for an agent: turns agent requests into OpenAI-style
//! chat completions for an endpoint of the user's choice, and the replies
//! back into the event stream that the agent interface consumes.
//!
//! Everything that decides or computes lives here and is verified. Network
//! traffic, environment variables and wire encoding of the request body
//! belong to the caller.

pub mod agent;
pub mod buffered_dispatch;
pub mod conversation;
pub mod events;
pub mod flatten;
pub mod json;
pub mod layout;
pub mod local_dispatch;
pub mod local_provider;
pub mod mint;
pub mod numbers;
pub mod openai;
pub mod pending;
pub mod promises;
pub mod record;
pub mod replies;
pub mod schema;
pub mod spacing;
pub mod spelling;
pub mod stream_laws;
pub mod streaming;
pub mod text;
pub mod tool_laws;
pub mod tool_results;
pub mod tools;
pub mod values;
