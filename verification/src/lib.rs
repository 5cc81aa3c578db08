//! Collector for server-sent-event chat-completion streams.
//!
//! Consumes the text of an SSE stream chunk by chunk, merges the partial
//! `data:` events into one aggregate, and assembles a single complete
//! chat-completion response once the stream ends.

pub mod collector;
pub mod json;
pub mod laws;
pub mod model;
pub mod types;
