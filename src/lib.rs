//! A bridge between a tool-call interface and a language-analysis engine: the framing
//! of engine messages, the correlation of requests with their responses, the cache of
//! pushed diagnostics, the bookkeeping of open documents, the waits for diagnostics to
//! settle, and the routing of tool calls.
pub mod cache;
pub mod client;
pub mod correlator;
pub mod diagnostics;
pub mod framing;
pub mod json;
pub mod poller;
pub mod protocol;
pub mod sample;
pub mod server;
pub mod timeouts;
pub mod tools;
