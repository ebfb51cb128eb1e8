//! Core of a desktop assistant shell: the retry/backoff policy and
//! connection supervision for a duplex bridge to a local backend, the
//! router for inbound control messages, the incremental parser and
//! event discipline of a streaming chat relay, and the validation
//! rules of the memory client.
//!
//! All I/O (HTTP, WebSocket, timers) lives outside this crate; these
//! modules hold the decisions and the parsing, stated and proved.
pub mod backoff;
pub mod config;
pub mod control;
pub mod event;
pub mod memory;
pub mod relay;
pub mod sse;
pub mod supervisor;
pub mod text;
