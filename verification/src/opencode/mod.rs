//! The OpenCode coding agent: its server, its sessions and the events that it streams.
pub mod approvals;
pub mod error;
pub mod event_report;
pub mod events;
pub mod executor;
pub mod inputs;
pub mod listener;
pub mod logs;
pub mod normalize;
pub mod pieces;
pub mod report;
pub mod server_url;
pub mod session;
pub mod shown_calls;
pub mod sse;
pub mod stream;
pub mod tool_calls;
pub mod tools;
pub mod types;
