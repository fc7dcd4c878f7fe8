//! A speech and chat server, as functions on plain values.
//!
//! A browser sends speech over a WebSocket and gets transcripts back; a chat
//! proxy streams the answers of a language model and lets it call agents that
//! fetch pages, tell the time, the weather and share prices. What the server
//! decides is here: the protocol, the sessions, the limits, the configuration,
//! the conversation loop and the agents, each with a contract. Reading, sending
//! and waiting are the caller's part.

pub mod agents;
pub mod backend;
pub mod config;
pub mod config_file;
pub mod error_code;
pub mod fingerprint;
pub mod http;
pub mod json;
pub mod llm;
pub mod llm_prompt;
pub mod maps;
pub mod middleware;
pub mod net;
pub mod proto;
pub mod rate_limit;
pub mod round;
pub mod router;
pub mod server;
pub mod session;
pub mod sse;
pub mod static_assets;
pub mod text;
pub mod tool_loop;
pub mod validation;
pub mod version;
pub mod watchdog;
pub mod ws_handler;
