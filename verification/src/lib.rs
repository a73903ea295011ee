//! Verified request-admission, stream-scanning and error-classification logic
//! of an OpenAI-compatible LLM gateway.

pub mod byte_pattern;
pub mod multipart;
pub mod text;
pub mod unicode;
pub mod codex;
pub mod decimal;
pub mod outcome;
pub mod proxy_error;
pub mod admission;
pub mod auth;
pub mod lines;
pub mod system_metrics;
pub mod json;
pub mod error_text;
pub mod usage;
pub mod sse;
pub mod collector;
pub mod body_limits;
pub mod catalog;
pub mod proxy_probe;
pub mod jwt;
pub mod request_probe;
pub mod keyword;
pub mod http_rules;
pub mod completion;
pub mod ws_lifecycle;
pub mod quota;
pub mod oauth;
pub mod credentials;
pub mod header_map;
pub mod codex_attempt;
pub mod bounded_body;
pub mod codex_maintenance;
pub mod billing;
pub mod codex_tokens;
pub mod image_edit;
pub mod form_inspection;
pub mod codex_edit_body;
pub mod model_alias;
pub mod websocket_events;
pub mod connector;
pub mod attempt_plan;
pub mod session_affinity;
pub mod request_log;
