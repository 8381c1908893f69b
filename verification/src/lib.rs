//! The core of a bridge between the Anthropic messages API and an
//! opencode server: request mapping, response mapping, the streaming event
//! protocol and the session and retry decisions, with their contracts.

pub mod config;
pub mod json;
pub mod json_parse;
pub mod json_text;
pub mod laws;
pub mod proxy;
pub mod text;
pub mod transform;
