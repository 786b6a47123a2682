//! An OpenAI-compatible chat-completions front for the Cursor agent:
//! request and stream-event parsing, response building, configuration
//! merging, session mapping and the completion retry rule.

pub mod text;
pub mod json;
pub mod cursor;
pub mod openai;
pub mod config;
pub mod session;
pub mod service;
pub mod server;
