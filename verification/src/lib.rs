//! Verified core of the Savvagent terminal coding agent.
pub mod text;
pub mod fence;
pub mod plugin;
pub mod canvas;
pub mod paths;
pub mod sensitive_paths;
pub mod permissions;
pub mod project;
pub mod sandbox;
pub mod capabilities;
pub mod config;
pub mod protocol;
pub mod default_prompt;
pub mod tools;
pub mod session;
pub mod turn;
pub mod subhost;
pub mod anthropic;
pub mod sse;
pub mod guest_json;
pub mod gemini;
pub mod ollama;
pub mod openai;
pub mod ollama_chat;
pub mod json;
pub mod gemini_schema;
