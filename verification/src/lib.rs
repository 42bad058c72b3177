pub mod agent;
pub mod agent_prompt;
pub mod error;
pub mod json;
pub mod ordmap;
pub mod text;
pub mod session;
pub mod config;
pub mod tools;
pub mod memory;
pub mod client;
pub mod summarizer;
pub mod event;
