//! Decision logic of a chat assistant: when to speak, how a bounded
//! tool-calling conversation with a generation endpoint proceeds, and the
//! local tools that the conversation may invoke.

pub mod admin;
pub mod ai_handler;
pub mod bluenoise;
pub mod bot;
pub mod chance;
pub mod config;
pub mod db;
pub mod dice;
pub mod dispatch;
pub mod generation;
pub mod image_cache;
pub mod image_fetch;
pub mod message_buffer;
pub mod nyaa_parser;
pub mod text;
pub mod tools;
pub mod transcript;
pub mod webpage;
