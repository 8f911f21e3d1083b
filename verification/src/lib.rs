pub mod text;
pub mod command;
pub mod utils;
pub mod shell;
pub mod error;
pub mod config;
pub mod telegram;
pub mod web;
pub mod registry;
pub mod api_types;
pub mod progressive;
pub mod channel;
pub mod auth;
pub mod model_runner;
pub mod router;
pub mod skills;
pub mod schedule;
pub mod codex;
pub mod json;
pub mod tape;
pub mod file_ops;
pub mod context;
pub mod anthropic;
pub mod client;
pub mod input;
