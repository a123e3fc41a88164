//! Quality gate for an AI coding agent: the hook decision engine.

pub mod cli;
pub mod config;
pub mod engine;
pub mod error;
pub mod hooks;
pub mod invariants;
pub mod json;
pub mod storage;
pub mod template;
pub mod text;
pub mod time;

pub use config::Config;
pub use error::Error;
