//! Core types and hook logic.

pub mod bash;
pub mod circuit_breaker;
pub mod gates;
pub mod hooks;
pub mod state;
pub mod trace;
pub mod truncate;

pub use gates::handle_pre_tool_use;
pub use hooks::{
    handle_session_start, handle_session_start_with_config, handle_stop, handle_stop_with_config,
    handle_subagent_stop, handle_user_prompt, handle_user_prompt_with_config,
};
pub use state::{
    AttemptOutcome, Decision, DecisionRecord, EventType, GateTrigger, ReviewAttempt, ReviewState,
    SessionState, TraceEvent, TruncatedInput,
};
