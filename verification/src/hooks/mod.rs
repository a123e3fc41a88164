//! Hook input and output records, and dispatch.

pub mod input;
pub mod output;
pub mod runner;

pub use input::{HookInput, HostContext, TemplateFile};
pub use output::{HookDecision, HookOutput, PermissionDecision, PreToolUseDecision, PreToolUseOutput};
pub use runner::{dispatch_hook, is_known_hook};
