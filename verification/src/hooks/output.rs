//! Hook output records.

use crate::engine::state::opt_view;
use crate::json::{JsonValue, JsonView};
use vstd::prelude::*;

verus! {

/// The one decision a hook output can carry; approval is the absence of a decision.
#[derive(Clone, Copy, Debug, PartialEq, Eq, Structural)]
pub enum HookDecision {
    /// Block the action.
    Block,
}

/// Output returned from the session-start, user-prompt, stop and subagent-stop hooks.
#[derive(Debug, PartialEq, Eq)]
pub struct HookOutput {
    /// `Some(Block)` to block; `None` lets the action proceed.
    pub decision: Option<HookDecision>,
    /// Reason for the decision (present when blocking).
    pub reason: Option<String>,
    /// Additional context to inject into the conversation.
    pub additional_context: Option<String>,
}

/// The mathematical model of [`HookOutput`].
pub struct HookOutputView {
    pub decision: Option<HookDecision>,
    pub reason: Option<Seq<char>>,
    pub additional_context: Option<Seq<char>>,
}

impl View for HookOutput {
    type V = HookOutputView;

    open spec fn view(&self) -> HookOutputView {
        HookOutputView {
            decision: self.decision,
            reason: opt_view(self.reason),
            additional_context: opt_view(self.additional_context),
        }
    }
}

/// The output that lets the action proceed.
pub open spec fn approval() -> HookOutputView {
    HookOutputView { decision: None, reason: None, additional_context: None }
}

/// The output that blocks with `reason`.
pub open spec fn blocking(reason: Seq<char>) -> HookOutputView {
    HookOutputView { decision: Some(HookDecision::Block), reason: Some(reason), additional_context: None }
}

impl HookOutput {
    /// An approve output: no decision, no reason.
    pub fn approve() -> (r: Self)
        ensures
            r@ == approval(),
    {
        HookOutput { decision: None, reason: None, additional_context: None }
    }

    /// A block output with a reason.
    pub fn block(reason: &str) -> (r: Self)
        ensures
            r@ == blocking(reason@),
    {
        HookOutput {
            decision: Some(HookDecision::Block),
            reason: Some(reason.to_owned()),
            additional_context: None,
        }
    }
}

/// Permission decision of the pre-tool-use hook.
#[derive(Clone, Copy, Debug, PartialEq, Eq, Structural)]
pub enum PermissionDecision {
    /// Allow the tool to execute.
    Allow,
    /// Deny the tool execution.
    Deny,
    /// Ask the user for permission.
    Ask,
}

/// Decision record of the pre-tool-use hook.
#[derive(Debug, PartialEq, Eq)]
pub struct PreToolUseDecision {
    /// Always `"PreToolUse"`.
    pub hook_event_name: String,
    pub permission_decision: PermissionDecision,
    pub reason: Option<String>,
    /// Input to replace the original with (never set by the engine).
    pub updated_input: Option<JsonValue>,
}

/// Output of the pre-tool-use hook.
#[derive(Debug, PartialEq, Eq)]
pub struct PreToolUseOutput {
    pub hook_specific_output: PreToolUseDecision,
}

/// The mathematical model of [`PreToolUseOutput`].
pub struct PreToolUseView {
    pub hook_event_name: Seq<char>,
    pub permission_decision: PermissionDecision,
    pub reason: Option<Seq<char>>,
    pub updated_input: Option<JsonView>,
}

impl View for PreToolUseOutput {
    type V = PreToolUseView;

    open spec fn view(&self) -> PreToolUseView {
        PreToolUseView {
            hook_event_name: self.hook_specific_output.hook_event_name@,
            permission_decision: self.hook_specific_output.permission_decision,
            reason: opt_view(self.hook_specific_output.reason),
            updated_input: opt_view(self.hook_specific_output.updated_input),
        }
    }
}

/// The pre-tool-use output with the given decision and reason.
pub open spec fn permission(decision: PermissionDecision, reason: Option<Seq<char>>) -> PreToolUseView {
    PreToolUseView {
        hook_event_name: "PreToolUse"@,
        permission_decision: decision,
        reason,
        updated_input: None,
    }
}

impl PreToolUseOutput {
    /// An allow decision.
    pub fn allow() -> (r: Self)
        ensures
            r@ == permission(PermissionDecision::Allow, None),
    {
        PreToolUseOutput {
            hook_specific_output: PreToolUseDecision {
                hook_event_name: "PreToolUse".to_owned(),
                permission_decision: PermissionDecision::Allow,
                reason: None,
                updated_input: None,
            },
        }
    }

    /// A deny decision with a reason.
    pub fn deny(reason: &str) -> (r: Self)
        ensures
            r@ == permission(PermissionDecision::Deny, Some(reason@)),
    {
        PreToolUseOutput {
            hook_specific_output: PreToolUseDecision {
                hook_event_name: "PreToolUse".to_owned(),
                permission_decision: PermissionDecision::Deny,
                reason: Some(reason.to_owned()),
                updated_input: None,
            },
        }
    }

    /// An ask decision with a reason.
    pub fn ask(reason: &str) -> (r: Self)
        ensures
            r@ == permission(PermissionDecision::Ask, Some(reason@)),
    {
        PreToolUseOutput {
            hook_specific_output: PreToolUseDecision {
                hook_event_name: "PreToolUse".to_owned(),
                permission_decision: PermissionDecision::Ask,
                reason: Some(reason.to_owned()),
                updated_input: None,
            },
        }
    }
}

} // verus!
