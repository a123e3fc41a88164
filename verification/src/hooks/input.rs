//! Hook input record, and what the host hands over with it.

use crate::json::JsonValue;
use crate::time::Timestamp;
use vstd::prelude::*;

verus! {

/// Input received from the host for one hook invocation.
#[derive(Debug, Clone)]
pub struct HookInput {
    /// Session identifier.
    pub session_id: String,
    /// Current working directory.
    pub cwd: String,
    /// User prompt (user-prompt hook).
    pub prompt: Option<String>,
    /// Tool name (pre-tool-use hook).
    pub tool_name: Option<String>,
    /// Tool input (pre-tool-use hook).
    pub tool_input: Option<JsonValue>,
    /// Tool response (post-tool-use hook).
    pub tool_response: Option<JsonValue>,
    /// Source of session start (startup, resume, clear, compact).
    pub source: Option<String>,
    /// Subagent type (subagent-stop hook).
    pub subagent_type: Option<String>,
    /// Subagent prompt (subagent-stop hook).
    pub subagent_prompt: Option<String>,
    /// When the subagent began execution (subagent-stop hook).
    pub subagent_started_at: Option<Timestamp>,
}

/// A block template that the host found on disk.
#[derive(Debug, Clone, PartialEq, Eq)]
pub struct TemplateFile {
    pub id: String,
    pub text: String,
}

/// The mathematical model of [`TemplateFile`].
pub struct TemplateFileView {
    pub id: Seq<char>,
    pub text: Seq<char>,
}

impl View for TemplateFile {
    type V = TemplateFileView;

    open spec fn view(&self) -> TemplateFileView {
        TemplateFileView { id: self.id@, text: self.text@ }
    }
}

/// What the host found out before the call. The engine reads no files and
/// runs no programs: the host looks, and hands over what it saw.
#[derive(Debug, Clone)]
pub struct HostContext {
    /// Whether the `codex` second-opinion helper is on the search path.
    pub codex_available: bool,
    /// Whether the `gemini` second-opinion helper is on the search path.
    pub gemini_available: bool,
    /// The block templates present on disk.
    pub templates: Vec<TemplateFile>,
}

impl Default for HostContext {
    /// A host with no helpers and no templates on disk.
    fn default() -> (r: Self)
        ensures
            !r.codex_available,
            !r.gemini_available,
            r.templates@.len() == 0,
    {
        HostContext { codex_available: false, gemini_available: false, templates: Vec::new() }
    }
}

} // verus!
