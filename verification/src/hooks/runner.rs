//! Hook dispatch.

use crate::config::Config;
use crate::engine::hooks::{
    handle_session_start_with_config, handle_stop_with_config, handle_subagent_stop,
    handle_user_prompt_with_config, prompt_done, prompt_effect, prompt_of, start_done,
    start_effect, stop_done, stop_effect, subagent_done, subagent_effect,
};
use crate::engine::state::views;
use crate::hooks::input::{HookInput, HostContext};
use crate::hooks::output::{approval, HookOutput};
use crate::storage::traits::MessageStore;
use crate::text::str_eq;
use vstd::prelude::*;

verus! {

/// `name` is the name of a hook: one of the four that `dispatch_hook` knows, or `pre-tool-use`.
pub open spec fn known_hook(name: Seq<char>) -> bool {
    ||| name == "session-start"@
    ||| name == "user-prompt"@
    ||| name == "stop"@
    ||| name == "subagent-stop"@
    ||| name == "pre-tool-use"@
}

/// Whether `name` is the name of a hook.
pub fn is_known_hook(name: &str) -> (r: bool)
    ensures
        r == known_hook(name@),
{
    str_eq(name, "session-start") || str_eq(name, "user-prompt") || str_eq(name, "stop") || str_eq(
        name,
        "subagent-stop",
    ) || str_eq(name, "pre-tool-use")
}

/// Dispatches a hook by name, under the configuration in force. A name that
/// no hook bears is approved: the engine fails open.
pub fn dispatch_hook<S: MessageStore>(
    name: &str,
    input: &HookInput,
    store: &mut S,
    config: &Config,
    host: &HostContext,
) -> (r: HookOutput)
    ensures
        if name@ == "session-start"@ {
            &&& r@.decision is None
            &&& start_effect(
                old(store).sessions(),
                final(store).sessions(),
                r@,
                *input,
                host.codex_available,
                host.gemini_available,
                config.trace.max_events as nat,
            )
            &&& old(store).never_fails() ==> start_done(
                old(store).sessions(),
                final(store).sessions(),
                r@,
                *input,
                host.codex_available,
                host.gemini_available,
                config.trace.max_events as nat,
            )
        } else if name@ == "user-prompt"@ {
            &&& r@ == approval()
            &&& prompt_effect(
                old(store).sessions(),
                final(store).sessions(),
                input.session_id@,
                prompt_of(*input),
                config.trace.max_events as nat,
            )
            &&& old(store).never_fails() ==> prompt_done(
                old(store).sessions(),
                final(store).sessions(),
                input.session_id@,
                prompt_of(*input),
                config.trace.max_events as nat,
            )
        } else if name@ == "stop"@ {
            &&& stop_effect(
                old(store).sessions(),
                final(store).sessions(),
                r@,
                input.session_id@,
                config.circuit_breaker.max_blocks,
                config.trace.max_events as nat,
                config.templates@,
                views(host.templates@),
            )
            &&& old(store).never_fails() ==> stop_done(
                old(store).sessions(),
                final(store).sessions(),
                r@,
                input.session_id@,
                config.circuit_breaker.max_blocks,
                config.trace.max_events as nat,
                config.templates@,
                views(host.templates@),
            )
        } else if name@ == "subagent-stop"@ {
            &&& final(store).sessions() == old(store).sessions()
            &&& subagent_effect(old(store).sessions(), r@, *input)
            &&& old(store).never_fails() ==> subagent_done(old(store).sessions(), r@, *input)
        } else {
            r@ == approval() && final(store).sessions() == old(store).sessions()
        },
{
    if str_eq(name, "session-start") {
        handle_session_start_with_config(input, store, config, host)
    } else if str_eq(name, "user-prompt") {
        handle_user_prompt_with_config(input, store, config)
    } else if str_eq(name, "stop") {
        handle_stop_with_config(input, store, config, host)
    } else if str_eq(name, "subagent-stop") {
        handle_subagent_stop(input, &*store)
    } else {
        HookOutput::approve()
    }
}

} // verus!
