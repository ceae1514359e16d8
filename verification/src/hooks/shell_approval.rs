//! Approval of every shell command.

use vstd::prelude::*;
use crate::hooks::{self, refuse, Rejection, RejectionView};
use crate::json::{self, get_argument};
use crate::memory::{self, ToolCallRef};
use crate::text;

verus! {

/// Asks the user before any shell command runs.
#[derive(Clone, Copy, Debug, PartialEq, Eq, Structural)]
pub struct DangerousCommandApprovalHook;

/// The command of the arguments of a shell call.
pub open spec fn shell_command(arguments: Seq<char>) -> Seq<char> {
    json::argument(json::json_parsed(arguments), arguments, "command"@)
}

/// The command of the arguments of a shell call: the field `command`, or the
/// arguments themselves where they are no JSON.
pub fn parse_shell_command(arguments: &str) -> (r: String)
    ensures
        r@ == shell_command(arguments@),
{
    get_argument(arguments, "command")
}

/// What stands against a call once the user has answered; no answer counts
/// as a no.
pub open spec fn verdict(call: memory::CallView, approved: Option<bool>) -> Option<RejectionView> {
    if call.name != "shell"@ || approved == Some(true) {
        None
    } else {
        hooks::refused("shell"@, "User denied shell command execution"@)
    }
}

impl DangerousCommandApprovalHook {
    /// The command that the user is to be asked about; `None` where the call
    /// is no shell call.
    pub fn request(&self, call: &ToolCallRef) -> (r: Option<String>)
        ensures
            text::opt_text(r) == if call@.name == "shell"@ {
                Some(shell_command(call@.arguments))
            } else {
                None
            },
    {
        if text::same_text(call.name.as_str(), "shell") {
            Some(parse_shell_command(call.arguments.as_str()))
        } else {
            None
        }
    }

    /// Whether the call may go ahead, once the user has answered.
    pub fn before_tool_call(&self, call: &ToolCallRef, approved: Option<bool>) -> (r: Result<
        (),
        Rejection,
    >)
        ensures
            hooks::gate(r) == verdict(call@, approved),
    {
        if !text::same_text(call.name.as_str(), "shell") {
            return Ok(());
        }
        match approved {
            Some(true) => Ok(()),
            _ => refuse("shell", "User denied shell command execution".to_owned()),
        }
    }
}

} // verus!
