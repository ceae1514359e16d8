//! Progress on the terminal.

use vstd::prelude::*;
use crate::memory::ToolCallRef;
use crate::text;

verus! {

/// Prints what the agent does.
#[derive(Clone, Copy, Debug, PartialEq, Eq, Structural)]
pub struct CliLoggerHook;

impl CliLoggerHook {
    /// The line for a call of the model.
    pub fn on_llm_start(&self) -> (r: &'static str)
        ensures
            r@ == "\u{23f3} Agent thinking..."@,
    {
        "\u{23f3} Agent thinking..."
    }

    /// The line for a tool call.
    pub fn before_tool_call(&self, tool: &ToolCallRef) -> (r: String)
        ensures
            r@ == "\u{1f527} Executing tool: "@ + tool@.name + " | args: "@ + tool@.arguments,
    {
        text::cat4(
            "\u{1f527} Executing tool: ",
            tool.name.as_str(),
            " | args: ",
            tool.arguments.as_str(),
        )
    }
}

} // verus!
