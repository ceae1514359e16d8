//! Events for a frontend.

use vstd::prelude::*;
use crate::memory::ToolCallRef;

verus! {

/// What a frontend is told.
#[derive(Clone, Debug)]
pub enum UiEvent {
    Thinking,
    ToolCalled(String),
    Finished(String),
}

/// Tells a frontend what the agent does.
#[derive(Clone, Copy, Debug, PartialEq, Eq, Structural)]
pub struct UiStreamHook;

impl UiStreamHook {
    /// The event for a call of the model.
    pub fn on_llm_start(&self) -> (r: UiEvent)
        ensures
            r is Thinking,
    {
        UiEvent::Thinking
    }

    /// The event for a tool call.
    pub fn before_tool_call(&self, tool: &ToolCallRef) -> (r: UiEvent)
        ensures
            r matches UiEvent::ToolCalled(name) && name@ == tool@.name,
    {
        UiEvent::ToolCalled(tool.name.clone())
    }
}

} // verus!
