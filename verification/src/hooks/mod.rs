//! What happens around the agent's runs: before and after tool calls, and
//! before each call of the model.

use vstd::prelude::*;

pub mod cli_logger;
pub mod observability_hook;
pub mod plan_mode_hook;
pub mod profile_hook;
pub mod prompt_laws;
pub mod sandbox_hook;
pub mod shell_approval;
pub mod skill_hook;
pub mod system_prompt_hook;
pub mod ui_stream;

verus! {

/// A tool call that was refused.
#[derive(Clone, Debug)]
pub struct Rejection {
    /// The tool.
    pub name: String,
    pub reason: String,
}

/// What a refusal holds.
pub struct RejectionView {
    pub name: Seq<char>,
    pub reason: Seq<char>,
}

impl View for Rejection {
    type V = RejectionView;

    open spec fn view(&self) -> RejectionView {
        RejectionView { name: self.name@, reason: self.reason@ }
    }
}

/// A refusal.
pub open spec fn refused(name: Seq<char>, reason: Seq<char>) -> Option<RejectionView> {
    Some(RejectionView { name, reason })
}

/// What stands against a tool call; `None` where it may go ahead.
pub open spec fn gate(r: Result<(), Rejection>) -> Option<RejectionView> {
    match r {
        Ok(_) => None,
        Err(e) => Some(e@),
    }
}

/// Refuses a tool call.
pub fn refuse(name: &str, reason: String) -> (r: Result<(), Rejection>)
    ensures
        gate(r) == refused(name@, reason@),
{
    Err(Rejection { name: name.to_owned(), reason })
}

/// How a run ended.
#[derive(Clone, Debug)]
pub enum RunOutcome {
    Success { answer: String },
    Error { error: String },
    Cancelled,
}

} // verus!
