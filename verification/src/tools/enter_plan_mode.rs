//! Lets the model enter plan mode.

use vstd::prelude::*;
use crate::hooks::plan_mode_hook::PlanModeState;
use crate::text;
use crate::tools::{self, reject_args, ErrorView, Param, ToolDef, ToolError};

verus! {

/// What the model reads about the tool.
pub const DESCRIPTION: &'static str = "Enter plan mode — a read-only mode for research and planning. In plan mode, you can only read files, search code, and write to the plan file (.loomis/plan.md). You cannot edit source files or run shell commands.\n\nWhen to use:\n- The user asks for a complex multi-step task that requires research first\n- You need to explore the codebase before making changes\n- The task has architectural implications and the user should review a plan\n- You are unsure about the best approach and want to plan before coding\n\nWhen NOT to use:\n- The user explicitly tells you what to do (no planning needed)\n- The task is a simple, single-file change\n- The user asks you to \"just do it\" or \"go ahead\"\n- Trivial tasks like fixing a typo or adding a comment";

/// The arguments of the tool: there are none.
#[derive(Clone, Copy, Debug, PartialEq, Eq, Structural)]
pub struct EnterPlanModeArgs;

/// The tool, with the path of the plan file for display.
pub struct EnterPlanModeTool {
    pub plan_file_path: String,
}

/// What the model is told when plan mode is on.
pub open spec fn welcome(plan_file: Seq<char>) -> Seq<char> {
    "Plan mode activated. You are now in read-only research and planning mode.
Plan file: "@
        + plan_file
        + "
Allowed tools: read, glob, grep, ls, calculator, ask_user_question, todo, task/subagent, write (plan file only).
Blocked tools: edit, shell.
When your plan is ready, call exit_plan_mode to present it for approval."@
}

/// What a call does, where `directory` says whether the directory of the
/// plan file is there.
pub open spec fn on_call(
    plan_file: Seq<char>,
    state: PlanModeState,
    args: Result<EnterPlanModeArgs, String>,
    directory: Result<(), String>,
) -> (PlanModeState, Result<Seq<char>, ErrorView>) {
    match args {
        Err(e) => (state, Err(tools::undecoded(e@))),
        Ok(_) => if state.active {
            (state, Ok("Already in plan mode. Plan file: "@ + plan_file))
        } else {
            match directory {
                Err(e) => (
                    state,
                    Err(
                        ErrorView::Execution("Failed to create plan file directory: "@ + e@),
                    ),
                ),
                Ok(_) => (PlanModeState { active: true }, Ok(welcome(plan_file))),
            }
        },
    }
}

impl EnterPlanModeTool {
    /// A tool for a plan file.
    pub fn new(plan_file_path: String) -> (r: EnterPlanModeTool)
        ensures
            r.plan_file_path@ == plan_file_path@,
    {
        EnterPlanModeTool { plan_file_path }
    }

    /// The name of the tool.
    pub fn name(&self) -> (r: &'static str)
        ensures
            r@ == "enter_plan_mode"@,
    {
        "enter_plan_mode"
    }

    /// What the model reads about the tool.
    pub fn description(&self) -> (r: &'static str)
        ensures
            r@ == DESCRIPTION@,
    {
        DESCRIPTION
    }

    /// What the tool is to the model.
    pub fn to_def(&self) -> (r: ToolDef)
        ensures
            r.name@ == "enter_plan_mode"@,
            r.description@ == DESCRIPTION@,
            r.parameters@.len() == 0,
    {
        let parameters: Vec<Param> = Vec::new();
        ToolDef { name: "enter_plan_mode", description: DESCRIPTION, parameters }
    }

    /// Whether the directory of the plan file is to be created first.
    pub fn needs_directory(&self, state: PlanModeState) -> (r: bool)
        ensures
            r == !state.active,
    {
        !state.active
    }

    /// Turns plan mode on.
    pub fn execute_stream(
        &self,
        state: &mut PlanModeState,
        args: Result<EnterPlanModeArgs, String>,
        directory: Result<(), String>,
    ) -> (r: Result<String, ToolError>)
        ensures
            (*final(state), tools::answer_view(r)) == on_call(
                self.plan_file_path@,
                *old(state),
                args,
                directory,
            ),
    {
        match args {
            Err(e) => {
                return Err(reject_args(e.as_str()));
            },
            Ok(_) => {},
        }
        if state.active {
            return Ok(
                text::cat2("Already in plan mode. Plan file: ", self.plan_file_path.as_str()),
            );
        }
        match directory {
            Err(e) => Err(
                ToolError::Execution(
                    text::cat2("Failed to create plan file directory: ", e.as_str()),
                ),
            ),
            Ok(_) => {
                *state = PlanModeState { active: true };
                Ok(
                    text::cat3(
                        "Plan mode activated. You are now in read-only research and planning mode.
Plan file: ",
                        self.plan_file_path.as_str(),
                        "
Allowed tools: read, glob, grep, ls, calculator, ask_user_question, todo, task/subagent, write (plan file only).
Blocked tools: edit, shell.
When your plan is ready, call exit_plan_mode to present it for approval.",
                    ),
                )
            },
        }
    }
}

/// A call that succeeds leaves plan mode on; one that fails leaves it as it
/// was.
pub proof fn law_success_means_plan_mode(
    plan_file: Seq<char>,
    state: PlanModeState,
    args: Result<EnterPlanModeArgs, String>,
    directory: Result<(), String>,
)
    ensures
        on_call(plan_file, state, args, directory).1 is Ok ==> on_call(
            plan_file,
            state,
            args,
            directory,
        ).0.active,
        on_call(plan_file, state, args, directory).1 is Err ==> on_call(
            plan_file,
            state,
            args,
            directory,
        ).0 == state,
{
}

} // verus!
