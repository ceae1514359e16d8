//! Lets the model present its plan, and leave plan mode where the user
//! approves.

use vstd::prelude::*;
use crate::hooks::plan_mode_hook::PlanModeState;
use crate::text;
use crate::tools::{self, reject_args, ErrorView, Param, ToolDef, ToolError};
use crate::tui::agent_event::InterventionRequest;
use crate::tui::messages::{InterventionResponse, ResponseView};

verus! {

/// What the model reads about the tool.
pub const DESCRIPTION: &'static str = "Exit plan mode and present your plan to the user for approval. This reads the plan file, shows it to the user, and asks them to approve, suggest changes, or cancel.\n\nIf the user suggests changes, their feedback is returned to you so you can revise the plan and call exit_plan_mode again.\n\nWhen to use:\n- You have finished researching and written a plan to the plan file\n- You are ready to present your findings for user review\n- The user has asked you to exit plan mode or present your plan\n\nWhen NOT to use:\n- You are not in plan mode (this will return an error)\n- You have not written a plan yet — write your plan first using the write tool targeting .loomis/plan.md\n- The user has not asked to see your plan and you're still researching";

/// The arguments of the tool: there are none.
#[derive(Clone, Copy, Debug, PartialEq, Eq, Structural)]
pub struct ExitPlanModeArgs;

/// The tool, with the path of the plan file for display.
pub struct ExitPlanModeTool {
    pub plan_file_path: String,
}

/// Why there is no answer of the user.
#[derive(Clone, Copy, Debug, PartialEq, Eq, Structural)]
pub enum NoAnswer {
    Timeout,
    Disconnected,
}

/// The plan, or why it could not be read.
pub open spec fn plan_text(file: Result<String, String>) -> Seq<char> {
    match file {
        Ok(s) => s@,
        Err(e) => "(Could not read plan file: "@ + e@ + ")"@,
    }
}

/// Whether there is no plan.
pub open spec fn is_blank(plan: Seq<char>) -> bool {
    text::trimmed(plan).len() == 0
}

/// What the user is shown.
pub open spec fn question(plan_file: Seq<char>, plan: Seq<char>) -> Seq<char> {
    "The agent has completed its plan and requests approval to proceed.

─── Plan File: "@
        + plan_file + " ───

"@ + (if is_blank(plan) {
        "(Plan file is empty — no plan was written.)"@
    } else {
        plan
    }) + "

─── End of Plan ───"@
}

/// What the model is told where the user wants changes.
pub open spec fn feedback_text(feedback: Seq<char>, plan_file: Seq<char>) -> Seq<char> {
    "The user reviewed your plan and provided suggestions. You are still in plan mode.

─── User Feedback ───

"@
        + feedback
        + "

─── Instructions ──

1. Read the feedback carefully — it tells you what to change or improve.
2. Update the plan file ("@
        + plan_file
        + ") to address each point.
3. Use read/grep/glob as needed to research anything new.
4. When the plan is updated, call exit_plan_mode again to present it."@
}

/// What the user's answer does.
pub open spec fn on_reply(
    plan_file: Seq<char>,
    state: PlanModeState,
    blank: bool,
    reply: Result<ResponseView, NoAnswer>,
) -> (PlanModeState, Result<Seq<char>, ErrorView>) {
    match reply {
        Err(NoAnswer::Timeout) => (
            state,
            Err(
                ErrorView::Execution(
                    "Timed out waiting for plan approval (5 minutes). Staying in plan mode."@,
                ),
            ),
        ),
        Err(NoAnswer::Disconnected) => (
            state,
            Err(
                ErrorView::Execution(
                    "Intervention channel disconnected (TUI may have exited). Staying in plan mode."@,
                ),
            ),
        ),
        Ok(r) => match r.chosen {
            None => (
                state,
                Err(
                    ErrorView::Execution(
                        "Plan review was cancelled. Staying in plan mode. You can revise the plan and call exit_plan_mode again, or the user can use /approve to exit plan mode manually."@,
                    ),
                ),
            ),
            Some(i) => if i == 0 {
                (
                    PlanModeState { active: false },
                    Ok(
                        if blank {
                            "Plan approved! Plan mode deactivated. Full access restored. (Note: the plan file was empty.)"@
                        } else {
                            "Plan approved! Plan mode deactivated. Full access restored. You can now execute the plan."@
                        },
                    ),
                )
            } else if i == 1 {
                (
                    state,
                    Ok(
                        feedback_text(
                            match r.custom_text {
                                Some(s) => s,
                                None => "(No specific feedback provided.)"@,
                            },
                            plan_file,
                        ),
                    ),
                )
            } else if i == 2 {
                (
                    state,
                    Err(
                        ErrorView::Execution(
                            "Plan was not approved. Staying in plan mode. You can revise the plan and call exit_plan_mode again, or the user can use /approve to exit plan mode manually."@,
                        ),
                    ),
                )
            } else {
                (
                    state,
                    Err(
                        ErrorView::Execution(
                            "Unexpected response option "@ + text::decimal(i as nat)
                                + ". Staying in plan mode."@,
                        ),
                    ),
                )
            },
        },
    }
}

/// What an answer of the user holds.
pub open spec fn reply_view(r: Result<InterventionResponse, NoAnswer>) -> Result<
    ResponseView,
    NoAnswer,
> {
    match r {
        Ok(a) => Ok(a@),
        Err(e) => Err(e),
    }
}

fn fail(message: &str) -> (r: Result<String, ToolError>)
    ensures
        tools::answer_view(r) == Err::<Seq<char>, ErrorView>(ErrorView::Execution(message@)),
{
    Err(ToolError::Execution(message.to_owned()))
}

/// Whether there is no plan in the file.
pub fn has_no_plan(plan: &str) -> (r: bool)
    ensures
        r == is_blank(plan@),
{
    text::trim(plan).as_str().is_empty()
}

/// The plan, or why it could not be read.
pub fn plan_content(file: Result<String, String>) -> (r: String)
    ensures
        r@ == plan_text(file),
{
    match file {
        Ok(s) => s,
        Err(e) => text::cat3("(Could not read plan file: ", e.as_str(), ")"),
    }
}

impl ExitPlanModeTool {
    /// A tool for a plan file.
    pub fn new(plan_file_path: String) -> (r: ExitPlanModeTool)
        ensures
            r.plan_file_path@ == plan_file_path@,
    {
        ExitPlanModeTool { plan_file_path }
    }

    /// The name of the tool.
    pub fn name(&self) -> (r: &'static str)
        ensures
            r@ == "exit_plan_mode"@,
    {
        "exit_plan_mode"
    }

    /// What the model reads about the tool.
    pub fn description(&self) -> (r: &'static str)
        ensures
            r@ == DESCRIPTION@,
    {
        DESCRIPTION
    }

    /// What the tool is to the model.
    pub fn to_def(&self) -> (r: ToolDef)
        ensures
            r.name@ == "exit_plan_mode"@,
            r.description@ == DESCRIPTION@,
            r.parameters@.len() == 0,
    {
        let parameters: Vec<Param> = Vec::new();
        ToolDef { name: "exit_plan_mode", description: DESCRIPTION, parameters }
    }

    /// Whether the plan may be presented: in plan mode only.
    pub fn begin(&self, state: PlanModeState, args: Result<ExitPlanModeArgs, String>) -> (r: Result<
        (),
        ToolError,
    >)
        ensures
            match args {
                Err(e) => r matches Err(f) && f@ == tools::undecoded(e@),
                Ok(_) => if state.active {
                    r is Ok
                } else {
                    r matches Err(f) && f@ == ErrorView::Execution(
                        "Not in plan mode. Use enter_plan_mode or /plan first to enter plan mode."@,
                    )
                },
            },
    {
        match args {
            Err(e) => Err(reject_args(e.as_str())),
            Ok(_) => {
                if state.active {
                    Ok(())
                } else {
                    Err(
                        ToolError::Execution(
                            "Not in plan mode. Use enter_plan_mode or /plan first to enter plan mode.".to_owned(),
                        ),
                    )
                }
            },
        }
    }

    /// The question to the user about a plan.
    pub fn request(&self, request_id: &str, plan: &str) -> (r: InterventionRequest)
        ensures
            r.request_id@ == request_id@,
            r.title@ == "Approve Plan?"@,
            r.description@ == question(self.plan_file_path@, plan@),
            text::texts(r.options@) == seq!["Approve"@, "Suggest changes…"@, "Cancel"@],
    {
        let shown = if has_no_plan(plan) {
            "(Plan file is empty — no plan was written.)"
        } else {
            plan
        };
        let description = text::cat5(
            "The agent has completed its plan and requests approval to proceed.

─── Plan File: ",
            self.plan_file_path.as_str(),
            " ───

",
            shown,
            "

─── End of Plan ───",
        );
        let mut options: Vec<String> = Vec::new();
        text::push_text(&mut options, "Approve".to_owned());
        text::push_text(&mut options, "Suggest changes…".to_owned());
        text::push_text(&mut options, "Cancel".to_owned());
        assert(text::texts(options@) =~= seq!["Approve"@, "Suggest changes…"@, "Cancel"@]);
        InterventionRequest {
            request_id: request_id.to_owned(),
            title: "Approve Plan?".to_owned(),
            description,
            options,
        }
    }

    /// Acts on the user's answer about the plan.
    pub fn finish(
        &self,
        state: &mut PlanModeState,
        blank: bool,
        reply: Result<InterventionResponse, NoAnswer>,
    ) -> (r: Result<String, ToolError>)
        ensures
            (*final(state), tools::answer_view(r)) == on_reply(
                self.plan_file_path@,
                *old(state),
                blank,
                reply_view(reply),
            ),
    {
        let answer = match reply {
            Err(NoAnswer::Timeout) => {
                return fail(
                    "Timed out waiting for plan approval (5 minutes). Staying in plan mode.",
                );
            },
            Err(NoAnswer::Disconnected) => {
                return fail(
                    "Intervention channel disconnected (TUI may have exited). Staying in plan mode.",
                );
            },
            Ok(a) => a,
        };
        match answer.chosen {
            None => fail(
                "Plan review was cancelled. Staying in plan mode. You can revise the plan and call exit_plan_mode again, or the user can use /approve to exit plan mode manually.",
            ),
            Some(i) => {
                if i == 0 {
                    *state = PlanModeState { active: false };
                    if blank {
                        Ok(
                            "Plan approved! Plan mode deactivated. Full access restored. (Note: the plan file was empty.)".to_owned(),
                        )
                    } else {
                        Ok(
                            "Plan approved! Plan mode deactivated. Full access restored. You can now execute the plan.".to_owned(),
                        )
                    }
                } else if i == 1 {
                    let feedback = match answer.custom_text {
                        Some(s) => s,
                        None => "(No specific feedback provided.)".to_owned(),
                    };
                    Ok(
                        text::cat5(
                            "The user reviewed your plan and provided suggestions. You are still in plan mode.

─── User Feedback ───

",
                            feedback.as_str(),
                            "

─── Instructions ──

1. Read the feedback carefully — it tells you what to change or improve.
2. Update the plan file (",
                            self.plan_file_path.as_str(),
                            ") to address each point.
3. Use read/grep/glob as needed to research anything new.
4. When the plan is updated, call exit_plan_mode again to present it.",
                        ),
                    )
                } else if i == 2 {
                    fail(
                        "Plan was not approved. Staying in plan mode. You can revise the plan and call exit_plan_mode again, or the user can use /approve to exit plan mode manually.",
                    )
                } else {
                    Err(
                        ToolError::Execution(
                            text::cat3(
                                "Unexpected response option ",
                                text::decimal_of(i as u64).as_str(),
                                ". Staying in plan mode.",
                            ),
                        ),
                    )
                }
            },
        }
    }
}

/// Plan mode ends with an approval, and with nothing else: where the user
/// cancels, wants changes or does not answer, it stays on.
pub proof fn law_only_approval_ends_plan_mode(
    plan_file: Seq<char>,
    state: PlanModeState,
    blank: bool,
    reply: Result<ResponseView, NoAnswer>,
)
    requires
        state.active,
    ensures
        !on_reply(plan_file, state, blank, reply).0.active <==> (reply matches Ok(r) && r.chosen
            == Some(0usize)),
{
}

} // verus!
