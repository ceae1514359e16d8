//! Lets the model ask the user a question.

use vstd::prelude::*;
use crate::text;
use crate::tools::exit_plan_mode::{self, NoAnswer};
use crate::tools::{self, reject_args, ErrorView, Param, ParamType, ToolDef, ToolError};
use crate::tui::agent_event::InterventionRequest;
use crate::tui::messages::{InterventionResponse, ResponseView};

verus! {

/// What the model reads about the tool.
pub const DESCRIPTION: &'static str = "Ask the user a question and wait for their response. Use this when you need the user to make a choice, provide input, or answer a question that only they can answer.\n\nYou can provide predefined options for the user to choose from, or leave options empty for a free-form text response.\n\nWhen to use:\n- Asking for user preferences or design decisions\n- Requesting clarification on ambiguous requirements\n- Confirming potentially destructive actions\n- Gathering information only the user knows\n\nWhen NOT to use:\n- Asking questions you can answer from the codebase or tools\n- Asking rhetorical questions\n- Asking for information that doesn't affect your next action";

/// The arguments of the tool.
#[derive(Clone, Debug)]
pub struct AskUserQuestionArgs {
    pub question: String,
    pub description: Option<String>,
    /// The choices; without any the user writes an answer.
    pub options: Option<Vec<String>>,
}

/// The tool.
#[derive(Clone, Copy, Debug, PartialEq, Eq, Structural)]
pub struct AskUserQuestionTool;

/// The choices that the user gets: those of the call, or one to write an
/// answer.
pub open spec fn choices(options: Option<Vec<String>>) -> Seq<Seq<char>> {
    match options {
        Some(v) => if v@.len() > 0 {
            text::texts(v@)
        } else {
            seq!["Answer…"@]
        },
        None => seq!["Answer…"@],
    }
}

/// What the model is answered.
pub open spec fn answer(options: Seq<Seq<char>>, reply: Result<ResponseView, NoAnswer>) -> Result<
    Seq<char>,
    ErrorView,
> {
    match reply {
        Err(NoAnswer::Timeout) => Err(
            ErrorView::Execution("Timed out waiting for user response (5 minutes)"@),
        ),
        Err(NoAnswer::Disconnected) => Err(
            ErrorView::Execution("Intervention channel disconnected (TUI may have exited)"@),
        ),
        Ok(r) => match (r.chosen, r.custom_text) {
            (None, _) => Err(ErrorView::Execution("User cancelled the question"@)),
            (Some(_), Some(custom)) => Ok(custom),
            (Some(i), None) => Ok(
                if i < options.len() {
                    options[i as int]
                } else {
                    "Option "@ + text::decimal(i as nat)
                },
            ),
        },
    }
}

/// The choices that the user gets.
pub fn choices_of(options: &Option<Vec<String>>) -> (r: Vec<String>)
    ensures
        text::texts(r@) == choices(*options),
{
    match options {
        Some(v) => {
            if v.len() > 0 {
                return text::clone_texts(v);
            }
        },
        None => {},
    }
    let mut r: Vec<String> = Vec::new();
    text::push_text(&mut r, "Answer…".to_owned());
    assert(text::texts(r@) =~= seq!["Answer…"@]);
    r
}

impl AskUserQuestionTool {
    /// The tool.
    pub fn new() -> (r: AskUserQuestionTool)
        ensures
            r == AskUserQuestionTool,
    {
        AskUserQuestionTool
    }

    /// The name of the tool.
    pub fn name(&self) -> (r: &'static str)
        ensures
            r@ == "ask_user_question"@,
    {
        "ask_user_question"
    }

    /// What the model reads about the tool.
    pub fn description(&self) -> (r: &'static str)
        ensures
            r@ == DESCRIPTION@,
    {
        DESCRIPTION
    }

    /// What the tool is to the model.
    pub fn to_def(&self) -> (r: ToolDef)
        ensures
            r.name@ == "ask_user_question"@,
            r.description@ == DESCRIPTION@,
            r.parameters@.len() == 3,
            r.parameters@[0].name@ == "question"@,
            r.parameters@[0].kind == ParamType::Text,
            r.parameters@[0].required,
            r.parameters@[0].description@
                == "The question or prompt to show the user. Be clear and specific about what you need them to answer."@,
            r.parameters@[1].name@ == "description"@,
            r.parameters@[1].kind == ParamType::Text,
            !r.parameters@[1].required,
            r.parameters@[1].description@
                == "Optional additional context, explanation, or background for the question."@,
            r.parameters@[2].name@ == "options"@,
            r.parameters@[2].kind == ParamType::List,
            !r.parameters@[2].required,
            r.parameters@[2].description@
                == "Predefined choices for the user to pick from. If omitted, the user types a free-form response. End an option with \"…\" to allow custom text input."@,
    {
        let mut parameters: Vec<Param> = Vec::new();
        parameters.push(
            Param {
                name: "question",
                kind: ParamType::Text,
                required: true,
                description: "The question or prompt to show the user. Be clear and specific about what you need them to answer.",
            },
        );
        parameters.push(
            Param {
                name: "description",
                kind: ParamType::Text,
                required: false,
                description: "Optional additional context, explanation, or background for the question.",
            },
        );
        parameters.push(
            Param {
                name: "options",
                kind: ParamType::List,
                required: false,
                description: "Predefined choices for the user to pick from. If omitted, the user types a free-form response. End an option with \"…\" to allow custom text input.",
            },
        );
        ToolDef { name: "ask_user_question", description: DESCRIPTION, parameters }
    }

    /// The question to the user, where there is a way to ask.
    pub fn request(
        &self,
        request_id: &str,
        args: &Result<AskUserQuestionArgs, String>,
        connected: bool,
    ) -> (r: Result<InterventionRequest, ToolError>)
        ensures
            match *args {
                Err(e) => r matches Err(f) && f@ == tools::undecoded(e@),
                Ok(a) => if connected {
                    r matches Ok(q) && q.request_id@ == request_id@ && q.title@ == a.question@
                        && q.description@ == (match a.description {
                        Some(d) => d@,
                        None => Seq::<char>::empty(),
                    }) && text::texts(q.options@) == choices(a.options)
                } else {
                    r matches Err(f) && f@ == ErrorView::Execution(
                        "Agent event channel not configured"@,
                    )
                },
            },
    {
        match args {
            Err(e) => Err(reject_args(e.as_str())),
            Ok(a) => {
                if !connected {
                    return Err(
                        ToolError::Execution("Agent event channel not configured".to_owned()),
                    );
                }
                let description = match &a.description {
                    Some(d) => d.clone(),
                    None => String::new(),
                };
                Ok(
                    InterventionRequest {
                        request_id: request_id.to_owned(),
                        title: a.question.clone(),
                        description,
                        options: choices_of(&a.options),
                    },
                )
            },
        }
    }

    /// What the model is answered, once the user has answered or not.
    pub fn finish(
        &self,
        options: &Vec<String>,
        reply: Result<InterventionResponse, NoAnswer>,
    ) -> (r: Result<String, ToolError>)
        ensures
            tools::answer_view(r) == answer(
                text::texts(options@),
                exit_plan_mode::reply_view(reply),
            ),
    {
        assert(text::texts(options@).len() == options@.len());
        let a = match reply {
            Err(NoAnswer::Timeout) => {
                return Err(
                    ToolError::Execution(
                        "Timed out waiting for user response (5 minutes)".to_owned(),
                    ),
                );
            },
            Err(NoAnswer::Disconnected) => {
                return Err(
                    ToolError::Execution(
                        "Intervention channel disconnected (TUI may have exited)".to_owned(),
                    ),
                );
            },
            Ok(a) => a,
        };
        match a.chosen {
            None => Err(ToolError::Execution("User cancelled the question".to_owned())),
            Some(i) => match a.custom_text {
                Some(custom) => Ok(custom),
                None => {
                    if i < options.len() {
                        assert(text::texts(options@)[i as int] == options@[i as int]@);
                        Ok(options[i].clone())
                    } else {
                        Ok(text::cat2("Option ", text::decimal_of(i as u64).as_str()))
                    }
                },
            },
        }
    }
}

/// The user always has a choice, and a choice is answered with its label.
pub proof fn law_choices_answer_with_their_label(options: Option<Vec<String>>, i: usize)
    requires
        i < choices(options).len(),
    ensures
        choices(options).len() > 0,
        answer(
            choices(options),
            Ok(ResponseView { chosen: Some(i), custom_text: None }),
        ) == Ok::<Seq<char>, ErrorView>(choices(options)[i as int]),
{
}

} // verus!
