//! A tool that returns its input as it is, for tests of the tool loop.

use vstd::prelude::*;
use crate::tools::{self, reject_args, ErrorView, Param, ParamType, ToolDef, ToolError};

verus! {

/// What the model reads about the tool.
pub const DESCRIPTION: &'static str = "Echo the input text back unchanged. This is a no-op tool that exists solely for testing and debugging the agent's tool-dispatch loop.\n\nIMPORTANT: This tool has no practical use for real work. Do NOT call it in normal conversation — it does nothing useful.\n\nWhen to use: ONLY for verifying that the tool-call pipeline works correctly during development or debugging.\n\nWhen NOT to use: any actual task or user request.";

/// The arguments of the tool.
#[derive(Clone, Debug)]
pub struct EchoArgs {
    pub text: String,
}

/// The tool.
#[derive(Clone, Copy, Debug, PartialEq, Eq, Structural)]
pub struct EchoTool;

/// What the tool answers: the text, or that there was none.
pub open spec fn answer(args: Result<EchoArgs, String>) -> Result<Seq<char>, ErrorView> {
    match args {
        Ok(a) => Ok(a.text@),
        Err(e) => Err(tools::undecoded(e@)),
    }
}

impl EchoTool {
    /// The name of the tool.
    pub fn name(&self) -> (r: &'static str)
        ensures
            r@ == "echo"@,
    {
        "echo"
    }

    /// What the model reads about the tool.
    pub fn description(&self) -> (r: &'static str)
        ensures
            r@ == DESCRIPTION@,
    {
        DESCRIPTION
    }

    /// What the tool is to the model.
    pub fn to_def(&self) -> (r: ToolDef)
        ensures
            r.name@ == "echo"@,
            r.description@ == DESCRIPTION@,
            r.parameters@.len() == 1,
            r.parameters@[0].name@ == "text"@,
            r.parameters@[0].kind == ParamType::Text,
            r.parameters@[0].required,
            r.parameters@[0].description@
                == "The text to echo back verbatim. Only useful for testing the tool-call pipeline."@,
    {
        let mut parameters: Vec<Param> = Vec::new();
        parameters.push(
            Param {
                name: "text",
                kind: ParamType::Text,
                required: true,
                description:
                    "The text to echo back verbatim. Only useful for testing the tool-call pipeline.",
            },
        );
        ToolDef { name: "echo", description: DESCRIPTION, parameters }
    }

    /// Returns the text. Arguments that could not be decoded come with the
    /// reason why.
    pub fn execute_stream(&self, args: Result<EchoArgs, String>) -> (r: Result<String, ToolError>)
        ensures
            tools::answer_view(r) == answer(args),
    {
        match args {
            Ok(a) => Ok(a.text),
            Err(e) => Err(reject_args(e.as_str())),
        }
    }
}

} // verus!
