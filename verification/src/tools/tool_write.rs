//! Writes a file, and reports once.

use vstd::prelude::*;
use crate::text;
use crate::tools::write::{amount_of, map_fs_err, WriteArgs};
use crate::tools::{
    self, reject_args, ErrorView, FsError, Param, ParamType, ToolDef, ToolError,
};

verus! {

/// What the model reads about the tool.
pub const DESCRIPTION: &'static str = "Write content to a file in the workspace. Creates the file if it does not exist; silently overwrites if it does. Parent directories are created automatically.\n\nIMPORTANT: Read the file first before overwriting, so you understand the current state and don't accidentally destroy work.\n\nWhen to use: creating a new file, replacing an entire file's contents, writing a file that does not yet exist.\n\nWhen NOT to use: modifying part of a file (use edit), appending (use shell with >>), checking if a file exists (use ls or glob).\n\nReturn format: 'Wrote {N} bytes to {file_path}'.";

/// The tool.
#[derive(Clone, Copy, Debug, PartialEq, Eq, Structural)]
pub struct WriteTool;

/// What the tool answers.
pub open spec fn answer(args: Result<WriteArgs, String>, outcome: Result<(), FsError>) -> Result<
    Seq<char>,
    ErrorView,
> {
    match args {
        Ok(a) => match outcome {
            Ok(_) => Ok("Wrote "@ + tools::write::amount(a)),
            Err(e) => Err(tools::fs_failure(tools::write::blames_args(e.kind), e.message@)),
        },
        Err(e) => Err(tools::undecoded(e@)),
    }
}

impl WriteTool {
    /// The tool.
    pub fn new() -> (r: WriteTool)
        ensures
            r == WriteTool,
    {
        WriteTool
    }

    /// The name of the tool.
    pub fn name(&self) -> (r: &'static str)
        ensures
            r@ == "write"@,
    {
        "write"
    }

    /// What the model reads about the tool.
    pub fn description(&self) -> (r: &'static str)
        ensures
            r@ == DESCRIPTION@,
    {
        DESCRIPTION
    }

    /// What the tool is to the model.
    pub fn to_def(&self) -> (r: ToolDef)
        ensures
            r.name@ == "write"@,
            r.description@ == DESCRIPTION@,
            r.parameters@.len() == 2,
            r.parameters@[0].name@ == "file_path"@,
            r.parameters@[0].kind == ParamType::Text,
            r.parameters@[0].required,
            r.parameters@[0].description@
                == "Path to write to, relative to workspace root. Parent directories are created automatically. Always use forward slashes."@,
            r.parameters@[1].name@ == "content"@,
            r.parameters@[1].kind == ParamType::Text,
            r.parameters@[1].required,
            r.parameters@[1].description@
                == "The full content to write. Multi-line text is supported via \\n newlines. CAUTION: existing content at this path is silently overwritten — read the file first."@,
    {
        let mut parameters: Vec<Param> = Vec::new();
        parameters.push(
            Param {
                name: "file_path",
                kind: ParamType::Text,
                required: true,
                description: "Path to write to, relative to workspace root. Parent directories are created automatically. Always use forward slashes.",
            },
        );
        parameters.push(
            Param {
                name: "content",
                kind: ParamType::Text,
                required: true,
                description: "The full content to write. Multi-line text is supported via \\n newlines. CAUTION: existing content at this path is silently overwritten — read the file first.",
            },
        );
        ToolDef { name: "write", description: DESCRIPTION, parameters }
    }

    /// Reports on a call.
    pub fn execute_stream(
        &self,
        args: Result<WriteArgs, String>,
        outcome: Result<(), FsError>,
    ) -> (r: Result<String, ToolError>)
        ensures
            tools::answer_view(r) == answer(args, outcome),
    {
        match args {
            Ok(a) => match outcome {
                Ok(_) => Ok(text::cat2("Wrote ", amount_of(&a).as_str())),
                Err(e) => Err(map_fs_err(&e)),
            },
            Err(e) => Err(reject_args(e.as_str())),
        }
    }
}

} // verus!
