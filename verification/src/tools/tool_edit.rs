//! Replaces a range of lines of a file.

use vstd::prelude::*;
use crate::tools::{
    self, fail_fs, reject_args, ErrorView, FsError, FsErrorKind, Param, ParamType, ToolDef,
    ToolError,
};

verus! {

/// What the model reads about the tool.
pub const DESCRIPTION: &'static str = "Replace a specific range of lines in a file by line number. start_line and end_line are 1-indexed and inclusive (e.g. start=3, end=5 replaces lines 3, 4, and 5). Pass empty new_content to delete the range.\n\nIMPORTANT: Always read the file first to get accurate line numbers. The line numbers you provide MUST match the file's current state — stale line numbers from memory or a prior read will corrupt the file.\n\nWhen to use: modifying a few lines of an existing file, deleting lines, inserting lines at a specific position.\n\nWhen NOT to use: creating a new file (use write), replacing the entire file (use write — simpler and less error-prone).\n\nReturn format: 'Edited {file_path}: replaced lines {start}-{end} with {N} new lines'.";

/// The arguments of the tool. Lines are counted from one, and both ends are
/// replaced.
#[derive(Clone, Debug)]
pub struct EditArgs {
    pub file_path: String,
    pub start_line: u64,
    pub end_line: u64,
    pub new_content: String,
}

/// The tool.
#[derive(Clone, Copy, Debug, PartialEq, Eq, Structural)]
pub struct EditTool;

/// Whether the arguments are at fault where an edit failed.
pub open spec fn blames_args(kind: FsErrorKind) -> bool {
    kind == FsErrorKind::NotAFile || kind == FsErrorKind::WorkspaceEscape
}

/// What the tool answers: what the edit answered, or why it failed.
pub open spec fn answer(args: Result<EditArgs, String>, outcome: Result<String, FsError>) -> Result<
    Seq<char>,
    ErrorView,
> {
    match args {
        Ok(_) => match outcome {
            Ok(s) => Ok(s@),
            Err(e) => Err(tools::fs_failure(blames_args(e.kind), e.message@)),
        },
        Err(e) => Err(tools::undecoded(e@)),
    }
}

impl EditTool {
    /// The tool.
    pub fn new() -> (r: EditTool)
        ensures
            r == EditTool,
    {
        EditTool
    }

    /// The name of the tool.
    pub fn name(&self) -> (r: &'static str)
        ensures
            r@ == "edit"@,
    {
        "edit"
    }

    /// What the model reads about the tool.
    pub fn description(&self) -> (r: &'static str)
        ensures
            r@ == DESCRIPTION@,
    {
        DESCRIPTION
    }

    /// What the tool is to the model.
    pub fn to_def(&self) -> (r: ToolDef)
        ensures
            r.name@ == "edit"@,
            r.description@ == DESCRIPTION@,
            r.parameters@.len() == 4,
            r.parameters@[0].name@ == "file_path"@,
            r.parameters@[0].kind == ParamType::Text,
            r.parameters@[0].required,
            r.parameters@[0].description@
                == "Path to the file to edit, relative to workspace root. Must be an existing file. Always use forward slashes."@,
            r.parameters@[1].name@ == "start_line"@,
            r.parameters@[1].kind == ParamType::Integer,
            r.parameters@[1].required,
            r.parameters@[1].description@
                == "First line to replace (1-indexed, inclusive). MUST match the file's current state — always read the file first to get accurate line numbers."@,
            r.parameters@[2].name@ == "end_line"@,
            r.parameters@[2].kind == ParamType::Integer,
            r.parameters@[2].required,
            r.parameters@[2].description@
                == "Last line to replace (1-indexed, inclusive). Must be >= start_line. Same line number as start_line to replace a single line."@,
            r.parameters@[3].name@ == "new_content"@,
            r.parameters@[3].kind == ParamType::Text,
            r.parameters@[3].required,
            r.parameters@[3].description@
                == "Replacement text to insert in place of the selected lines. Pass empty string to delete the line range. Use \\n for multiple lines."@,
    {
        let mut parameters: Vec<Param> = Vec::new();
        parameters.push(
            Param {
                name: "file_path",
                kind: ParamType::Text,
                required: true,
                description: "Path to the file to edit, relative to workspace root. Must be an existing file. Always use forward slashes.",
            },
        );
        parameters.push(
            Param {
                name: "start_line",
                kind: ParamType::Integer,
                required: true,
                description: "First line to replace (1-indexed, inclusive). MUST match the file's current state — always read the file first to get accurate line numbers.",
            },
        );
        parameters.push(
            Param {
                name: "end_line",
                kind: ParamType::Integer,
                required: true,
                description: "Last line to replace (1-indexed, inclusive). Must be >= start_line. Same line number as start_line to replace a single line.",
            },
        );
        parameters.push(
            Param {
                name: "new_content",
                kind: ParamType::Text,
                required: true,
                description: "Replacement text to insert in place of the selected lines. Pass empty string to delete the line range. Use \\n for multiple lines.",
            },
        );
        ToolDef { name: "edit", description: DESCRIPTION, parameters }
    }

    /// Reports on a call.
    pub fn execute(
        &self,
        args: Result<EditArgs, String>,
        outcome: Result<String, FsError>,
    ) -> (r: Result<String, ToolError>)
        ensures
            tools::answer_view(r) == answer(args, outcome),
    {
        match args {
            Ok(_) => match outcome {
                Ok(s) => Ok(s),
                Err(e) => {
                    let at_fault = e.kind == FsErrorKind::NotAFile || e.kind
                        == FsErrorKind::WorkspaceEscape;
                    Err(fail_fs(at_fault, &e))
                },
            },
            Err(e) => Err(reject_args(e.as_str())),
        }
    }
}

} // verus!
